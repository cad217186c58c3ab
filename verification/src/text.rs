//! Text helpers: decimal numerals, and the pieces of strings that the
//! organiser reads (tokens of a list, the extension of a file name).

use vstd::prelude::*;

verus! {

/// The views of a list of strings, in order.
pub open spec fn texts(v: Seq<String>) -> Seq<Seq<char>> {
    v.map_values(|s: String| s@)
}

/// Whether two strings hold the same text.
pub fn same_text(a: &str, b: &str) -> (r: bool)
    ensures
        r == (a@ == b@),
{
    a.to_owned() == b.to_owned()
}

/// The character of a decimal digit.
pub open spec fn digit_char(d: nat) -> char
    recommends
        d < 10,
{
    if d == 0 {
        '0'
    } else if d == 1 {
        '1'
    } else if d == 2 {
        '2'
    } else if d == 3 {
        '3'
    } else if d == 4 {
        '4'
    } else if d == 5 {
        '5'
    } else if d == 6 {
        '6'
    } else if d == 7 {
        '7'
    } else if d == 8 {
        '8'
    } else {
        '9'
    }
}

/// The decimal numeral of a natural number, without leading zeros.
pub open spec fn decimal(n: nat) -> Seq<char>
    decreases n,
{
    if n < 10 {
        seq![digit_char(n)]
    } else {
        decimal(n / 10).push(digit_char(n % 10))
    }
}

/// The decimal numeral of an integer: a minus sign before the numeral of
/// the magnitude where the integer is negative.
pub open spec fn signed_decimal(n: int) -> Seq<char> {
    if n < 0 {
        seq!['-'] + decimal((-n) as nat)
    } else {
        decimal(n as nat)
    }
}

/// The one-character string of a decimal digit.
fn digit_text(d: u64) -> (r: &'static str)
    requires
        d < 10,
    ensures
        r@ == seq![digit_char(d as nat)],
{
    proof {
        reveal_strlit("0");
        reveal_strlit("1");
        reveal_strlit("2");
        reveal_strlit("3");
        reveal_strlit("4");
        reveal_strlit("5");
        reveal_strlit("6");
        reveal_strlit("7");
        reveal_strlit("8");
        reveal_strlit("9");
    }
    let r = if d == 0 {
        "0"
    } else if d == 1 {
        "1"
    } else if d == 2 {
        "2"
    } else if d == 3 {
        "3"
    } else if d == 4 {
        "4"
    } else if d == 5 {
        "5"
    } else if d == 6 {
        "6"
    } else if d == 7 {
        "7"
    } else if d == 8 {
        "8"
    } else {
        "9"
    };
    assert(r@ =~= seq![digit_char(d as nat)]);
    r
}

/// Writes a number in decimal.
pub fn decimal_string(n: u64) -> (r: String)
    ensures
        r@ == decimal(n as nat),
    decreases n,
{
    if n < 10 {
        digit_text(n).to_owned()
    } else {
        let mut s = decimal_string(n / 10);
        s.append(digit_text(n % 10));
        s
    }
}

/// Writes a signed number in decimal.
pub fn signed_decimal_string(n: i32) -> (r: String)
    ensures
        r@ == signed_decimal(n as int),
{
    if n < 0 {
        let magnitude: u64 = (-(n as i64)) as u64;
        let mut s = "-".to_owned();
        proof {
            reveal_strlit("-");
        }
        let digits = decimal_string(magnitude);
        s.append(digits.as_str());
        assert(s@ =~= seq!['-'] + decimal((-n) as nat));
        s
    } else {
        decimal_string(n as u64)
    }
}

/// The index of the last occurrence of `c` in `s`, or -1 where there is none.
pub open spec fn last_index_of(s: Seq<char>, c: char) -> int
    decreases s.len(),
{
    if s.len() == 0 {
        -1
    } else if s.last() == c {
        s.len() - 1
    } else {
        last_index_of(s.drop_last(), c)
    }
}

/// `last_index_of` gives an index at which `c` stands and behind which it
/// stands no more, or -1 where `c` does not occur at all.
pub proof fn lemma_last_index_of(s: Seq<char>, c: char)
    ensures
        -1 <= last_index_of(s, c) < s.len(),
        last_index_of(s, c) >= 0 ==> s[last_index_of(s, c)] == c,
        forall|j: int| last_index_of(s, c) < j < s.len() ==> s[j] != c,
    decreases s.len(),
{
    if s.len() > 0 && s.last() != c {
        let front = s.drop_last();
        lemma_last_index_of(front, c);
        assert forall|j: int| last_index_of(s, c) < j < s.len() implies s[j] != c by {
            if j < front.len() {
                assert(front[j] == s[j]);
            }
        }
    }
}

/// Where `c` stands at `k` and nowhere behind it, `k` is its last index.
proof fn lemma_last_index_is(s: Seq<char>, c: char, k: int)
    requires
        0 <= k < s.len() ==> s[k] == c,
        -1 <= k < s.len(),
        forall|j: int| k < j < s.len() ==> s[j] != c,
    ensures
        last_index_of(s, c) == k,
    decreases s.len(),
{
    if s.len() > 0 && s.last() != c {
        lemma_last_index_is(s.drop_last(), c, k);
    }
}

/// The extension of a file's base name: what follows its last dot.  A
/// name without a dot has none, nor has one whose only dot is its first
/// character, nor has the name `..`.
pub open spec fn extension_of(name: Seq<char>) -> Option<Seq<char>> {
    let dot = last_index_of(name, '.');
    if dot <= 0 || name == seq!['.', '.'] {
        None
    } else {
        Some(name.subrange(dot + 1, name.len() as int))
    }
}

/// The index of the last occurrence of `c` in `s`, if there is one.
fn find_last(s: &str, c: char) -> (r: Option<usize>)
    ensures
        match r {
            Some(k) => k == last_index_of(s@, c),
            None => last_index_of(s@, c) == -1,
        },
{
    let len = s.unicode_len();
    let mut i: usize = len;
    while i > 0
        invariant
            i <= len,
            len == s@.len(),
            forall|j: int| i <= j < len ==> s@[j] != c,
        decreases i,
    {
        i -= 1;
        if s.get_char(i) == c {
            proof {
                lemma_last_index_is(s@, c, i as int);
            }
            return Some(i);
        }
    }
    proof {
        lemma_last_index_is(s@, c, -1);
    }
    None
}

/// The extension of a file's base name, where it has one.
pub fn file_extension(name: &str) -> (r: Option<String>)
    ensures
        r is Some <==> extension_of(name@) is Some,
        r matches Some(e) ==> e@ == extension_of(name@).unwrap(),
{
    let len = name.unicode_len();
    match find_last(name, '.') {
        None => None,
        Some(dot) => {
            proof {
                lemma_last_index_of(name@, '.');
            }
            if dot == 0 {
                None
            } else if len == 2 && name.get_char(0) == '.' {
                assert(name@ =~= seq!['.', '.']);
                None
            } else {
                assert(name@ != seq!['.', '.']) by {
                    if name@ == seq!['.', '.'] {
                        assert(name@.len() == 2);
                        assert(name@[0] == '.');
                    }
                }
                Some(name.substring_char(dot + 1, len).to_owned())
            }
        },
    }
}

/// Whether a character is white space: one of the code points to which
/// Unicode gives the property `White_Space`.
pub open spec fn is_space(c: char) -> bool {
    let u = c as u32;
    ||| 0x09 <= u <= 0x0D
    ||| u == 0x20
    ||| u == 0x85
    ||| u == 0xA0
    ||| u == 0x1680
    ||| 0x2000 <= u <= 0x200A
    ||| u == 0x2028
    ||| u == 0x2029
    ||| u == 0x202F
    ||| u == 0x205F
    ||| u == 0x3000
}

fn is_space_char(c: char) -> (r: bool)
    ensures
        r == is_space(c),
{
    let u: u32 = c as u32;
    (0x09 <= u && u <= 0x0D) || u == 0x20 || u == 0x85 || u == 0xA0 || u == 0x1680 || (0x2000
        <= u && u <= 0x200A) || u == 0x2028 || u == 0x2029 || u == 0x202F || u == 0x205F || u
        == 0x3000
}

/// `s` without the white space at its start.
pub open spec fn trim_start(s: Seq<char>) -> Seq<char>
    decreases s.len(),
{
    if s.len() > 0 && is_space(s.first()) {
        trim_start(s.drop_first())
    } else {
        s
    }
}

/// `s` without the white space at its end.
pub open spec fn trim_end(s: Seq<char>) -> Seq<char>
    decreases s.len(),
{
    if s.len() > 0 && is_space(s.last()) {
        trim_end(s.drop_last())
    } else {
        s
    }
}

/// `s` without the white space at either end.
pub open spec fn trim(s: Seq<char>) -> Seq<char> {
    trim_end(trim_start(s))
}

/// A copy of `s` without the white space at either end.
pub fn trimmed(s: &str) -> (r: String)
    ensures
        r@ == trim(s@),
{
    let len = s.unicode_len();
    let mut from: usize = 0;
    assert(s@.subrange(0, len as int) =~= s@);
    while from < len && is_space_char(s.get_char(from))
        invariant
            from <= len,
            len == s@.len(),
            trim_start(s@) == trim_start(s@.subrange(from as int, len as int)),
        decreases len - from,
    {
        assert(s@.subrange(from as int, len as int).drop_first() =~= s@.subrange(
            from + 1,
            len as int,
        ));
        from += 1;
    }
    assert(trim_start(s@) == s@.subrange(from as int, len as int));
    let ghost rest = s@.subrange(from as int, len as int);
    let mut to: usize = len;
    while to > from && is_space_char(s.get_char(to - 1))
        invariant
            from <= to <= len,
            len == s@.len(),
            rest == s@.subrange(from as int, len as int),
            trim_end(rest) == trim_end(s@.subrange(from as int, to as int)),
        decreases to,
    {
        assert(s@.subrange(from as int, to as int).drop_last() =~= s@.subrange(
            from as int,
            to - 1,
        ));
        to -= 1;
    }
    assert(trim_end(rest) == s@.subrange(from as int, to as int));
    s.substring_char(from, to).to_owned()
}

/// The pieces into which the occurrences of `sep` cut `s`, in order.  A
/// string without `sep` is one piece, and so is the empty string.
pub open spec fn split(s: Seq<char>, sep: char) -> Seq<Seq<char>>
    decreases s.len(),
{
    let k = last_index_of(s, sep);
    if 0 <= k < s.len() {
        split(s.subrange(0, k), sep).push(s.subrange(k + 1, s.len() as int))
    } else {
        seq![s]
    }
}

/// The entries of a comma-separated list, each without the white space
/// around it.
pub open spec fn list_entries(s: Seq<char>) -> Seq<Seq<char>> {
    split(s, ',').map_values(|piece: Seq<char>| trim(piece))
}

/// How the entries of a list follow from those before its last comma.
proof fn lemma_list_entries_step(t: Seq<char>, start: int)
    requires
        0 <= start <= t.len(),
        forall|j: int| start <= j < t.len() ==> t[j] != ',',
        start > 0 ==> t[start - 1] == ',',
    ensures
        list_entries(t) == if start == 0 {
            seq![trim(t)]
        } else {
            list_entries(t.subrange(0, start - 1)).push(trim(t.subrange(start, t.len() as int)))
        },
{
    lemma_last_index_is(t, ',', start - 1);
    if start == 0 {
        assert(list_entries(t) =~= seq![trim(t)]);
    } else {
        assert(list_entries(t) =~= list_entries(t.subrange(0, start - 1)).push(
            trim(t.subrange(start, t.len() as int)),
        ));
    }
}

/// Reads a comma-separated list: its entries, each without the white
/// space around it.
pub fn split_list(s: &str) -> (r: Vec<String>)
    ensures
        texts(r@) == list_entries(s@),
{
    let len = s.unicode_len();
    let mut out: Vec<String> = Vec::new();
    let mut start: usize = 0;
    let mut i: usize = 0;
    while i < len
        invariant
            start <= i <= len,
            len == s@.len(),
            forall|j: int| start <= j < i ==> s@[j] != ',',
            start == 0 ==> out@.len() == 0,
            start > 0 ==> s@[start - 1] == ',' && texts(out@) == list_entries(
                s@.subrange(0, start - 1),
            ),
        decreases len - i,
    {
        if s.get_char(i) == ',' {
            let piece = trimmed(s.substring_char(start, i));
            proof {
                let t = s@.subrange(0, i as int);
                lemma_list_entries_step(t, start as int);
                assert(t.subrange(start as int, t.len() as int) =~= s@.subrange(
                    start as int,
                    i as int,
                ));
                if start > 0 {
                    assert(t.subrange(0, start - 1) =~= s@.subrange(0, start - 1));
                }
                assert(texts(out@.push(piece)) =~= list_entries(t));
            }
            out.push(piece);
            start = i + 1;
        }
        i += 1;
    }
    let piece = trimmed(s.substring_char(start, len));
    proof {
        lemma_list_entries_step(s@, start as int);
        assert(s@.subrange(0, len as int) =~= s@);
        assert(texts(out@.push(piece)) =~= list_entries(s@));
    }
    out.push(piece);
    out
}

/// The text that the standard library's `Debug` formatting writes for a
/// string: the string between double quotes, with the characters that
/// cannot stand there as they are written as escapes.
pub uninterp spec fn debug_text(s: Seq<char>) -> Seq<char>;

/// Writes a string as `Debug` formatting shows it.
///
/// Calls `format!` with `{:?}` on a `&str`, that is `<str as Debug>::fmt`.
/// What is written depends on the characters of the string alone; the
/// contract names it `debug_text` and says nothing else of it.
#[verifier::external_body]
pub(crate) fn debug_string(s: &str) -> (r: String)
    ensures
        r@ == debug_text(s@),
{
    format!("{:?}", s)
}

/// The lower-case form of a string, as Unicode defines it.
pub uninterp spec fn lowercase(s: Seq<char>) -> Seq<char>;

/// Whether every character of a string is an ASCII character.
pub open spec fn is_ascii_text(s: Seq<char>) -> bool {
    forall|i: int| 0 <= i < s.len() ==> (#[trigger] s[i]) as u32 <= 0x7F
}

/// The lower-case form of an ASCII character: the capital letters `A` to
/// `Z` become `a` to `z`, every other character stays as it is.
pub open spec fn ascii_lower(c: char) -> char {
    if 0x41 <= c as u32 <= 0x5A {
        ((c as u32 + 0x20) as u8) as char
    } else {
        c
    }
}

/// A string with each character replaced by its ASCII lower-case form.
pub open spec fn ascii_lowercase(s: Seq<char>) -> Seq<char> {
    s.map_values(|c: char| ascii_lower(c))
}

/// The lower-case form of a string.
///
/// Calls `str::to_lowercase`.  The result follows from the characters of
/// the string by the case mappings of Unicode; the contract names it
/// `lowercase`.  Of a string of ASCII characters it says more: there the
/// mapping turns the capital letters `A` to `Z` into `a` to `z` and
/// leaves every other character as it is.
#[verifier::external_body]
pub(crate) fn lowercased(s: &str) -> (r: String)
    ensures
        r@ == lowercase(s@),
        is_ascii_text(s@) ==> r@ == ascii_lowercase(s@),
{
    s.to_lowercase()
}

} // verus!
