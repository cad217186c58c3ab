//! Media types, the registry of file extensions, and catalogued records.

use crate::text::{signed_decimal, signed_decimal_string, texts};
use chrono::{DateTime, Datelike};
use vstd::prelude::*;

verus! {

/// The category of a media file.
#[derive(Debug, PartialEq, Eq, Structural, Clone, Copy)]
pub enum MediaType {
    Image,
    Video,
}

impl Default for MediaType {
    fn default() -> (r: Self)
        ensures
            r == MediaType::Image,
    {
        MediaType::Image
    }
}

/// The extensions that are images unless the caller adds more.
pub open spec fn default_image_formats() -> Seq<Seq<char>> {
    seq!["jpeg"@, "jpg"@, "gif"@, "png"@, "svg"@, "tiff"@, "tif"@, "webp"@]
}

/// The extensions that are videos unless the caller adds more.
pub open spec fn default_video_formats() -> Seq<Seq<char>> {
    seq![
        "webm"@, "mkv"@, "flv"@, "ogg"@, "ogv"@, "avi"@, "m2v"@, "m4v"@, "mpg"@, "mpeg"@,
        "mp4"@, "asf"@, "rmvb"@, "wmv"@,
    ]
}

/// What a registry knows: the image extensions and the video extensions,
/// each in the order in which they were registered.
pub struct Registry {
    pub image: Seq<Seq<char>>,
    pub video: Seq<Seq<char>>,
}

impl Registry {
    /// The registry of the built-in extensions.
    pub open spec fn builtin() -> Registry {
        Registry { image: default_image_formats(), video: default_video_formats() }
    }

    /// The media type of an extension: the images are looked up first,
    /// then the videos, and an extension matches only itself, so upper
    /// and lower case differ.
    pub open spec fn classify(self, suffix: Seq<char>) -> Option<MediaType> {
        if self.image.contains(suffix) {
            Some(MediaType::Image)
        } else if self.video.contains(suffix) {
            Some(MediaType::Video)
        } else {
            None
        }
    }

    /// The registry with one more image extension.
    pub open spec fn add_image(self, format: Seq<char>) -> Registry {
        Registry { image: self.image.push(format), ..self }
    }

    /// The registry with one more video extension.
    pub open spec fn add_video(self, format: Seq<char>) -> Registry {
        Registry { video: self.video.push(format), ..self }
    }

    /// The registry with more image extensions, in their order.
    pub open spec fn add_images(self, formats: Seq<Seq<char>>) -> Registry {
        Registry { image: self.image + formats, ..self }
    }

    /// The registry with more video extensions, in their order.
    pub open spec fn add_videos(self, formats: Seq<Seq<char>>) -> Registry {
        Registry { video: self.video + formats, ..self }
    }
}

/// Every built-in image extension is an image, every built-in video
/// extension a video, and an extension that is neither is unknown.
pub proof fn lemma_builtin_classification(suffix: Seq<char>)
    ensures
        default_image_formats().contains(suffix) ==> Registry::builtin().classify(suffix) == Some(
            MediaType::Image,
        ),
        default_video_formats().contains(suffix) ==> Registry::builtin().classify(suffix) == Some(
            MediaType::Video,
        ),
        !default_image_formats().contains(suffix) && !default_video_formats().contains(suffix)
            ==> Registry::builtin().classify(suffix) is None,
{
    if default_video_formats().contains(suffix) {
        lemma_builtin_lists_are_disjoint(suffix);
    }
}

/// What every built-in image extension looks like.
spec fn image_like(s: Seq<char>) -> bool {
    s.len() >= 3 && (s[0] == 'j' || s[0] == 'g' || s[0] == 'p' || s[0] == 's' || s[0] == 't' || (s[0]
        == 'w' && s.len() == 4 && s[3] == 'p'))
}

/// What every built-in video extension looks like.
spec fn video_like(s: Seq<char>) -> bool {
    s.len() >= 3 && (s[0] == 'm' || s[0] == 'f' || s[0] == 'o' || s[0] == 'a' || s[0] == 'r' || (s[0]
        == 'w' && (s.len() == 3 || s[3] == 'm')))
}

/// No extension is built in as an image and as a video.
pub proof fn lemma_builtin_lists_are_disjoint(suffix: Seq<char>)
    ensures
        !(default_image_formats().contains(suffix) && default_video_formats().contains(suffix)),
{
    reveal_strlit("jpeg");
    reveal_strlit("jpg");
    reveal_strlit("gif");
    reveal_strlit("png");
    reveal_strlit("svg");
    reveal_strlit("tiff");
    reveal_strlit("tif");
    reveal_strlit("webp");
    reveal_strlit("webm");
    reveal_strlit("mkv");
    reveal_strlit("flv");
    reveal_strlit("ogg");
    reveal_strlit("ogv");
    reveal_strlit("avi");
    reveal_strlit("m2v");
    reveal_strlit("m4v");
    reveal_strlit("mpg");
    reveal_strlit("mpeg");
    reveal_strlit("mp4");
    reveal_strlit("asf");
    reveal_strlit("rmvb");
    reveal_strlit("wmv");
    let images = default_image_formats();
    let videos = default_video_formats();
    assert(image_like("jpeg"@) && image_like("jpg"@) && image_like("gif"@) && image_like("png"@));
    assert(image_like("svg"@) && image_like("tiff"@) && image_like("tif"@) && image_like("webp"@));
    assert(video_like("webm"@) && video_like("mkv"@) && video_like("flv"@) && video_like("ogg"@));
    assert(video_like("ogv"@) && video_like("avi"@) && video_like("m2v"@) && video_like("m4v"@));
    assert(video_like("mpg"@) && video_like("mpeg"@) && video_like("mp4"@) && video_like("asf"@));
    assert(video_like("rmvb"@) && video_like("wmv"@));
    if images.contains(suffix) && videos.contains(suffix) {
        let i = choose|i: int| 0 <= i < images.len() && images[i] == suffix;
        let j = choose|j: int| 0 <= j < videos.len() && videos[j] == suffix;
        assert(image_like(images[i]));
        assert(video_like(videos[j]));
        assert(false);
    }
}

/// An extension that was added as an image is an image from then on, and
/// one added as a video is a video unless it is an image.  Adding is
/// additive: what the registry knew of any other extension stays as it
/// was, and an extension that was known stays known.
pub proof fn lemma_adding_is_additive(registry: Registry, format: Seq<char>, suffix: Seq<char>)
    ensures
        registry.add_image(format).classify(format) == Some(MediaType::Image),
        registry.add_video(format).classify(format) == if registry.image.contains(format) {
            Some(MediaType::Image)
        } else {
            Some(MediaType::Video)
        },
        suffix != format ==> registry.add_image(format).classify(suffix) == registry.classify(
            suffix,
        ),
        suffix != format ==> registry.add_video(format).classify(suffix) == registry.classify(
            suffix,
        ),
        registry.classify(suffix) is Some ==> registry.add_image(format).classify(suffix) is Some
            && registry.add_video(format).classify(suffix) is Some,
        registry.classify(suffix) == Some(MediaType::Image) ==> registry.add_image(
            format,
        ).classify(suffix) == Some(MediaType::Image) && registry.add_video(format).classify(suffix)
            == Some(MediaType::Image),
{
    lemma_contains_after_push(registry.image, format, suffix);
    lemma_contains_after_push(registry.image, format, format);
    lemma_contains_after_push(registry.video, format, suffix);
    lemma_contains_after_push(registry.video, format, format);
}

/// What a registry says of an extension does not depend on the order in
/// which extensions were added to it.
pub proof fn lemma_order_of_adding_is_irrelevant(
    registry: Registry,
    first: Seq<char>,
    second: Seq<char>,
    suffix: Seq<char>,
)
    ensures
        registry.add_image(first).add_image(second).classify(suffix) == registry.add_image(
            second,
        ).add_image(first).classify(suffix),
        registry.add_video(first).add_video(second).classify(suffix) == registry.add_video(
            second,
        ).add_video(first).classify(suffix),
        registry.add_image(first).add_video(second).classify(suffix) == registry.add_video(
            second,
        ).add_image(first).classify(suffix),
{
    lemma_contains_after_push(registry.image, first, suffix);
    lemma_contains_after_push(registry.image, second, suffix);
    lemma_contains_after_push(registry.image.push(first), second, suffix);
    lemma_contains_after_push(registry.image.push(second), first, suffix);
    lemma_contains_after_push(registry.video, first, suffix);
    lemma_contains_after_push(registry.video, second, suffix);
    lemma_contains_after_push(registry.video.push(first), second, suffix);
    lemma_contains_after_push(registry.video.push(second), first, suffix);
}

/// A list to which `added` was appended holds what it held, and `added`.
proof fn lemma_contains_after_push(list: Seq<Seq<char>>, added: Seq<char>, wanted: Seq<char>)
    ensures
        list.push(added).contains(wanted) <==> list.contains(wanted) || wanted == added,
{
    let longer = list.push(added);
    if list.contains(wanted) {
        let i = choose|i: int| 0 <= i < list.len() && list[i] == wanted;
        assert(longer[i] == wanted);
    }
    if wanted == added {
        assert(longer[list.len() as int] == wanted);
    }
    if longer.contains(wanted) {
        let i = choose|i: int| 0 <= i < longer.len() && longer[i] == wanted;
        if i < list.len() {
            assert(list[i] == wanted);
        }
    }
}

/// Whether one of the strings of `list` equals `wanted`.
fn holds_text(list: &Vec<String>, wanted: &str) -> (r: bool)
    ensures
        r == texts(list@).contains(wanted@),
{
    let wanted_owned: String = wanted.to_owned();
    let mut i: usize = 0;
    while i < list.len()
        invariant
            i <= list.len(),
            wanted_owned@ == wanted@,
            forall|j: int| 0 <= j < i ==> texts(list@)[j] != wanted@,
        decreases list.len() - i,
    {
        if list[i] == wanted_owned {
            assert(texts(list@)[i as int] == wanted@);
            return true;
        }
        i += 1;
    }
    false
}

/// The registry that maps a file extension to a media type.
#[derive(Debug)]
pub struct Formats {
    image: Vec<String>,
    video: Vec<String>,
}

impl View for Formats {
    type V = Registry;

    closed spec fn view(&self) -> Registry {
        Registry { image: texts(self.image@), video: texts(self.video@) }
    }
}

impl Formats {
    /// A registry that knows the built-in extensions.
    pub fn new() -> (r: Self)
        ensures
            r@ == Registry::builtin(),
    {
        let mut image: Vec<String> = Vec::new();
        image.push("jpeg".to_owned());
        image.push("jpg".to_owned());
        image.push("gif".to_owned());
        image.push("png".to_owned());
        image.push("svg".to_owned());
        image.push("tiff".to_owned());
        image.push("tif".to_owned());
        image.push("webp".to_owned());
        let mut video: Vec<String> = Vec::new();
        video.push("webm".to_owned());
        video.push("mkv".to_owned());
        video.push("flv".to_owned());
        video.push("ogg".to_owned());
        video.push("ogv".to_owned());
        video.push("avi".to_owned());
        video.push("m2v".to_owned());
        video.push("m4v".to_owned());
        video.push("mpg".to_owned());
        video.push("mpeg".to_owned());
        video.push("mp4".to_owned());
        video.push("asf".to_owned());
        video.push("rmvb".to_owned());
        video.push("wmv".to_owned());
        assert(texts(image@) =~= default_image_formats());
        assert(texts(video@) =~= default_video_formats());
        Formats { image, video }
    }

    /// The media type of an extension, or `None` where the registry does
    /// not know it.  The extension is compared as it stands: upper and
    /// lower case differ.
    pub fn get_media_type(&self, suffix: &str) -> (r: Option<MediaType>)
        ensures
            r == self@.classify(suffix@),
    {
        if holds_text(&self.image, suffix) {
            Some(MediaType::Image)
        } else if holds_text(&self.video, suffix) {
            Some(MediaType::Video)
        } else {
            None
        }
    }

    /// Registers one more image extension.  Nothing is checked: an empty
    /// string or one that is already known is taken as it is.
    pub fn add_image(&mut self, format: String)
        ensures
            final(self)@ == old(self)@.add_image(format@),
    {
        self.image.push(format);
        assert(texts(self.image@) =~= texts(old(self).image@).push(format@));
    }

    /// Registers one more video extension.  Nothing is checked: an empty
    /// string or one that is already known is taken as it is.
    pub fn add_video(&mut self, format: String)
        ensures
            final(self)@ == old(self)@.add_video(format@),
    {
        self.video.push(format);
        assert(texts(self.video@) =~= texts(old(self).video@).push(format@));
    }
}

/// The first second of the year 1, counted from the start of 1970 in
/// universal time.
pub const FIRST_DATED_SECOND: i64 = -62_135_596_800;

/// The last second of the year 9999, counted likewise.
pub const LAST_DATED_SECOND: i64 = 253_402_300_799;

/// A point in time as a file system reports it: whole seconds since the
/// start of 1970 in universal time (negative before it), and the
/// nanoseconds past that second.
#[derive(Debug, Clone, Copy, PartialEq, Eq)]
pub struct FileTime {
    pub secs: i64,
    pub nanos: u32,
}

impl FileTime {
    /// The time in nanoseconds since the start of 1970.
    pub open spec fn instant(&self) -> int {
        self.secs * 1_000_000_000 + self.nanos
    }

    /// Whether the time, in a zone that is `offset` seconds east of
    /// universal time, lies in the years 1 to 9999 on the clocks of that
    /// zone, and its nanoseconds are less than a second.  Every such time
    /// has a local date.
    pub open spec fn in_calendar(&self, offset: i32) -> bool {
        FIRST_DATED_SECOND <= self.secs + offset <= LAST_DATED_SECOND && self.nanos
            < 1_000_000_000
    }

    /// The time that lies `secs` seconds and `nanos` nanoseconds after the
    /// start of 1970 or, with `before`, before it.  A time before it is
    /// counted from the whole second that precedes it.  There is none
    /// where `nanos` is a second or more, or `secs` exceeds `i64::MAX`.
    pub fn since_epoch(secs: u64, nanos: u32, before: bool) -> (r: Option<FileTime>)
        ensures
            r is Some <==> nanos < 1_000_000_000 && secs <= i64::MAX,
            r matches Some(time) ==> time.nanos < 1_000_000_000 && time.instant() == if before {
                -(secs * 1_000_000_000 + nanos)
            } else {
                secs * 1_000_000_000 + nanos
            },
    {
        if nanos >= 1_000_000_000 || secs > i64::MAX as u64 {
            None
        } else if !before {
            Some(FileTime { secs: secs as i64, nanos })
        } else if nanos == 0 {
            Some(FileTime { secs: -(secs as i64), nanos: 0 })
        } else {
            Some(FileTime { secs: -(secs as i64) - 1, nanos: 1_000_000_000 - nanos })
        }
    }
}

/// The year and the month of a calendar date.  The month is always one
/// of the twelve.
#[derive(Debug, Clone, Copy, PartialEq, Eq)]
pub struct YearMonth {
    year: i32,
    month: u32,
}

impl YearMonth {
    #[verifier::type_invariant]
    spec fn month_in_range(self) -> bool {
        1 <= self.month <= 12
    }

    /// The year; years before the common era are zero and below.
    pub closed spec fn spec_year(&self) -> i32 {
        self.year
    }

    /// The month, January being 1.
    pub closed spec fn spec_month(&self) -> u32 {
        self.month
    }

    /// The year and the month as a pair.
    pub open spec fn date(&self) -> (int, int) {
        (self.spec_year() as int, self.spec_month() as int)
    }

    /// The date parts `year` and `month`, where `month` is one of 1 to 12.
    pub fn new(year: i32, month: u32) -> (r: Option<Self>)
        ensures
            r is Some <==> 1 <= month <= 12,
            r matches Some(d) ==> d.spec_year() == year && d.spec_month() == month,
    {
        if 1 <= month && month <= 12 {
            Some(YearMonth { year, month })
        } else {
            None
        }
    }

    #[verifier::when_used_as_spec(spec_year)]
    pub fn year(&self) -> (r: i32)
        ensures
            r == self.spec_year(),
    {
        self.year
    }

    #[verifier::when_used_as_spec(spec_month)]
    pub fn month(&self) -> (r: u32)
        ensures
            r == self.spec_month(),
            1 <= r <= 12,
    {
        proof {
            use_type_invariant(self);
        }
        self.month
    }
}

/// The year and the month of the date on which, in universal time, the
/// second `secs` after the start of 1970 falls, by the proleptic
/// Gregorian calendar; `None` for a second that the calendar does not
/// reach.
pub uninterp spec fn civil_year_month(secs: int) -> Option<(int, int)>;

/// A year and a month as mathematical integers.
pub open spec fn as_date(date: Option<(i32, u32)>) -> Option<(int, int)> {
    match date {
        Some((year, month)) => Some((year as int, month as int)),
        None => None,
    }
}

/// The year and the month of the date on which a second falls in
/// universal time.
///
/// Calls `chrono::DateTime::from_timestamp` with no nanoseconds, and reads
/// `Datelike::year` and `Datelike::month` of the value in universal time.
/// The result follows from the number of the second alone; the contract
/// names it `civil_year_month`.  Beside that it claims that every second
/// of the years 1 to 9999 has a date, which lies well within the range
/// that `from_timestamp` accepts, and that the month is one of 1 to 12,
/// as `Datelike::month` documents.
#[verifier::external_body]
pub(crate) fn civil_date(secs: i64) -> (r: Option<(i32, u32)>)
    ensures
        as_date(r) == civil_year_month(secs as int),
        FIRST_DATED_SECOND <= secs <= LAST_DATED_SECOND ==> r is Some,
        r matches Some(date) ==> 1 <= date.1 <= 12,
{
    match DateTime::from_timestamp(secs, 0) {
        Some(utc) => Some((utc.year(), utc.month())),
        None => None,
    }
}

/// The year and the month of the local date on which `time` falls in a
/// zone that is `offset` seconds east of universal time: the date that
/// universal time shows `offset` seconds later.  There is none for a time
/// whose nanoseconds reach a second, nor where the later second is out of
/// the range of `i64` or of the calendar.
pub open spec fn local_year_month(time: FileTime, offset: i32) -> Option<(int, int)> {
    let secs = time.secs + offset;
    if time.nanos < 1_000_000_000 && i64::MIN <= secs <= i64::MAX {
        civil_year_month(secs)
    } else {
        None
    }
}

/// The year and the month of a date, where there is one.
pub open spec fn date_of(local: Option<YearMonth>) -> Option<(int, int)> {
    match local {
        Some(date) => Some(date.date()),
        None => None,
    }
}

/// The local date on which `time` falls in a zone that is `offset`
/// seconds east of universal time.  Every time in the years 1 to 9999 of
/// that zone has one.
pub fn local_date(time: &FileTime, offset: i32) -> (r: Option<YearMonth>)
    ensures
        date_of(r) == local_year_month(*time, offset),
        time.in_calendar(offset) ==> r is Some,
{
    if time.nanos >= 1_000_000_000 {
        return None;
    }
    match time.secs.checked_add(offset as i64) {
        None => None,
        Some(secs) => match civil_date(secs) {
            Some((year, month)) => YearMonth::new(year, month),
            None => None,
        },
    }
}

/// The English name of a month, January being 1.
pub open spec fn month_name(month: int) -> Seq<char>
    recommends
        1 <= month <= 12,
{
    if month == 1 {
        "January"@
    } else if month == 2 {
        "February"@
    } else if month == 3 {
        "March"@
    } else if month == 4 {
        "April"@
    } else if month == 5 {
        "May"@
    } else if month == 6 {
        "June"@
    } else if month == 7 {
        "July"@
    } else if month == 8 {
        "August"@
    } else if month == 9 {
        "September"@
    } else if month == 10 {
        "October"@
    } else if month == 11 {
        "November"@
    } else {
        "December"@
    }
}

/// What a catalogued record says of its file.
pub struct Record {
    /// The base name of the file.
    pub name: Seq<char>,
    /// The year of the local date on which the file was last modified.
    pub year: int,
    /// The month of that date, January being 1.
    pub month: int,
    /// The category of the file.
    pub media_type: MediaType,
    /// The length of the file in bytes.
    pub size: u64,
}

impl Record {
    /// The name of the directory that holds the files of this record's year.
    pub open spec fn year_text(&self) -> Seq<char> {
        signed_decimal(self.year)
    }

    /// The name of the directory that holds the files of this record's month.
    pub open spec fn month_text(&self) -> Seq<char> {
        month_name(self.month)
    }
}

/// One catalogued media file.
#[derive(Debug, PartialEq, Eq)]
pub struct MediaFile {
    pub name: String,
    created_at: YearMonth,
    media_type: MediaType,
    size: u64,
}

impl View for MediaFile {
    type V = Record;

    closed spec fn view(&self) -> Record {
        Record {
            name: self.name@,
            year: self.created_at.spec_year() as int,
            month: self.created_at.spec_month() as int,
            media_type: self.media_type,
            size: self.size,
        }
    }
}

/// What the records of a catalogue say, in order.
pub open spec fn records(catalogue: Seq<MediaFile>) -> Seq<Record> {
    catalogue.map_values(|file: MediaFile| file@)
}

impl MediaFile {
    pub fn new(name: String, created_at: YearMonth, media_type: MediaType, size: u64) -> (r: Self)
        ensures
            r@ == (Record {
                name: name@,
                year: created_at.spec_year() as int,
                month: created_at.spec_month() as int,
                media_type,
                size,
            }),
    {
        MediaFile { name, created_at, media_type, size }
    }

    pub fn name(&self) -> (r: &String)
        ensures
            r@ == self@.name,
    {
        &self.name
    }

    pub fn created_at(&self) -> (r: YearMonth)
        ensures
            r.date() == (self@.year, self@.month),
    {
        self.created_at
    }

    pub fn media_type(&self) -> (r: MediaType)
        ensures
            r == self@.media_type,
    {
        self.media_type
    }

    pub fn size(&self) -> (r: u64)
        ensures
            r == self@.size,
    {
        self.size
    }

    pub fn is_image(&self) -> (r: bool)
        ensures
            r == (self@.media_type == MediaType::Image),
    {
        match self.media_type {
            MediaType::Image => true,
            MediaType::Video => false,
        }
    }

    /// The year of the record's date, in decimal.
    pub fn year(&self) -> (r: String)
        ensures
            r@ == self@.year_text(),
    {
        signed_decimal_string(self.created_at.year())
    }

    /// The English name of the month of the record's date.
    pub fn month(&self) -> (r: &'static str)
        ensures
            r@ == self@.month_text(),
    {
        let month = self.created_at.month();
        if month == 1 {
            "January"
        } else if month == 2 {
            "February"
        } else if month == 3 {
            "March"
        } else if month == 4 {
            "April"
        } else if month == 5 {
            "May"
        } else if month == 6 {
            "June"
        } else if month == 7 {
            "July"
        } else if month == 8 {
            "August"
        } else if month == 9 {
            "September"
        } else if month == 10 {
            "October"
        } else if month == 11 {
            "November"
        } else {
            "December"
        }
    }
}

} // verus!
