//! The statistics of a scan, and the collector that turns scanned
//! entries into catalogued records.

use crate::organizer::media::{
    date_of, local_date, local_year_month, records, FileTime, Formats, MediaFile, MediaType,
    Record, Registry, YearMonth,
};
use crate::text::{
    debug_string, debug_text, decimal, decimal_string, extension_of, file_extension, texts,
};
use vstd::prelude::*;

verus! {

/// The unit in which a byte count is shown to a reader.
#[derive(Debug, PartialEq, Eq, Structural, Clone, Copy)]
pub enum Unit {
    Bytes,
    Kilobytes,
    Megabytes,
    Gigabytes,
}

impl Unit {
    /// The unit for a byte count: bytes below a thousand, then thousands,
    /// millions and, from a billion on, billions of bytes.
    pub open spec fn of(n: nat) -> Unit {
        if n < 1_000 {
            Unit::Bytes
        } else if n < 1_000_000 {
            Unit::Kilobytes
        } else if n < 1_000_000_000 {
            Unit::Megabytes
        } else {
            Unit::Gigabytes
        }
    }

    /// The number of bytes that make one of the unit.
    pub open spec fn size(self) -> nat {
        match self {
            Unit::Bytes => 1,
            Unit::Kilobytes => 1_000,
            Unit::Megabytes => 1_000_000,
            Unit::Gigabytes => 1_000_000_000,
        }
    }

    /// What follows a number of the unit: a space and the unit's sign, or
    /// nothing for bytes.
    pub open spec fn suffix(self) -> Seq<char> {
        match self {
            Unit::Bytes => Seq::empty(),
            Unit::Kilobytes => " KB"@,
            Unit::Megabytes => " MB"@,
            Unit::Gigabytes => " GB"@,
        }
    }

    /// The number of bytes that make one of the unit.
    pub fn bytes(&self) -> (r: u64)
        ensures
            r == self.size(),
    {
        match self {
            Unit::Bytes => 1,
            Unit::Kilobytes => 1_000,
            Unit::Megabytes => 1_000_000,
            Unit::Gigabytes => 1_000_000_000,
        }
    }
}

/// The unit in which a byte count is shown.
pub fn unit_of(size: u64) -> (r: Unit)
    ensures
        r == Unit::of(size as nat),
{
    if size < 1_000 {
        Unit::Bytes
    } else if size < 1_000_000 {
        Unit::Kilobytes
    } else if size < 1_000_000_000 {
        Unit::Megabytes
    } else {
        Unit::Gigabytes
    }
}

/// A byte count for a reader.  Below a thousand it is the count itself.
/// From there on it is `scaled`, which stands for the count divided by
/// its unit and written with one decimal place, followed by the unit.
pub open spec fn human_size(n: nat, scaled: Seq<char>) -> Seq<char> {
    match Unit::of(n) {
        Unit::Bytes => decimal(n),
        unit => scaled + unit.suffix(),
    }
}

/// Renders a byte count for a reader.  The caller hands in `scaled`: the
/// count divided by the size of its unit (see `unit_of`), written with
/// one decimal place.  That quotient is a matter of floating point, which
/// this library leaves to its caller; below a thousand it is not looked at.
pub fn to_human(size: u64, scaled: &str) -> (r: String)
    ensures
        r@ == human_size(size as nat, scaled@),
{
    match unit_of(size) {
        Unit::Bytes => decimal_string(size),
        Unit::Kilobytes => labelled(scaled, " KB"),
        Unit::Megabytes => labelled(scaled, " MB"),
        Unit::Gigabytes => labelled(scaled, " GB"),
    }
}

/// The counts and byte totals of the records found by a scan.
pub struct Tally {
    pub images: nat,
    pub images_size: nat,
    pub videos: nat,
    pub videos_size: nat,
    pub total_size: nat,
}

impl Tally {
    /// The tally of no records.
    pub open spec fn zero() -> Tally {
        Tally { images: 0, images_size: 0, videos: 0, videos_size: 0, total_size: 0 }
    }

    /// The tally after one more record of the given type and size.
    pub open spec fn add(self, media_type: MediaType, size: nat) -> Tally {
        match media_type {
            MediaType::Image => Tally {
                images: self.images + 1,
                images_size: self.images_size + size,
                total_size: self.total_size + size,
                ..self
            },
            MediaType::Video => Tally {
                videos: self.videos + 1,
                videos_size: self.videos_size + size,
                total_size: self.total_size + size,
                ..self
            },
        }
    }

    /// The tally after the given records, taken in order.
    pub open spec fn add_all(self, found: Seq<Record>) -> Tally
        decreases found.len(),
    {
        if found.len() == 0 {
            self
        } else {
            self.add_all(found.drop_last()).add(found.last().media_type, found.last().size as nat)
        }
    }

    /// Whether one more record of the given type and size can be counted
    /// without a count or a total leaving the range of `u64`.
    pub open spec fn has_room(self, media_type: MediaType, size: nat) -> bool {
        let after = self.add(media_type, size);
        after.images <= u64::MAX && after.videos <= u64::MAX && after.total_size <= u64::MAX
    }

    /// The number of records counted.
    pub open spec fn count(self) -> nat {
        self.images + self.videos
    }

    /// Whether the combined byte total is the sum of the two others.
    pub open spec fn balanced(self) -> bool {
        self.total_size == self.images_size + self.videos_size
    }

    /// The lines of the report on this tally.  The three texts stand for
    /// the three byte totals, each divided by its unit and written with
    /// one decimal place, as `human_size` takes them.
    pub open spec fn report(
        self,
        images_scaled: Seq<char>,
        videos_scaled: Seq<char>,
        total_scaled: Seq<char>,
    ) -> Seq<Seq<char>> {
        seq![
            "Result: "@,
            "Number of images: "@ + decimal(self.images),
            "Size of images: "@ + human_size(self.images_size, images_scaled),
            "Number of videos: "@ + decimal(self.videos),
            "Size of videos: "@ + human_size(self.videos_size, videos_scaled),
            "Total size: "@ + human_size(self.total_size, total_scaled),
        ]
    }
}

/// Every record adds to the count and to the byte totals alike: a
/// balanced tally stays balanced, whatever records follow, no count and
/// no total ever falls, and the count grows by the number of records.
pub proof fn lemma_tally_invariant(start: Tally, found: Seq<Record>)
    requires
        start.balanced(),
    ensures
        start.add_all(found).balanced(),
        start.add_all(found).count() == start.count() + found.len(),
        start.add_all(found).images >= start.images,
        start.add_all(found).videos >= start.videos,
        start.add_all(found).images_size >= start.images_size,
        start.add_all(found).videos_size >= start.videos_size,
        start.add_all(found).total_size >= start.total_size,
    decreases found.len(),
{
    if found.len() > 0 {
        lemma_tally_invariant(start, found.drop_last());
    }
}

/// After any records, counted from nothing, the combined byte total is the
/// sum of the image and video totals, and the two counts add up to the
/// number of records.
pub proof fn lemma_statistics_invariant(found: Seq<Record>)
    ensures
        Tally::zero().add_all(found).total_size == Tally::zero().add_all(found).images_size
            + Tally::zero().add_all(found).videos_size,
        Tally::zero().add_all(found).images + Tally::zero().add_all(found).videos == found.len(),
{
    lemma_tally_invariant(Tally::zero(), found);
}

/// The statistics of a scan.
#[derive(Debug, Clone, Copy, PartialEq, Eq)]
pub struct Stat {
    images: u64,
    images_size: u64,
    videos: u64,
    videos_size: u64,
    total_size: u64,
}

impl View for Stat {
    type V = Tally;

    closed spec fn view(&self) -> Tally {
        Tally {
            images: self.images as nat,
            images_size: self.images_size as nat,
            videos: self.videos as nat,
            videos_size: self.videos_size as nat,
            total_size: self.total_size as nat,
        }
    }
}

impl Default for Stat {
    fn default() -> (r: Self)
        ensures
            r@ == Tally::zero(),
    {
        Stat { images: 0, images_size: 0, videos: 0, videos_size: 0, total_size: 0 }
    }
}

impl Stat {
    #[verifier::type_invariant]
    spec fn sums_agree(self) -> bool {
        self.total_size == self.images_size + self.videos_size
    }

    /// Whether one more record of the given type and size can be counted
    /// without a count or a total leaving the range of `u64`.
    pub open spec fn has_room(&self, media_type: MediaType, size: u64) -> bool {
        self@.has_room(media_type, size as nat)
    }

    /// Tests `has_room`.
    pub fn can_add(&self, media_type: &MediaType, size: u64) -> (r: bool)
        ensures
            r == self.has_room(*media_type, size),
    {
        let count = match media_type {
            MediaType::Image => self.images,
            MediaType::Video => self.videos,
        };
        count < u64::MAX && size <= u64::MAX - self.total_size
    }

    /// Counts one more record of the given type and size.
    pub fn add_media(&mut self, media_type: &MediaType, size: u64)
        requires
            old(self).has_room(*media_type, size),
        ensures
            final(self)@ == old(self)@.add(*media_type, size as nat),
            final(self)@.balanced(),
    {
        proof {
            use_type_invariant(&*self);
        }
        match media_type {
            MediaType::Image => {
                *self = Stat {
                    images: self.images + 1,
                    images_size: self.images_size + size,
                    videos: self.videos,
                    videos_size: self.videos_size,
                    total_size: self.total_size + size,
                };
            },
            MediaType::Video => {
                *self = Stat {
                    images: self.images,
                    images_size: self.images_size,
                    videos: self.videos + 1,
                    videos_size: self.videos_size + size,
                    total_size: self.total_size + size,
                };
            },
        }
    }

    /// The number of images found.
    pub fn images(&self) -> (r: u64)
        ensures
            r == self@.images,
    {
        self.images
    }

    /// The bytes that the images found hold together.
    pub fn images_size(&self) -> (r: u64)
        ensures
            r == self@.images_size,
    {
        self.images_size
    }

    /// The number of videos found.
    pub fn videos(&self) -> (r: u64)
        ensures
            r == self@.videos,
    {
        self.videos
    }

    /// The bytes that the videos found hold together.
    pub fn videos_size(&self) -> (r: u64)
        ensures
            r == self@.videos_size,
    {
        self.videos_size
    }

    /// The bytes that all records found hold together: those of the images
    /// and those of the videos.
    pub fn total_size(&self) -> (r: u64)
        ensures
            r == self@.total_size,
            r == self@.images_size + self@.videos_size,
    {
        proof {
            use_type_invariant(self);
        }
        self.total_size
    }

    /// The lines of the report on these statistics, for the caller to
    /// print.  The three texts are the three byte totals, each divided by
    /// its unit and written with one decimal place, as `to_human` takes
    /// them.
    pub fn print_stat(&self, images_scaled: &str, videos_scaled: &str, total_scaled: &str) -> (r:
        Vec<String>)
        ensures
            texts(r@) == self@.report(images_scaled@, videos_scaled@, total_scaled@),
    {
        let mut lines: Vec<String> = Vec::new();
        lines.push("Result: ".to_owned());
        let images = decimal_string(self.images);
        lines.push(labelled("Number of images: ", images.as_str()));
        let images_size = to_human(self.images_size, images_scaled);
        lines.push(labelled("Size of images: ", images_size.as_str()));
        let videos = decimal_string(self.videos);
        lines.push(labelled("Number of videos: ", videos.as_str()));
        let videos_size = to_human(self.videos_size, videos_scaled);
        lines.push(labelled("Size of videos: ", videos_size.as_str()));
        let total_size = to_human(self.total_size, total_scaled);
        lines.push(labelled("Total size: ", total_size.as_str()));
        assert(texts(lines@) =~= self@.report(images_scaled@, videos_scaled@, total_scaled@));
        lines
    }
}

/// `label` followed by `value`.
fn labelled(label: &str, value: &str) -> (r: String)
    ensures
        r@ == label@ + value@,
{
    let mut line = label.to_owned();
    line.append(value);
    line
}

/// What the file system says of a scanned entry.
#[derive(Debug)]
pub struct Metadata {
    /// Whether the entry is a regular file.
    pub is_file: bool,
    /// When the file was last modified, where the platform can tell.
    pub modified: Option<FileTime>,
    /// How many seconds the clocks of the machine's time zone were ahead
    /// of universal time at that time (negative where they were behind).
    pub offset: i32,
    /// The length of the file in bytes.
    pub len: u64,
}

/// One entry of a directory walk, as plain values.
#[derive(Debug)]
pub struct FileEntry {
    /// The path of the entry as it is to be shown in messages.
    pub path: String,
    /// The base name of the entry.  Where the name is not valid text,
    /// `Err` holds the name as it is to be shown in messages.
    pub name: Result<String, String>,
    /// How far below the root of the walk the entry lies; the root
    /// itself is at depth 0.
    pub depth: usize,
    /// What the file system says of the entry, where it could be read.
    pub metadata: Option<Metadata>,
}

/// What a directory walk hands over for one step.
#[derive(Debug)]
pub enum Scanned {
    /// An entry that the walk could read.
    Entry(FileEntry),
    /// The walk met an error at this place.
    Unreadable,
}

/// Why an entry did not become a record.
#[derive(Debug, PartialEq, Eq, Structural, Clone, Copy)]
pub enum Skip {
    /// The base name is not valid text.
    InvalidName,
    /// No local date could be had for the time of the last modification.
    NoTimestamp,
    /// The name has no extension.
    NoExtension,
    /// The registry does not know the extension.
    UnknownExtension,
}

/// The condition that ends a scan, with the name of the file at which
/// it arose.
pub enum Failure {
    /// The metadata of the file could not be read.
    Metadata(Seq<char>),
    /// The statistics cannot count the file within the range of `u64`.
    Overflow(Seq<char>),
}

/// The error that ends a scan.
#[derive(Debug, PartialEq, Eq)]
pub enum CollectError {
    /// The metadata of the named file could not be read.
    Metadata { name: String },
    /// The statistics cannot count the named file within the range of `u64`.
    Overflow { name: String },
}

impl View for CollectError {
    type V = Failure;

    open spec fn view(&self) -> Failure {
        match self {
            CollectError::Metadata { name } => Failure::Metadata(name@),
            CollectError::Overflow { name } => Failure::Overflow(name@),
        }
    }
}

/// What a failure tells the user.
pub open spec fn failure_message(failure: Failure) -> Seq<char> {
    match failure {
        Failure::Metadata(name) => "Cannot get size for a file: "@ + name
            + ". Perhaps there's no permissions to access the file?"@,
        Failure::Overflow(name) => "Cannot count a file: "@ + name
            + ". The totals would exceed what the statistics can hold."@,
    }
}

impl CollectError {
    /// What the error tells the user.
    pub fn message(&self) -> (r: String)
        ensures
            r@ == failure_message(self@),
    {
        match self {
            CollectError::Metadata { name } => {
                let mut text = "Cannot get size for a file: ".to_owned();
                text.append(name.as_str());
                text.append(". Perhaps there's no permissions to access the file?");
                assert(text@ =~= failure_message(self@));
                text
            },
            CollectError::Overflow { name } => {
                let mut text = "Cannot count a file: ".to_owned();
                text.append(name.as_str());
                text.append(". The totals would exceed what the statistics can hold.");
                assert(text@ =~= failure_message(self@));
                text
            },
        }
    }
}

/// What a skipped entry tells the user.  The path, and a name that is
/// not valid text, are shown as the entry holds them.
pub open spec fn skip_message(reason: Skip, entry: FileEntry) -> Seq<char> {
    match reason {
        Skip::InvalidName => "Unable to convert file name "@ + (match entry.name {
            Ok(name) => debug_text(name@),
            Err(shown) => shown@,
        }) + ". Possibly not valid UTF-8. Skipping..."@,
        Skip::NoTimestamp => "Not supported on this platform or filesystem"@,
        Skip::NoExtension | Skip::UnknownExtension => "No file extension found ("@ + entry.path@
            + "). Cannot determine file type. Skipping..."@,
    }
}

impl Skip {
    /// What the skipped entry tells the user.
    pub fn message(&self, entry: &FileEntry) -> (r: String)
        ensures
            r@ == skip_message(*self, *entry),
    {
        match self {
            Skip::InvalidName => {
                let mut text = "Unable to convert file name ".to_owned();
                match &entry.name {
                    Ok(name) => {
                        let shown = debug_string(name.as_str());
                        text.append(shown.as_str());
                    },
                    Err(shown) => {
                        text.append(shown.as_str());
                    },
                }
                text.append(". Possibly not valid UTF-8. Skipping...");
                assert(text@ =~= skip_message(*self, *entry));
                text
            },
            Skip::NoTimestamp => "Not supported on this platform or filesystem".to_owned(),
            Skip::NoExtension | Skip::UnknownExtension => {
                let mut text = "No file extension found (".to_owned();
                text.append(entry.path.as_str());
                text.append("). Cannot determine file type. Skipping...");
                assert(text@ =~= skip_message(*self, *entry));
                text
            },
        }
    }
}

/// What becomes of a scanned entry.
pub enum Judgement {
    /// It becomes this record.
    Accept(Record),
    /// It is left out, for this reason.
    Skip(Skip),
    /// It ends the scan.
    Fail(Failure),
}

/// What becomes of `entry` under the given registry, when the statistics
/// so far are `tally` and the time of its last modification falls on the
/// local date `local` (`None` where it has no date).
///
/// The checks come in this order: the name must be valid text; the
/// metadata must have been read, else the scan fails; the time of the
/// last modification must be known and have a local date; the name must
/// have an extension; the registry must know it; and the statistics must
/// have room for the file, else the scan fails.
pub open spec fn judge_with(
    formats: Registry,
    tally: Tally,
    entry: FileEntry,
    local: Option<(int, int)>,
) -> Judgement {
    if entry.name is Err {
        Judgement::Skip(Skip::InvalidName)
    } else if entry.metadata is None {
        Judgement::Fail(Failure::Metadata(entry.name->Ok_0@))
    } else if entry.metadata.unwrap().modified is None || local is None {
        Judgement::Skip(Skip::NoTimestamp)
    } else {
        let name = entry.name->Ok_0@;
        let size = entry.metadata.unwrap().len;
        match extension_of(name) {
            None => Judgement::Skip(Skip::NoExtension),
            Some(extension) => match formats.classify(extension) {
                None => Judgement::Skip(Skip::UnknownExtension),
                Some(media_type) => if tally.has_room(media_type, size as nat) {
                    Judgement::Accept(
                        Record {
                            name,
                            year: local.unwrap().0,
                            month: local.unwrap().1,
                            media_type,
                            size,
                        },
                    )
                } else {
                    Judgement::Fail(Failure::Overflow(name))
                },
            },
        }
    }
}

/// The local date of the last modification of an entry: the date on
/// which its time falls in the zone that its offset tells.  There is none
/// where the metadata or the time are missing.
pub open spec fn local_of(entry: FileEntry) -> Option<(int, int)> {
    match entry.metadata {
        Some(metadata) => match metadata.modified {
            Some(time) => local_year_month(time, metadata.offset),
            None => None,
        },
        None => None,
    }
}

/// Whether the time of the last modification of an entry is known and
/// lies in the years 1 to 9999 of its zone.  Such an entry has a local
/// date, so it is never left out for want of one.
pub open spec fn in_calendar(entry: FileEntry) -> bool {
    entry.metadata matches Some(metadata) && metadata.modified matches Some(time)
        && time.in_calendar(metadata.offset)
}

/// What becomes of `entry` under the given registry, when the statistics
/// so far are `tally`: the judgement of `judge_with` by the local date of
/// the entry's last modification.
pub open spec fn judge(formats: Registry, tally: Tally, entry: FileEntry) -> Judgement {
    judge_with(formats, tally, entry, local_of(entry))
}

/// The statistics after an entry was judged.
pub open spec fn tally_after(tally: Tally, judgement: Judgement) -> Tally {
    match judgement {
        Judgement::Accept(record) => tally.add(record.media_type, record.size as nat),
        _ => tally,
    }
}

/// What the collector made of one entry.
#[derive(Debug, PartialEq, Eq)]
pub enum Outcome {
    /// The entry became this record.
    Accepted(MediaFile),
    /// The entry was left out.
    Skipped(Skip),
}

/// The judgement that a result of the collector stands for.
pub open spec fn judgement_of(result: Result<Outcome, CollectError>) -> Judgement {
    match result {
        Ok(Outcome::Accepted(file)) => Judgement::Accept(file@),
        Ok(Outcome::Skipped(reason)) => Judgement::Skip(reason),
        Err(error) => Judgement::Fail(error@),
    }
}

/// The records of a catalogue that have the given type, in order.
pub open spec fn of_type(files: Seq<MediaFile>, media_type: MediaType) -> Seq<MediaFile> {
    files.filter(|file: MediaFile| file@.media_type == media_type)
}

/// The records that a list of references points to.
pub open spec fn targets(refs: Seq<&MediaFile>) -> Seq<MediaFile> {
    refs.map_values(|file: &MediaFile| *file)
}

/// How deep a walk may go: without recursion no deeper than the direct
/// children of its root, with it without limit (`None`).
pub fn max_depth(recursive: bool) -> (r: Option<usize>)
    ensures
        r == if recursive {
            None::<usize>
        } else {
            Some(1usize)
        },
{
    if recursive {
        None
    } else {
        Some(1)
    }
}

/// Whether an entry at `depth` belongs to the scan.  Without recursion
/// only the direct children of the root do, not the root itself; with it
/// every entry does.
pub open spec fn in_scope(depth: usize, recursive: bool) -> bool {
    recursive || depth == 1
}

/// Whether the scan yields what the walk handed over: an entry that could
/// be read, that is in scope, whose metadata could be read and say that
/// it is a regular file.
pub open spec fn yielded(item: Scanned, recursive: bool) -> bool {
    &&& item matches Scanned::Entry(entry)
    &&& in_scope(entry.depth, recursive)
    &&& entry.metadata matches Some(metadata)
    &&& metadata.is_file
}

/// Tests `yielded`.
pub fn is_yielded(item: &Scanned, recursive: bool) -> (r: bool)
    ensures
        r == yielded(*item, recursive),
{
    match item {
        Scanned::Unreadable => false,
        Scanned::Entry(entry) => {
            if !(recursive || entry.depth == 1) {
                false
            } else {
                match &entry.metadata {
                    None => false,
                    Some(metadata) => metadata.is_file,
                }
            }
        },
    }
}

/// What a scan has gathered: the records found, the statistics, and the
/// messages on the entries that were left out.
pub struct Gathered {
    pub found: Seq<Record>,
    pub tally: Tally,
    pub notes: Seq<Seq<char>>,
}

/// What one step of the walk adds to what was gathered, or the failure
/// that ends the scan.  What the scan does not yield adds nothing.
pub open spec fn gather_one(
    formats: Registry,
    so_far: Gathered,
    item: Scanned,
    recursive: bool,
) -> Result<Gathered, Failure> {
    if !yielded(item, recursive) {
        Ok(so_far)
    } else {
        let entry = item->Entry_0;
        match judge(formats, so_far.tally, entry) {
            Judgement::Accept(record) => Ok(
                Gathered {
                    found: so_far.found.push(record),
                    tally: so_far.tally.add(record.media_type, record.size as nat),
                    notes: so_far.notes,
                },
            ),
            Judgement::Skip(reason) => Ok(
                Gathered { notes: so_far.notes.push(skip_message(reason, entry)), ..so_far },
            ),
            Judgement::Fail(failure) => Err(failure),
        }
    }
}

/// What a walk adds to what was gathered, step by step in its order, or
/// the first failure.
pub open spec fn gather(
    formats: Registry,
    start: Gathered,
    items: Seq<Scanned>,
    recursive: bool,
) -> Result<Gathered, Failure>
    decreases items.len(),
{
    if items.len() == 0 {
        Ok(start)
    } else {
        match gather(formats, start, items.drop_last(), recursive) {
            Err(failure) => Err(failure),
            Ok(so_far) => gather_one(formats, so_far, items.last(), recursive),
        }
    }
}

/// A failure at some step of a walk is the failure of the whole walk.
proof fn lemma_gather_failure(
    formats: Registry,
    start: Gathered,
    items: Seq<Scanned>,
    recursive: bool,
    k: int,
)
    requires
        0 <= k <= items.len(),
        gather(formats, start, items.subrange(0, k), recursive) is Err,
    ensures
        gather(formats, start, items, recursive) == gather(
            formats,
            start,
            items.subrange(0, k),
            recursive,
        ),
    decreases items.len() - k,
{
    if k == items.len() {
        assert(items.subrange(0, k) =~= items);
    } else {
        let front = items.drop_last();
        assert(front.subrange(0, k) =~= items.subrange(0, k));
        lemma_gather_failure(formats, start, front, recursive, k);
    }
}

/// The statistics that a walk ends with count the records that it found.
pub proof fn lemma_gather_counts(
    formats: Registry,
    start: Gathered,
    items: Seq<Scanned>,
    recursive: bool,
    base: Tally,
)
    requires
        start.tally == base.add_all(start.found),
    ensures
        gather(formats, start, items, recursive) matches Ok(end) ==> end.tally == base.add_all(
            end.found,
        ),
    decreases items.len(),
{
    if items.len() > 0 {
        lemma_gather_counts(formats, start, items.drop_last(), recursive, base);
        match gather(formats, start, items.drop_last(), recursive) {
            Ok(so_far) => {
                match gather_one(formats, so_far, items.last(), recursive) {
                    Ok(end) => {
                        if end.found != so_far.found {
                            assert(end.found.drop_last() =~= so_far.found);
                        }
                    },
                    Err(_) => {},
                }
            },
            Err(_) => {},
        }
    }
}

/// Whether a record is one that the registry knows: its name has an
/// extension, and the registry gives that extension the record's type.
pub open spec fn recognised(formats: Registry, record: Record) -> bool {
    extension_of(record.name) matches Some(extension) && formats.classify(extension) == Some(
        record.media_type,
    )
}

/// No record is made of a file whose type cannot be told: every record
/// that a walk finds has an extension that the registry knows, and the
/// type that the registry gives it.
pub proof fn lemma_found_are_recognised(
    formats: Registry,
    start: Gathered,
    items: Seq<Scanned>,
    recursive: bool,
)
    requires
        forall|i: int| 0 <= i < start.found.len() ==> recognised(formats, #[trigger] start.found[i]),
    ensures
        gather(formats, start, items, recursive) matches Ok(end) ==> forall|i: int|
            0 <= i < end.found.len() ==> recognised(formats, #[trigger] end.found[i]),
    decreases items.len(),
{
    if items.len() > 0 {
        lemma_found_are_recognised(formats, start, items.drop_last(), recursive);
    }
}

/// A walk never takes a record back: what was found before it is still
/// there after it, in the same places.
pub proof fn lemma_gather_keeps_what_was_found(
    formats: Registry,
    start: Gathered,
    items: Seq<Scanned>,
    recursive: bool,
)
    ensures
        gather(formats, start, items, recursive) matches Ok(end) ==> start.found.len()
            <= end.found.len() && end.found.len() <= start.found.len() + items.len()
            && end.found.subrange(0, start.found.len() as int) == start.found,
    decreases items.len(),
{
    if items.len() > 0 {
        lemma_gather_keeps_what_was_found(formats, start, items.drop_last(), recursive);
        match gather(formats, start, items, recursive) {
            Ok(end) => {
                assert(end.found.subrange(0, start.found.len() as int) =~= start.found);
            },
            Err(_) => {},
        }
    } else {
        assert(start.found.subrange(0, start.found.len() as int) =~= start.found);
    }
}

/// The scope of a scan.  Without recursion an entry that is not a direct
/// child of the root adds nothing, however deep the walk went; with
/// recursion the depth of an entry plays no part in what becomes of it.
pub proof fn lemma_scope_of_a_scan(
    formats: Registry,
    so_far: Gathered,
    entry: FileEntry,
    depth: usize,
)
    ensures
        entry.depth != 1 ==> gather_one(formats, so_far, Scanned::Entry(entry), false) == Ok::<
            Gathered,
            Failure,
        >(so_far),
        entry.depth == 1 ==> gather_one(formats, so_far, Scanned::Entry(entry), false)
            == gather_one(formats, so_far, Scanned::Entry(entry), true),
        gather_one(formats, so_far, Scanned::Entry(FileEntry { depth, ..entry }), true)
            == gather_one(formats, so_far, Scanned::Entry(entry), true),
{
    let moved = FileEntry { depth, ..entry };
    assert(skip_message(Skip::InvalidName, moved) == skip_message(Skip::InvalidName, entry));
    assert(skip_message(Skip::NoTimestamp, moved) == skip_message(Skip::NoTimestamp, entry));
    assert(skip_message(Skip::NoExtension, moved) == skip_message(Skip::NoExtension, entry));
    assert(skip_message(Skip::UnknownExtension, moved) == skip_message(
        Skip::UnknownExtension,
        entry,
    ));
}

/// A scan of two files, one directly below the root and one deeper, each
/// a regular file with a name that the registry knows, a time in the
/// calendar and a length that the statistics have room for: without
/// recursion the scan finds the first only, with recursion both, in the
/// order of the walk.
pub proof fn lemma_scan_of_two_depths(
    formats: Registry,
    near: FileEntry,
    deep: FileEntry,
)
    requires
        near.depth == 1,
        deep.depth > 1,
        judge(formats, Tally::zero(), near) is Accept,
        judge(formats, Tally::zero(), deep) is Accept,
        near.metadata matches Some(metadata) && metadata.is_file,
        deep.metadata matches Some(metadata) && metadata.is_file,
        near.metadata.unwrap().len + deep.metadata.unwrap().len <= u64::MAX,
    ensures
        ({
            let start = Gathered {
                found: Seq::<Record>::empty(),
                tally: Tally::zero(),
                notes: Seq::<Seq<char>>::empty(),
            };
            let items = seq![Scanned::Entry(near), Scanned::Entry(deep)];
            let first = judge(formats, Tally::zero(), near)->Accept_0;
            let second = judge(formats, Tally::zero(), deep)->Accept_0;
            &&& gather(formats, start, items, false) matches Ok(end) && end.found == seq![first]
            &&& gather(formats, start, items, true) matches Ok(end) && end.found == seq![
                first,
                second,
            ]
        }),
{
    let start = Gathered {
        found: Seq::<Record>::empty(),
        tally: Tally::zero(),
        notes: Seq::<Seq<char>>::empty(),
    };
    let items = seq![Scanned::Entry(near), Scanned::Entry(deep)];
    let front = items.drop_last();
    assert(front =~= seq![Scanned::Entry(near)]);
    assert(front.drop_last() =~= Seq::<Scanned>::empty());
    assert(front.last() == Scanned::Entry(near));
    assert(items.last() == Scanned::Entry(deep));
    reveal_with_fuel(gather, 3);
    let first = judge(formats, Tally::zero(), near)->Accept_0;
    let second = judge(formats, Tally::zero(), deep)->Accept_0;
    let flat = gather(formats, start, front, false);
    assert(flat matches Ok(end) && end.found =~= seq![first]);
    let after = flat->Ok_0.tally;
    assert(judge(formats, after, deep) == Judgement::Accept(second));
    assert(gather(formats, start, items, false) matches Ok(end) && end.found =~= seq![first]);
    assert(gather(formats, start, items, true) matches Ok(end) && end.found =~= seq![
        first,
        second,
    ]);
}

/// Collects the media files of a scan and keeps their statistics.
#[derive(Debug)]
pub struct Collector {
    media: Vec<MediaFile>,
    formats: Formats,
    stat: Stat,
}

impl Collector {
    /// The catalogue: the records of the last scan, in the order of the walk.
    pub closed spec fn files(&self) -> Seq<MediaFile> {
        self.media@
    }

    /// The registry that the collector classifies by.
    pub closed spec fn registry(&self) -> Registry {
        self.formats@
    }

    /// The statistics of all records found so far.
    pub closed spec fn stats(&self) -> Stat {
        self.stat
    }

    /// A collector with the built-in registry, no records and no statistics.
    pub fn new() -> (r: Self)
        ensures
            r.files() == Seq::<MediaFile>::empty(),
            r.registry() == Registry::builtin(),
            r.stats()@ == Tally::zero(),
    {
        Collector { media: Vec::new(), formats: Formats::new(), stat: Stat::default() }
    }

    fn get_media_type(&self, suffix: &str) -> (r: Option<MediaType>)
        ensures
            r == self.registry().classify(suffix@),
    {
        self.formats.get_media_type(suffix)
    }

    /// Registers one more image extension with the collector's registry.
    pub fn add_image(&mut self, format: String)
        ensures
            final(self).registry() == old(self).registry().add_image(format@),
            final(self).files() == old(self).files(),
            final(self).stats() == old(self).stats(),
    {
        self.formats.add_image(format);
    }

    /// Registers one more video extension with the collector's registry.
    pub fn add_video(&mut self, format: String)
        ensures
            final(self).registry() == old(self).registry().add_video(format@),
            final(self).files() == old(self).files(),
            final(self).stats() == old(self).stats(),
    {
        self.formats.add_video(format);
    }

    /// The registry that the collector classifies by.
    pub fn formats(&self) -> (r: &Formats)
        ensures
            r@ == self.registry(),
    {
        &self.formats
    }

    pub fn get_stats(&self) -> (r: &Stat)
        ensures
            *r == self.stats(),
    {
        &self.stat
    }

    pub fn get_files(&self) -> (r: &Vec<MediaFile>)
        ensures
            r@ == self.files(),
    {
        &self.media
    }

    /// The images of the catalogue, in order.
    pub fn get_images(&self) -> (r: Vec<&MediaFile>)
        ensures
            targets(r@) == of_type(self.files(), MediaType::Image),
    {
        self.select(MediaType::Image)
    }

    /// The videos of the catalogue, in order.
    pub fn get_videos(&self) -> (r: Vec<&MediaFile>)
        ensures
            targets(r@) == of_type(self.files(), MediaType::Video),
    {
        self.select(MediaType::Video)
    }

    /// Whether `after` and `result` are what becomes of this collector
    /// and of `entry`, where `local` is the local date of the entry's last
    /// modification: the result is the judgement on the entry, a record
    /// that is accepted is counted, and nothing else changes.
    pub open spec fn classified_with(
        &self,
        after: Collector,
        entry: FileEntry,
        local: Option<(int, int)>,
        result: Result<Outcome, CollectError>,
    ) -> bool {
        let judgement = judge_with(self.registry(), self.stats()@, entry, local);
        &&& judgement_of(result) == judgement
        &&& after.stats()@ == tally_after(self.stats()@, judgement)
        &&& after.registry() == self.registry()
        &&& after.files() == self.files()
    }

    /// Whether `after` and `result` are what becomes of this collector
    /// and of `entry`, judged by the local date of its last modification.
    pub open spec fn classified(
        &self,
        after: Collector,
        entry: FileEntry,
        result: Result<Outcome, CollectError>,
    ) -> bool {
        self.classified_with(after, entry, local_of(entry), result)
    }

    /// Judges one entry of which the local date of the last modification
    /// is `local` (`None` where it has no date), and counts it if it
    /// becomes a record.
    pub fn classify_entry(&mut self, entry: &FileEntry, local: Option<YearMonth>) -> (r: Result<
        Outcome,
        CollectError,
    >)
        ensures
            old(self).classified_with(*final(self), *entry, date_of(local), r),
    {
        let name: &String = match &entry.name {
            Err(_) => {
                return Ok(Outcome::Skipped(Skip::InvalidName));
            },
            Ok(name) => name,
        };
        let metadata: &Metadata = match &entry.metadata {
            None => {
                return Err(CollectError::Metadata { name: name.clone() });
            },
            Some(metadata) => metadata,
        };
        if metadata.modified.is_none() {
            return Ok(Outcome::Skipped(Skip::NoTimestamp));
        }
        let created_at: YearMonth = match local {
            None => {
                return Ok(Outcome::Skipped(Skip::NoTimestamp));
            },
            Some(date) => date,
        };
        let extension: String = match file_extension(name.as_str()) {
            None => {
                return Ok(Outcome::Skipped(Skip::NoExtension));
            },
            Some(extension) => extension,
        };
        let media_type: MediaType = match self.get_media_type(extension.as_str()) {
            None => {
                return Ok(Outcome::Skipped(Skip::UnknownExtension));
            },
            Some(media_type) => media_type,
        };
        if !self.stat.can_add(&media_type, metadata.len) {
            return Err(CollectError::Overflow { name: name.clone() });
        }
        self.stat.add_media(&media_type, metadata.len);
        Ok(Outcome::Accepted(MediaFile::new(name.clone(), created_at, media_type, metadata.len)))
    }

    /// Judges one entry by the local date of its last modification, and
    /// counts it if it becomes a record.  An entry whose time lies in the
    /// years 1 to 9999 of its zone has a local date.
    pub fn convert_entry_to_media_file(&mut self, entry: &FileEntry) -> (r: Result<
        Outcome,
        CollectError,
    >)
        ensures
            old(self).classified(*final(self), *entry, r),
            in_calendar(*entry) ==> local_of(*entry) is Some,
    {
        let local: Option<YearMonth> = match &entry.metadata {
            None => None,
            Some(metadata) => match &metadata.modified {
                None => None,
                Some(time) => local_date(time, metadata.offset),
            },
        };
        self.classify_entry(entry, local)
    }

    /// Whether `after` and `result` are what a scan makes of this
    /// collector and of `items`.  A scan that succeeds replaces the
    /// catalogue by the records it found, adds them to the statistics and
    /// returns the messages on the entries left out; one that fails
    /// changes nothing.
    pub open spec fn collected(
        &self,
        after: Collector,
        items: Seq<Scanned>,
        recursive: bool,
        result: Result<Vec<String>, CollectError>,
    ) -> bool {
        let start = Gathered {
            found: Seq::<Record>::empty(),
            tally: self.stats()@,
            notes: Seq::<Seq<char>>::empty(),
        };
        match gather(self.registry(), start, items, recursive) {
            Ok(end) => {
                &&& result matches Ok(notes)
                &&& texts(notes@) == end.notes
                &&& records(after.files()) == end.found
                &&& after.stats()@ == end.tally
                &&& after.registry() == self.registry()
            },
            Err(failure) => {
                &&& result matches Err(error)
                &&& error@ == failure
                &&& after.files() == self.files()
                &&& after.stats()@ == self.stats()@
                &&& after.registry() == self.registry()
            },
        }
    }

    /// Takes in what a walk handed over, step by step in its order.  Of
    /// what the walk yields (see `yielded`) each entry is judged as by
    /// `convert_entry_to_media_file`.  Every yielded entry whose time
    /// lies in the years 1 to 9999 of its zone has a local date.
    pub fn collect(&mut self, items: &Vec<Scanned>, recursive: &bool, _verbose: &bool) -> (r:
        Result<Vec<String>, CollectError>)
        ensures
            old(self).collected(*final(self), items@, *recursive, r),
            r is Ok ==> final(self).stats()@ == old(self).stats()@.add_all(
                records(final(self).files()),
            ),
            r is Ok ==> forall|i: int|
                0 <= i < items@.len() && yielded(#[trigger] items@[i], *recursive) && in_calendar(
                    items@[i]->Entry_0,
                ) ==> local_of(items@[i]->Entry_0) is Some,
    {
        let kept: Stat = self.stat;
        let mut media: Vec<MediaFile> = Vec::new();
        let mut notes: Vec<String> = Vec::new();
        let ghost start = Gathered {
            found: Seq::<Record>::empty(),
            tally: self.stat@,
            notes: Seq::<Seq<char>>::empty(),
        };
        let ghost formats = self.formats@;
        let mut i: usize = 0;
        proof {
            assert(items@.subrange(0, 0) =~= Seq::<Scanned>::empty());
            assert(records(media@) =~= start.found);
            assert(texts(notes@) =~= start.notes);
        }
        while i < items.len()
            invariant
                i <= items.len(),
                forall|j: int|
                    0 <= j < i && yielded(#[trigger] items@[j], *recursive) && in_calendar(
                        items@[j]->Entry_0,
                    ) ==> local_of(items@[j]->Entry_0) is Some,
                self.formats@ == formats,
                self.media@ == old(self).media@,
                kept == old(self).stat,
                formats == old(self).formats@,
                start == (Gathered {
                    found: Seq::<Record>::empty(),
                    tally: old(self).stat@,
                    notes: Seq::<Seq<char>>::empty(),
                }),
                gather(formats, start, items@.subrange(0, i as int), *recursive) == Ok::<
                    Gathered,
                    Failure,
                >(Gathered { found: records(media@), tally: self.stat@, notes: texts(notes@) }),
            decreases items.len() - i,
        {
            let item = &items[i];
            let ghost next = items@.subrange(0, i + 1);
            proof {
                assert(next.drop_last() =~= items@.subrange(0, i as int));
                assert(next.last() == *item);
            }
            if is_yielded(item, *recursive) {
                match item {
                    Scanned::Unreadable => {},
                    Scanned::Entry(entry) => {
                        match self.convert_entry_to_media_file(entry) {
                            Ok(Outcome::Accepted(file)) => {
                                proof {
                                    assert(records(media@.push(file)) =~= records(media@).push(
                                        file@,
                                    ));
                                }
                                media.push(file);
                            },
                            Ok(Outcome::Skipped(reason)) => {
                                let note = reason.message(entry);
                                proof {
                                    assert(texts(notes@.push(note)) =~= texts(notes@).push(note@));
                                }
                                notes.push(note);
                            },
                            Err(error) => {
                                self.stat = kept;
                                proof {
                                    lemma_gather_failure(
                                        formats,
                                        start,
                                        items@,
                                        *recursive,
                                        i + 1,
                                    );
                                }
                                return Err(error);
                            },
                        }
                    },
                }
            }
            i += 1;
        }
        self.media = media;
        proof {
            assert(items@.subrange(0, i as int) =~= items@);
            lemma_gather_counts(formats, start, items@, *recursive, start.tally);
        }
        Ok(notes)
    }

    fn select(&self, media_type: MediaType) -> (r: Vec<&MediaFile>)
        ensures
            targets(r@) == of_type(self.files(), media_type),
    {
        let mut out: Vec<&MediaFile> = Vec::new();
        let mut i: usize = 0;
        proof {
            reveal(Seq::filter);
            assert(self.media@.subrange(0, 0) =~= Seq::<MediaFile>::empty());
            assert(targets(out@) =~= of_type(self.media@.subrange(0, 0), media_type));
        }
        while i < self.media.len()
            invariant
                i <= self.media.len(),
                targets(out@) == of_type(self.media@.subrange(0, i as int), media_type),
            decreases self.media.len() - i,
        {
            let file = &self.media[i];
            proof {
                reveal(Seq::filter);
                let next = self.media@.subrange(0, i + 1);
                assert(next.drop_last() =~= self.media@.subrange(0, i as int));
                assert(next.last() == *file);
            }
            if file.media_type() == media_type {
                proof {
                    assert(targets(out@.push(file)) =~= targets(out@).push(*file));
                }
                out.push(file);
            }
            i += 1;
        }
        assert(self.media@.subrange(0, i as int) =~= self.media@);
        out
    }
}

} // verus!
