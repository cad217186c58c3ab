//! The organiser: it applies the user's extra formats, and places the
//! images of the catalogue into the destination tree.
//!
//! Placing needs the file system at every step, so it is laid out as a
//! state machine: `Organizing` says what is to be asked of the file
//! system next, and is told how that went.

use crate::cli::Args;
use crate::organizer::collector::{
    gather, in_calendar, local_of, of_type, targets, yielded, CollectError, Collector, Gathered,
    Scanned, Stat,
};
use crate::organizer::media::{records, MediaFile, MediaType, Record};
use crate::text::{list_entries, same_text, split_list, texts};
use vstd::prelude::*;

verus! {

/// The layout of the destination tree.
#[derive(Debug, PartialEq, Eq, Structural, Clone, Copy)]
pub enum Style {
    /// One directory for each year.
    Year,
    /// One directory for each year, and in it one for each month.
    Month,
    /// All files directly in the target directory.
    Flat,
}

/// The layout that a style option names.  The names are compared as they
/// stand: upper and lower case differ.
pub open spec fn style_of(style: Seq<char>) -> Option<Style> {
    if style == "year"@ {
        Some(Style::Year)
    } else if style == "month"@ {
        Some(Style::Month)
    } else if style == "flat"@ {
        Some(Style::Flat)
    } else {
        None
    }
}

/// Reads a style option.
pub fn parse_style(style: &str) -> (r: Option<Style>)
    ensures
        r == style_of(style@),
{
    if same_text(style, "year") {
        Some(Style::Year)
    } else if same_text(style, "month") {
        Some(Style::Month)
    } else if same_text(style, "flat") {
        Some(Style::Flat)
    } else {
        None
    }
}

/// The directories, from the target directory downwards, into which a
/// record goes under a layout.
pub open spec fn destination(style: Style, record: Record) -> Seq<Seq<char>> {
    match style {
        Style::Year => seq![record.year_text()],
        Style::Month => seq![record.year_text(), record.month_text()],
        Style::Flat => Seq::empty(),
    }
}

/// Where one file goes.
pub struct Place {
    /// The base name of the file, in the scanned directory and at its
    /// destination alike.
    pub name: Seq<char>,
    /// The directories from the target directory down to the destination.
    pub dir: Seq<Seq<char>>,
}

/// Where the given records go under a layout, in their order.
pub open spec fn places(style: Style, found: Seq<Record>) -> Seq<Place> {
    found.map_values(|record: Record| Place { name: record.name, dir: destination(style, record) })
}

/// Where one file goes.
#[derive(Debug, PartialEq, Eq)]
pub struct Placement {
    /// The base name of the file.
    pub name: String,
    /// The directories from the target directory down to the destination.
    pub dir: Vec<String>,
}

impl View for Placement {
    type V = Place;

    open spec fn view(&self) -> Place {
        Place { name: self.name@, dir: texts(self.dir@) }
    }
}

/// What a list of placements says, in order.
pub open spec fn plan_of(placements: Seq<Placement>) -> Seq<Place> {
    placements.map_values(|placement: Placement| placement@)
}

/// What is asked of the file system for the file in hand.
#[derive(Debug, PartialEq, Eq, Structural, Clone, Copy)]
pub enum Phase {
    /// Whether the destination directory exists.
    Check,
    /// To create the destination directory.
    Create,
    /// To copy the file to its destination.
    Copy,
    /// To remove the file from the scanned directory.
    Remove,
}

/// One request to the file system.
pub enum Request {
    /// Say whether this directory below the target exists.
    Exists { dir: Seq<Seq<char>> },
    /// Create this directory below the target; with `parents` the
    /// directories above it that are missing too.
    CreateDir { dir: Seq<Seq<char>>, parents: bool },
    /// Copy the file `name` of the scanned directory into this directory
    /// below the target, under the same name.
    Copy { name: Seq<char>, dir: Seq<Seq<char>> },
    /// Remove the file `name` from the scanned directory.
    Remove { name: Seq<char> },
}

/// One request to the file system.
#[derive(Debug, PartialEq, Eq)]
pub enum Action {
    /// Say whether this directory below the target exists.
    Exists { dir: Vec<String> },
    /// Create this directory below the target; with `parents` the
    /// directories above it that are missing too.
    CreateDir { dir: Vec<String>, parents: bool },
    /// Copy the file `name` of the scanned directory into this directory
    /// below the target, under the same name.
    Copy { name: String, dir: Vec<String> },
    /// Remove the file `name` from the scanned directory.
    Remove { name: String },
}

impl View for Action {
    type V = Request;

    open spec fn view(&self) -> Request {
        match self {
            Action::Exists { dir } => Request::Exists { dir: texts(dir@) },
            Action::CreateDir { dir, parents } => Request::CreateDir {
                dir: texts(dir@),
                parents: *parents,
            },
            Action::Copy { name, dir } => Request::Copy { name: name@, dir: texts(dir@) },
            Action::Remove { name } => Request::Remove { name: name@ },
        }
    }
}

/// How a request went.
#[derive(Debug, PartialEq, Eq, Structural, Clone, Copy)]
pub enum Event {
    /// The answer to `Exists`.
    Found(bool),
    /// The request was carried out.
    Done,
    /// The request failed.
    Failed,
}

/// How far the placing of a list of files has come.
pub struct Progress {
    /// Where each file goes.
    pub plan: Seq<Place>,
    /// Whether a missing destination directory is created together with
    /// the missing directories above it.
    pub parents: bool,
    /// Whether a file is removed from the scanned directory once copied.
    pub remove: bool,
    /// The number of files that are placed.
    pub index: nat,
    /// What is asked next for the file in hand.
    pub phase: Phase,
    /// Whether a request failed, which ends the placing.
    pub failed: bool,
}

impl Progress {
    /// The start of the placing of `found` under a layout.  Only under
    /// `Year` is a directory created without those above it, and only
    /// there does `use_move` remove what was copied.
    pub open spec fn start(style: Style, use_move: bool, found: Seq<Record>) -> Progress {
        Progress {
            plan: places(style, found),
            parents: style != Style::Year,
            remove: style == Style::Year && use_move,
            index: 0,
            phase: Phase::Check,
            failed: false,
        }
    }

    /// Whether the state is one that a placing can be in: no file beyond
    /// the plan is in hand, and nothing is removed unless asked for.
    pub open spec fn wf(self) -> bool {
        &&& self.index <= self.plan.len()
        &&& self.phase == Phase::Remove ==> self.remove
    }

    /// Whether all files are placed.
    pub open spec fn finished(self) -> bool {
        !self.failed && self.index >= self.plan.len()
    }

    /// The request that is to be made next; `None` once the placing has
    /// failed or all files are placed.
    pub open spec fn pending(self) -> Option<Request> {
        if self.failed || self.index >= self.plan.len() {
            None
        } else {
            let place = self.plan[self.index as int];
            Some(
                match self.phase {
                    Phase::Check => Request::Exists { dir: place.dir },
                    Phase::Create => Request::CreateDir { dir: place.dir, parents: self.parents },
                    Phase::Copy => Request::Copy { name: place.name, dir: place.dir },
                    Phase::Remove => Request::Remove { name: place.name },
                },
            )
        }
    }

    /// The state with the next file in hand.
    pub open spec fn next_file(self) -> Progress {
        Progress { index: self.index + 1, phase: Phase::Check, ..self }
    }

    /// The state after the pending request went as `event` says.  A
    /// directory that exists is not created; one that was missing is
    /// created before the copy; after the copy the file is removed if
    /// that was asked for, and the next file is taken in hand.  A request
    /// that failed ends the placing, and so does an event that does not
    /// answer the pending request.  Once nothing is pending the state
    /// stays as it is.
    pub open spec fn step(self, event: Event) -> Progress {
        if self.pending() is None {
            self
        } else {
            match (self.phase, event) {
                (Phase::Check, Event::Found(true)) => Progress { phase: Phase::Copy, ..self },
                (Phase::Check, Event::Found(false)) => Progress { phase: Phase::Create, ..self },
                (Phase::Create, Event::Done) => Progress { phase: Phase::Copy, ..self },
                (Phase::Copy, Event::Done) => if self.remove {
                    Progress { phase: Phase::Remove, ..self }
                } else {
                    self.next_file()
                },
                (Phase::Remove, Event::Done) => self.next_file(),
                _ => Progress { failed: true, ..self },
            }
        }
    }
}

/// A directory that is found to exist is never created: the next request
/// is the copy into it.  So placing into a tree that is already there
/// raises no error about a directory that exists.
pub proof fn lemma_existing_directory_is_kept(progress: Progress)
    requires
        progress.pending() matches Some(Request::Exists { .. }),
    ensures
        progress.step(Event::Found(true)).pending() == Some(
            Request::Copy {
                name: progress.plan[progress.index as int].name,
                dir: progress.plan[progress.index as int].dir,
            },
        ),
        progress.step(Event::Found(false)).pending() == Some(
            Request::CreateDir {
                dir: progress.plan[progress.index as int].dir,
                parents: progress.parents,
            },
        ),
{
}

/// Well-formedness lasts, and a file is removed from the scanned
/// directory only where the placing began with that asked for: under any
/// layout but `Year`, and without `use_move`, no request is a removal.
pub proof fn lemma_removal_only_when_asked(progress: Progress, event: Event)
    requires
        progress.wf(),
    ensures
        progress.step(event).wf(),
        progress.step(event).remove == progress.remove,
        progress.step(event).plan == progress.plan,
        progress.pending() matches Some(Request::Remove { .. }) ==> progress.remove,
        progress.step(event).pending() matches Some(Request::Remove { .. }) ==> progress.remove,
{
}

/// The placing of one file, from the question whether its directory
/// exists to the next file: where the directory is missing it is created,
/// then the file is copied, then it is removed from the scanned directory
/// if that was asked for.  Nothing else is asked of the file system.
pub proof fn lemma_placing_of_one_file(progress: Progress, exists: bool)
    requires
        progress.wf(),
        progress.pending() matches Some(Request::Exists { .. }),
    ensures
        ({
            let place = progress.plan[progress.index as int];
            let checked = progress.step(Event::Found(exists));
            let ready = if exists {
                checked
            } else {
                checked.step(Event::Done)
            };
            let copied = ready.step(Event::Done);
            let placed = if progress.remove {
                copied.step(Event::Done)
            } else {
                copied
            };
            &&& progress.pending() == Some(Request::Exists { dir: place.dir })
            &&& !exists ==> checked.pending() == Some(
                Request::CreateDir { dir: place.dir, parents: progress.parents },
            )
            &&& ready.pending() == Some(Request::Copy { name: place.name, dir: place.dir })
            &&& progress.remove ==> copied.pending() == Some(Request::Remove { name: place.name })
            &&& placed == progress.next_file()
        }),
{
}

/// The placing of the first of the given records under a layout, from
/// its start.  The directory asked for is the one that the layout gives
/// the record: its year under `Year`, its year and in it its month under
/// `Month`, the target itself under `Flat`.  Where that directory is
/// missing it is created, under `Year` alone and otherwise with the
/// directories above it; then the file is copied into it under its own
/// name.  Only under `Year` with `use_move` is the file then removed from
/// the scanned directory; under `Month` and `Flat` it never is.  No other
/// request is made for the record, and with a single record the placing
/// is then finished.
pub proof fn lemma_placing_by_layout(
    style: Style,
    use_move: bool,
    found: Seq<Record>,
    exists: bool,
)
    requires
        found.len() > 0,
    ensures
        ({
            let record = found[0];
            let dir = destination(style, record);
            let begun = Progress::start(style, use_move, found);
            let checked = begun.step(Event::Found(exists));
            let ready = if exists {
                checked
            } else {
                checked.step(Event::Done)
            };
            let copied = ready.step(Event::Done);
            let moves = style == Style::Year && use_move;
            let placed = if moves {
                copied.step(Event::Done)
            } else {
                copied
            };
            &&& dir == match style {
                Style::Year => seq![record.year_text()],
                Style::Month => seq![record.year_text(), record.month_text()],
                Style::Flat => Seq::<Seq<char>>::empty(),
            }
            &&& begun.wf()
            &&& begun.pending() == Some(Request::Exists { dir })
            &&& !exists ==> checked.pending() == Some(
                Request::CreateDir { dir, parents: style != Style::Year },
            )
            &&& ready.pending() == Some(Request::Copy { name: record.name, dir })
            &&& moves ==> copied.pending() == Some(Request::Remove { name: record.name })
            &&& placed == begun.next_file()
            &&& found.len() == 1 ==> placed.finished() && placed.pending() is None
        }),
{
    let begun = Progress::start(style, use_move, found);
    assert(begun.plan[0] == (Place { name: found[0].name, dir: destination(style, found[0]) }));
    lemma_placing_of_one_file(begun, exists);
}

/// Why the images cannot be placed.
#[derive(Debug, PartialEq, Eq)]
pub enum PlaceError {
    /// The style option names none of the layouts.
    UnrecognizedStyle { style: String },
}

impl PlaceError {
    /// What the error tells the user.
    pub fn message(&self) -> (r: String)
        ensures
            r@
                == "Unrecognized style for the organizing media files: Possible options are: 'year', 'month', 'flat'"@,
    {
        "Unrecognized style for the organizing media files: Possible options are: 'year', 'month', 'flat'".to_owned()
    }
}

/// The placing of a list of files, step by step.
#[derive(Debug)]
pub struct Organizing {
    plan: Vec<Placement>,
    parents: bool,
    remove: bool,
    index: usize,
    phase: Phase,
    failed: bool,
}

impl View for Organizing {
    type V = Progress;

    closed spec fn view(&self) -> Progress {
        Progress {
            plan: plan_of(self.plan@),
            parents: self.parents,
            remove: self.remove,
            index: self.index as nat,
            phase: self.phase,
            failed: self.failed,
        }
    }
}

/// A copy of a list of strings.
fn copy_texts(list: &Vec<String>) -> (r: Vec<String>)
    ensures
        texts(r@) == texts(list@),
{
    let mut out: Vec<String> = Vec::new();
    let mut i: usize = 0;
    while i < list.len()
        invariant
            i <= list.len(),
            texts(out@) == texts(list@.subrange(0, i as int)),
        decreases list.len() - i,
    {
        let item = list[i].clone();
        proof {
            assert(texts(out@.push(item)) =~= texts(out@).push(item@));
            assert(texts(list@.subrange(0, i + 1)) =~= texts(list@.subrange(0, i as int)).push(
                list@[i as int]@,
            ));
        }
        out.push(item);
        i += 1;
    }
    assert(list@.subrange(0, i as int) =~= list@);
    out
}

impl Organizing {
    #[verifier::type_invariant]
    spec fn well_formed(self) -> bool {
        &&& self.index <= self.plan.len()
        &&& self.phase == Phase::Remove ==> self.remove
    }

    /// Whether all files are placed.
    pub fn is_finished(&self) -> (r: bool)
        ensures
            r == self@.finished(),
            self@.wf(),
    {
        proof {
            use_type_invariant(self);
        }
        !self.failed && self.index >= self.plan.len()
    }

    /// Whether a request failed.
    pub fn has_failed(&self) -> (r: bool)
        ensures
            r == self@.failed,
    {
        self.failed
    }

    /// The request that is to be made next; `None` once the placing has
    /// failed or all files are placed.
    pub fn next(&self) -> (r: Option<Action>)
        ensures
            self@.wf(),
            r is Some <==> self@.pending() is Some,
            r matches Some(action) ==> Some(action@) == self@.pending(),
    {
        proof {
            use_type_invariant(self);
        }
        if self.failed || self.index >= self.plan.len() {
            None
        } else {
            let place = &self.plan[self.index];
            assert(plan_of(self.plan@)[self.index as int] == place@);
            Some(
                match self.phase {
                    Phase::Check => Action::Exists { dir: copy_texts(&place.dir) },
                    Phase::Create => Action::CreateDir {
                        dir: copy_texts(&place.dir),
                        parents: self.parents,
                    },
                    Phase::Copy => Action::Copy {
                        name: place.name.clone(),
                        dir: copy_texts(&place.dir),
                    },
                    Phase::Remove => Action::Remove { name: place.name.clone() },
                },
            )
        }
    }

    /// Takes note of how the pending request went.
    pub fn advance(&mut self, event: Event)
        ensures
            final(self)@ == old(self)@.step(event),
    {
        proof {
            use_type_invariant(&*self);
        }
        if self.failed || self.index >= self.plan.len() {
            return ;
        }
        match (self.phase, event) {
            (Phase::Check, Event::Found(true)) => {
                self.phase = Phase::Copy;
            },
            (Phase::Check, Event::Found(false)) => {
                self.phase = Phase::Create;
            },
            (Phase::Create, Event::Done) => {
                self.phase = Phase::Copy;
            },
            (Phase::Copy, Event::Done) => {
                if self.remove {
                    self.phase = Phase::Remove;
                } else {
                    self.phase = Phase::Check;
                    self.index = self.index + 1;
                }
            },
            (Phase::Remove, Event::Done) => {
                self.phase = Phase::Check;
                self.index = self.index + 1;
            },
            _ => {
                self.failed = true;
            },
        }
    }
}

/// What placing the given records begins with under a style option.  A
/// style that names no layout is an error, whether or not there is a
/// record to place.
pub open spec fn placing(style: Seq<char>, use_move: bool, found: Seq<Record>) -> Result<
    Progress,
    (),
> {
    match style_of(style) {
        None => Err(()),
        Some(layout) => Ok(Progress::start(layout, use_move, found)),
    }
}

/// Organises the media files of a directory.
pub struct MediaOrganizer {
    collector: Collector,
    options: Args,
}

impl MediaOrganizer {
    /// The collector of the organiser.
    pub closed spec fn spec_collector(&self) -> Collector {
        self.collector
    }

    /// The options of the run.
    pub closed spec fn spec_options(&self) -> Args {
        self.options
    }

    /// An organiser with the given options and a fresh collector.
    pub fn new(args: Args) -> (r: Self)
        ensures
            r.spec_options() == args,
            r.spec_collector().files() == Seq::<MediaFile>::empty(),
            r.spec_collector().registry() == crate::organizer::media::Registry::builtin(),
            r.spec_collector().stats()@ == crate::organizer::collector::Tally::zero(),
    {
        MediaOrganizer { collector: Collector::new(), options: args }
    }

    pub fn collector(&self) -> (r: &Collector)
        ensures
            *r == self.spec_collector(),
    {
        &self.collector
    }

    pub fn options(&self) -> (r: &Args)
        ensures
            *r == self.spec_options(),
    {
        &self.options
    }

    /// Whether `after` is this organiser with the extra formats of its
    /// options registered: first the images, then the videos, each list
    /// in its order.
    pub open spec fn formats_applied(&self, after: MediaOrganizer) -> bool {
        let options = self.spec_options();
        &&& after.spec_options() == options
        &&& after.spec_collector().registry() == self.spec_collector().registry().add_images(
            extra_formats(options.include_image_format@),
        ).add_videos(extra_formats(options.include_video_format@))
        &&& after.spec_collector().files() == self.spec_collector().files()
        &&& after.spec_collector().stats() == self.spec_collector().stats()
    }

    /// Registers the extra image and video formats that the options name.
    pub fn check_additional_formats(&mut self)
        ensures
            old(self).formats_applied(*final(self)),
    {
        if !self.options.include_image_format.as_str().is_empty() {
            let entries = split_list(self.options.include_image_format.as_str());
            self.register(MediaType::Image, &entries);
        } else {
            assert(self.collector.registry().add_images(Seq::empty())
                =~= self.collector.registry());
        }
        if !self.options.include_video_format.as_str().is_empty() {
            let entries = split_list(self.options.include_video_format.as_str());
            self.register(MediaType::Video, &entries);
        } else {
            assert(self.collector.registry().add_videos(Seq::empty())
                =~= self.collector.registry());
        }
    }

    /// Registers each of `entries`, in their order, as a format of the
    /// given type.
    fn register(&mut self, media_type: MediaType, entries: &Vec<String>)
        ensures
            final(self).options == old(self).options,
            final(self).collector.files() == old(self).collector.files(),
            final(self).collector.stats() == old(self).collector.stats(),
            final(self).collector.registry() == match media_type {
                MediaType::Image => old(self).collector.registry().add_images(texts(entries@)),
                MediaType::Video => old(self).collector.registry().add_videos(texts(entries@)),
            },
    {
        let ghost registry = self.collector.registry();
        let mut i: usize = 0;
        assert(texts(entries@.subrange(0, 0)) =~= Seq::<Seq<char>>::empty());
        assert(registry.add_images(Seq::empty()) =~= registry);
        assert(registry.add_videos(Seq::empty()) =~= registry);
        while i < entries.len()
            invariant
                i <= entries.len(),
                self.options == old(self).options,
                self.collector.files() == old(self).collector.files(),
                self.collector.stats() == old(self).collector.stats(),
                self.collector.registry() == match media_type {
                    MediaType::Image => registry.add_images(texts(entries@.subrange(0, i as int))),
                    MediaType::Video => registry.add_videos(texts(entries@.subrange(0, i as int))),
                },
            decreases entries.len() - i,
        {
            let entry = entries[i].clone();
            proof {
                let before = texts(entries@.subrange(0, i as int));
                assert(texts(entries@.subrange(0, i + 1)) =~= before.push(entry@));
                assert(registry.add_images(before.push(entry@)) =~= registry.add_images(
                    before,
                ).add_image(entry@));
                assert(registry.add_videos(before.push(entry@)) =~= registry.add_videos(
                    before,
                ).add_video(entry@));
            }
            match media_type {
                MediaType::Image => self.collector.add_image(entry),
                MediaType::Video => self.collector.add_video(entry),
            }
            i += 1;
        }
        assert(entries@.subrange(0, i as int) =~= entries@);
    }

    /// Whether `result` is the start of the placing of `found` under the
    /// options of this organiser, or the error that forbids it.
    pub open spec fn placing_begun(
        &self,
        found: Seq<Record>,
        result: Result<Organizing, PlaceError>,
    ) -> bool {
        let options = self.spec_options();
        match placing(options.style@, options.use_move, found) {
            Ok(progress) => result matches Ok(organizing) && organizing@ == progress,
            Err(_) => result matches Err(PlaceError::UnrecognizedStyle { style }) && style@
                == options.style@,
        }
    }

    /// Begins the placing of the images of the catalogue.
    pub fn organize_files(&self) -> (r: Result<Organizing, PlaceError>)
        ensures
            self.placing_begun(records(of_type(self.spec_collector().files(), MediaType::Image)), r),
    {
        let images: Vec<&MediaFile> = self.collector.get_images();
        self.organize_images(images)
    }

    /// Begins the placing of the given records.  What is then to be done
    /// to the file system, request by request, the result says.
    pub fn organize_images(&self, images: Vec<&MediaFile>) -> (r: Result<Organizing, PlaceError>)
        ensures
            self.placing_begun(records(targets(images@)), r),
    {
        let ghost found = records(targets(images@));
        let style: Style = match parse_style(self.options.style.as_str()) {
            None => {
                return Err(PlaceError::UnrecognizedStyle { style: self.options.style.clone() });
            },
            Some(style) => style,
        };
        let mut plan: Vec<Placement> = Vec::new();
        let mut i: usize = 0;
        assert(plan_of(plan@) =~= places(style, found.subrange(0, 0)));
        while i < images.len()
            invariant
                i <= images.len(),
                found == records(targets(images@)),
                plan_of(plan@) == places(style, found.subrange(0, i as int)),
            decreases images.len() - i,
        {
            let image: &MediaFile = images[i];
            assert(found[i as int] == image@);
            let mut dir: Vec<String> = Vec::new();
            match style {
                Style::Year => {
                    dir.push(image.year());
                },
                Style::Month => {
                    dir.push(image.year());
                    dir.push(image.month().to_owned());
                },
                Style::Flat => {},
            }
            assert(texts(dir@) =~= destination(style, image@));
            let placement = Placement { name: image.name().clone(), dir };
            proof {
                let before = found.subrange(0, i as int);
                assert(found.subrange(0, i + 1) =~= before.push(image@));
                assert(placement@ == (Place { name: image@.name, dir: destination(style, image@) }));
                assert(plan_of(plan@.push(placement)) =~= plan_of(plan@).push(placement@));
                assert(places(style, before.push(image@)) =~= places(style, before).push(
                    placement@,
                ));
            }
            plan.push(placement);
            i += 1;
        }
        assert(found.subrange(0, i as int) =~= found);
        Ok(
            Organizing {
                plan,
                parents: style != Style::Year,
                remove: style == Style::Year && self.options.use_move,
                index: 0,
                phase: Phase::Check,
                failed: false,
            },
        )
    }

    /// Whether `after` and `result` are what a run makes of this
    /// organiser and of what a walk of the scanned directory handed
    /// over.  The extra formats are registered first; then the
    /// items are collected; the report holds the messages on what was
    /// left out, the statistics, and the start of the
    /// placing of the images that were found.
    pub open spec fn ran(
        &self,
        after: MediaOrganizer,
        items: Seq<Scanned>,
        result: Result<Report, CollectError>,
    ) -> bool {
        let options = self.spec_options();
        let registry = self.spec_collector().registry().add_images(
            extra_formats(options.include_image_format@),
        ).add_videos(extra_formats(options.include_video_format@));
        let start = Gathered {
            found: Seq::<Record>::empty(),
            tally: self.spec_collector().stats()@,
            notes: Seq::<Seq<char>>::empty(),
        };
        &&& after.spec_options() == options
        &&& after.spec_collector().registry() == registry
        &&& match gather(registry, start, items, options.recursive) {
            Ok(end) => {
                &&& result matches Ok(report)
                &&& texts(report.notes@) == end.notes
                &&& report.statistics@ == end.tally
                &&& records(after.spec_collector().files()) == end.found
                &&& after.spec_collector().stats()@ == end.tally
                &&& after.placing_begun(
                    records(of_type(after.spec_collector().files(), MediaType::Image)),
                    report.placing,
                )
            },
            Err(failure) => {
                &&& result matches Err(error)
                &&& error@ == failure
                &&& after.spec_collector().files() == self.spec_collector().files()
                &&& after.spec_collector().stats()@ == self.spec_collector().stats()@
            },
        }
    }

    /// Runs the organiser on what a walk of the scanned directory handed
    /// over: registers the extra formats, collects the media files and
    /// begins the placing of the images.  What is to be reported and what
    /// is to be done to the file system stands in the result.
    pub fn run(&mut self, items: &Vec<Scanned>) -> (r: Result<Report, CollectError>)
        ensures
            old(self).ran(*final(self), items@, r),
            r is Ok ==> forall|i: int|
                0 <= i < items@.len() && yielded(
                    #[trigger] items@[i],
                    old(self).spec_options().recursive,
                ) && in_calendar(items@[i]->Entry_0) ==> local_of(items@[i]->Entry_0) is Some,
    {
        self.check_additional_formats();
        let recursive = self.options.recursive;
        let verbose = self.options.verbose;
        let collected = self.collector.collect(items, &recursive, &verbose);
        match collected {
            Err(error) => {
                Err(error)
            },
            Ok(notes) => {
                let statistics: Stat = *self.collector.get_stats();
                let placing = self.organize_files();
                let report = Report { notes, statistics, placing };
                Ok(report)
            },
        }
    }
}

/// The formats that an option names: none where the option is empty,
/// else the entries of the comma-separated list.
pub open spec fn extra_formats(option: Seq<char>) -> Seq<Seq<char>> {
    if option.len() == 0 {
        Seq::empty()
    } else {
        list_entries(option)
    }
}

/// What a run hands to its caller.
#[derive(Debug)]
pub struct Report {
    /// The messages on the entries that were left out, in the order of
    /// the walk.
    pub notes: Vec<String>,
    /// The statistics of what was found.
    pub statistics: Stat,
    /// The start of the placing of the images, or the error that forbids it.
    pub placing: Result<Organizing, PlaceError>,
}

} // verus!
