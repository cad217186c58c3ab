use media_organizer::cli::Args;
use media_organizer::organizer::collector::{FileEntry, Metadata, Scanned};
use media_organizer::organizer::media::{FileTime, MediaFile, MediaType, YearMonth};
use media_organizer::organizer::media_organizer::{
    parse_style, Action, Event, MediaOrganizer, Organizing, PlaceError, Style,
};

fn options(style: &str, use_move: bool) -> Args {
    Args {
        dest: "source".to_string(),
        target: "target".to_string(),
        style: style.to_string(),
        separate_videos: true,
        recursive: false,
        verbose: false,
        include_image_format: String::new(),
        include_video_format: String::new(),
        use_move,
    }
}

fn image(name: &str, year: i32, month: u32) -> MediaFile {
    MediaFile::new(name.to_string(), YearMonth::new(year, month).unwrap(), MediaType::Image, 1)
}

fn dir(parts: &[&str]) -> Vec<String> {
    parts.iter().map(|part| part.to_string()).collect()
}

/// Drives a placing to its end over a file system in which the listed
/// directories exist, and returns the requests that were made.
fn drive(mut placing: Organizing, existing: &[Vec<String>]) -> Vec<Action> {
    let mut existing: Vec<Vec<String>> = existing.to_vec();
    let mut made = Vec::new();
    while let Some(action) = placing.next() {
        let event = match &action {
            Action::Exists { dir } => Event::Found(dir.is_empty() || existing.contains(dir)),
            Action::CreateDir { dir, .. } => {
                existing.push(dir.clone());
                Event::Done
            }
            Action::Copy { .. } | Action::Remove { .. } => Event::Done,
        };
        made.push(action);
        placing.advance(event);
    }
    assert!(placing.is_finished());
    assert!(!placing.has_failed());
    made
}

#[test]
fn parse_style_knows_the_three_layouts_in_lower_case() {
    assert_eq!(parse_style("year"), Some(Style::Year));
    assert_eq!(parse_style("month"), Some(Style::Month));
    assert_eq!(parse_style("flat"), Some(Style::Flat));
    assert_eq!(parse_style("FLAT"), None);
    assert_eq!(parse_style("Year"), None);
    assert_eq!(parse_style(""), None);
}

#[test]
fn year_style_creates_the_year_and_copies() {
    let organizer = MediaOrganizer::new(options("year", false));
    let photo = image("photo.jpg", 2023, 6);
    let placing = organizer.organize_images(vec![&photo]).unwrap();
    assert_eq!(
        drive(placing, &[]),
        vec![
            Action::Exists { dir: dir(&["2023"]) },
            Action::CreateDir { dir: dir(&["2023"]), parents: false },
            Action::Copy { name: "photo.jpg".to_string(), dir: dir(&["2023"]) },
        ]
    );
}

#[test]
fn year_style_with_move_removes_the_source_after_the_copy() {
    let organizer = MediaOrganizer::new(options("year", true));
    let photo = image("photo.jpg", 2023, 6);
    let placing = organizer.organize_images(vec![&photo]).unwrap();
    assert_eq!(
        drive(placing, &[]),
        vec![
            Action::Exists { dir: dir(&["2023"]) },
            Action::CreateDir { dir: dir(&["2023"]), parents: false },
            Action::Copy { name: "photo.jpg".to_string(), dir: dir(&["2023"]) },
            Action::Remove { name: "photo.jpg".to_string() },
        ]
    );
}

#[test]
fn month_style_creates_year_and_month_and_never_removes() {
    for use_move in [false, true] {
        let organizer = MediaOrganizer::new(options("month", use_move));
        let photo = image("photo.jpg", 2023, 6);
        let placing = organizer.organize_images(vec![&photo]).unwrap();
        assert_eq!(
            drive(placing, &[]),
            vec![
                Action::Exists { dir: dir(&["2023", "June"]) },
                Action::CreateDir { dir: dir(&["2023", "June"]), parents: true },
                Action::Copy { name: "photo.jpg".to_string(), dir: dir(&["2023", "June"]) },
            ]
        );
    }
}

#[test]
fn flat_style_copies_into_the_target_itself() {
    for use_move in [false, true] {
        let organizer = MediaOrganizer::new(options("flat", use_move));
        let photo = image("photo.jpg", 2023, 6);
        let placing = organizer.organize_images(vec![&photo]).unwrap();
        assert_eq!(
            drive(placing, &[]),
            vec![
                Action::Exists { dir: dir(&[]) },
                Action::Copy { name: "photo.jpg".to_string(), dir: dir(&[]) },
            ]
        );
    }
}

#[test]
fn flat_style_creates_a_missing_target() {
    let organizer = MediaOrganizer::new(options("flat", false));
    let photo = image("photo.jpg", 2023, 6);
    let mut placing = organizer.organize_images(vec![&photo]).unwrap();
    assert_eq!(placing.next(), Some(Action::Exists { dir: dir(&[]) }));
    placing.advance(Event::Found(false));
    assert_eq!(placing.next(), Some(Action::CreateDir { dir: dir(&[]), parents: true }));
    placing.advance(Event::Done);
    assert_eq!(
        placing.next(),
        Some(Action::Copy { name: "photo.jpg".to_string(), dir: dir(&[]) })
    );
    placing.advance(Event::Done);
    assert_eq!(placing.next(), None);
    assert!(placing.is_finished());
}

#[test]
fn an_existing_directory_is_not_created_again() {
    let organizer = MediaOrganizer::new(options("year", false));
    let photo = image("photo.jpg", 2023, 6);
    let first = drive(organizer.organize_images(vec![&photo]).unwrap(), &[]);
    assert!(first.contains(&Action::CreateDir { dir: dir(&["2023"]), parents: false }));
    let again = drive(organizer.organize_images(vec![&photo]).unwrap(), &[dir(&["2023"])]);
    assert_eq!(
        again,
        vec![
            Action::Exists { dir: dir(&["2023"]) },
            Action::Copy { name: "photo.jpg".to_string(), dir: dir(&["2023"]) },
        ]
    );

    let by_month = MediaOrganizer::new(options("month", false));
    let again =
        drive(by_month.organize_images(vec![&photo]).unwrap(), &[dir(&["2023", "June"])]);
    assert!(again.iter().all(|action| !matches!(action, Action::CreateDir { .. })));
}

#[test]
fn several_images_are_placed_in_their_order() {
    let organizer = MediaOrganizer::new(options("year", true));
    let first = image("a.jpg", 2023, 6);
    let second = image("b.png", 2023, 12);
    let third = image("c.gif", 1999, 1);
    let placing = organizer.organize_images(vec![&first, &second, &third]).unwrap();
    assert_eq!(
        drive(placing, &[]),
        vec![
            Action::Exists { dir: dir(&["2023"]) },
            Action::CreateDir { dir: dir(&["2023"]), parents: false },
            Action::Copy { name: "a.jpg".to_string(), dir: dir(&["2023"]) },
            Action::Remove { name: "a.jpg".to_string() },
            Action::Exists { dir: dir(&["2023"]) },
            Action::Copy { name: "b.png".to_string(), dir: dir(&["2023"]) },
            Action::Remove { name: "b.png".to_string() },
            Action::Exists { dir: dir(&["1999"]) },
            Action::CreateDir { dir: dir(&["1999"]), parents: false },
            Action::Copy { name: "c.gif".to_string(), dir: dir(&["1999"]) },
            Action::Remove { name: "c.gif".to_string() },
        ]
    );
}

#[test]
fn a_failed_request_ends_the_placing() {
    let organizer = MediaOrganizer::new(options("year", true));
    let first = image("a.jpg", 2023, 6);
    let second = image("b.jpg", 2023, 6);
    let mut placing = organizer.organize_images(vec![&first, &second]).unwrap();
    placing.advance(Event::Found(true));
    assert_eq!(
        placing.next(),
        Some(Action::Copy { name: "a.jpg".to_string(), dir: dir(&["2023"]) })
    );
    placing.advance(Event::Failed);
    assert!(placing.has_failed());
    assert!(!placing.is_finished());
    assert_eq!(placing.next(), None);
    placing.advance(Event::Done);
    assert!(placing.has_failed());
    assert_eq!(placing.next(), None);
}

#[test]
fn an_event_that_does_not_answer_the_request_ends_the_placing() {
    let organizer = MediaOrganizer::new(options("year", false));
    let photo = image("a.jpg", 2023, 6);
    let mut placing = organizer.organize_images(vec![&photo]).unwrap();
    placing.advance(Event::Done);
    assert!(placing.has_failed());
    assert_eq!(placing.next(), None);
}

#[test]
fn an_unrecognized_style_is_an_error_once_there_is_an_image() {
    let organizer = MediaOrganizer::new(options("FLAT", false));
    let photo = image("a.jpg", 2023, 6);
    let error = organizer.organize_images(vec![&photo]).unwrap_err();
    assert_eq!(error, PlaceError::UnrecognizedStyle { style: "FLAT".to_string() });
    assert_eq!(
        error.message(),
        "Unrecognized style for the organizing media files: Possible options are: 'year', 'month', 'flat'"
    );

}

#[test]
fn an_unrecognized_style_is_an_error_without_images_too() {
    for style in ["FLAT", "", "years", " year"] {
        let organizer = MediaOrganizer::new(options(style, false));
        let error = organizer.organize_images(Vec::new()).unwrap_err();
        assert_eq!(error, PlaceError::UnrecognizedStyle { style: style.to_string() });
        assert_eq!(
            organizer.organize_files().unwrap_err(),
            PlaceError::UnrecognizedStyle { style: style.to_string() }
        );
    }
}

#[test]
fn a_style_that_was_verified_is_recognized() {
    let style = media_organizer::cli::verify_style("FLAT").unwrap();
    let organizer = MediaOrganizer::new(options(&style, false));
    let photo = image("a.jpg", 2023, 6);
    let placing = organizer.organize_images(vec![&photo]).unwrap();
    assert_eq!(
        drive(placing, &[]),
        vec![
            Action::Exists { dir: dir(&[]) },
            Action::Copy { name: "a.jpg".to_string(), dir: dir(&[]) },
        ]
    );
}

#[test]
fn nothing_is_to_be_done_without_images() {
    let organizer = MediaOrganizer::new(options("year", true));
    let placing = organizer.organize_files().unwrap();
    assert!(placing.is_finished());
    assert!(drive(placing, &[]).is_empty());
}

#[test]
fn check_additional_formats_registers_each_trimmed_entry() {
    let mut args = options("year", false);
    args.include_image_format = "heic, raw".to_string();
    args.include_video_format = " mov ".to_string();
    let mut organizer = MediaOrganizer::new(args);
    assert_eq!(organizer.collector().formats().get_media_type("heic"), None);
    organizer.check_additional_formats();
    let formats = organizer.collector().formats();
    assert_eq!(formats.get_media_type("heic"), Some(MediaType::Image));
    assert_eq!(formats.get_media_type("raw"), Some(MediaType::Image));
    assert_eq!(formats.get_media_type(" raw"), None);
    assert_eq!(formats.get_media_type("mov"), Some(MediaType::Video));
    assert_eq!(formats.get_media_type("jpg"), Some(MediaType::Image));
    assert_eq!(formats.get_media_type(""), None);
}

#[test]
fn check_additional_formats_takes_empty_options_as_none() {
    let mut organizer = MediaOrganizer::new(options("year", false));
    organizer.check_additional_formats();
    let formats = organizer.collector().formats();
    assert_eq!(formats.get_media_type(""), None);
    assert_eq!(formats.get_media_type("jpg"), Some(MediaType::Image));

    let mut args = options("year", false);
    args.include_image_format = "a,,b".to_string();
    let mut organizer = MediaOrganizer::new(args);
    organizer.check_additional_formats();
    assert_eq!(organizer.collector().formats().get_media_type(""), Some(MediaType::Image));
}

#[test]
fn run_collects_reports_and_begins_the_placing_of_the_images() {
    let entry = |path: &str, depth: usize, len: u64| {
        Scanned::Entry(FileEntry {
            path: format!("{:?}", path),
            name: Ok(path.rsplit('/').next().unwrap().to_string()),
            depth,
            metadata: Some(Metadata {
                is_file: true,
                modified: Some(FileTime { secs: 1_686_830_400, nanos: 0 }),
                offset: 0,
                len,
            }),
        })
    };
    let items = vec![
        entry("source/a.jpg", 1, 1_500_000),
        entry("source/clip.mp4", 1, 2_000_000_000),
        entry("source/b.heic", 1, 500),
        entry("source/notes.txt", 1, 1),
        entry("source/sub/deep.png", 2, 1),
    ];
    let mut args = options("month", true);
    args.include_image_format = "heic".to_string();
    let mut organizer = MediaOrganizer::new(args);
    let report = organizer.run(&items).unwrap();

    assert_eq!(
        report.notes,
        vec![
            "No file extension found (\"source/notes.txt\"). Cannot determine file type. Skipping..."
                .to_string()
        ]
    );
    assert_eq!(report.statistics.images(), 2);
    assert_eq!(report.statistics.images_size(), 1_500_500);
    assert_eq!(report.statistics.videos(), 1);
    assert_eq!(report.statistics.videos_size(), 2_000_000_000);
    assert_eq!(report.statistics.total_size(), 2_001_500_500);
    assert_eq!(report.statistics, *organizer.collector().get_stats());
    assert_eq!(
        report.statistics.print_stat("1.5", "2.0", "2.0"),
        vec![
            "Result: ".to_string(),
            "Number of images: 2".to_string(),
            "Size of images: 1.5 MB".to_string(),
            "Number of videos: 1".to_string(),
            "Size of videos: 2.0 GB".to_string(),
            "Total size: 2.0 GB".to_string(),
        ]
    );
    assert_eq!(organizer.collector().get_files().len(), 3);
    assert_eq!(
        drive(report.placing.unwrap(), &[]),
        vec![
            Action::Exists { dir: dir(&["2023", "June"]) },
            Action::CreateDir { dir: dir(&["2023", "June"]), parents: true },
            Action::Copy { name: "a.jpg".to_string(), dir: dir(&["2023", "June"]) },
            Action::Exists { dir: dir(&["2023", "June"]) },
            Action::Copy { name: "b.heic".to_string(), dir: dir(&["2023", "June"]) },
        ]
    );
}

#[test]
fn run_with_an_unrecognized_style_still_reports() {
    let items = vec![Scanned::Entry(FileEntry {
        path: "\"source/a.jpg\"".to_string(),
        name: Ok("a.jpg".to_string()),
        depth: 1,
        metadata: Some(Metadata {
            is_file: true,
            modified: Some(FileTime { secs: 1_686_830_400, nanos: 0 }),
            offset: 0,
            len: 3,
        }),
    })];
    let mut organizer = MediaOrganizer::new(options("FLAT", false));
    let report = organizer.run(&items).unwrap();
    assert_eq!(report.statistics.images(), 1);
    assert_eq!(
        report.placing.unwrap_err(),
        PlaceError::UnrecognizedStyle { style: "FLAT".to_string() }
    );
}
