//! The options of a run, and the checks on the values that a user gives.

use crate::text::{
    ascii_lowercase, debug_string, debug_text, is_ascii_text, lowercase, lowercased, same_text,
};
use vstd::prelude::*;

verus! {

/// The options of a run.
#[derive(Debug)]
pub struct Args {
    /// The directory that is scanned for media files.
    pub dest: String,
    /// The directory under which the files are placed.
    pub target: String,
    /// How the files are laid out under the target: `year`, `month` or `flat`.
    pub style: String,
    /// Whether videos go to a folder of their own.
    pub separate_videos: bool,
    /// Whether the scan descends into the directories below `dest`.
    pub recursive: bool,
    /// Whether more is reported.
    pub verbose: bool,
    /// More image extensions, as a comma-separated list.
    pub include_image_format: String,
    /// More video extensions, as a comma-separated list.
    pub include_video_format: String,
    /// Whether a file leaves the scanned directory once it is placed.
    pub use_move: bool,
}

/// What the user is told of a path that does not exist.
pub open spec fn missing_path_text(path: Seq<char>) -> Seq<char> {
    "Given path "@ + debug_text(path) + " does not exists."@
}

/// Accepts a path that exists.  Whether it does is for the caller to find
/// out; a path that does not is answered with a message for the user.
pub fn verify_path(path: &str, exists: bool) -> (r: Result<String, String>)
    ensures
        exists ==> r is Ok && r->Ok_0@ == path@,
        !exists ==> r is Err && r->Err_0@ == missing_path_text(path@),
{
    if exists {
        Ok(path.to_owned())
    } else {
        let mut text = "Given path ".to_owned();
        let shown = debug_string(path);
        text.append(shown.as_str());
        text.append(" does not exists.");
        assert(text@ =~= missing_path_text(path@));
        Err(text)
    }
}

/// Whether a string, already in lower case, names a layout.
pub open spec fn valid_style(lowered: Seq<char>) -> bool {
    lowered == "year"@ || lowered == "month"@ || lowered == "flat"@
}

/// Tests `valid_style`.
pub fn is_valid_style(lowered: &str) -> (r: bool)
    ensures
        r == valid_style(lowered@),
{
    same_text(lowered, "year") || same_text(lowered, "month") || same_text(lowered, "flat")
}

/// What the user is told of a style that is none of the three.
pub open spec fn unknown_style_text() -> Seq<char> {
    "Given style is not defined. Possible options are: [\"year\", \"month\", \"flat\"]"@
}

/// Accepts a style whose lower-case form names a layout, and hands back
/// that lower-case form, which is the name of the layout; any other is
/// answered with a message for the user.
pub fn verify_style(style: &str) -> (r: Result<String, String>)
    ensures
        valid_style(lowercase(style@)) ==> r is Ok && r->Ok_0@ == lowercase(style@),
        !valid_style(lowercase(style@)) ==> r is Err && r->Err_0@ == unknown_style_text(),
        is_ascii_text(style@) ==> lowercase(style@) == ascii_lowercase(style@),
{
    let lowered = lowercased(style);
    if is_valid_style(lowered.as_str()) {
        Ok(lowered)
    } else {
        Err(
            "Given style is not defined. Possible options are: [\"year\", \"month\", \"flat\"]".to_owned(),
        )
    }
}

} // verus!
