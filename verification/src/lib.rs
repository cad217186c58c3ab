//! Classification and organisation of media files.
//!
//! The crate holds the rules of a media organiser as verified functions on
//! plain values: the registry of known file extensions, the statistics of a
//! scan, the decision whether a scanned entry becomes a catalogued record,
//! and the placement of records into a destination tree.  Reading the file
//! system and talking to the user are left to the program around it.

pub mod cli;
pub mod organizer;
pub mod text;
