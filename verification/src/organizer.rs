//! The organiser proper: format registry, collector and placement.

pub mod collector;
pub mod media;
pub mod media_organizer;
