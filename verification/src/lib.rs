//! Verified core of a SketchyBar "now playing" item: track snapshots,
//! label and icon selection, the argument lists handed to `sketchybar`,
//! change detection for the event feed, configuration merging and the
//! daemon's singleton lock protocol.
pub mod icons;
pub mod text;
pub mod track;
pub mod config;
pub mod sketchybar;
pub mod feed;
pub mod media;
pub mod cli;
pub mod lock;
