//! A per-day plain-text journal: where the file of a day lives, what an
//! appended message adds to it, and which lines a listing shows.

pub mod command;
pub mod day;
pub mod editor;
pub mod failure;
pub mod lines;
pub mod log;
pub mod root;
pub mod text;
