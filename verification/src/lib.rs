//! Detection engine for game installations.
//!
//! Given the entries found by a bounded-depth walk of a candidate folder,
//! the library decides whether the folder holds a playable game, picks the
//! executable that is most likely the real game binary (rather than an
//! installer, uninstaller or utility tool), and recognizes the authoring
//! engine from characteristic marker filenames.
//!
//! The library itself touches no filesystem: a caller walks each folder
//! (root, its children, and their children), records every entry's path and
//! file size, and hands the result in as a [`detect::FolderWalk`]. Everything
//! from there on is verified: the scoring rules, the signature table, the
//! choice of executable, and the order of batch results.

pub mod detect;
pub mod laws;
pub mod paths;
pub mod score;
pub mod signatures;
pub mod text;
