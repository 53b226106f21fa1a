//! The kinds of entries a file browser lists.
use vstd::prelude::*;

verus! {

/// The sections a browser sidebar can show.
#[derive(Debug, Clone, Copy, PartialEq, Eq, Structural)]
pub enum Category {
    Files,
    Devices,
}

/// What a browser entry points at, in the order entries are listed.
#[derive(Debug, Clone, Copy, PartialEq, Eq, Structural, PartialOrd, Ord)]
pub enum EntryKind {
    UpOneLevel,
    Directory,
    Audio,
    File,
}

} // verus!
