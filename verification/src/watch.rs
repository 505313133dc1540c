//! What clients of the board are told about changes.

use vstd::prelude::*;

verus! {

/// Query parameters for the watch endpoint.
#[derive(Debug, Clone, PartialEq, Eq)]
pub struct WatchParams {
    /// The project path to watch for changes.
    pub path: String,
}

/// File change event sent to clients.
#[derive(Debug, Clone, PartialEq, Eq)]
pub struct FileChangeEvent {
    /// The path of the changed file.
    pub path: String,
    /// The type of change (connected, modified, created, removed).
    pub change_type: String,
}

/// A [`FileChangeEvent`] as a value.
pub struct FileChangeEventView {
    pub path: Seq<char>,
    pub change_type: Seq<char>,
}

impl DeepView for FileChangeEvent {
    type V = FileChangeEventView;

    open spec fn deep_view(&self) -> FileChangeEventView {
        FileChangeEventView { path: self.path@, change_type: self.change_type@ }
    }
}

impl FileChangeEvent {
    /// The event that something of the type `change_type` happened at `path`.
    pub fn new(path: &str, change_type: &str) -> (event: FileChangeEvent)
        ensures
            event.deep_view() == (FileChangeEventView { path: path@, change_type: change_type@ }),
            event.path@ == path@,
            event.change_type@ == change_type@,
    {
        FileChangeEvent { path: path.to_owned(), change_type: change_type.to_owned() }
    }
}

/// An event shows its path and its type.
pub proof fn events_show_every_field(event: FileChangeEvent)
    ensures
        event.deep_view().path == event.path@,
        event.deep_view().change_type == event.change_type@,
{
}

} // verus!
