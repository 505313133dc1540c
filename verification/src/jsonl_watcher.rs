//! Watching the issue file of a JSONL project.
//!
//! The watcher decides; its surroundings observe the file system, keep time,
//! and deliver events to the client.

use vstd::prelude::*;

use crate::path::{ends_with_name, PathParts};
use crate::watch::{FileChangeEvent, FileChangeEventView};

verus! {

/// What to watch for changes of the issue file.
#[derive(Debug, Clone, Copy, PartialEq, Eq)]
pub enum WatchTarget {
    /// The directory that holds the issue file.
    Directory,
    /// The directory above that one.
    Parent,
    /// Nothing: neither directory exists.
    Nothing,
}

/// Chooses what to watch. `directory` tells whether the directory of the issue
/// file exists, and `parent` whether the one above it does, where there is one.
pub fn choose_watch_target(directory: bool, parent: Option<bool>) -> (target: WatchTarget)
    ensures
        target == if directory {
            WatchTarget::Directory
        } else if parent == Some(true) {
            WatchTarget::Parent
        } else {
            WatchTarget::Nothing
        },
{
    if directory {
        WatchTarget::Directory
    } else {
        match parent {
            Some(true) => WatchTarget::Parent,
            _ => WatchTarget::Nothing,
        }
    }
}

/// How a file system notification says that paths have changed.
#[derive(Debug, Clone, Copy, PartialEq, Eq)]
pub enum ChangeKind {
    Create,
    Modify,
    Remove,
    /// Anything else, such as an access.
    Other,
}

/// The change type that clients are told for a notification of this kind.
pub open spec fn change_type(kind: ChangeKind) -> Option<Seq<char>> {
    match kind {
        ChangeKind::Create => Some("created"@),
        ChangeKind::Modify => Some("modified"@),
        ChangeKind::Remove => Some("removed"@),
        ChangeKind::Other => None,
    }
}

/// Whether the statuses of the epics have to be computed anew after a
/// notification of this kind.
pub open spec fn stales_epics(kind: ChangeKind) -> bool {
    kind == ChangeKind::Create || kind == ChangeKind::Modify
}

/// How long the watcher stays silent after a relevant notification.
pub const DEBOUNCE_NANOS: u128 = 100_000_000;

/// Whether a change of `path` concerns the issue file: it is named like one,
/// is a `.beads` directory, or is the issue file itself.
pub open spec fn concerns(path: Seq<Seq<u8>>, issue_file: Seq<Seq<u8>>) -> bool {
    ||| ends_with_name(path, "issues.jsonl"@)
    ||| ends_with_name(path, ".beads"@)
    ||| path == issue_file
}

/// Whether a change of any of `paths` concerns the issue file.
pub open spec fn relevant(paths: Seq<Seq<Seq<u8>>>, issue_file: Seq<Seq<u8>>) -> bool {
    exists|i: int| 0 <= i < paths.len() && #[trigger] concerns(paths[i], issue_file)
}

/// Whether a change of any of `paths` concerns the issue file.
pub fn is_relevant(paths: &Vec<PathParts>, issue_file: &PathParts) -> (result: bool)
    ensures
        result == relevant(paths.deep_view(), issue_file.deep_view()),
{
    let ghost all = paths.deep_view();
    let mut i: usize = 0;
    while i < paths.len()
        invariant
            i <= paths@.len(),
            all == paths.deep_view(),
            forall|k: int| 0 <= k < i ==> !#[trigger] concerns(all[k], issue_file.deep_view()),
        decreases paths@.len() - i,
    {
        let path: &PathParts = &paths[i];
        assert(all[i as int] == path.deep_view());
        if path.ends_with("issues.jsonl") || path.ends_with(".beads") || path.is(issue_file) {
            assert(concerns(all[i as int], issue_file.deep_view()));
            return true;
        }
        i = i + 1;
    }
    false
}

/// What the watcher's surroundings report.
#[derive(Debug, Clone, PartialEq, Eq)]
pub enum WatcherInput {
    /// The event was delivered to the client, at the time `now`.
    Delivered { now: u128 },
    /// The event could not be delivered: the client is gone.
    ClientGone,
    /// `paths` have changed as `kind` says; noticed at the time `now`.
    Changed { paths: Vec<PathParts>, kind: ChangeKind, now: u128 },
    /// There will be no more notifications.
    SourceClosed,
}

/// A [`WatcherInput`] as a value.
pub enum WatcherInputView {
    Delivered { now: u128 },
    ClientGone,
    Changed { paths: Seq<Seq<Seq<u8>>>, kind: ChangeKind, now: u128 },
    SourceClosed,
}

impl DeepView for WatcherInput {
    type V = WatcherInputView;

    open spec fn deep_view(&self) -> WatcherInputView {
        match self {
            WatcherInput::Delivered { now } => WatcherInputView::Delivered { now: *now },
            WatcherInput::ClientGone => WatcherInputView::ClientGone,
            WatcherInput::Changed { paths, kind, now } => WatcherInputView::Changed {
                paths: paths.deep_view(),
                kind: *kind,
                now: *now,
            },
            WatcherInput::SourceClosed => WatcherInputView::SourceClosed,
        }
    }
}

/// What the watcher's surroundings have to do.
#[derive(Debug, Clone, PartialEq, Eq)]
pub enum WatcherAction {
    /// Wait for the next notification.
    Listen,
    /// Compute the statuses of the epics anew, where `recompute_epics` says so,
    /// then deliver `event` to the client.
    Send { event: FileChangeEvent, recompute_epics: bool },
    /// End the watch.
    Stop,
}

/// A [`WatcherAction`] as a value.
pub enum WatcherActionView {
    Listen,
    Send { event: FileChangeEventView, recompute_epics: bool },
    Stop,
}

impl DeepView for WatcherAction {
    type V = WatcherActionView;

    open spec fn deep_view(&self) -> WatcherActionView {
        match self {
            WatcherAction::Listen => WatcherActionView::Listen,
            WatcherAction::Send { event, recompute_epics } => WatcherActionView::Send {
                event: event.deep_view(),
                recompute_epics: *recompute_epics,
            },
            WatcherAction::Stop => WatcherActionView::Stop,
        }
    }
}

/// A watch on the issue file of a project.
///
/// Times are nanoseconds on a clock that never runs backwards.
#[derive(Debug, Clone, PartialEq, Eq)]
pub struct JsonlWatcher {
    /// The issue file.
    pub issue_file: PathParts,
    /// The issue file as clients see it.
    pub shown_path: String,
    /// The time of the last relevant notification that was not too early; none
    /// before the client is connected.
    pub last_event: Option<u128>,
}

/// A [`JsonlWatcher`] as a value.
pub struct JsonlWatcherView {
    pub issue_file: Seq<Seq<u8>>,
    pub shown_path: Seq<char>,
    pub last_event: Option<u128>,
}

impl DeepView for JsonlWatcher {
    type V = JsonlWatcherView;

    open spec fn deep_view(&self) -> JsonlWatcherView {
        JsonlWatcherView {
            issue_file: self.issue_file.deep_view(),
            shown_path: self.shown_path@,
            last_event: self.last_event,
        }
    }
}

impl JsonlWatcherView {
    /// Whether a notification at the time `now` comes too soon after the last.
    pub open spec fn too_early(self, now: u128) -> bool {
        match self.last_event {
            Some(last) => now - last < DEBOUNCE_NANOS,
            None => false,
        }
    }

    /// Whether a notification is acted upon.
    pub open spec fn heeds(self, paths: Seq<Seq<Seq<u8>>>, now: u128) -> bool {
        relevant(paths, self.issue_file) && !self.too_early(now)
    }

    /// The watcher after `input`.
    pub open spec fn after(self, input: WatcherInputView) -> JsonlWatcherView {
        match input {
            WatcherInputView::Delivered { now } => if self.last_event is None {
                JsonlWatcherView { last_event: Some(now), ..self }
            } else {
                self
            },
            WatcherInputView::Changed { paths, kind, now } => if self.heeds(paths, now) {
                JsonlWatcherView { last_event: Some(now), ..self }
            } else {
                self
            },
            _ => self,
        }
    }

    /// What to do upon `input`.
    pub open spec fn action(self, input: WatcherInputView) -> WatcherActionView {
        match input {
            WatcherInputView::Delivered { .. } => WatcherActionView::Listen,
            WatcherInputView::ClientGone => WatcherActionView::Stop,
            WatcherInputView::SourceClosed => WatcherActionView::Stop,
            WatcherInputView::Changed { paths, kind, now } => match change_type(kind) {
                Some(change_type) => if self.heeds(paths, now) {
                    WatcherActionView::Send {
                        event: FileChangeEventView { path: self.shown_path, change_type },
                        recompute_epics: stales_epics(kind),
                    }
                } else {
                    WatcherActionView::Listen
                },
                None => WatcherActionView::Listen,
            },
        }
    }
}

impl JsonlWatcher {
    /// Starts a watch, and gives what to do first: to tell the client that it
    /// is connected.
    pub fn start(issue_file: PathParts, shown_path: String) -> (started: (
        JsonlWatcher,
        WatcherAction,
    ))
        ensures
            started.0.deep_view() == (JsonlWatcherView {
                issue_file: issue_file.deep_view(),
                shown_path: shown_path@,
                last_event: None,
            }),
            started.1.deep_view() == (WatcherActionView::Send {
                event: FileChangeEventView { path: shown_path@, change_type: "connected"@ },
                recompute_epics: false,
            }),
    {
        let event = FileChangeEvent::new(shown_path.as_str(), "connected");
        (
            JsonlWatcher { issue_file, shown_path, last_event: None },
            WatcherAction::Send { event, recompute_epics: false },
        )
    }

    /// Takes in what happened, and gives what to do next.
    pub fn step(&mut self, input: WatcherInput) -> (action: WatcherAction)
        ensures
            final(self).deep_view() == old(self).deep_view().after(input.deep_view()),
            action.deep_view() == old(self).deep_view().action(input.deep_view()),
    {
        match input {
            WatcherInput::Delivered { now } => {
                if self.last_event.is_none() {
                    self.last_event = Some(now);
                }
                WatcherAction::Listen
            },
            WatcherInput::ClientGone => WatcherAction::Stop,
            WatcherInput::SourceClosed => WatcherAction::Stop,
            WatcherInput::Changed { paths, kind, now } => {
                if !is_relevant(&paths, &self.issue_file) {
                    return WatcherAction::Listen;
                }
                if let Some(last) = self.last_event {
                    if now < last || now - last < DEBOUNCE_NANOS {
                        return WatcherAction::Listen;
                    }
                }
                self.last_event = Some(now);
                let (change_type, recompute_epics) = match kind {
                    ChangeKind::Create => ("created", true),
                    ChangeKind::Modify => ("modified", true),
                    ChangeKind::Remove => ("removed", false),
                    ChangeKind::Other => {
                        return WatcherAction::Listen;
                    },
                };
                let event = FileChangeEvent::new(self.shown_path.as_str(), change_type);
                WatcherAction::Send { event, recompute_epics }
            },
        }
    }
}

/// Once the client is connected, two notifications that are both acted upon
/// lie at least [`DEBOUNCE_NANOS`] apart, whatever comes between them.
pub proof fn heeded_changes_are_spaced(
    watcher: JsonlWatcherView,
    first: WatcherInputView,
    between: Seq<WatcherInputView>,
    second: WatcherInputView,
)
    requires
        first is Changed,
        second is Changed,
        watcher.heeds(first->paths, first->Changed_now),
        run(watcher.after(first), between).heeds(second->paths, second->Changed_now),
    ensures
        second->Changed_now >= first->Changed_now + DEBOUNCE_NANOS,
{
    lemma_last_event_advances(watcher.after(first), between);
}

/// The watcher after all of `inputs`.
pub open spec fn run(
    watcher: JsonlWatcherView,
    inputs: Seq<WatcherInputView>,
) -> JsonlWatcherView
    decreases inputs.len(),
{
    if inputs.len() == 0 {
        watcher
    } else {
        run(watcher, inputs.drop_last()).after(inputs.last())
    }
}

proof fn lemma_last_event_advances(watcher: JsonlWatcherView, inputs: Seq<WatcherInputView>)
    requires
        watcher.last_event is Some,
    ensures
        run(watcher, inputs).last_event is Some,
        run(watcher, inputs).last_event->0 >= watcher.last_event->0,
    decreases inputs.len(),
{
    if inputs.len() > 0 {
        lemma_last_event_advances(watcher, inputs.drop_last());
    }
}

/// The watch ends only when the client is gone or notifications cease.
pub proof fn watch_ends_only_when_cut_off(watcher: JsonlWatcherView, input: WatcherInputView)
    ensures
        watcher.action(input) is Stop <==> input is ClientGone || input is SourceClosed,
{
}

/// Whether one of `paths` is the issue file, or has the name of one or of the
/// directory that holds it.
pub open spec fn touches(paths: Seq<Seq<Seq<u8>>>, issue_file: Seq<Seq<u8>>, i: int) -> bool {
    &&& 0 <= i < paths.len()
    &&& paths[i] == issue_file || (paths[i].len() > 0 && (paths[i][paths[i].len() - 1]
        == vstd::utf8::encode_utf8("issues.jsonl"@) || paths[i][paths[i].len() - 1]
        == vstd::utf8::encode_utf8(".beads"@)))
}

proof fn lemma_touches(paths: Seq<Seq<Seq<u8>>>, issue_file: Seq<Seq<u8>>)
    ensures
        relevant(paths, issue_file) <==> exists|i: int| #[trigger] touches(paths, issue_file, i),
{
    if relevant(paths, issue_file) {
        let i = choose|i: int| 0 <= i < paths.len() && #[trigger] concerns(paths[i], issue_file);
        assert(touches(paths, issue_file, i));
    }
    if exists|i: int| #[trigger] touches(paths, issue_file, i) {
        let i = choose|i: int| #[trigger] touches(paths, issue_file, i);
        assert(concerns(paths[i], issue_file));
    }
}

/// A change of the issue file that comes at least 100 ms after the last one is
/// always told, however long after: with the path that clients see, as created,
/// modified or removed. Epics are computed anew exactly when the file was
/// created or modified.
pub proof fn spaced_changes_are_told(
    watcher: JsonlWatcherView,
    paths: Seq<Seq<Seq<u8>>>,
    kind: ChangeKind,
    now: u128,
    i: int,
)
    requires
        touches(paths, watcher.issue_file, i),
        watcher.last_event matches Some(last) ==> now >= last + 100_000_000,
    ensures
        ({
            let input = WatcherInputView::Changed { paths, kind, now };
            &&& watcher.after(input) == (JsonlWatcherView { last_event: Some(now), ..watcher })
            &&& watcher.action(input) == match kind {
                ChangeKind::Create => WatcherActionView::Send {
                    event: FileChangeEventView {
                        path: watcher.shown_path,
                        change_type: "created"@,
                    },
                    recompute_epics: true,
                },
                ChangeKind::Modify => WatcherActionView::Send {
                    event: FileChangeEventView {
                        path: watcher.shown_path,
                        change_type: "modified"@,
                    },
                    recompute_epics: true,
                },
                ChangeKind::Remove => WatcherActionView::Send {
                    event: FileChangeEventView {
                        path: watcher.shown_path,
                        change_type: "removed"@,
                    },
                    recompute_epics: false,
                },
                ChangeKind::Other => WatcherActionView::Listen,
            }
        }),
{
    lemma_touches(paths, watcher.issue_file);
}

/// A change that comes less than 100 ms after the last one, or that touches
/// nothing of the issue file, is not told, and leaves the watch as it was.
pub proof fn other_changes_are_not_told(
    watcher: JsonlWatcherView,
    paths: Seq<Seq<Seq<u8>>>,
    kind: ChangeKind,
    now: u128,
)
    requires
        (watcher.last_event matches Some(last) && now < last + 100_000_000) || (forall|i: int|
            !#[trigger] touches(paths, watcher.issue_file, i)),
    ensures
        ({
            let input = WatcherInputView::Changed { paths, kind, now };
            &&& watcher.after(input) == watcher
            &&& watcher.action(input) == WatcherActionView::Listen
        }),
{
    lemma_touches(paths, watcher.issue_file);
}

/// After a delivery the watch listens on. The first one, that of the greeting,
/// starts the clock; no other moves it. A lost client and the end of
/// notifications change nothing but end the watch.
pub proof fn deliveries_start_the_clock_once(watcher: JsonlWatcherView, now: u128)
    ensures
        watcher.action(WatcherInputView::Delivered { now }) == WatcherActionView::Listen,
        watcher.last_event is None ==> watcher.after(WatcherInputView::Delivered { now }) == (
        JsonlWatcherView { last_event: Some(now), ..watcher }),
        watcher.last_event is Some ==> watcher.after(WatcherInputView::Delivered { now })
            == watcher,
        watcher.after(WatcherInputView::ClientGone) == watcher,
        watcher.after(WatcherInputView::SourceClosed) == watcher,
        watcher.action(WatcherInputView::ClientGone) == WatcherActionView::Stop,
        watcher.action(WatcherInputView::SourceClosed) == WatcherActionView::Stop,
{
}

/// The watch shows all of what it holds, takes in and asks for.
pub proof fn watch_views_show_everything(
    watcher: JsonlWatcher,
    paths: Vec<PathParts>,
    kind: ChangeKind,
    now: u128,
    event: FileChangeEvent,
    recompute_epics: bool,
)
    ensures
        watcher.deep_view().issue_file == watcher.issue_file.deep_view(),
        watcher.deep_view().shown_path == watcher.shown_path@,
        watcher.deep_view().last_event == watcher.last_event,
        (WatcherInput::Changed { paths, kind, now }).deep_view() == (WatcherInputView::Changed {
            paths: paths.deep_view(),
            kind,
            now,
        }),
        (WatcherInput::Delivered { now }).deep_view() == (WatcherInputView::Delivered { now }),
        WatcherInput::ClientGone.deep_view() == WatcherInputView::ClientGone,
        WatcherInput::SourceClosed.deep_view() == WatcherInputView::SourceClosed,
        (WatcherAction::Send { event, recompute_epics }).deep_view() == (WatcherActionView::Send {
            event: event.deep_view(),
            recompute_epics,
        }),
        WatcherAction::Listen.deep_view() == WatcherActionView::Listen,
        WatcherAction::Stop.deep_view() == WatcherActionView::Stop,
{
}

} // verus!
