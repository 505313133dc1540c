//! Watching a Dolt database by polling.
//!
//! The watcher asks for the hashes of the tables at intervals, and tells the
//! client when one of them has changed. It decides; its surroundings query the
//! database, keep time, and deliver events.

use vstd::prelude::*;

use crate::watch::{FileChangeEvent, FileChangeEventView};

verus! {

/// Asks for the hashes of the issues, comments and dependencies tables, in this
/// order.
pub const HASH_QUERY: &'static str = "SELECT dolt_hashof_table('issues'), dolt_hashof_table('comments'), dolt_hashof_table('dependencies')";

/// How long the watcher waits between two polls.
pub const POLL_INTERVAL_SECS: u64 = 2;

/// How long the watcher waits after a query that gave no hashes.
pub const RETRY_DELAY_SECS: u64 = 5;

// ---------------------------------------------------------------------------
// The hashes
// ---------------------------------------------------------------------------

/// The hashes of the tables. That of a table which does not exist yet is none;
/// there are no hashes without an issues table.
#[derive(Debug, Clone, PartialEq, Eq)]
pub struct TableHashes {
    pub issues: String,
    pub comments: Option<String>,
    pub dependencies: Option<String>,
}

/// [`TableHashes`] as a value.
pub struct TableHashesView {
    pub issues: Seq<char>,
    pub comments: Option<Seq<char>>,
    pub dependencies: Option<Seq<char>>,
}

impl DeepView for TableHashes {
    type V = TableHashesView;

    open spec fn deep_view(&self) -> TableHashesView {
        TableHashesView {
            issues: self.issues@,
            comments: self.comments.deep_view(),
            dependencies: self.dependencies.deep_view(),
        }
    }
}

fn same_hash(a: &Option<String>, b: &Option<String>) -> (result: bool)
    ensures
        result == (a.deep_view() == b.deep_view()),
{
    match (a, b) {
        (Some(a), Some(b)) => *a == *b,
        (None, None) => true,
        _ => false,
    }
}

impl TableHashes {
    /// Whether each table has the same hash in both.
    pub fn same(&self, other: &TableHashes) -> (result: bool)
        ensures
            result == (self.deep_view() == other.deep_view()),
            result <==> self.issues@ == other.issues@ && self.comments.deep_view()
                == other.comments.deep_view() && self.dependencies.deep_view()
                == other.dependencies.deep_view(),
    {
        self.issues == other.issues && same_hash(&self.comments, &other.comments) && same_hash(
            &self.dependencies,
            &other.dependencies,
        )
    }
}

/// A row of the reply to [`HASH_QUERY`]. A column that is NULL is none.
#[derive(Debug, Clone, PartialEq, Eq)]
pub struct HashRow {
    pub issues: Option<String>,
    pub comments: Option<String>,
    pub dependencies: Option<String>,
}

/// What came of asking for the hashes.
#[derive(Debug, Clone, PartialEq, Eq)]
pub enum HashReply {
    /// The database server cannot be used.
    NoServer,
    /// The server gave no connection.
    NoConnection,
    /// The query failed.
    QueryFailed,
    /// The first row of the reply, when there is one.
    Row(Option<HashRow>),
}

/// The hashes that `reply` holds, if any.
pub open spec fn replied_hashes(reply: HashReply) -> Option<TableHashesView> {
    match reply {
        HashReply::Row(Some(row)) => match row.issues {
            Some(issues) => Some(
                TableHashesView {
                    issues: issues@,
                    comments: row.comments.deep_view(),
                    dependencies: row.dependencies.deep_view(),
                },
            ),
            None => None,
        },
        _ => None,
    }
}

/// The hashes of the tables, from what came of asking for them; none on any
/// error.
pub fn query_hash(reply: HashReply) -> (hashes: Option<TableHashes>)
    ensures
        hashes.deep_view() == replied_hashes(reply),
        hashes is Some <==> reply is Row && reply->Row_0 is Some && reply->Row_0->0.issues is Some,
        hashes matches Some(h) ==> Some(h.issues) == reply->Row_0->0.issues && h.comments
            == reply->Row_0->0.comments && h.dependencies == reply->Row_0->0.dependencies,
{
    match reply {
        HashReply::Row(Some(row)) => match row.issues {
            Some(issues) => Some(
                TableHashes { issues, comments: row.comments, dependencies: row.dependencies },
            ),
            None => None,
        },
        _ => None,
    }
}

// ---------------------------------------------------------------------------
// The watcher
// ---------------------------------------------------------------------------

/// Where a watch stands.
#[derive(Debug, Clone, PartialEq, Eq)]
pub enum PollStep {
    /// The client has to be told that it is connected.
    Greet,
    /// The first hashes have to be asked for.
    FirstQuery,
    /// The first query gave no hashes, and has to be repeated after a while.
    FirstPause,
    /// The next poll is due after the interval.
    Idle { previous: TableHashes },
    /// The hashes have to be asked for.
    Query { previous: TableHashes },
    /// A query gave no hashes; polling goes on after a while.
    Pause { previous: TableHashes },
    /// The hashes have changed to `current`; the client has to be told.
    Notify { current: TableHashes },
    /// The watch has ended.
    Stopped,
}

/// A [`PollStep`] as a value.
pub enum PollStepView {
    Greet,
    FirstQuery,
    FirstPause,
    Idle { previous: TableHashesView },
    Query { previous: TableHashesView },
    Pause { previous: TableHashesView },
    Notify { current: TableHashesView },
    Stopped,
}

impl DeepView for PollStep {
    type V = PollStepView;

    open spec fn deep_view(&self) -> PollStepView {
        match self {
            PollStep::Greet => PollStepView::Greet,
            PollStep::FirstQuery => PollStepView::FirstQuery,
            PollStep::FirstPause => PollStepView::FirstPause,
            PollStep::Idle { previous } => PollStepView::Idle { previous: previous.deep_view() },
            PollStep::Query { previous } => PollStepView::Query { previous: previous.deep_view() },
            PollStep::Pause { previous } => PollStepView::Pause { previous: previous.deep_view() },
            PollStep::Notify { current } => PollStepView::Notify { current: current.deep_view() },
            PollStep::Stopped => PollStepView::Stopped,
        }
    }
}

/// What the surroundings of a watch report.
#[derive(Debug, Clone, PartialEq, Eq)]
pub enum PollEvent {
    /// The event was delivered to the client.
    Delivered,
    /// The event could not be delivered: the client is gone.
    ClientGone,
    /// The hashes were asked for; none on any error.
    Hash(Option<TableHashes>),
    /// The interval has passed. `closed` tells whether the client is gone.
    Ticked { closed: bool },
    /// The pause is over. `closed` tells whether the client is gone.
    Waited { closed: bool },
}

/// A [`PollEvent`] as a value.
pub enum PollEventView {
    Delivered,
    ClientGone,
    Hash(Option<TableHashesView>),
    Ticked { closed: bool },
    Waited { closed: bool },
}

impl DeepView for PollEvent {
    type V = PollEventView;

    open spec fn deep_view(&self) -> PollEventView {
        match self {
            PollEvent::Delivered => PollEventView::Delivered,
            PollEvent::ClientGone => PollEventView::ClientGone,
            PollEvent::Hash(hash) => PollEventView::Hash(hash.deep_view()),
            PollEvent::Ticked { closed } => PollEventView::Ticked { closed: *closed },
            PollEvent::Waited { closed } => PollEventView::Waited { closed: *closed },
        }
    }
}

/// What the surroundings of a watch have to do.
#[derive(Debug, Clone, PartialEq, Eq)]
pub enum PollAction {
    /// Deliver the event to the client.
    Send(FileChangeEvent),
    /// Ask for the hashes.
    Query,
    /// Wait for the interval to pass.
    Tick,
    /// Wait for so many seconds.
    Wait { secs: u64 },
    /// End the watch.
    Stop,
}

/// A [`PollAction`] as a value.
pub enum PollActionView {
    Send(FileChangeEventView),
    Query,
    Tick,
    Wait { secs: u64 },
    Stop,
}

impl DeepView for PollAction {
    type V = PollActionView;

    open spec fn deep_view(&self) -> PollActionView {
        match self {
            PollAction::Send(event) => PollActionView::Send(event.deep_view()),
            PollAction::Query => PollActionView::Query,
            PollAction::Tick => PollActionView::Tick,
            PollAction::Wait { secs } => PollActionView::Wait { secs: *secs },
            PollAction::Stop => PollActionView::Stop,
        }
    }
}

/// A watch on the database of a project.
#[derive(Debug, Clone, PartialEq, Eq)]
pub struct DoltWatcher {
    /// The path of the project as clients see it.
    pub shown_path: String,
    pub step: PollStep,
}

/// A [`DoltWatcher`] as a value.
pub struct DoltWatcherView {
    pub shown_path: Seq<char>,
    pub step: PollStepView,
}

impl DeepView for DoltWatcher {
    type V = DoltWatcherView;

    open spec fn deep_view(&self) -> DoltWatcherView {
        DoltWatcherView { shown_path: self.shown_path@, step: self.step.deep_view() }
    }
}

impl DoltWatcherView {
    /// How a watch on the project at `shown_path` begins.
    pub open spec fn begun(shown_path: Seq<char>) -> DoltWatcherView {
        DoltWatcherView { shown_path, step: PollStepView::Greet }
    }

    /// What to do now.
    pub open spec fn action(self) -> PollActionView {
        match self.step {
            PollStepView::Greet => PollActionView::Send(
                FileChangeEventView { path: self.shown_path, change_type: "connected"@ },
            ),
            PollStepView::FirstQuery => PollActionView::Query,
            PollStepView::FirstPause => PollActionView::Wait { secs: RETRY_DELAY_SECS },
            PollStepView::Idle { .. } => PollActionView::Tick,
            PollStepView::Query { .. } => PollActionView::Query,
            PollStepView::Pause { .. } => PollActionView::Wait { secs: RETRY_DELAY_SECS },
            PollStepView::Notify { .. } => PollActionView::Send(
                FileChangeEventView { path: self.shown_path, change_type: "modified"@ },
            ),
            PollStepView::Stopped => PollActionView::Stop,
        }
    }

    /// The step that follows upon `event`. An event that the watch does not
    /// wait for changes nothing.
    pub open spec fn next_step(self, event: PollEventView) -> PollStepView {
        match (self.step, event) {
            (PollStepView::Greet, PollEventView::Delivered) => PollStepView::FirstQuery,
            (PollStepView::Greet, PollEventView::ClientGone) => PollStepView::Stopped,
            (PollStepView::FirstQuery, PollEventView::Hash(Some(hash))) => {
                PollStepView::Idle { previous: hash }
            },
            (PollStepView::FirstQuery, PollEventView::Hash(None)) => PollStepView::FirstPause,
            (PollStepView::FirstPause, PollEventView::Waited { closed }) => {
                if closed {
                    PollStepView::Stopped
                } else {
                    PollStepView::FirstQuery
                }
            },
            (PollStepView::Idle { previous }, PollEventView::Ticked { closed }) => {
                if closed {
                    PollStepView::Stopped
                } else {
                    PollStepView::Query { previous }
                }
            },
            (PollStepView::Query { previous }, PollEventView::Hash(Some(hash))) => {
                if hash == previous {
                    PollStepView::Idle { previous }
                } else {
                    PollStepView::Notify { current: hash }
                }
            },
            (PollStepView::Query { previous }, PollEventView::Hash(None)) => {
                PollStepView::Pause { previous }
            },
            (PollStepView::Pause { previous }, PollEventView::Waited { closed }) => {
                if closed {
                    PollStepView::Stopped
                } else {
                    PollStepView::Idle { previous }
                }
            },
            (PollStepView::Notify { current }, PollEventView::Delivered) => {
                PollStepView::Idle { previous: current }
            },
            (PollStepView::Notify { .. }, PollEventView::ClientGone) => PollStepView::Stopped,
            _ => self.step,
        }
    }

    /// The watch after `event`.
    pub open spec fn after(self, event: PollEventView) -> DoltWatcherView {
        DoltWatcherView { shown_path: self.shown_path, step: self.next_step(event) }
    }
}

impl DoltWatcher {
    /// Begins a watch on the project at `shown_path`.
    pub fn begin(shown_path: String) -> (watcher: DoltWatcher)
        ensures
            watcher.deep_view() == DoltWatcherView::begun(shown_path@),
    {
        DoltWatcher { shown_path, step: PollStep::Greet }
    }

    /// What to do now.
    pub fn action(&self) -> (action: PollAction)
        ensures
            action.deep_view() == self.deep_view().action(),
    {
        match &self.step {
            PollStep::Greet => PollAction::Send(
                FileChangeEvent::new(self.shown_path.as_str(), "connected"),
            ),
            PollStep::FirstQuery => PollAction::Query,
            PollStep::FirstPause => PollAction::Wait { secs: RETRY_DELAY_SECS },
            PollStep::Idle { .. } => PollAction::Tick,
            PollStep::Query { .. } => PollAction::Query,
            PollStep::Pause { .. } => PollAction::Wait { secs: RETRY_DELAY_SECS },
            PollStep::Notify { .. } => PollAction::Send(
                FileChangeEvent::new(self.shown_path.as_str(), "modified"),
            ),
            PollStep::Stopped => PollAction::Stop,
        }
    }

    /// Takes in what happened, and gives what to do next.
    pub fn step(&mut self, event: PollEvent) -> (action: PollAction)
        ensures
            final(self).deep_view() == old(self).deep_view().after(event.deep_view()),
            action.deep_view() == final(self).deep_view().action(),
    {
        let mut step = PollStep::Stopped;
        std::mem::swap(&mut step, &mut self.step);
        let next = match (step, event) {
            (PollStep::Greet, PollEvent::Delivered) => PollStep::FirstQuery,
            (PollStep::Greet, PollEvent::ClientGone) => PollStep::Stopped,
            (PollStep::FirstQuery, PollEvent::Hash(Some(hash))) => {
                PollStep::Idle { previous: hash }
            },
            (PollStep::FirstQuery, PollEvent::Hash(None)) => PollStep::FirstPause,
            (PollStep::FirstPause, PollEvent::Waited { closed }) => {
                if closed {
                    PollStep::Stopped
                } else {
                    PollStep::FirstQuery
                }
            },
            (PollStep::Idle { previous }, PollEvent::Ticked { closed }) => {
                if closed {
                    PollStep::Stopped
                } else {
                    PollStep::Query { previous }
                }
            },
            (PollStep::Query { previous }, PollEvent::Hash(Some(hash))) => {
                if hash.same(&previous) {
                    PollStep::Idle { previous }
                } else {
                    PollStep::Notify { current: hash }
                }
            },
            (PollStep::Query { previous }, PollEvent::Hash(None)) => PollStep::Pause { previous },
            (PollStep::Pause { previous }, PollEvent::Waited { closed }) => {
                if closed {
                    PollStep::Stopped
                } else {
                    PollStep::Idle { previous }
                }
            },
            (PollStep::Notify { current }, PollEvent::Delivered) => {
                PollStep::Idle { previous: current }
            },
            (PollStep::Notify { .. }, PollEvent::ClientGone) => PollStep::Stopped,
            (step, _) => step,
        };
        self.step = next;
        self.action()
    }
}

// ---------------------------------------------------------------------------
// Laws
// ---------------------------------------------------------------------------

/// The watch after all of `events`.
pub open spec fn run(watcher: DoltWatcherView, events: Seq<PollEventView>) -> DoltWatcherView
    decreases events.len(),
{
    if events.len() == 0 {
        watcher
    } else {
        run(watcher, events.drop_last()).after(events.last())
    }
}

/// A watch first tells the client that it is connected, with the path of the
/// project, and asks for nothing before that was delivered.
pub proof fn clients_are_greeted_first(shown_path: Seq<char>, events: Seq<PollEventView>)
    requires
        forall|i: int| 0 <= i < events.len() ==> #[trigger] events[i] != PollEventView::Delivered,
    ensures
        ({
            let watcher = run(DoltWatcherView::begun(shown_path), events);
            ||| watcher.action() == PollActionView::Send(
                FileChangeEventView { path: shown_path, change_type: "connected"@ },
            )
            ||| watcher.action() == PollActionView::Stop
        }),
{
    lemma_greeting(shown_path, events);
}

proof fn lemma_greeting(shown_path: Seq<char>, events: Seq<PollEventView>)
    requires
        forall|i: int| 0 <= i < events.len() ==> #[trigger] events[i] != PollEventView::Delivered,
    ensures
        ({
            let watcher = run(DoltWatcherView::begun(shown_path), events);
            watcher.shown_path == shown_path && (watcher.step is Greet || watcher.step is Stopped)
        }),
    decreases events.len(),
{
    if events.len() > 0 {
        let shorter = events.drop_last();
        assert forall|i: int| 0 <= i < shorter.len() implies #[trigger] shorter[i]
            != PollEventView::Delivered by {
            assert(shorter[i] == events[i]);
        }
        lemma_greeting(shown_path, shorter);
        assert(events[events.len() - 1] != PollEventView::Delivered);
    }
}

/// Whether `event` tells that the client is gone.
pub open spec fn tells_client_gone(event: PollEventView) -> bool {
    event == PollEventView::ClientGone || event == (PollEventView::Ticked { closed: true })
        || event == (PollEventView::Waited { closed: true })
}

/// A watch ends only when the client is gone: no failed query and no other
/// event ends it.
pub proof fn watch_ends_only_when_the_client_is_gone(
    shown_path: Seq<char>,
    events: Seq<PollEventView>,
)
    requires
        run(DoltWatcherView::begun(shown_path), events).action() is Stop,
    ensures
        exists|i: int| 0 <= i < events.len() && tells_client_gone(#[trigger] events[i]),
    decreases events.len(),
{
    if events.len() > 0 {
        let shorter = events.drop_last();
        if tells_client_gone(events.last()) {
            assert(tells_client_gone(events[events.len() - 1]));
        } else {
            watch_ends_only_when_the_client_is_gone(shown_path, shorter);
            let i = choose|i: int|
                0 <= i < shorter.len() && tells_client_gone(#[trigger] shorter[i]);
            assert(events[i] == shorter[i]);
        }
    }
}

/// Whether the watch waits for an event like `event`.
pub open spec fn awaits(action: PollActionView, event: PollEventView) -> bool {
    match action {
        PollActionView::Send(_) => event is Delivered || event is ClientGone,
        PollActionView::Query => event is Hash,
        PollActionView::Tick => event is Ticked,
        PollActionView::Wait { .. } => event is Waited,
        PollActionView::Stop => false,
    }
}

/// A lost client ends the watch: an awaited event that tells that the client
/// is gone does so wherever the watch stands, also before it has seen any hash.
pub proof fn lost_clients_end_the_watch(watcher: DoltWatcherView, event: PollEventView)
    requires
        awaits(watcher.action(), event),
        tells_client_gone(event),
    ensures
        watcher.after(event).action() is Stop,
{
}

/// Between two queries the watch always learns whether the client is there:
/// what follows the reply to a query is awaited with an event that tells, so a
/// lost client is asked for nothing more.
pub proof fn no_query_follows_a_query(
    watcher: DoltWatcherView,
    hashes: Option<TableHashesView>,
    event: PollEventView,
)
    requires
        watcher.action() is Query,
    ensures
        ({
            let replied = watcher.after(PollEventView::Hash(hashes));
            &&& replied.action() is Send || replied.action() is Tick || replied.action() is Wait
            &&& awaits(replied.action(), event) && tells_client_gone(event) ==> replied.after(
                event,
            ).action() is Stop
        }),
{
}

/// A watch that has ended stays ended.
pub proof fn ended_watches_stay_ended(watcher: DoltWatcherView, events: Seq<PollEventView>)
    requires
        watcher.action() is Stop,
    ensures
        run(watcher, events) == watcher,
    decreases events.len(),
{
    if events.len() > 0 {
        ended_watches_stay_ended(watcher, events.drop_last());
    }
}

/// A poll tells the client of a modification exactly when the hash of any of
/// the tables differs from the one before, and the hashes that it saw are those
/// that the next poll is held against.
pub proof fn changes_of_any_table_are_told(
    watcher: DoltWatcherView,
    previous: TableHashesView,
    hashes: TableHashesView,
)
    requires
        watcher.step == (PollStepView::Query { previous }),
    ensures
        ({
            let polled = watcher.after(PollEventView::Hash(Some(hashes)));
            let changed = hashes.issues != previous.issues || hashes.comments
                != previous.comments || hashes.dependencies != previous.dependencies;
            &&& polled.action() == PollActionView::Send(
                FileChangeEventView { path: watcher.shown_path, change_type: "modified"@ },
            ) <==> changed
            &&& changed ==> polled.after(PollEventView::Delivered).step == (
            PollStepView::Idle { previous: hashes })
            &&& !changed ==> polled.step == (PollStepView::Idle { previous: hashes })
        }),
{
}

/// While the client is there, a failed query is repeated after a pause, and no
/// change is missed by it: the next poll is held against the same hashes.
pub proof fn failed_queries_are_repeated(watcher: DoltWatcherView)
    requires
        watcher.action() is Query,
    ensures
        ({
            let paused = watcher.after(PollEventView::Hash(None));
            let resumed = paused.after(PollEventView::Waited { closed: false });
            &&& paused.action() == PollActionView::Wait { secs: RETRY_DELAY_SECS }
            &&& match watcher.step {
                PollStepView::Query { previous } => resumed.step == (
                PollStepView::Idle { previous }),
                _ => resumed == watcher,
            }
        }),
{
}

/// A watch goes from the greeting to the first query, waits for the interval
/// with the hashes that it saw, and then queries again, held against them.
pub proof fn watches_go_step_by_step(
    watcher: DoltWatcherView,
    hashes: TableHashesView,
    event: PollEventView,
)
    ensures
        watcher.step is Greet ==> watcher.after(PollEventView::Delivered).step
            == PollStepView::FirstQuery,
        watcher.step is FirstQuery ==> watcher.after(PollEventView::Hash(Some(hashes))).step == (
        PollStepView::Idle { previous: hashes }),
        watcher.step is FirstPause ==> watcher.after(
            PollEventView::Waited { closed: false },
        ).step == PollStepView::FirstQuery,
        watcher.step matches PollStepView::Idle { previous } ==> watcher.after(
            PollEventView::Ticked { closed: false },
        ).step == (PollStepView::Query { previous }),
        watcher.step matches PollStepView::Notify { current } ==> watcher.after(
            PollEventView::Delivered,
        ).step == (PollStepView::Idle { previous: current }),
        watcher.after(event).shown_path == watcher.shown_path,
        !awaits(watcher.action(), event) ==> watcher.after(event) == watcher,
{
}

/// What is to be done follows from where the watch stands.
pub proof fn actions_follow_the_step(watcher: DoltWatcherView, shown_path: Seq<char>)
    ensures
        DoltWatcherView::begun(shown_path).shown_path == shown_path,
        DoltWatcherView::begun(shown_path).step is Greet,
        watcher.action() is Send <==> watcher.step is Greet || watcher.step is Notify,
        watcher.action() is Query <==> watcher.step is FirstQuery || watcher.step is Query,
        watcher.action() is Tick <==> watcher.step is Idle,
        watcher.action() is Stop <==> watcher.step is Stopped,
        watcher.action() matches PollActionView::Wait { secs } ==> secs == 5,
        watcher.step is Greet ==> watcher.action() == PollActionView::Send(
            FileChangeEventView { path: watcher.shown_path, change_type: "connected"@ },
        ),
        watcher.step is Notify ==> watcher.action() == PollActionView::Send(
            FileChangeEventView { path: watcher.shown_path, change_type: "modified"@ },
        ),
        POLL_INTERVAL_SECS == 2,
{
}

/// A reply gives hashes exactly when it has a row with one for the issues
/// table, and gives those of that row.
pub proof fn replies_give_the_hashes_of_their_row(reply: HashReply)
    ensures
        replied_hashes(reply) is Some <==> reply is Row && reply->Row_0 is Some
            && reply->Row_0->0.issues is Some,
        replied_hashes(reply) matches Some(hashes) ==> {
            let row = reply->Row_0->0;
            &&& hashes.issues == row.issues->0@
            &&& hashes.comments == row.comments.deep_view()
            &&& hashes.dependencies == row.dependencies.deep_view()
        },
{
}

/// Hashes, where a watch stands, what it takes in and what it asks for show
/// everything.
pub proof fn poll_views_show_everything(
    hashes: TableHashes,
    watcher: DoltWatcher,
    hash: Option<TableHashes>,
    closed: bool,
    event: FileChangeEvent,
    secs: u64,
)
    ensures
        hashes.deep_view().issues == hashes.issues@,
        hashes.deep_view().comments == hashes.comments.deep_view(),
        hashes.deep_view().dependencies == hashes.dependencies.deep_view(),
        watcher.deep_view().shown_path == watcher.shown_path@,
        watcher.deep_view().step == watcher.step.deep_view(),
        PollStep::Greet.deep_view() == PollStepView::Greet,
        PollStep::FirstQuery.deep_view() == PollStepView::FirstQuery,
        PollStep::FirstPause.deep_view() == PollStepView::FirstPause,
        (PollStep::Idle { previous: hashes }).deep_view() == (PollStepView::Idle {
            previous: hashes.deep_view(),
        }),
        (PollStep::Query { previous: hashes }).deep_view() == (PollStepView::Query {
            previous: hashes.deep_view(),
        }),
        (PollStep::Pause { previous: hashes }).deep_view() == (PollStepView::Pause {
            previous: hashes.deep_view(),
        }),
        (PollStep::Notify { current: hashes }).deep_view() == (PollStepView::Notify {
            current: hashes.deep_view(),
        }),
        PollStep::Stopped.deep_view() == PollStepView::Stopped,
        PollEvent::Delivered.deep_view() == PollEventView::Delivered,
        PollEvent::ClientGone.deep_view() == PollEventView::ClientGone,
        PollEvent::Hash(hash).deep_view() == PollEventView::Hash(hash.deep_view()),
        (PollEvent::Ticked { closed }).deep_view() == (PollEventView::Ticked { closed }),
        (PollEvent::Waited { closed }).deep_view() == (PollEventView::Waited { closed }),
        PollAction::Send(event).deep_view() == PollActionView::Send(event.deep_view()),
        PollAction::Query.deep_view() == PollActionView::Query,
        PollAction::Tick.deep_view() == PollActionView::Tick,
        (PollAction::Wait { secs }).deep_view() == (PollActionView::Wait { secs }),
        PollAction::Stop.deep_view() == PollActionView::Stop,
{
}

} // verus!
