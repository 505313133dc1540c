//! The lifecycle of `dolt sql-server` processes.
//!
//! The server of a project is found by the port that is saved for it, or
//! started on a free port. The decisions are made here; their surroundings
//! probe ports, run processes and keep time.

use vstd::prelude::*;

use crate::dolt_server::{
    build_connection, capped_delay, connection, delay_after, free_port_error, no_port, no_server,
    not_ready, server_arguments, server_command, spawn_error, wait_for_ready, waiting,
    waits_double_up_to_the_longest, DbDir,
    DoltConnection, DoltConnectionView, PortError, SpawnError, WaitStep, WaitStepView,
    FIRST_DELAY_MS, HOST, READY_TIMEOUT_MS,
};
use crate::error::{outcome, BeadsError, BeadsErrorView};
use crate::path::PathParts;
use crate::path_map::{lemma_times_insert, lemma_times_remove, times, PathMap};

verus! {

// ---------------------------------------------------------------------------
// Connecting
// ---------------------------------------------------------------------------

/// Where a project saves the state of its server.
pub const STATE_FILE: &'static str = ".beads/dolt/server.json";

/// What is saved of a running server, so that it can be found again.
#[derive(Debug, Clone, PartialEq, Eq)]
pub struct ServerState {
    pub port: u16,
    pub db_name: String,
}

/// A [`ServerState`] as a value.
pub struct ServerStateView {
    pub port: u16,
    pub db_name: Seq<char>,
}

impl DeepView for ServerState {
    type V = ServerStateView;

    open spec fn deep_view(&self) -> ServerStateView {
        ServerStateView { port: self.port, db_name: self.db_name@ }
    }
}

/// Where an attempt to connect to the server of a project stands.
#[derive(Debug, PartialEq, Eq)]
pub enum ConnectStep {
    /// The saved state has to be read.
    Recall,
    /// The server that the saved state tells of has to be probed.
    ProbeSaved(ServerState),
    /// A free port has to be found.
    FindPort,
    /// A server has to be started on `port`.
    Spawn { port: u16 },
    /// The server that was started on `port` has to be probed; `delay_ms` is
    /// the wait that follows if it is not ready.
    ProbeSpawned { port: u16, delay_ms: u64 },
    /// `delay_ms` have to pass before the next probe, and `next_ms` after it.
    Pause { port: u16, delay_ms: u64, next_ms: u64 },
    /// The state of the server that was started on `port` has to be saved.
    Save { port: u16 },
    /// The attempt has ended.
    Ended(Result<DoltConnection, BeadsError>),
}

/// A [`ConnectStep`] as a value.
pub enum ConnectStepView {
    Recall,
    ProbeSaved(ServerStateView),
    FindPort,
    Spawn { port: u16 },
    ProbeSpawned { port: u16, delay_ms: u64 },
    Pause { port: u16, delay_ms: u64, next_ms: u64 },
    Save { port: u16 },
    Ended(Result<DoltConnectionView, BeadsErrorView>),
}

impl DeepView for ConnectStep {
    type V = ConnectStepView;

    open spec fn deep_view(&self) -> ConnectStepView {
        match self {
            ConnectStep::Recall => ConnectStepView::Recall,
            ConnectStep::ProbeSaved(state) => ConnectStepView::ProbeSaved(state.deep_view()),
            ConnectStep::FindPort => ConnectStepView::FindPort,
            ConnectStep::Spawn { port } => ConnectStepView::Spawn { port: *port },
            ConnectStep::ProbeSpawned { port, delay_ms } => ConnectStepView::ProbeSpawned {
                port: *port,
                delay_ms: *delay_ms,
            },
            ConnectStep::Pause { port, delay_ms, next_ms } => ConnectStepView::Pause {
                port: *port,
                delay_ms: *delay_ms,
                next_ms: *next_ms,
            },
            ConnectStep::Save { port } => ConnectStepView::Save { port: *port },
            ConnectStep::Ended(result) => ConnectStepView::Ended(outcome(*result)),
        }
    }
}

/// What the surroundings of an attempt report. `C` is the handle of a server
/// process.
#[derive(Debug, PartialEq, Eq)]
pub enum ConnectEvent<C> {
    /// The saved state was read; none where there is none that can be read.
    Recalled(Option<ServerState>),
    /// A port was probed. `open` tells whether something listens on it, and
    /// `elapsed_ms` how long ago waiting for a started server began.
    Probed { open: bool, elapsed_ms: u128 },
    /// A free port was looked for.
    PortFound(Result<u16, PortError>),
    /// A server was started, or could not be.
    Spawned(Result<C, SpawnError>),
    /// The wait is over.
    Waited,
    /// Saving the state was tried.
    Saved,
}

/// A [`ConnectEvent`] as a value, without the handle.
pub enum ConnectEventView {
    Recalled(Option<ServerStateView>),
    Probed { open: bool, elapsed_ms: u128 },
    PortFound(Result<u16, PortError>),
    Spawned(Result<(), SpawnError>),
    Waited,
    Saved,
}

impl<C> DeepView for ConnectEvent<C> {
    type V = ConnectEventView;

    open spec fn deep_view(&self) -> ConnectEventView {
        match self {
            ConnectEvent::Recalled(state) => ConnectEventView::Recalled(state.deep_view()),
            ConnectEvent::Probed { open, elapsed_ms } => ConnectEventView::Probed {
                open: *open,
                elapsed_ms: *elapsed_ms,
            },
            ConnectEvent::PortFound(port) => ConnectEventView::PortFound(*port),
            ConnectEvent::Spawned(Ok(_)) => ConnectEventView::Spawned(Ok(())),
            ConnectEvent::Spawned(Err(error)) => ConnectEventView::Spawned(Err(*error)),
            ConnectEvent::Waited => ConnectEventView::Waited,
            ConnectEvent::Saved => ConnectEventView::Saved,
        }
    }
}

/// What the surroundings of an attempt have to do.
#[derive(Debug, PartialEq, Eq)]
pub enum ConnectAction {
    /// Read the saved state.
    Recall,
    /// Probe `port` of `host`.
    Probe { host: String, port: u16 },
    /// Find a free port.
    FindPort,
    /// Start `dolt` with these arguments in the directory of the database.
    Spawn { arguments: Vec<String> },
    /// Wait.
    Wait { delay_ms: u64 },
    /// Save this state. That this fails does not matter.
    Save(ServerState),
    /// Nothing: the attempt has ended.
    End(Result<DoltConnection, BeadsError>),
}

/// A [`ConnectAction`] as a value.
pub enum ConnectActionView {
    Recall,
    Probe { host: Seq<char>, port: u16 },
    FindPort,
    Spawn { arguments: Seq<Seq<char>> },
    Wait { delay_ms: u64 },
    Save(ServerStateView),
    End(Result<DoltConnectionView, BeadsErrorView>),
}

impl DeepView for ConnectAction {
    type V = ConnectActionView;

    open spec fn deep_view(&self) -> ConnectActionView {
        match self {
            ConnectAction::Recall => ConnectActionView::Recall,
            ConnectAction::Probe { host, port } => ConnectActionView::Probe {
                host: host@,
                port: *port,
            },
            ConnectAction::FindPort => ConnectActionView::FindPort,
            ConnectAction::Spawn { arguments } => ConnectActionView::Spawn {
                arguments: arguments.deep_view(),
            },
            ConnectAction::Wait { delay_ms } => ConnectActionView::Wait { delay_ms: *delay_ms },
            ConnectAction::Save(state) => ConnectActionView::Save(state.deep_view()),
            ConnectAction::End(result) => ConnectActionView::End(outcome(*result)),
        }
    }
}

/// An attempt to connect to the server of a project.
#[derive(Debug, PartialEq, Eq)]
pub struct ConnectAttempt {
    /// The name of the project's database.
    pub db_name: String,
    pub step: ConnectStep,
}

/// A [`ConnectAttempt`] as a value.
pub struct ConnectAttemptView {
    pub db_name: Seq<char>,
    pub step: ConnectStepView,
}

impl DeepView for ConnectAttempt {
    type V = ConnectAttemptView;

    open spec fn deep_view(&self) -> ConnectAttemptView {
        ConnectAttemptView { db_name: self.db_name@, step: self.step.deep_view() }
    }
}

impl ConnectAttemptView {
    /// How the attempt begins: a project without a database cannot be connected
    /// to.
    pub open spec fn begun(located: Result<DbDir, BeadsError>) -> ConnectAttemptView {
        match located {
            Ok(db) => ConnectAttemptView { db_name: db.db_name@, step: ConnectStepView::Recall },
            Err(error) => ConnectAttemptView {
                db_name: Seq::empty(),
                step: ConnectStepView::Ended(Err(error.deep_view())),
            },
        }
    }

    /// What to do now.
    pub open spec fn action(self) -> ConnectActionView {
        match self.step {
            ConnectStepView::Recall => ConnectActionView::Recall,
            ConnectStepView::ProbeSaved(state) => ConnectActionView::Probe {
                host: HOST@,
                port: state.port,
            },
            ConnectStepView::FindPort => ConnectActionView::FindPort,
            ConnectStepView::Spawn { port } => ConnectActionView::Spawn {
                arguments: server_arguments(port),
            },
            ConnectStepView::ProbeSpawned { port, .. } => ConnectActionView::Probe {
                host: HOST@,
                port,
            },
            ConnectStepView::Pause { delay_ms, .. } => ConnectActionView::Wait { delay_ms },
            ConnectStepView::Save { port } => ConnectActionView::Save(
                ServerStateView { port, db_name: self.db_name },
            ),
            ConnectStepView::Ended(result) => ConnectActionView::End(result),
        }
    }

    /// The step that follows upon `event`. An event that the attempt does not
    /// wait for changes nothing.
    pub open spec fn next_step(self, event: ConnectEventView) -> ConnectStepView {
        match (self.step, event) {
            (ConnectStepView::Recall, ConnectEventView::Recalled(Some(state))) => {
                ConnectStepView::ProbeSaved(state)
            },
            (ConnectStepView::Recall, ConnectEventView::Recalled(None)) => {
                ConnectStepView::FindPort
            },
            (ConnectStepView::ProbeSaved(state), ConnectEventView::Probed { open, .. }) => {
                if open {
                    ConnectStepView::Ended(Ok(connection(HOST@, state.port, state.db_name)))
                } else {
                    ConnectStepView::FindPort
                }
            },
            (ConnectStepView::FindPort, ConnectEventView::PortFound(Ok(port))) => {
                ConnectStepView::Spawn { port }
            },
            (ConnectStepView::FindPort, ConnectEventView::PortFound(Err(error))) => {
                ConnectStepView::Ended(Err(no_port(error)))
            },
            (ConnectStepView::Spawn { port }, ConnectEventView::Spawned(Ok(_))) => {
                ConnectStepView::ProbeSpawned { port, delay_ms: FIRST_DELAY_MS }
            },
            (ConnectStepView::Spawn { .. }, ConnectEventView::Spawned(Err(error))) => {
                ConnectStepView::Ended(Err(no_server(error)))
            },
            (
                ConnectStepView::ProbeSpawned { port, delay_ms },
                ConnectEventView::Probed { open, elapsed_ms },
            ) => {
                match waiting(HOST@, port, READY_TIMEOUT_MS, delay_ms, open, elapsed_ms) {
                    WaitStepView::Ready => ConnectStepView::Save { port },
                    WaitStepView::GiveUp(error) => ConnectStepView::Ended(Err(error)),
                    WaitStepView::Retry { delay_ms, next_ms } => {
                        ConnectStepView::Pause { port, delay_ms, next_ms }
                    },
                }
            },
            (ConnectStepView::Pause { port, next_ms, .. }, ConnectEventView::Waited) => {
                ConnectStepView::ProbeSpawned { port, delay_ms: next_ms }
            },
            (ConnectStepView::Save { port }, ConnectEventView::Saved) => {
                ConnectStepView::Ended(Ok(connection(HOST@, port, self.db_name)))
            },
            _ => self.step,
        }
    }

    /// The attempt after `event`.
    pub open spec fn after(self, event: ConnectEventView) -> ConnectAttemptView {
        ConnectAttemptView { db_name: self.db_name, step: self.next_step(event) }
    }
}

fn copy_result(result: &Result<DoltConnection, BeadsError>) -> (copy: Result<
    DoltConnection,
    BeadsError,
>)
    ensures
        outcome(copy) == outcome(*result),
{
    match result {
        Ok(c) => Ok(
            DoltConnection {
                host: c.host.clone(),
                port: c.port,
                database: c.database.clone(),
                min_connections: c.min_connections,
                max_connections: c.max_connections,
            },
        ),
        Err(BeadsError::Io(text)) => Err(BeadsError::Io(text.clone())),
        Err(BeadsError::Parse(text)) => Err(BeadsError::Parse(text.clone())),
        Err(BeadsError::Database(text)) => Err(BeadsError::Database(text.clone())),
        Err(BeadsError::NotFound(text)) => Err(BeadsError::NotFound(text.clone())),
        Err(BeadsError::CommandFailed(text)) => Err(BeadsError::CommandFailed(text.clone())),
    }
}

impl ConnectAttempt {
    /// Begins an attempt to connect to the server of a project, whose database
    /// was looked for.
    pub fn begin(located: Result<DbDir, BeadsError>) -> (attempt: ConnectAttempt)
        ensures
            attempt.deep_view() == ConnectAttemptView::begun(located),
    {
        match located {
            Ok(db) => ConnectAttempt { db_name: db.db_name, step: ConnectStep::Recall },
            Err(error) => {
                let db_name = String::new();
                assert(db_name@ =~= Seq::<char>::empty());
                ConnectAttempt { db_name, step: ConnectStep::Ended(Err(error)) }
            },
        }
    }

    /// What to do now.
    pub fn action(&self) -> (action: ConnectAction)
        ensures
            action.deep_view() == self.deep_view().action(),
    {
        match &self.step {
            ConnectStep::Recall => ConnectAction::Recall,
            ConnectStep::ProbeSaved(state) => ConnectAction::Probe {
                host: HOST.to_owned(),
                port: state.port,
            },
            ConnectStep::FindPort => ConnectAction::FindPort,
            ConnectStep::Spawn { port } => ConnectAction::Spawn {
                arguments: server_command(*port),
            },
            ConnectStep::ProbeSpawned { port, .. } => ConnectAction::Probe {
                host: HOST.to_owned(),
                port: *port,
            },
            ConnectStep::Pause { delay_ms, .. } => ConnectAction::Wait { delay_ms: *delay_ms },
            ConnectStep::Save { port } => ConnectAction::Save(
                ServerState { port: *port, db_name: self.db_name.clone() },
            ),
            ConnectStep::Ended(result) => ConnectAction::End(copy_result(result)),
        }
    }
}

// ---------------------------------------------------------------------------
// The manager
// ---------------------------------------------------------------------------

/// Manages the server processes that were started, keyed by project path. `C`
/// is the handle of a process.
pub struct DoltServerManager<C> {
    children: PathMap<C>,
}

impl<C> View for DoltServerManager<C> {
    type V = Map<Seq<Seq<u8>>, C>;

    /// The process that was started for each project.
    closed spec fn view(&self) -> Map<Seq<Seq<u8>>, C> {
        self.children@
    }
}

/// The processes after `event` of an attempt for `project`: a process that the
/// attempt started is kept.
pub open spec fn kept<C>(
    children: Map<Seq<Seq<u8>>, C>,
    project: Seq<Seq<u8>>,
    step: ConnectStepView,
    event: ConnectEvent<C>,
) -> Map<Seq<Seq<u8>>, C> {
    match (step, event) {
        (ConnectStepView::Spawn { .. }, ConnectEvent::Spawned(Ok(child))) => children.insert(
            project,
            child,
        ),
        _ => children,
    }
}

/// The process that `event` of an attempt for `project` leaves without a place:
/// the one that was kept for the project before, where another takes its
/// place, or one that no attempt asked for.
pub open spec fn released<C>(
    children: Map<Seq<Seq<u8>>, C>,
    project: Seq<Seq<u8>>,
    step: ConnectStepView,
    event: ConnectEvent<C>,
) -> Option<C> {
    match (step, event) {
        (ConnectStepView::Spawn { .. }, ConnectEvent::Spawned(Ok(_))) => {
            if children.contains_key(project) {
                Some(children[project])
            } else {
                None
            }
        },
        (_, ConnectEvent::Spawned(Ok(child))) => Some(child),
        _ => None,
    }
}

impl<C> DoltServerManager<C> {
    /// Creates an empty manager with no running servers.
    pub fn new() -> (manager: DoltServerManager<C>)
        ensures
            manager@ == Map::<Seq<Seq<u8>>, C>::empty(),
    {
        DoltServerManager { children: PathMap::new() }
    }

    /// Whether no process is kept.
    pub fn is_empty(&self) -> (result: bool)
        ensures
            result == (self@ == Map::<Seq<Seq<u8>>, C>::empty()),
    {
        self.children.is_empty()
    }

    /// Takes an attempt to connect to the server of `project_path` one step
    /// further. Gives what to do next, and a process that has to be stopped
    /// because it is no longer kept, if any.
    ///
    /// A server that is already running is reused; otherwise one is started on
    /// a free port, and its process is kept under `project_path`.
    pub fn get_connection(
        &mut self,
        project_path: &PathParts,
        attempt: &mut ConnectAttempt,
        event: ConnectEvent<C>,
    ) -> (result: (ConnectAction, Option<C>))
        ensures
            final(attempt).deep_view() == old(attempt).deep_view().after(event.deep_view()),
            result.0.deep_view() == final(attempt).deep_view().action(),
            result.1 == released(
                old(self)@,
                project_path.deep_view(),
                old(attempt).deep_view().step,
                event,
            ),
            final(self)@ == kept(
                old(self)@,
                project_path.deep_view(),
                old(attempt).deep_view().step,
                event,
            ),
    {
        let mut released: Option<C> = None;
        let mut step = ConnectStep::Recall;
        std::mem::swap(&mut step, &mut attempt.step);
        let next = match (step, event) {
            (ConnectStep::Recall, ConnectEvent::Recalled(Some(state))) => {
                ConnectStep::ProbeSaved(state)
            },
            (ConnectStep::Recall, ConnectEvent::Recalled(None)) => ConnectStep::FindPort,
            (ConnectStep::ProbeSaved(state), ConnectEvent::Probed { open, .. }) => {
                if open {
                    ConnectStep::Ended(build_connection(HOST, state.port, state.db_name.as_str()))
                } else {
                    ConnectStep::FindPort
                }
            },
            (ConnectStep::FindPort, ConnectEvent::PortFound(Ok(port))) => {
                ConnectStep::Spawn { port }
            },
            (ConnectStep::FindPort, ConnectEvent::PortFound(Err(error))) => {
                ConnectStep::Ended(Err(free_port_error(&error)))
            },
            (ConnectStep::Spawn { port }, ConnectEvent::Spawned(Ok(child))) => {
                released = self.children.insert(project_path, child);
                ConnectStep::ProbeSpawned { port, delay_ms: FIRST_DELAY_MS }
            },
            (ConnectStep::Spawn { .. }, ConnectEvent::Spawned(Err(error))) => {
                ConnectStep::Ended(Err(spawn_error(&error)))
            },
            (
                ConnectStep::ProbeSpawned { port, delay_ms },
                ConnectEvent::Probed { open, elapsed_ms },
            ) => {
                match wait_for_ready(HOST, port, READY_TIMEOUT_MS, delay_ms, open, elapsed_ms) {
                    WaitStep::Ready => ConnectStep::Save { port },
                    WaitStep::GiveUp(error) => ConnectStep::Ended(Err(error)),
                    WaitStep::Retry { delay_ms, next_ms } => {
                        ConnectStep::Pause { port, delay_ms, next_ms }
                    },
                }
            },
            (ConnectStep::Pause { port, next_ms, .. }, ConnectEvent::Waited) => {
                ConnectStep::ProbeSpawned { port, delay_ms: next_ms }
            },
            (ConnectStep::Save { port }, ConnectEvent::Saved) => {
                ConnectStep::Ended(build_connection(HOST, port, attempt.db_name.as_str()))
            },
            (step, ConnectEvent::Spawned(Ok(child))) => {
                released = Some(child);
                step
            },
            (step, _) => step,
        };
        attempt.step = next;
        (attempt.action(), released)
    }

    /// Takes out the process that was started for `project_path`, if any, so
    /// that it can be stopped.
    pub fn stop(&mut self, project_path: &PathParts) -> (child: Option<C>)
        ensures
            child == if old(self)@.contains_key(project_path.deep_view()) {
                Some(old(self)@[project_path.deep_view()])
            } else {
                None
            },
            final(self)@ == old(self)@.remove(project_path.deep_view()),
    {
        self.children.remove(project_path)
    }

    /// Takes out every process, so that all can be stopped.
    pub fn stop_all(&mut self) -> (children: Vec<C>)
        ensures
            final(self)@ == Map::<Seq<Seq<u8>>, C>::empty(),
            forall|child: C| #[trigger]
                children@.to_multiset().count(child) == times(old(self)@, child),
    {
        self.children.drain()
    }
}

// ---------------------------------------------------------------------------
// Laws
// ---------------------------------------------------------------------------

/// The attempt after all of `events`.
pub open spec fn run(attempt: ConnectAttemptView, events: Seq<ConnectEventView>) -> ConnectAttemptView
    decreases events.len(),
{
    if events.len() == 0 {
        attempt
    } else {
        run(attempt, events.drop_last()).after(events.last())
    }
}

/// A running server is reused: where the server that the saved state tells of
/// answers, the attempt ends with a connection to it, and nothing is started.
pub proof fn running_server_is_reused<C>(
    located: DbDir,
    state: ServerStateView,
    children: Map<Seq<Seq<u8>>, C>,
    project: Seq<Seq<u8>>,
    recalled: ConnectEvent<C>,
    probed: ConnectEvent<C>,
)
    requires
        recalled.deep_view() == ConnectEventView::Recalled(Some(state)),
        probed.deep_view() is Probed,
        probed.deep_view()->open,
    ensures
        ({
            let begun = ConnectAttemptView::begun(Ok(located));
            let second = begun.after(recalled.deep_view());
            &&& second.after(probed.deep_view()).action() == ConnectActionView::End(
                Ok(connection(HOST@, state.port, state.db_name)),
            )
            &&& kept(children, project, begun.step, recalled) == children
            &&& kept(children, project, second.step, probed) == children
        }),
{
}

/// A server is started only where none is known to run: an attempt asks for a
/// server to be started only after there was no saved state, or after the
/// server that it tells of did not answer.
pub proof fn servers_start_only_when_needed(
    located: Result<DbDir, BeadsError>,
    events: Seq<ConnectEventView>,
)
    requires
        run(ConnectAttemptView::begun(located), events).action() is Spawn,
    ensures
        exists|i: int|
            0 <= i < events.len() && no_server_found(#[trigger] events[i]),
{
    lemma_past_search(ConnectAttemptView::begun(located), events);
}

/// Whether `event` tells that no running server was found.
pub open spec fn no_server_found(event: ConnectEventView) -> bool {
    match event {
        ConnectEventView::Recalled(None) => true,
        ConnectEventView::Probed { open: false, .. } => true,
        _ => false,
    }
}

proof fn lemma_past_search(begun: ConnectAttemptView, events: Seq<ConnectEventView>)
    requires
        begun.step is Recall || begun.step is Ended,
    ensures
        run(begun, events).step is FindPort || run(begun, events).step is Spawn ==> exists|i: int|
            0 <= i < events.len() && no_server_found(#[trigger] events[i]),
    decreases events.len(),
{
    if events.len() > 0 {
        let shorter = events.drop_last();
        lemma_past_search(begun, shorter);
        if run(begun, events).step is FindPort || run(begun, events).step is Spawn {
            if no_server_found(events.last()) {
                assert(no_server_found(events[events.len() - 1]));
            } else {
                let i = choose|i: int|
                    0 <= i < shorter.len() && no_server_found(#[trigger] shorter[i]);
                assert(events[i] == shorter[i]);
            }
        }
    }
}

/// A server that was started is found again: where an attempt asks to save a
/// state, a later attempt that recalls it and finds the server answering ends
/// with the connection that the first one ends with.
pub proof fn started_server_is_found_again(
    attempt: ConnectAttemptView,
    later: DbDir,
    elapsed_ms: u128,
)
    requires
        attempt.action() is Save,
    ensures
        ConnectAttemptView::begun(Ok(later)).after(
            ConnectEventView::Recalled(Some(attempt.action()->Save_0)),
        ).after(ConnectEventView::Probed { open: true, elapsed_ms }).action() == attempt.after(
            ConnectEventView::Saved,
        ).action(),
{
}

/// A server that was started is waited for until it answers or the time limit
/// is reached. Until then a failed probe leads to another one, after the wait
/// that the number of failed probes calls for, cut short near the time limit.
/// A server that answers after the limit is not ready.
pub proof fn started_servers_are_waited_for(
    attempt: ConnectAttemptView,
    port: u16,
    k: nat,
    elapsed_ms: u128,
)
    requires
        attempt.step == (ConnectStepView::ProbeSpawned { port, delay_ms: delay_after(k) as u64 }),
    ensures
        ({
            let failed = attempt.after(ConnectEventView::Probed { open: false, elapsed_ms });
            if elapsed_ms >= READY_TIMEOUT_MS {
                failed.action() == ConnectActionView::End(
                    Err(not_ready(HOST@, port, READY_TIMEOUT_MS)),
                )
            } else {
                &&& failed.action() == ConnectActionView::Wait {
                    delay_ms: capped_delay(
                        READY_TIMEOUT_MS,
                        delay_after(k) as u64,
                        elapsed_ms,
                    ) as u64,
                }
                &&& failed.after(ConnectEventView::Waited).step == (
                ConnectStepView::ProbeSpawned { port, delay_ms: delay_after(k + 1) as u64 })
            }
        }),
        attempt.after(ConnectEventView::Probed { open: true, elapsed_ms }).action()
            == if elapsed_ms <= READY_TIMEOUT_MS {
            ConnectActionView::Save(ServerStateView { port, db_name: attempt.db_name })
        } else {
            ConnectActionView::End(Err(not_ready(HOST@, port, READY_TIMEOUT_MS)))
        },
{
    waits_double_up_to_the_longest(k);
}

/// The events of failed probes at `times`, each with the wait that follows it.
pub open spec fn failed_probes(times: Seq<u128>) -> Seq<ConnectEventView>
    decreases times.len(),
{
    if times.len() == 0 {
        Seq::empty()
    } else {
        failed_probes(times.drop_last()).push(
            ConnectEventView::Probed { open: false, elapsed_ms: times.last() },
        ).push(ConnectEventView::Waited)
    }
}

/// A server that was started is connected to when it answers within the time
/// limit, however many probes failed before: the attempt saves its port and
/// database, and ends with the connection to them.
pub proof fn started_servers_are_connected_to(
    attempt: ConnectAttemptView,
    port: u16,
    times: Seq<u128>,
    elapsed_ms: u128,
)
    requires
        attempt.step == (ConnectStepView::ProbeSpawned { port, delay_ms: FIRST_DELAY_MS }),
        forall|i: int| 0 <= i < times.len() ==> #[trigger] times[i] < READY_TIMEOUT_MS,
        elapsed_ms <= READY_TIMEOUT_MS,
    ensures
        ({
            let ready = run(attempt, failed_probes(times)).after(
                ConnectEventView::Probed { open: true, elapsed_ms },
            );
            &&& ready.action() == ConnectActionView::Save(
                ServerStateView { port, db_name: attempt.db_name },
            )
            &&& ready.after(ConnectEventView::Saved).action() == ConnectActionView::End(
                Ok(connection(HOST@, port, attempt.db_name)),
            )
        }),
{
    lemma_failed_probes(attempt, port, times);
}

proof fn lemma_failed_probes(attempt: ConnectAttemptView, port: u16, times: Seq<u128>)
    requires
        attempt.step == (ConnectStepView::ProbeSpawned { port, delay_ms: FIRST_DELAY_MS }),
        forall|i: int| 0 <= i < times.len() ==> #[trigger] times[i] < READY_TIMEOUT_MS,
    ensures
        run(attempt, failed_probes(times)) == (ConnectAttemptView {
            db_name: attempt.db_name,
            step: ConnectStepView::ProbeSpawned { port, delay_ms: delay_after(times.len()) as u64 },
        }),
    decreases times.len(),
{
    if times.len() > 0 {
        let shorter = times.drop_last();
        assert forall|i: int| 0 <= i < shorter.len() implies #[trigger] shorter[i]
            < READY_TIMEOUT_MS by {
            assert(shorter[i] == times[i]);
        }
        lemma_failed_probes(attempt, port, shorter);
        let time = times[times.len() - 1];
        let waiting = run(attempt, failed_probes(shorter));
        started_servers_are_waited_for(waiting, port, shorter.len(), time);
        let probed = failed_probes(shorter).push(
            ConnectEventView::Probed { open: false, elapsed_ms: time },
        );
        assert(probed.drop_last() =~= failed_probes(shorter));
        assert(failed_probes(times).drop_last() =~= probed);
        assert(run(attempt, probed) == waiting.after(probed.last()));
        assert(run(attempt, failed_probes(times)) == run(attempt, probed).after(
            ConnectEventView::Waited,
        ));
    }
}

/// Without a database nothing is done: the attempt has ended with the error
/// before any event, and no event changes that.
pub proof fn nothing_is_done_without_a_database(
    error: BeadsError,
    events: Seq<ConnectEventView>,
)
    ensures
        run(ConnectAttemptView::begun(Err(error)), events).action() == ConnectActionView::End(
            Err(error.deep_view()),
        ),
    decreases events.len(),
{
    if events.len() > 0 {
        nothing_is_done_without_a_database(error, events.drop_last());
    }
}

/// An attempt that fails has saved nothing: once one asks to save a state, it
/// can only end with a connection.
pub proof fn saving_attempts_succeed(attempt: ConnectAttemptView, events: Seq<ConnectEventView>)
    requires
        attempt.action() is Save,
    ensures
        ({
            let action = run(attempt, events).action();
            action is Save || (action is End && action->End_0 is Ok)
        }),
    decreases events.len(),
{
    if events.len() > 0 {
        saving_attempts_succeed(attempt, events.drop_last());
    }
}

/// Every attempt that fails does so because a command failed, where looking
/// for the database did not fail otherwise.
pub proof fn failures_are_failed_commands(
    located: Result<DbDir, BeadsError>,
    events: Seq<ConnectEventView>,
)
    requires
        located is Err ==> located->Err_0 is CommandFailed,
    ensures
        ({
            let action = run(ConnectAttemptView::begun(located), events).action();
            action is End && action->End_0 is Err ==> action->End_0->Err_0 is CommandFailed
        }),
    decreases events.len(),
{
    if events.len() > 0 {
        failures_are_failed_commands(located, events.drop_last());
    }
}

/// The process that an attempt starts for a project is the one that stopping
/// the project takes out, and no process of another project is touched.
pub proof fn started_process_is_the_one_stopped<C>(
    before: Map<Seq<Seq<u8>>, C>,
    project: Seq<Seq<u8>>,
    step: ConnectStepView,
    child: C,
)
    requires
        step is Spawn,
    ensures
        ({
            let after = kept(before, project, step, ConnectEvent::Spawned(Ok(child)));
            &&& after.contains_key(project) && after[project] == child
            &&& after.remove(project) == before.remove(project)
        }),
{
    let after = kept(before, project, step, ConnectEvent::Spawned(Ok(child)));
    assert(after.remove(project) =~= before.remove(project));
}

/// Something that is done with the processes of a manager.
pub enum Handling<C> {
    /// An attempt for `project` that stands at `step` takes in `event`.
    Attempt { project: Seq<Seq<u8>>, step: ConnectStepView, event: ConnectEvent<C> },
    /// The server of `project` is stopped.
    Stop { project: Seq<Seq<u8>> },
    /// Every server is stopped.
    StopAll,
}

impl<C> Handling<C> {
    /// The processes that are kept afterwards.
    pub open spec fn keeps(self, children: Map<Seq<Seq<u8>>, C>) -> Map<Seq<Seq<u8>>, C> {
        match self {
            Handling::Attempt { project, step, event } => kept(children, project, step, event),
            Handling::Stop { project } => children.remove(project),
            Handling::StopAll => Map::empty(),
        }
    }

    /// How often the process `child` is handed in.
    pub open spec fn takes_in(self, child: C) -> nat {
        match self {
            Handling::Attempt { event: ConnectEvent::Spawned(Ok(started)), .. } => {
                if started == child {
                    1
                } else {
                    0
                }
            },
            _ => 0,
        }
    }

    /// How often the process `child` is handed out.
    pub open spec fn hands_out(self, children: Map<Seq<Seq<u8>>, C>, child: C) -> nat {
        match self {
            Handling::Attempt { project, step, event } => {
                if released(children, project, step, event) == Some(child) {
                    1
                } else {
                    0
                }
            },
            Handling::Stop { project } => {
                if children.contains_key(project) && children[project] == child {
                    1
                } else {
                    0
                }
            },
            Handling::StopAll => times(children, child),
        }
    }
}

/// The processes that a new manager keeps after all of `handlings`.
pub open spec fn kept_after<C>(handlings: Seq<Handling<C>>) -> Map<Seq<Seq<u8>>, C>
    decreases handlings.len(),
{
    if handlings.len() == 0 {
        Map::empty()
    } else {
        handlings.last().keeps(kept_after(handlings.drop_last()))
    }
}

/// How often the process `child` was handed in.
pub open spec fn taken_in<C>(handlings: Seq<Handling<C>>, child: C) -> nat
    decreases handlings.len(),
{
    if handlings.len() == 0 {
        0
    } else {
        taken_in(handlings.drop_last(), child) + handlings.last().takes_in(child)
    }
}

/// How often the process `child` was handed out.
pub open spec fn handed_out<C>(handlings: Seq<Handling<C>>, child: C) -> nat
    decreases handlings.len(),
{
    if handlings.len() == 0 {
        0
    } else {
        handed_out(handlings.drop_last(), child) + handlings.last().hands_out(
            kept_after(handlings.drop_last()),
            child,
        )
    }
}

/// No process is lost: whatever is done with a manager, every process that was
/// handed in is either kept still, or was handed out exactly once, to be
/// stopped.
pub proof fn no_process_is_lost<C>(handlings: Seq<Handling<C>>, child: C)
    ensures
        kept_after(handlings).dom().finite(),
        taken_in(handlings, child) == handed_out(handlings, child) + times(
            kept_after(handlings),
            child,
        ),
    decreases handlings.len(),
{
    if handlings.len() == 0 {
        lemma_times_empty(child);
    } else {
        no_process_is_lost(handlings.drop_last(), child);
        let before = kept_after(handlings.drop_last());
        match handlings.last() {
            Handling::Attempt { project, step, event } => {
                match (step, event) {
                    (ConnectStepView::Spawn { .. }, ConnectEvent::Spawned(Ok(started))) => {
                        let rest = before.remove(project);
                        if before.contains_key(project) {
                            lemma_times_remove(before, project, child);
                        } else {
                            assert(rest =~= before);
                        }
                        lemma_times_insert(rest, project, started, child);
                        assert(rest.insert(project, started) =~= before.insert(project, started));
                    },
                    _ => {},
                }
            },
            Handling::Stop { project } => {
                if before.contains_key(project) {
                    lemma_times_remove(before, project, child);
                } else {
                    assert(before.remove(project) =~= before);
                }
            },
            Handling::StopAll => {
                lemma_times_empty(child);
            },
        }
    }
}

proof fn lemma_times_empty<C>(child: C)
    ensures
        times(Map::<Seq<Seq<u8>>, C>::empty(), child) == 0,
{
    let table = Map::<Seq<Seq<u8>>, C>::empty();
    assert(table.dom().filter(|path: Seq<Seq<u8>>| table[path] == child) =~= Set::empty());
}

/// After every server was stopped, each process that was ever handed in has
/// been handed out.
pub proof fn stopping_all_leaves_no_process<C>(handlings: Seq<Handling<C>>, child: C)
    requires
        handlings.len() > 0,
        handlings.last() is StopAll,
    ensures
        taken_in(handlings, child) == handed_out(handlings, child),
{
    no_process_is_lost(handlings, child);
    lemma_times_empty(child);
}

/// An attempt that has a database begins by recalling the saved server, under
/// the name of that database.
pub proof fn attempts_begin_by_recalling(db: DbDir)
    ensures
        ConnectAttemptView::begun(Ok(db)).db_name == db.db_name@,
        ConnectAttemptView::begun(Ok(db)).action() == ConnectActionView::Recall,
{
}

/// Whatever is recalled is probed, on its own port; without anything, and
/// where nothing answers, a free port is looked for. A server is started on
/// that port and probed there, at first with a wait of 100 ms in view. Where
/// there is no port or no server, the attempt ends and says why.
pub proof fn attempts_go_step_by_step(
    attempt: ConnectAttemptView,
    state: ServerStateView,
    port: u16,
    port_error: PortError,
    spawn_error: SpawnError,
    elapsed_ms: u128,
)
    ensures
        attempt.step is Recall ==> {
            &&& attempt.after(ConnectEventView::Recalled(Some(state))).action()
                == ConnectActionView::Probe { host: "127.0.0.1"@, port: state.port }
            &&& attempt.after(ConnectEventView::Recalled(None)).action()
                == ConnectActionView::FindPort
        },
        attempt.step matches ConnectStepView::ProbeSaved(saved) ==> {
            &&& attempt.after(ConnectEventView::Probed { open: true, elapsed_ms }).action()
                == ConnectActionView::End(
                Ok(
                    DoltConnectionView {
                        host: "127.0.0.1"@,
                        port: saved.port,
                        database: saved.db_name,
                        min_connections: 1,
                        max_connections: 5,
                    },
                ),
            )
            &&& attempt.after(ConnectEventView::Probed { open: false, elapsed_ms }).action()
                == ConnectActionView::FindPort
        },
        attempt.step is FindPort ==> {
            &&& attempt.after(ConnectEventView::PortFound(Ok(port))).step == (
            ConnectStepView::Spawn { port })
            &&& attempt.after(ConnectEventView::PortFound(Ok(port))).action()
                == ConnectActionView::Spawn { arguments: server_arguments(port) }
            &&& attempt.after(ConnectEventView::PortFound(Err(port_error))).action()
                == ConnectActionView::End(Err(no_port(port_error)))
        },
        attempt.step matches ConnectStepView::Spawn { port: chosen } ==> {
            &&& attempt.after(ConnectEventView::Spawned(Ok(()))).step == (
            ConnectStepView::ProbeSpawned { port: chosen, delay_ms: 100 })
            &&& attempt.after(ConnectEventView::Spawned(Ok(()))).action()
                == ConnectActionView::Probe { host: "127.0.0.1"@, port: chosen }
            &&& attempt.after(ConnectEventView::Spawned(Err(spawn_error))).action()
                == ConnectActionView::End(Err(no_server(spawn_error)))
        },
        attempt.step matches ConnectStepView::Pause { port: chosen, next_ms, .. } ==> attempt.after(
            ConnectEventView::Waited,
        ).step == (ConnectStepView::ProbeSpawned { port: chosen, delay_ms: next_ms }),
        attempt.step matches ConnectStepView::ProbeSpawned { port: chosen, delay_ms } ==> {
            &&& elapsed_ms <= 10000 ==> attempt.after(
                ConnectEventView::Probed { open: true, elapsed_ms },
            ).step == (ConnectStepView::Save { port: chosen })
            &&& elapsed_ms < 10000 ==> {
                let paused = attempt.after(
                    ConnectEventView::Probed { open: false, elapsed_ms },
                ).step;
                &&& paused is Pause
                &&& paused->Pause_port == chosen
                &&& paused->next_ms == if delay_ms <= 1600 {
                    2 * delay_ms
                } else {
                    3200
                }
            }
            &&& elapsed_ms > 10000 ==> attempt.after(
                ConnectEventView::Probed { open: true, elapsed_ms },
            ).step == ConnectStepView::Ended(Err(not_ready("127.0.0.1"@, chosen, 10000)))
        },
        attempt.step matches ConnectStepView::Save { port: chosen } ==> attempt.after(
            ConnectEventView::Saved,
        ).action() == ConnectActionView::End(
            Ok(
                DoltConnectionView {
                    host: "127.0.0.1"@,
                    port: chosen,
                    database: attempt.db_name,
                    min_connections: 1,
                    max_connections: 5,
                },
            ),
        ),
        forall|event: ConnectEventView| #[trigger] attempt.after(event).db_name == attempt.db_name,
{
}

/// What is to be done says all that it takes.
pub proof fn actions_say_what_it_takes(attempt: ConnectAttemptView)
    ensures
        match attempt.step {
            ConnectStepView::Recall => attempt.action() == ConnectActionView::Recall,
            ConnectStepView::ProbeSaved(saved) => attempt.action() == (ConnectActionView::Probe {
                host: "127.0.0.1"@,
                port: saved.port,
            }),
            ConnectStepView::FindPort => attempt.action() == ConnectActionView::FindPort,
            ConnectStepView::Spawn { port } => attempt.action() is Spawn
                && attempt.action()->arguments == server_arguments(port),
            ConnectStepView::ProbeSpawned { port, .. } => attempt.action() == (
            ConnectActionView::Probe { host: "127.0.0.1"@, port }),
            ConnectStepView::Pause { delay_ms, .. } => attempt.action() == (
            ConnectActionView::Wait { delay_ms }),
            ConnectStepView::Save { port } => attempt.action() == ConnectActionView::Save(
                ServerStateView { port, db_name: attempt.db_name },
            ),
            ConnectStepView::Ended(result) => attempt.action() == ConnectActionView::End(result),
        },
{
}

/// Whether the attempt waits for an event like `event`.
pub open spec fn awaits(action: ConnectActionView, event: ConnectEventView) -> bool {
    match action {
        ConnectActionView::Recall => event is Recalled,
        ConnectActionView::Probe { .. } => event is Probed,
        ConnectActionView::FindPort => event is PortFound,
        ConnectActionView::Spawn { .. } => event is Spawned,
        ConnectActionView::Wait { .. } => event is Waited,
        ConnectActionView::Save(_) => event is Saved,
        ConnectActionView::End(_) => false,
    }
}

/// Only an event that the attempt waits for takes it further, and each such
/// event does.
pub proof fn attempts_move_with_awaited_events(
    attempt: ConnectAttemptView,
    event: ConnectEventView,
)
    ensures
        !awaits(attempt.action(), event) ==> attempt.after(event) == attempt,
        awaits(attempt.action(), event) ==> attempt.after(event).step != attempt.step,
{
}

/// A process is kept for a project exactly when an attempt asked for it; the
/// one that it replaces, or one that nobody asked for, is let go. No other
/// project is touched, and no other event changes what is kept.
pub proof fn processes_are_kept_by_project<C>(
    children: Map<Seq<Seq<u8>>, C>,
    project: Seq<Seq<u8>>,
    step: ConnectStepView,
    event: ConnectEvent<C>,
    child: C,
    other: Seq<Seq<u8>>,
)
    ensures
        ({
            let after = kept(children, project, step, event);
            let gone = released(children, project, step, event);
            &&& other != project ==> after.contains_key(other) == children.contains_key(other)
            &&& other != project && children.contains_key(other) ==> after[other]
                == children[other]
            &&& event == ConnectEvent::<C>::Spawned(Ok(child)) && step is Spawn ==> {
                &&& after.contains_key(project) && after[project] == child
                &&& gone == if children.contains_key(project) {
                    Some(children[project])
                } else {
                    None
                }
            }
            &&& event == ConnectEvent::<C>::Spawned(Ok(child)) && !(step is Spawn) ==> after
                == children && gone == Some(child)
            &&& !(event is Spawned && event->Spawned_0 is Ok) ==> after == children && gone is None
        }),
{
}

/// What is saved, where an attempt stands, what it takes in and what it asks
/// for show everything but the handle of a process.
pub proof fn attempt_views_show_everything<C>(
    state: ServerState,
    attempt: ConnectAttempt,
    recalled: Option<ServerState>,
    open: bool,
    elapsed_ms: u128,
    found: Result<u16, PortError>,
    child: C,
    refusal: SpawnError,
    port: u16,
    delay_ms: u64,
    next_ms: u64,
    result: Result<DoltConnection, BeadsError>,
    host: String,
    arguments: Vec<String>,
)
    ensures
        state.deep_view().port == state.port,
        state.deep_view().db_name == state.db_name@,
        attempt.deep_view().db_name == attempt.db_name@,
        attempt.deep_view().step == attempt.step.deep_view(),
        ConnectEvent::<C>::Recalled(recalled).deep_view() == ConnectEventView::Recalled(
            recalled.deep_view(),
        ),
        (ConnectEvent::<C>::Probed { open, elapsed_ms }).deep_view() == (
        ConnectEventView::Probed { open, elapsed_ms }),
        ConnectEvent::<C>::PortFound(found).deep_view() == ConnectEventView::PortFound(found),
        ConnectEvent::<C>::Spawned(Ok(child)).deep_view() == ConnectEventView::Spawned(Ok(())),
        ConnectEvent::<C>::Spawned(Err(refusal)).deep_view() == ConnectEventView::Spawned(
            Err(refusal),
        ),
        ConnectEvent::<C>::Waited.deep_view() == ConnectEventView::Waited,
        ConnectEvent::<C>::Saved.deep_view() == ConnectEventView::Saved,
        ConnectStep::Recall.deep_view() == ConnectStepView::Recall,
        ConnectStep::ProbeSaved(state).deep_view() == ConnectStepView::ProbeSaved(
            state.deep_view(),
        ),
        ConnectStep::FindPort.deep_view() == ConnectStepView::FindPort,
        (ConnectStep::Spawn { port }).deep_view() == (ConnectStepView::Spawn { port }),
        (ConnectStep::ProbeSpawned { port, delay_ms }).deep_view() == (
        ConnectStepView::ProbeSpawned { port, delay_ms }),
        (ConnectStep::Pause { port, delay_ms, next_ms }).deep_view() == (
        ConnectStepView::Pause { port, delay_ms, next_ms }),
        (ConnectStep::Save { port }).deep_view() == (ConnectStepView::Save { port }),
        ConnectStep::Ended(result).deep_view() == ConnectStepView::Ended(outcome(result)),
        ConnectAction::Recall.deep_view() == ConnectActionView::Recall,
        (ConnectAction::Probe { host, port }).deep_view() == (ConnectActionView::Probe {
            host: host@,
            port,
        }),
        ConnectAction::FindPort.deep_view() == ConnectActionView::FindPort,
        (ConnectAction::Spawn { arguments }).deep_view() == (ConnectActionView::Spawn {
            arguments: arguments.deep_view(),
        }),
        (ConnectAction::Wait { delay_ms }).deep_view() == (ConnectActionView::Wait { delay_ms }),
        ConnectAction::Save(state).deep_view() == ConnectActionView::Save(state.deep_view()),
        ConnectAction::End(result).deep_view() == ConnectActionView::End(outcome(result)),
{
}

} // verus!
