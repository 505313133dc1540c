//! Finding, starting and reaching the `dolt sql-server` of a project.

use vstd::prelude::*;

use crate::error::{outcome, BeadsError, BeadsErrorView};
use crate::text::{decimal, decimal_text, underscored, underscored_text};

verus! {

// ---------------------------------------------------------------------------
// The database directory
// ---------------------------------------------------------------------------

/// An entry of the directory that holds the databases of a project.
#[derive(Debug, Clone, PartialEq, Eq)]
pub struct DirEntry {
    /// The name of the entry; none where it is no text.
    pub name: Option<String>,
    /// Whether the entry is a directory.
    pub is_dir: bool,
}

/// The database of a project.
#[derive(Debug, Clone, PartialEq, Eq)]
pub struct DbDir {
    /// The place of its directory among the entries.
    pub entry: usize,
    /// The name of the database.
    pub db_name: String,
}

/// Whether the entry at `i` is the first that is a directory.
pub open spec fn is_first_dir(entries: Seq<DirEntry>, i: int) -> bool {
    &&& 0 <= i < entries.len()
    &&& entries[i].is_dir
    &&& forall|j: int| 0 <= j < i ==> !(#[trigger] entries[j]).is_dir
}

/// The name of the database in the directory `entry`: the name of the
/// directory, with hyphens replaced by underscores.
pub open spec fn database_name(entry: DirEntry) -> Seq<char> {
    match entry.name {
        Some(name) => underscored(name@),
        None => Seq::empty(),
    }
}

/// The error where the directory of the databases cannot be read.
pub open spec fn unreadable_root(dolt_root: Seq<char>, text: Seq<char>) -> BeadsErrorView {
    BeadsErrorView::CommandFailed("cannot read dolt directory "@ + dolt_root + ": "@ + text)
}

/// The error where there is no database.
pub open spec fn no_database(dolt_root: Seq<char>) -> BeadsErrorView {
    BeadsErrorView::CommandFailed("no dolt database directory found under "@ + dolt_root)
}

/// Locates the database of a project: the first directory among the entries of
/// `dolt_root`, which `listing` gives in the order of the file system, or the
/// text of the error that came instead.
pub fn locate_db_dir(dolt_root: &str, listing: &Result<Vec<DirEntry>, String>) -> (result: Result<
    DbDir,
    BeadsError,
>)
    ensures
        match *listing {
            Ok(entries) => match result {
                Ok(db) => is_first_dir(entries@, db.entry as int) && db.db_name@ == database_name(
                    entries@[db.entry as int],
                ),
                Err(error) => (forall|j: int|
                    0 <= j < entries@.len() ==> !(#[trigger] entries@[j]).is_dir)
                    && error.deep_view() == no_database(dolt_root@),
            },
            Err(text) => result is Err && result->Err_0.deep_view() == unreadable_root(
                dolt_root@,
                text@,
            ),
        },
        result is Ok <==> *listing is Ok && exists|i: int|
            0 <= i < (listing->Ok_0)@.len() && (#[trigger] (listing->Ok_0)@[i]).is_dir,
        result matches Ok(db) ==> {
            let entries = (listing->Ok_0)@;
            let entry = entries[db.entry as int];
            &&& db.entry < entries.len() && entry.is_dir
            &&& forall|j: int| 0 <= j < db.entry ==> !(#[trigger] entries[j]).is_dir
            &&& entry.name matches Some(name) ==> db.db_name@.len() == name@.len() && forall|k: int|
                0 <= k < name@.len() ==> #[trigger] db.db_name@[k] == if name@[k] == '-' {
                    '_'
                } else {
                    name@[k]
                }
            &&& entry.name is None ==> db.db_name@.len() == 0
        },
{
    let entries: &Vec<DirEntry> = match listing {
        Ok(entries) => entries,
        Err(text) => {
            return Err(
                BeadsError::CommandFailed(
                    "cannot read dolt directory ".to_owned().concat(dolt_root).concat(": ").concat(
                        text.as_str(),
                    ),
                ),
            );
        },
    };
    let mut i: usize = 0;
    while i < entries.len()
        invariant
            i <= entries@.len(),
            *listing == Ok::<Vec<DirEntry>, String>(*entries),
            forall|j: int| 0 <= j < i ==> !(#[trigger] entries@[j]).is_dir,
        decreases entries@.len() - i,
    {
        if entries[i].is_dir {
            let db_name = match &entries[i].name {
                Some(name) => underscored_text(name.as_str()),
                None => String::new(),
            };
            return Ok(DbDir { entry: i, db_name });
        }
        i = i + 1;
    }
    Err(
        BeadsError::CommandFailed(
            "no dolt database directory found under ".to_owned().concat(dolt_root),
        ),
    )
}

// ---------------------------------------------------------------------------
// Connections
// ---------------------------------------------------------------------------

/// The address that servers listen on.
pub const HOST: &'static str = "127.0.0.1";

/// The fewest connections that a pool keeps.
pub const MIN_CONNECTIONS: usize = 1;

/// The most connections that a pool keeps.
pub const MAX_CONNECTIONS: usize = 5;

/// `mysql_async::PoolConstraints::new`: constraints with the given bounds, as
/// the pair that they convert to, when the lower bound does not exceed the
/// upper one, and nothing otherwise.
#[verifier::external_body]
fn new_pool_constraints(min: usize, max: usize) -> (bounds: Option<(usize, usize)>)
    ensures
        bounds == if min <= max {
            Some((min, max))
        } else {
            None
        },
{
    mysql_async::PoolConstraints::new(min, max).map(<(usize, usize)>::from)
}

/// The bounds of a connection pool, which must not exclude each other.
pub fn pool_bounds(min: usize, max: usize) -> (result: Result<(usize, usize), BeadsError>)
    ensures
        match result {
            Ok(bounds) => min <= max && bounds == (min, max),
            Err(error) => min > max && error.deep_view() == BeadsErrorView::CommandFailed(
                "invalid pool constraints"@,
            ),
        },
{
    match new_pool_constraints(min, max) {
        Some(bounds) => Ok(bounds),
        None => Err(BeadsError::CommandFailed("invalid pool constraints".to_owned())),
    }
}

/// How to reach a running server: what its connection pool is opened with.
#[derive(Debug, Clone, PartialEq, Eq)]
pub struct DoltConnection {
    pub host: String,
    pub port: u16,
    pub database: String,
    pub min_connections: usize,
    pub max_connections: usize,
}

/// A [`DoltConnection`] as a value.
pub struct DoltConnectionView {
    pub host: Seq<char>,
    pub port: u16,
    pub database: Seq<char>,
    pub min_connections: usize,
    pub max_connections: usize,
}

impl DeepView for DoltConnection {
    type V = DoltConnectionView;

    open spec fn deep_view(&self) -> DoltConnectionView {
        DoltConnectionView {
            host: self.host@,
            port: self.port,
            database: self.database@,
            min_connections: self.min_connections,
            max_connections: self.max_connections,
        }
    }
}

/// The connection to the database `db_name` of the server at `host` and
/// `port`, with a pool of 1 to 5 connections.
pub open spec fn connection(
    host: Seq<char>,
    port: u16,
    db_name: Seq<char>,
) -> DoltConnectionView {
    DoltConnectionView {
        host,
        port,
        database: db_name,
        min_connections: MIN_CONNECTIONS,
        max_connections: MAX_CONNECTIONS,
    }
}

/// Builds the connection to the database `db_name` of the server at `host` and
/// `port`.
pub fn build_connection(host: &str, port: u16, db_name: &str) -> (result: Result<
    DoltConnection,
    BeadsError,
>)
    ensures
        outcome(result) == Ok::<DoltConnectionView, BeadsErrorView>(
            connection(host@, port, db_name@),
        ),
        result matches Ok(c) ==> c.host@ == host@ && c.port == port && c.database@ == db_name@
            && c.min_connections == 1 && c.max_connections == 5,
{
    match pool_bounds(MIN_CONNECTIONS, MAX_CONNECTIONS) {
        Ok(bounds) => Ok(
            DoltConnection {
                host: host.to_owned(),
                port,
                database: db_name.to_owned(),
                min_connections: bounds.0,
                max_connections: bounds.1,
            },
        ),
        Err(error) => Err(error),
    }
}

// ---------------------------------------------------------------------------
// Starting a server
// ---------------------------------------------------------------------------

/// The arguments of the `dolt` command that starts a server on `port`.
pub open spec fn server_arguments(port: u16) -> Seq<Seq<char>> {
    seq!["sql-server"@, "--host"@, HOST@, "--port"@, decimal(port as nat)]
}

/// The arguments of the `dolt` command that starts a server on `port`.
pub fn server_command(port: u16) -> (arguments: Vec<String>)
    ensures
        arguments.deep_view() == server_arguments(port),
        arguments@.len() == 5,
        arguments@[0]@ == "sql-server"@,
        arguments@[1]@ == "--host"@,
        arguments@[2]@ == "127.0.0.1"@,
        arguments@[3]@ == "--port"@,
        arguments@[4]@ == decimal(port as nat),
{
    let mut arguments: Vec<String> = Vec::new();
    arguments.push("sql-server".to_owned());
    arguments.push("--host".to_owned());
    arguments.push(HOST.to_owned());
    arguments.push("--port".to_owned());
    arguments.push(decimal_text(port as u64));
    assert(arguments.deep_view() =~= server_arguments(port));
    arguments
}

/// Why no free port was found; the text is that of the underlying error.
#[derive(Debug, Clone, PartialEq, Eq)]
pub enum PortError {
    /// No port could be bound.
    Bind(String),
    /// The bound port could not be told.
    Address(String),
}

/// The error where no free port was found.
pub open spec fn no_port(error: PortError) -> BeadsErrorView {
    match error {
        PortError::Bind(text) => BeadsErrorView::CommandFailed(
            "failed to find free port: "@ + text@,
        ),
        PortError::Address(text) => BeadsErrorView::CommandFailed(
            "failed to get local address: "@ + text@,
        ),
    }
}

/// The error where no free port was found.
pub fn free_port_error(error: &PortError) -> (result: BeadsError)
    ensures
        result.deep_view() == no_port(*error),
{
    match error {
        PortError::Bind(text) => BeadsError::CommandFailed(
            "failed to find free port: ".to_owned().concat(text.as_str()),
        ),
        PortError::Address(text) => BeadsError::CommandFailed(
            "failed to get local address: ".to_owned().concat(text.as_str()),
        ),
    }
}

/// Why the `dolt` command was not started.
#[derive(Debug, Clone, PartialEq, Eq)]
pub enum SpawnError {
    /// There is no such command.
    NotFound,
    /// Anything else; the text is that of the underlying error.
    Other(String),
}

/// The error where the `dolt` command was not started.
pub open spec fn no_server(error: SpawnError) -> BeadsErrorView {
    match error {
        SpawnError::NotFound => BeadsErrorView::CommandFailed(
            "dolt binary not found — please install dolt and ensure it is on PATH"@,
        ),
        SpawnError::Other(text) => BeadsErrorView::CommandFailed(
            "failed to spawn dolt sql-server: "@ + text@,
        ),
    }
}

/// The error where the `dolt` command was not started.
pub fn spawn_error(error: &SpawnError) -> (result: BeadsError)
    ensures
        result.deep_view() == no_server(*error),
{
    match error {
        SpawnError::NotFound => BeadsError::CommandFailed(
            "dolt binary not found — please install dolt and ensure it is on PATH".to_owned(),
        ),
        SpawnError::Other(text) => BeadsError::CommandFailed(
            "failed to spawn dolt sql-server: ".to_owned().concat(text.as_str()),
        ),
    }
}

// ---------------------------------------------------------------------------
// Waiting for a server
// ---------------------------------------------------------------------------

/// How long to wait after the first probe of a server that is starting.
pub const FIRST_DELAY_MS: u64 = 100;

/// The longest wait between two probes.
pub const MAX_DELAY_MS: u64 = 3200;

/// How long a server may take to start.
pub const READY_TIMEOUT_MS: u64 = 10000;

/// How long before the time limit a probe is due, so that it is over in time
/// though waits take a little longer than asked for.
pub const LAST_PROBE_MS: u64 = 50;

/// The wait that follows a wait of `delay_ms`: twice as long, up to the
/// longest.
pub open spec fn next_delay(delay_ms: int) -> int {
    if 2 * delay_ms <= MAX_DELAY_MS {
        2 * delay_ms
    } else {
        MAX_DELAY_MS as int
    }
}

/// What to do after a probe of a server that is starting.
#[derive(Debug, Clone, PartialEq, Eq)]
pub enum WaitStep {
    /// The server is ready.
    Ready,
    /// The server took too long.
    GiveUp(BeadsError),
    /// Wait `delay_ms` before the next probe, and `next_ms` after that one.
    Retry { delay_ms: u64, next_ms: u64 },
}

/// A [`WaitStep`] as a value.
pub enum WaitStepView {
    Ready,
    GiveUp(BeadsErrorView),
    Retry { delay_ms: u64, next_ms: u64 },
}

impl DeepView for WaitStep {
    type V = WaitStepView;

    open spec fn deep_view(&self) -> WaitStepView {
        match self {
            WaitStep::Ready => WaitStepView::Ready,
            WaitStep::GiveUp(error) => WaitStepView::GiveUp(error.deep_view()),
            WaitStep::Retry { delay_ms, next_ms } => WaitStepView::Retry {
                delay_ms: *delay_ms,
                next_ms: *next_ms,
            },
        }
    }
}

/// The error where the server at `host` and `port` took too long.
pub open spec fn not_ready(host: Seq<char>, port: u16, timeout_ms: u64) -> BeadsErrorView {
    BeadsErrorView::CommandFailed(
        "dolt sql-server did not become ready on "@ + host + ":"@ + decimal(port as nat)
            + " within "@ + decimal((timeout_ms / 1000) as nat) + "s"@,
    )
}

/// What to do after a probe of the server at `host` and `port`, which was
/// started `elapsed_ms` ago: `open` tells whether the probe succeeded, and
/// `delay_ms` is the next wait. A server that answers only after the time limit
/// is not ready, and no wait goes beyond that limit.
pub open spec fn waiting(
    host: Seq<char>,
    port: u16,
    timeout_ms: u64,
    delay_ms: u64,
    open: bool,
    elapsed_ms: u128,
) -> WaitStepView {
    if open && elapsed_ms <= timeout_ms {
        WaitStepView::Ready
    } else if elapsed_ms >= timeout_ms {
        WaitStepView::GiveUp(not_ready(host, port, timeout_ms))
    } else {
        WaitStepView::Retry {
            delay_ms: capped_delay(timeout_ms, delay_ms, elapsed_ms) as u64,
            next_ms: next_delay(delay_ms as int) as u64,
        }
    }
}

/// The wait `delay_ms`, or the time that is left where that is less: first
/// until [`LAST_PROBE_MS`] before the time limit, then until the limit itself.
pub open spec fn capped_delay(timeout_ms: u64, delay_ms: u64, elapsed_ms: u128) -> int {
    let left = if elapsed_ms + LAST_PROBE_MS < timeout_ms {
        timeout_ms - elapsed_ms - LAST_PROBE_MS
    } else {
        timeout_ms - elapsed_ms
    };
    if delay_ms <= left {
        delay_ms as int
    } else {
        left
    }
}

/// Decides what to do after a probe of the server at `host` and `port`, which
/// was started `elapsed_ms` ago: `open` tells whether the probe succeeded, and
/// `delay_ms` is the next wait.
pub fn wait_for_ready(
    host: &str,
    port: u16,
    timeout_ms: u64,
    delay_ms: u64,
    open: bool,
    elapsed_ms: u128,
) -> (step: WaitStep)
    ensures
        step.deep_view() == waiting(host@, port, timeout_ms, delay_ms, open, elapsed_ms),
        step is Ready <==> open && elapsed_ms <= timeout_ms,
        step is GiveUp <==> elapsed_ms > timeout_ms || (!open && elapsed_ms == timeout_ms),
        step matches WaitStep::GiveUp(error) ==> error.deep_view() == BeadsErrorView::CommandFailed(
            "dolt sql-server did not become ready on "@ + host@ + ":"@ + decimal(port as nat)
                + " within "@ + decimal((timeout_ms / 1000) as nat) + "s"@,
        ),
        step matches WaitStep::Retry { delay_ms: wait, next_ms: next } ==> {
            &&& wait <= delay_ms && elapsed_ms + wait <= timeout_ms
            &&& elapsed_ms + delay_ms + 50 <= timeout_ms ==> wait == delay_ms
            &&& delay_ms <= 1600 ==> next == 2 * delay_ms
            &&& delay_ms > 1600 ==> next == 3200
        },
{
    if open && elapsed_ms <= timeout_ms as u128 {
        return WaitStep::Ready;
    }
    if elapsed_ms >= timeout_ms as u128 {
        let message: String = "dolt sql-server did not become ready on ".to_owned().concat(
            host,
        ).concat(":").concat(decimal_text(port as u64).as_str()).concat(" within ").concat(
            decimal_text(timeout_ms / 1000).as_str(),
        ).concat("s");
        return WaitStep::GiveUp(BeadsError::CommandFailed(message));
    }
    let rest_ms: u64 = timeout_ms - elapsed_ms as u64;
    let left_ms: u64 = if rest_ms > LAST_PROBE_MS {
        rest_ms - LAST_PROBE_MS
    } else {
        rest_ms
    };
    let next_ms: u64 = if delay_ms <= MAX_DELAY_MS / 2 {
        delay_ms * 2
    } else {
        MAX_DELAY_MS
    };
    let delay_ms: u64 = if delay_ms <= left_ms {
        delay_ms
    } else {
        left_ms
    };
    WaitStep::Retry { delay_ms, next_ms }
}

/// The wait after `k` failed probes.
pub open spec fn delay_after(k: nat) -> int
    decreases k,
{
    if k == 0 {
        FIRST_DELAY_MS as int
    } else {
        next_delay(delay_after((k - 1) as nat))
    }
}

/// A server is ready only if it answers within the time limit, and waiting for
/// it ends no later than at that limit. No wait that begins earlier goes on
/// into the last [`LAST_PROBE_MS`] before the limit, so a server that is up by
/// then is still probed in time.
pub proof fn waiting_keeps_the_time_limit(
    host: Seq<char>,
    port: u16,
    timeout_ms: u64,
    delay_ms: u64,
    open: bool,
    elapsed_ms: u128,
)
    ensures
        ({
            let step = waiting(host, port, timeout_ms, delay_ms, open, elapsed_ms);
            &&& step is Ready <==> open && elapsed_ms <= timeout_ms
            &&& step is GiveUp <==> !(step is Ready) && elapsed_ms >= timeout_ms
            &&& step is Retry ==> elapsed_ms + step->Retry_delay_ms <= timeout_ms
            &&& step is Retry && elapsed_ms + LAST_PROBE_MS < timeout_ms ==> elapsed_ms
                + step->Retry_delay_ms + LAST_PROBE_MS <= timeout_ms
        }),
{
}

/// The waits between probes double from 100 ms up to 3200 ms, and stay there.
pub proof fn waits_double_up_to_the_longest(k: nat)
    ensures
        k <= 5 ==> delay_after(k) == 100 * vstd::arithmetic::power2::pow2(k),
        k >= 5 ==> delay_after(k) == 3200,
        delay_after(k) <= delay_after(k + 1) <= MAX_DELAY_MS,
    decreases k,
{
    vstd::arithmetic::power2::lemma2_to64();
    reveal_with_fuel(delay_after, 8);
    if k > 5 {
        waits_double_up_to_the_longest((k - 1) as nat);
    }
}

/// What cannot be done is told with the directory, the port or the cause in
/// full.
pub proof fn failures_are_told_in_full(
    dolt_root: Seq<char>,
    text: Seq<char>,
    cause: String,
    host: Seq<char>,
    port: u16,
    timeout_ms: u64,
)
    ensures
        unreadable_root(dolt_root, text) == BeadsErrorView::CommandFailed(
            "cannot read dolt directory "@ + dolt_root + ": "@ + text,
        ),
        no_database(dolt_root) == BeadsErrorView::CommandFailed(
            "no dolt database directory found under "@ + dolt_root,
        ),
        no_port(PortError::Bind(cause)) == BeadsErrorView::CommandFailed(
            "failed to find free port: "@ + cause@,
        ),
        no_port(PortError::Address(cause)) == BeadsErrorView::CommandFailed(
            "failed to get local address: "@ + cause@,
        ),
        no_server(SpawnError::NotFound) == BeadsErrorView::CommandFailed(
            "dolt binary not found — please install dolt and ensure it is on PATH"@,
        ),
        no_server(SpawnError::Other(cause)) == BeadsErrorView::CommandFailed(
            "failed to spawn dolt sql-server: "@ + cause@,
        ),
        not_ready(host, port, timeout_ms) == BeadsErrorView::CommandFailed(
            "dolt sql-server did not become ready on "@ + host + ":"@ + decimal(port as nat)
                + " within "@ + decimal((timeout_ms / 1000) as nat) + "s"@,
        ),
{
}

/// A server is started and reached under the same address and port, and a
/// connection holds what it was built with.
pub proof fn servers_are_reached_where_they_listen(
    host: Seq<char>,
    port: u16,
    db_name: Seq<char>,
)
    ensures
        HOST@ == "127.0.0.1"@,
        server_arguments(port).len() == 5,
        server_arguments(port)[0] == "sql-server"@,
        server_arguments(port)[1] == "--host"@,
        server_arguments(port)[2] == HOST@,
        server_arguments(port)[3] == "--port"@,
        server_arguments(port)[4] == decimal(port as nat),
        connection(host, port, db_name).host == host,
        connection(host, port, db_name).port == port,
        connection(host, port, db_name).database == db_name,
        connection(host, port, db_name).min_connections == 1,
        connection(host, port, db_name).max_connections == 5,
{
}

/// The database is named as its directory, with underscores for hyphens; the
/// first directory is the one that no other comes before.
pub proof fn databases_are_named_after_their_directory(
    entries: Seq<DirEntry>,
    i: int,
    entry: DirEntry,
)
    ensures
        is_first_dir(entries, i) <==> 0 <= i < entries.len() && entries[i].is_dir && forall|j: int|
            0 <= j < i ==> !(#[trigger] entries[j]).is_dir,
        entry.name is None ==> database_name(entry).len() == 0,
        entry.name matches Some(name) ==> database_name(entry).len() == name@.len() && forall|k: int|
            0 <= k < name@.len() ==> #[trigger] database_name(entry)[k] == if name@[k] == '-' {
                '_'
            } else {
                name@[k]
            },
{
}

/// Each wait is twice the one before, but never above 3200 ms.
pub proof fn waits_double(delay_ms: int)
    ensures
        delay_ms <= 1600 ==> next_delay(delay_ms) == 2 * delay_ms,
        delay_ms > 1600 ==> next_delay(delay_ms) == 3200,
        delay_after(0) == 100,
        READY_TIMEOUT_MS == 10000,
{
}

/// Only the time that is left shortens a wait.
pub proof fn waits_are_cut_only_by_the_limit(timeout_ms: u64, delay_ms: u64, elapsed_ms: u128)
    requires
        elapsed_ms < timeout_ms,
    ensures
        elapsed_ms + 50 < timeout_ms ==> capped_delay(timeout_ms, delay_ms, elapsed_ms) == if delay_ms
            <= timeout_ms - elapsed_ms - 50 {
            delay_ms as int
        } else {
            timeout_ms - elapsed_ms - 50
        },
        elapsed_ms + 50 >= timeout_ms ==> capped_delay(timeout_ms, delay_ms, elapsed_ms)
            == if delay_ms <= timeout_ms - elapsed_ms {
            delay_ms as int
        } else {
            timeout_ms - elapsed_ms
        },
{
}

/// A connection and a step of waiting show everything.
pub proof fn connections_show_every_field(
    c: DoltConnection,
    error: BeadsError,
    delay_ms: u64,
    next_ms: u64,
)
    ensures
        c.deep_view().host == c.host@,
        c.deep_view().port == c.port,
        c.deep_view().database == c.database@,
        c.deep_view().min_connections == c.min_connections,
        c.deep_view().max_connections == c.max_connections,
        WaitStep::Ready.deep_view() == WaitStepView::Ready,
        WaitStep::GiveUp(error).deep_view() == WaitStepView::GiveUp(error.deep_view()),
        (WaitStep::Retry { delay_ms, next_ms }).deep_view() == (WaitStepView::Retry {
            delay_ms,
            next_ms,
        }),
{
}

} // verus!
