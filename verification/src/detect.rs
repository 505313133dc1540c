//! Which backend a project uses, and the registry of the backends in use.

use vstd::prelude::*;

use crate::error::BeadsError;
use crate::path::PathParts;
use crate::path_map::PathMap;

verus! {

/// The type of storage backend detected for a project.
#[derive(Debug, Clone, Copy, PartialEq, Eq)]
pub enum BackendType {
    /// JSONL flat-file storage (default).
    Jsonl,
    /// Dolt relational database storage.
    Dolt,
}

/// Where a project keeps its configuration.
pub const CONFIG_FILE: &'static str = ".beads/config.yaml";

/// Where a project keeps its Dolt databases.
pub const DOLT_DIR: &'static str = ".beads/dolt";

/// The boolean that the YAML document `contents` has at its top level under
/// `key`: what `serde_yaml::from_str`, then `serde_yaml::Value::get`, then
/// `serde_yaml::Value::as_bool` make of them. None where the document does not
/// parse, is no mapping, has no such key, or has something else under it.
pub uninterp spec fn yaml_bool(contents: Seq<char>, key: Seq<char>) -> Option<bool>;

/// `serde_yaml::from_str` into a `serde_yaml::Value`, whose `get` and `as_bool`
/// give the boolean under `key`. The result is determined by the document and
/// the key alone; what YAML grammar makes of the document is left to the name
/// [`yaml_bool`].
#[verifier::external_body]
fn read_yaml_bool(contents: &str, key: &str) -> (entry: Option<bool>)
    ensures
        entry == yaml_bool(contents@, key@),
{
    serde_yaml::from_str::<serde_yaml::Value>(contents).ok()?.get(key)?.as_bool()
}

/// The backend of a project: JSONL where the configuration says that there is
/// no database, else Dolt where there is a Dolt directory, else JSONL.
pub open spec fn detected(no_db: Option<bool>, dolt_dir: bool) -> BackendType {
    if no_db == Some(true) {
        BackendType::Jsonl
    } else if dolt_dir {
        BackendType::Dolt
    } else {
        BackendType::Jsonl
    }
}

/// Chooses the backend from the `no-db` entry of the configuration and from
/// whether [`DOLT_DIR`] is a directory.
pub fn choose_backend(no_db: Option<bool>, dolt_dir: bool) -> (backend: BackendType)
    ensures
        backend == detected(no_db, dolt_dir),
{
    match no_db {
        Some(true) => BackendType::Jsonl,
        _ => if dolt_dir {
            BackendType::Dolt
        } else {
            BackendType::Jsonl
        },
    }
}

/// The `no-db` entry of a configuration file; none where there is no file.
pub open spec fn no_db_entry(config: Option<&str>) -> Option<bool> {
    match config {
        Some(contents) => yaml_bool(contents@, "no-db"@),
        None => None,
    }
}

/// Detects which backend a project uses.
///
/// `config` is the contents of [`CONFIG_FILE`], where it could be read, and
/// `dolt_dir` tells whether [`DOLT_DIR`] is a directory.
///
/// 1. If the configuration contains `no-db: true`, JSONL.
/// 2. If there is a Dolt directory, Dolt.
/// 3. Otherwise JSONL.
pub fn detect_backend(config: Option<&str>, dolt_dir: bool) -> (backend: BackendType)
    ensures
        backend == detected(no_db_entry(config), dolt_dir),
        backend == BackendType::Dolt <==> dolt_dir && !(config is Some && yaml_bool(
            config->0@,
            "no-db"@,
        ) == Some(true)),
{
    let no_db = match config {
        Some(contents) => read_yaml_bool(contents, "no-db"),
        None => None,
    };
    choose_backend(no_db, dolt_dir)
}

/// A backend in use: its type, and the place that tells it from every other
/// backend of the same registry.
#[derive(Debug, Clone, Copy, PartialEq, Eq)]
pub struct BackendHandle {
    pub slot: usize,
    pub backend: BackendType,
}

/// Registry that detects the backend of each project path once, and returns
/// the same backend from then on.
pub struct BackendRegistry {
    backends: PathMap<BackendHandle>,
}

impl View for BackendRegistry {
    type V = Map<Seq<Seq<u8>>, BackendHandle>;

    /// The backend of each project path that has one.
    closed spec fn view(&self) -> Map<Seq<Seq<u8>>, BackendHandle> {
        self.backends@
    }
}

/// What a request for the backend of `path` does: a path that has a backend
/// keeps it and the registry stays as it is; another path gets a backend of the
/// type `found` in the next place, which is the number of paths that had one,
/// and no other path is affected.
pub open spec fn requested(
    before: Map<Seq<Seq<u8>>, BackendHandle>,
    path: Seq<Seq<u8>>,
    found: BackendType,
    after: Map<Seq<Seq<u8>>, BackendHandle>,
    handle: BackendHandle,
) -> bool {
    if before.contains_key(path) {
        &&& handle == before[path]
        &&& after == before
    } else {
        &&& handle.backend == found
        &&& handle.slot == before.len()
        &&& forall|other: Seq<Seq<u8>>| #[trigger]
            before.contains_key(other) ==> before[other].slot != handle.slot
        &&& after == before.insert(path, handle)
    }
}

/// Whether no two project paths share a backend.
pub open spec fn slots_differ(backends: Map<Seq<Seq<u8>>, BackendHandle>) -> bool {
    forall|p: Seq<Seq<u8>>, q: Seq<Seq<u8>>|
        #![trigger backends[p], backends[q]]
        backends.contains_key(p) && backends.contains_key(q) && p != q ==> backends[p].slot
            != backends[q].slot
}

impl BackendRegistry {
    #[verifier::type_invariant]
    spec fn wf(self) -> bool {
        &&& slots_differ(self.backends@)
        &&& forall|path: Seq<Seq<u8>>|
            #![trigger self.backends@[path]]
            self.backends@.contains_key(path) ==> self.backends@[path].slot < self.backends@.len()
    }

    /// Creates an empty registry.
    pub fn new() -> (registry: BackendRegistry)
        ensures
            registry@ == Map::<Seq<Seq<u8>>, BackendHandle>::empty(),
    {
        BackendRegistry { backends: PathMap::new() }
    }

    /// The backend of `path`, when it has one already.
    pub fn lookup(&self, path: &PathParts) -> (handle: Option<BackendHandle>)
        ensures
            handle == if self@.contains_key(path.deep_view()) {
                Some(self@[path.deep_view()])
            } else {
                None
            },
            slots_differ(self@),
    {
        proof {
            use_type_invariant(self);
        }
        match self.backends.get(path) {
            Some(handle) => Some(*handle),
            None => None,
        }
    }

    /// Returns (or creates) the backend for the given project path.
    ///
    /// On the first request for a path its backend type is detected and
    /// remembered; later requests return what was found then.
    pub fn get_or_create(
        &mut self,
        path: &PathParts,
        config: Option<&str>,
        dolt_dir: bool,
    ) -> (result: Result<BackendHandle, BeadsError>)
        ensures
            result is Ok,
            requested(
                old(self)@,
                path.deep_view(),
                detected(no_db_entry(config), dolt_dir),
                final(self)@,
                result->Ok_0,
            ),
            slots_differ(old(self)@),
            slots_differ(final(self)@),
    {
        proof {
            use_type_invariant(&*self);
        }
        match self.lookup(path) {
            Some(handle) => Ok(handle),
            None => {
                let handle = BackendHandle {
                    slot: self.backends.len(),
                    backend: detect_backend(config, dolt_dir),
                };
                let mut backends: PathMap<BackendHandle> = PathMap::new();
                std::mem::swap(&mut backends, &mut self.backends);
                let _ = backends.insert(path, handle);
                self.backends = backends;
                Ok(handle)
            },
        }
    }
}

impl Default for BackendRegistry {
    fn default() -> (registry: BackendRegistry)
        ensures
            registry@ == Map::<Seq<Seq<u8>>, BackendHandle>::empty(),
    {
        BackendRegistry::new()
    }
}

/// `no-db: true` gives JSONL even where there is a Dolt directory; any other
/// configuration leaves the choice to the directory.
pub proof fn no_db_takes_precedence(no_db: Option<bool>, dolt_dir: bool)
    ensures
        detected(no_db, dolt_dir) == BackendType::Dolt <==> dolt_dir && no_db != Some(true),
{
}

/// Two requests for the same path return the same backend, whatever the
/// project holds the second time.
pub proof fn same_path_same_backend(
    first: Map<Seq<Seq<u8>>, BackendHandle>,
    second: Map<Seq<Seq<u8>>, BackendHandle>,
    third: Map<Seq<Seq<u8>>, BackendHandle>,
    path: Seq<Seq<u8>>,
    found: BackendType,
    found_later: BackendType,
    handle: BackendHandle,
    later: BackendHandle,
)
    requires
        requested(first, path, found, second, handle),
        requested(second, path, found_later, third, later),
    ensures
        later == handle,
        third == second,
{
}

/// Requests for different paths return different backends.
pub proof fn different_paths_different_backends(
    first: Map<Seq<Seq<u8>>, BackendHandle>,
    second: Map<Seq<Seq<u8>>, BackendHandle>,
    third: Map<Seq<Seq<u8>>, BackendHandle>,
    path: Seq<Seq<u8>>,
    other: Seq<Seq<u8>>,
    found: BackendType,
    found_other: BackendType,
    handle: BackendHandle,
    other_handle: BackendHandle,
)
    requires
        path != other,
        slots_differ(first),
        requested(first, path, found, second, handle),
        requested(second, other, found_other, third, other_handle),
    ensures
        other_handle.slot != handle.slot,
        third.contains_key(path) && third[path] == handle,
        third.contains_key(other) && third[other] == other_handle,
{
    assert(second.contains_key(path) && second[path] == handle);
}

/// A project has the `no-db` entry of its configuration file, and none without
/// such a file.
pub proof fn entries_come_from_the_configuration(contents: &str)
    ensures
        no_db_entry(Some(contents)) == yaml_bool(contents@, "no-db"@),
        no_db_entry(None) is None,
{
}

/// A path that has a backend keeps it, and nothing changes. Another path gets
/// one of the type that was found, in the next place, and every other path
/// keeps what it had.
pub proof fn requests_touch_one_path(
    before: Map<Seq<Seq<u8>>, BackendHandle>,
    path: Seq<Seq<u8>>,
    found: BackendType,
    after: Map<Seq<Seq<u8>>, BackendHandle>,
    handle: BackendHandle,
    other: Seq<Seq<u8>>,
)
    requires
        requested(before, path, found, after, handle),
    ensures
        after.contains_key(path) && after[path] == handle,
        before.contains_key(path) ==> handle == before[path],
        !before.contains_key(path) ==> handle.backend == found && handle.slot == before.dom().len(),
        other != path ==> after.contains_key(other) == before.contains_key(other),
        other != path && before.contains_key(other) ==> after[other] == before[other],
{
}

} // verus!
