//! Decision logic for a beads issue board backend.

pub mod beads;
pub mod call_laws;
pub mod detect;
pub mod dolt;
pub mod dolt_column_laws;
pub mod dolt_laws;
pub mod dolt_manager;
pub mod dolt_server;
pub mod dolt_watcher;
pub mod error;
pub mod jsonl;
pub mod jsonl_laws;
pub mod jsonl_watcher;
pub mod kinship_laws;
pub mod path;
pub mod path_map;
pub mod relation_laws;
pub mod relations;
pub mod selection;
pub mod text;
pub mod text_laws;
pub mod watch;
