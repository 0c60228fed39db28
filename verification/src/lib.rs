//! Shared building blocks of a terminal application: identifiers of cloud
//! objects, the object type catalogue, the framing of IPC messages, the
//! heuristics that tell natural language from shell input, and the merging
//! of raw file-system notifications into one bulk change set.

pub mod text;
pub mod cloud_object;
pub mod uuid_text;
pub mod ids;
pub mod ipc;
pub mod natural_language;
pub mod path_table;
pub mod watcher;
