//! Watches a directory tree and, for each created or modified file, copies it
//! into a backup directory under a timestamped name and runs a command built
//! from a template.
//!
//! The library holds the decisions: how a backup is named, where it goes, what
//! command line is run, and what the watch loop does next for each event. The
//! caller performs the filesystem work and hands back what happened.

pub mod command;
pub mod naming;
pub mod session;
pub mod timestamp;

pub use command::{command_args, run_command_if_required, substitute};
pub use naming::{
    backup_destination, backup_file_name_at, backup_target_at, construct_backup_file_name,
    file_name_of, join_path,
};
pub use session::{
    check_backup_directory, Action, ChangeEvent, CopyError, ErrorKind, EventKind, Input, Phase, WatchError,
    WatchSession,
};
pub use timestamp::LocalTimestamp;
