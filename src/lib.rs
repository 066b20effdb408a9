//! Persistent environment variables.
//!
//! A variable is written into the user's shell start-up file (POSIX) or into the
//! per-user registry hive (Windows), and mirrored into the calling process.
//! The library holds the decisions and the text processing; the caller performs
//! the reads and writes that a [`Session`] asks for.
pub mod entries;
pub mod error;
pub mod laws;
pub mod session;
pub mod shell;

pub use entries::{entry_prefix, lookup_entry, rewrite_entries};
pub use error::EnvError;
pub use session::{process_can_hold, Action, Backend, Event, RegistryRead, RegistryWrite, Session, Stage};
pub use shell::{init_file_name, join_dir, locate_init_file, same_text};
