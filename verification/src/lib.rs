//! A verified core for a remote file manager: a single authenticated session,
//! a FIFO task dispatcher that executes filesystem operations one at a time,
//! directory-listing order, diagnostic-output parsing, chunked transfers, and
//! the translation table for the user-facing strings.

pub mod dispatcher;
pub mod errors;
pub mod listing;
pub mod localization;
pub mod profiles;
pub mod stats;
mod strutil;
pub mod task;
pub mod transfer;

pub use dispatcher::{Dispatcher, Plan, RemoteOp, RemotePayload};
pub use errors::{ErrorKind, TaskError};
pub use listing::DirEntry;
pub use localization::{Language, Localizer};
pub use profiles::SSHConnectionData;
pub use stats::ServerStats;
pub use task::{Task, TaskResult};
