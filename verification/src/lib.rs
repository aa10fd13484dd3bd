//! Self-update engine for a repository-management command-line tool.
//!
//! The library models releases of the tool, picks the newest release that is
//! applicable to the running platform, drives a bounded-redirect download as a
//! pure state machine, and encodes the crash-recoverable replacement protocol
//! as a persisted state record with a fixed JSON form.  All I/O stays outside:
//! callers fetch bytes and move files, the library decides every step.

pub mod api;
pub mod commands;
pub mod download;
pub mod errors;
pub mod github;
pub mod registry;
pub mod release;
pub mod state_json;
pub mod strutil;
pub mod tasks;
pub mod version;

pub use api::{Source, UpdateAction, UpdatePhase, UpdateState};
pub use commands::{AppsCommand, NewCommand, ServicesCommand, ShellInitCommand};
pub use download::Download;
pub use errors::Error;
pub use github::GitHubSource;
pub use registry::GitHubRegistry;
pub use release::{Release, ReleaseVariant};
pub use tasks::{GitCheckout, GitSwitch, NewFolder};
pub use version::Version;
