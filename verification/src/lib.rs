//! Verified reconciliation core for a tiling-compositor workspace manager.
//!
//! The compositor itself is an external collaborator reached over an IPC
//! channel; this library computes which primitive commands achieve a
//! higher-level intent (move a workspace away from an output, move a range,
//! swap two workspaces, provision virtual outputs) and how to restore the
//! user's focus and visibility state afterwards. Everything here is pure:
//! callers query the compositor, hand the live lists to these functions, and
//! send the returned command texts back over the channel. The `semantics`
//! module states what running the planned commands does to a modeled
//! compositor and proves the swap protocol self-inverse and the snapshot
//! restore pass correct.

pub mod command;
pub mod error;
pub mod focus;
pub mod listing;
pub mod model;
pub mod moves;
pub mod num;
pub mod provision;
pub mod range;
pub mod semantics;
pub mod snapshot;
pub mod strutil;
pub mod swap;
pub mod util;

pub use command::Command;
pub use error::SwayWsError;
pub use focus::{Focus, FocusBy};
pub use model::{Output, Workspace};
pub use provision::ProvisionStep;
pub use range::RangeSpec;
pub use snapshot::Snapshot;
