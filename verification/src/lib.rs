//! Host-side control surface for a desktop application that delegates its
//! real work to an external backend server process.
//!
//! The crate covers two coupled subsystems:
//! - locating a bundled or system package manager and launching, stopping and
//!   restarting the backend process it manages (`locator`, `supervisor`);
//! - capturing fatal host failures as structured crash reports, serializing
//!   them to a JSON on-disk form and reading them back (`report`, `store`,
//!   `interceptor`).
//!
//! All file, process and clock access stays with the embedding application;
//! the functions here are the decision and data logic, each with a contract.

use vstd::prelude::*;

pub mod chars;
pub mod codec;
pub mod escape;
pub mod interceptor;
pub mod locator;
pub mod report;
pub mod store;
pub mod supervisor;

verus! {

/// Deployment mode of the host application.
///
/// `Development` launches the backend from a fixed source-tree location;
/// `Standalone` uses a runtime bundled next to the host executable.
#[derive(Clone, Copy, Debug, PartialEq, Eq, Structural)]
pub enum Mode {
    Development,
    Standalone,
}

} // verus!
