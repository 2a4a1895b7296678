//! Acquisition and verification core of the ampkg package manager.
//!
//! The library decides; its caller acts. A batch of artifacts is fetched in
//! two phases, the detached signatures first and the payloads after them
//! under a bounded window, and a payload is handed on only once the external
//! `minisign` program has reported that its signature verifies under a trusted
//! key. Everything that touches the network, the disk or a process is left to
//! the caller, which reports what happened and is told what to do next.
//!
//! - [`scheduler`]: the batch, its two phases and its window.
//! - [`transfer`]: one transfer, from the response to the finished file.
//! - [`verify`]: what is asked of `minisign` and how its answer is read.
//! - [`unpack`]: which archive entries may be written.
//! - [`pkgdb`]: the records of the installed packages and their file.
//! - [`control`]: the control file of a package.
//! - [`paths`]: the directories and the names of staged files.

pub mod control;
pub mod paths;
pub mod pkgdb;
pub mod scheduler;
pub mod text;
pub mod transfer;
pub mod unpack;
pub mod verify;
