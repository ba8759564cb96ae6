//! Composition analysis of a resolved dependency snapshot.
//!
//! From the packages of a lock file the library writes two documents that do
//! not depend on each other: a bill of materials (`sbom`) and a report of the
//! advisories that affect the packages (`scanner`). Both work on plain
//! values: the snapshot (`snapshot`), the advisory records (`advisory`) and
//! the license table (`licenses`) are handed in by the caller, who reads them
//! from wherever they are kept. `discovery` tells such a caller where to look
//! for the lock file of an unpacked project.
//!
//! Versions and version ranges are judged by the `semver` crate (`ranges`);
//! what it answers is taken on trust, and everything built on its answers is
//! proved.

pub mod advisory;
pub mod discovery;
pub mod licenses;
pub mod ranges;
pub mod sbom;
pub mod scanner;
pub mod seqs;
pub mod snapshot;
pub mod text;
