//! Maintenance mode for a system that is being updated.
//!
//! While an updater works through a chain of versions, this library reads
//! what the updater reports of itself and settles how far the whole campaign
//! has come:
//!
//! - `status` reads the updater's `key=value` status text,
//! - `details` finds the progress readings of the running sub-step,
//! - `plan` derives the versions to go through and the place reached,
//! - `progress` combines plan and status into the overall percentage,
//! - `publish` writes the record that carries the percentage,
//! - `cycle` does all of this for the three texts of one poll cycle,
//! - `page` holds the page that is shown in the meantime,
//! - `text` cuts character sequences at separators for all of them.
//!
//! The library reads and writes no files and keeps nothing between two
//! calls: every function gives the same result for the same arguments.

pub mod cycle;
pub mod details;
pub mod page;
pub mod plan;
pub mod progress;
pub mod publish;
pub mod status;
pub mod text;
