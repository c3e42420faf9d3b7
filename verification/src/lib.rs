//! Update engine of a game launcher: it finds the files of a local
//! installation that differ from a manifest, and sequences their download,
//! their installation and the recording of the installed version.
//!
//! The library touches neither the disk nor the network. A [`PatchRun`]
//! decides what is to be done next and hands it out as a [`Command`]; its
//! driver carries the command out, reports what came of it as an [`Event`],
//! and passes each [`Notice`] that the run returns on to the subscriber,
//! until the run hands out [`Command::Finish`]:
//!
//! - [`manifest`] reads a manifest and selects the entries whose local file
//!   differs;
//! - [`digest`] computes the digest that a manifest gives for a file;
//! - [`model`] defines the run as a state machine over plain values, and
//!   [`run`] is that machine in executable form;
//! - [`laws`] proves what holds of every run;
//! - [`marker`] reads the record of the version that was installed last.

pub mod config;
pub mod digest;
pub mod error;
pub mod laws;
pub mod manifest;
pub mod marker;
pub mod model;
pub mod progress;
pub mod run;
pub mod text;

pub use config::{get_fixed_endpoints, Endpoint};
pub use error::{ErrorKind, PatchError};
pub use manifest::{get_changed_paths, parse_manifest, select_changed, ChangeEntry};
pub use marker::{get_etag, ETAG_FILE};
pub use model::{Notice, Stage};
pub use progress::{Phase, ProgressEvent};
pub use run::{Command, Event, PatchRun, PACING_SECONDS, STAGING_DIR};
