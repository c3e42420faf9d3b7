//! What a patch run tells its subscriber.

use vstd::prelude::*;

verus! {

/// The phase a patch run is in.
#[derive(Debug, Clone, Copy, PartialEq, Eq, Structural)]
pub enum Phase {
    /// The manifest is parsed and the local files are compared with it.
    Checking,
    /// The files that differ are fetched into the staging directory.
    Downloading,
    /// The staged files are moved into the target tree and the marker is
    /// written.
    Patching,
    /// The run succeeded.
    Done,
    /// The run failed.
    Error,
}

impl Phase {
    /// The number that stands for this phase on the wire: the phases are
    /// numbered from 0 in the order of their declaration.
    pub open spec fn spec_code(self) -> u8 {
        match self {
            Phase::Checking => 0,
            Phase::Downloading => 1,
            Phase::Patching => 2,
            Phase::Done => 3,
            Phase::Error => 4,
        }
    }

    /// The number that stands for this phase on the wire.
    pub fn code(&self) -> (code: u8)
        ensures
            code == self.spec_code(),
    {
        match self {
            Phase::Checking => 0,
            Phase::Downloading => 1,
            Phase::Patching => 2,
            Phase::Done => 3,
            Phase::Error => 4,
        }
    }

    /// Whether no further event follows one of this phase.
    pub open spec fn is_terminal(self) -> bool {
        self == Phase::Done || self == Phase::Error
    }
}

/// One progress notification. `total` and `current` count files and are
/// meaningful while downloading only; in every other phase both are 0.
#[derive(Debug, Clone, Copy, PartialEq, Eq, Structural)]
pub struct ProgressEvent {
    pub total: usize,
    pub current: usize,
    pub state: Phase,
}

impl ProgressEvent {
    /// The event of a phase that counts no files.
    pub open spec fn spec_plain(state: Phase) -> ProgressEvent {
        ProgressEvent { total: 0, current: 0, state }
    }

    /// The event that reports `current` of `total` files as downloaded.
    pub open spec fn spec_downloading(total: usize, current: usize) -> ProgressEvent {
        ProgressEvent { total, current, state: Phase::Downloading }
    }

    /// The event of a phase that counts no files.
    pub fn plain(state: Phase) -> (event: ProgressEvent)
        ensures
            event == Self::spec_plain(state),
    {
        ProgressEvent { total: 0, current: 0, state }
    }

    /// The event that reports `current` of `total` files as downloaded.
    pub fn downloading(total: usize, current: usize) -> (event: ProgressEvent)
        ensures
            event == Self::spec_downloading(total, current),
    {
        ProgressEvent { total, current, state: Phase::Downloading }
    }
}

} // verus!
