//! The patch run as a state machine over plain values: which command is
//! pending in each state, which events answer it, and what each answer leads
//! to.

use vstd::prelude::*;

use crate::digest::{differs, local_digest_of};
use crate::error::PatchError;
use crate::manifest::{entry_wf, in_tree, parse, EntryView};
use crate::progress::{Phase, ProgressEvent};

verus! {

/// Where a run stands. Each stage has one pending command.
#[derive(Debug, Clone, Copy, PartialEq, Eq, Structural)]
pub enum Stage {
    /// The staging directory is being created.
    CreateStaging,
    /// Checking was announced; the run pauses before it reads the manifest.
    SettleChecking,
    /// The local file of one entry is being read.
    Check,
    /// Downloading was announced; the run pauses before the first request.
    SettleDownloading,
    /// The run pauses before the request for one changed file.
    Pace,
    /// One changed file is being requested.
    Request,
    /// The body of a response is being written to the staging directory.
    Store,
    /// All changed files are staged; the run pauses before it installs them.
    SettleDownloaded,
    /// One staged file is being moved into the target tree.
    Install,
    /// The marker is being written.
    WriteMarker,
    /// The marker is written; the run pauses before it reports success.
    SettleDone,
    /// The staging directory is being removed.
    Cleanup,
    /// The run is over.
    Finished,
}

/// The state of a run.
pub struct RunView {
    pub stage: Stage,
    /// The text of the manifest.
    pub manifest: Seq<char>,
    /// The version token of the manifest.
    pub etag: Seq<char>,
    /// The address below which the patch server offers the files.
    pub base_url: Seq<char>,
    /// The entries of the manifest, once it is read.
    pub entries: Seq<EntryView>,
    /// The change set, as far as it is known.
    pub changed: Seq<EntryView>,
    /// The position of the entry at hand: in `entries` while checking, in
    /// `changed` while downloading and installing.
    pub cursor: nat,
}

/// What the run asks its driver to do.
pub enum CommandView {
    CreateStaging,
    Pause,
    ReadLocal(Seq<char>),
    Request(Seq<char>),
    Store(Seq<char>),
    Install(Seq<char>),
    WriteMarker(Seq<char>),
    RemoveStaging,
    Finish,
}

/// What the driver reports back.
pub enum EventView {
    Done,
    Failed(PatchError),
    Cancelled,
    Local(Option<Seq<u8>>),
    Response(u16),
}

/// What the run tells its subscriber.
#[derive(Debug, Clone, Copy, PartialEq, Eq, Structural)]
pub enum Notice {
    /// A progress event.
    Progress(ProgressEvent),
    /// The run failed: the message of the failure goes to the error channel,
    /// and an event of phase `Error` to the progress stream.
    Failure(PatchError),
}

impl Notice {
    /// The progress event that this notice puts on the progress stream.
    pub open spec fn spec_event(self) -> ProgressEvent {
        match self {
            Notice::Progress(event) => event,
            Notice::Failure(_) => ProgressEvent::spec_plain(Phase::Error),
        }
    }

    /// The progress event that this notice puts on the progress stream.
    pub fn event(&self) -> (event: ProgressEvent)
        ensures
            event == self.spec_event(),
    {
        match self {
            Notice::Progress(event) => *event,
            Notice::Failure(_) => ProgressEvent::plain(Phase::Error),
        }
    }

    /// The message that this notice puts on the error channel: that of the
    /// failure, and none for a progress event.
    pub fn message(&self) -> (text: Option<String>)
        ensures
            match self {
                Notice::Progress(_) => text is None,
                Notice::Failure(error) => text is Some && text->0@ == error.spec_message(),
            },
    {
        match self {
            Notice::Progress(_) => None,
            Notice::Failure(error) => Some(error.message()),
        }
    }
}

/// The address of a file on the patch server: the base address, a slash,
/// and the file's path.
pub open spec fn url_of(base_url: Seq<char>, path: Seq<char>) -> Seq<char> {
    base_url + seq!['/'] + path
}

/// Whether a response status stands for success.
pub open spec fn is_success(status: u16) -> bool {
    200 <= status <= 299
}

/// The state in which a run starts.
pub open spec fn initial(manifest: Seq<char>, etag: Seq<char>, base_url: Seq<char>) -> RunView {
    RunView {
        stage: Stage::CreateStaging,
        manifest,
        etag,
        base_url,
        entries: Seq::empty(),
        changed: Seq::empty(),
        cursor: 0,
    }
}

/// Whether a state is one that a run can be in: the cursor points at an
/// entry wherever the pending command names one, the counts fit the
/// counters of a progress event, and the path of every entry stays inside
/// the tree.
pub open spec fn run_wf(s: RunView) -> bool {
    &&& s.manifest.len() <= usize::MAX
    &&& s.entries.len() <= usize::MAX
    &&& s.changed.len() <= usize::MAX
    &&& forall|i: int| 0 <= i < s.entries.len() ==> entry_wf(#[trigger] s.entries[i])
    &&& forall|i: int| 0 <= i < s.changed.len() ==> entry_wf(#[trigger] s.changed[i])
    &&& s.stage == Stage::Check ==> s.cursor < s.entries.len() && s.changed.len() <= s.cursor
    &&& (s.stage == Stage::Pace || s.stage == Stage::Request || s.stage == Stage::Store
        || s.stage == Stage::Install) ==> s.cursor < s.changed.len()
}

/// The command that is pending in a state.
pub open spec fn command(s: RunView) -> CommandView {
    match s.stage {
        Stage::CreateStaging => CommandView::CreateStaging,
        Stage::SettleChecking
        | Stage::SettleDownloading
        | Stage::Pace
        | Stage::SettleDownloaded
        | Stage::SettleDone => CommandView::Pause,
        Stage::Check => CommandView::ReadLocal(s.entries[s.cursor as int].relative_path),
        Stage::Request => CommandView::Request(
            url_of(s.base_url, s.changed[s.cursor as int].relative_path),
        ),
        Stage::Store => CommandView::Store(s.changed[s.cursor as int].relative_path),
        Stage::Install => CommandView::Install(s.changed[s.cursor as int].relative_path),
        Stage::WriteMarker => CommandView::WriteMarker(s.etag),
        Stage::Cleanup => CommandView::RemoveStaging,
        Stage::Finished => CommandView::Finish,
    }
}

/// Whether the path that a command names, if it names one, stays inside the
/// tree it is relative to.
pub open spec fn stays_in_tree(c: CommandView) -> bool {
    match c {
        CommandView::ReadLocal(path) | CommandView::Store(path) | CommandView::Install(path) => {
            in_tree(path)
        },
        _ => true,
    }
}

/// Whether the command of a stage can fail with the given error.
pub open spec fn arises_in(stage: Stage, error: PatchError) -> bool {
    match stage {
        Stage::CreateStaging => error == PatchError::CreateStaging,
        Stage::Request => error == PatchError::Request,
        Stage::Store => error == PatchError::StagedParent || error
            == PatchError::CreateStagedParent || error == PatchError::OpenStaged || error
            == PatchError::ReadChunk || error == PatchError::WriteChunk,
        Stage::Install => error == PatchError::TargetParent || error
            == PatchError::CreateTargetParent || error == PatchError::MoveFile,
        Stage::WriteMarker => error == PatchError::OpenMarker || error == PatchError::WriteMarker,
        Stage::Cleanup => error == PatchError::RemoveStaging,
        _ => false,
    }
}

/// Whether cancellation is honoured in a stage: it is while a file is
/// waited for, requested or stored, and nowhere else.
pub open spec fn is_cancellable(stage: Stage) -> bool {
    stage == Stage::Pace || stage == Stage::Request || stage == Stage::Store
}

/// Whether an event answers the command that is pending in a state. An
/// event that does not is ignored.
pub open spec fn answers(s: RunView, event: EventView) -> bool {
    match event {
        EventView::Done => s.stage != Stage::Check && s.stage != Stage::Request && s.stage
            != Stage::Finished,
        EventView::Failed(error) => arises_in(s.stage, error),
        EventView::Cancelled => is_cancellable(s.stage),
        EventView::Local(_) => s.stage == Stage::Check,
        EventView::Response(_) => s.stage == Stage::Request,
    }
}

/// The state after the pending command failed. A run whose staging
/// directory was never created is over; so is one whose staging directory
/// could not be removed. Every other run goes on to remove it.
pub open spec fn after_failure(s: RunView) -> RunView {
    if s.stage == Stage::CreateStaging || s.stage == Stage::Cleanup {
        RunView { stage: Stage::Finished, ..s }
    } else {
        RunView { stage: Stage::Cleanup, ..s }
    }
}

/// What a failure tells the subscriber: its error, unless the run had
/// already ended and only the removal of the staging directory failed.
pub open spec fn failure_notice(s: RunView, error: PatchError) -> Option<Notice> {
    if s.stage == Stage::Cleanup {
        None
    } else {
        Some(Notice::Failure(error))
    }
}

/// The state after the manifest was read, and the notice that goes with it.
pub open spec fn after_reading(s: RunView) -> (RunView, Option<Notice>) {
    match parse(s.manifest) {
        None => (RunView { stage: Stage::Cleanup, ..s }, Some(Notice::Failure(PatchError::Manifest))),
        Some(entries) => if entries.len() == 0 {
            (
                RunView {
                    stage: Stage::SettleDownloading,
                    entries,
                    changed: Seq::empty(),
                    cursor: 0,
                    ..s
                },
                Some(Notice::Progress(ProgressEvent::spec_downloading(0, 0))),
            )
        } else {
            (
                RunView { stage: Stage::Check, entries, changed: Seq::empty(), cursor: 0, ..s },
                None,
            )
        },
    }
}

/// The state after the local file of the entry at hand was read, and the
/// notice that goes with it: the entry joins the change set unless the file
/// has the expected digest, and after the last entry downloading is
/// announced with the size of the change set.
pub open spec fn after_local(s: RunView, content: Option<Seq<u8>>) -> (RunView, Option<Notice>) {
    let entry = s.entries[s.cursor as int];
    let changed = if differs(entry.expected_digest, local_digest_of(content)) {
        s.changed.push(entry)
    } else {
        s.changed
    };
    if s.cursor + 1 < s.entries.len() {
        (RunView { changed, cursor: s.cursor + 1, ..s }, None)
    } else {
        (
            RunView { stage: Stage::SettleDownloading, changed, cursor: 0, ..s },
            Some(Notice::Progress(ProgressEvent::spec_downloading(changed.len() as usize, 0))),
        )
    }
}

/// The state after the server answered a request, and the notice that goes
/// with it.
pub open spec fn after_response(s: RunView, status: u16) -> (RunView, Option<Notice>) {
    if is_success(status) {
        (RunView { stage: Stage::Store, ..s }, None)
    } else {
        (RunView { stage: Stage::Cleanup, ..s }, Some(Notice::Failure(PatchError::Status)))
    }
}

/// The state after the pending command was carried out, and the notice that
/// goes with it.
pub open spec fn after_done(s: RunView) -> (RunView, Option<Notice>) {
    match s.stage {
        Stage::CreateStaging => (
            RunView { stage: Stage::SettleChecking, ..s },
            Some(Notice::Progress(ProgressEvent::spec_plain(Phase::Checking))),
        ),
        Stage::SettleChecking => after_reading(s),
        Stage::SettleDownloading => if s.changed.len() == 0 {
            (RunView { stage: Stage::SettleDownloaded, ..s }, None)
        } else {
            (RunView { stage: Stage::Pace, cursor: 0, ..s }, None)
        },
        Stage::Pace => (RunView { stage: Stage::Request, ..s }, None),
        Stage::Store => (
            if s.cursor + 1 < s.changed.len() {
                RunView { stage: Stage::Pace, cursor: s.cursor + 1, ..s }
            } else {
                RunView { stage: Stage::SettleDownloaded, cursor: 0, ..s }
            },
            Some(
                Notice::Progress(
                    ProgressEvent::spec_downloading(
                        s.changed.len() as usize,
                        (s.cursor + 1) as usize,
                    ),
                ),
            ),
        ),
        Stage::SettleDownloaded => (
            if s.changed.len() == 0 {
                RunView { stage: Stage::WriteMarker, ..s }
            } else {
                RunView { stage: Stage::Install, cursor: 0, ..s }
            },
            Some(Notice::Progress(ProgressEvent::spec_plain(Phase::Patching))),
        ),
        Stage::Install => if s.cursor + 1 < s.changed.len() {
            (RunView { cursor: s.cursor + 1, ..s }, None)
        } else {
            (RunView { stage: Stage::WriteMarker, cursor: 0, ..s }, None)
        },
        Stage::WriteMarker => (RunView { stage: Stage::SettleDone, ..s }, None),
        Stage::SettleDone => (
            RunView { stage: Stage::Cleanup, ..s },
            Some(Notice::Progress(ProgressEvent::spec_plain(Phase::Done))),
        ),
        Stage::Cleanup => (RunView { stage: Stage::Finished, ..s }, None),
        _ => (s, None),
    }
}

/// One step of a run: the state after an event, and what the subscriber is
/// told. An event that does not answer the pending command changes nothing
/// and tells nothing.
pub open spec fn react(s: RunView, event: EventView) -> (RunView, Option<Notice>) {
    if !answers(s, event) {
        (s, None)
    } else {
        match event {
            EventView::Done => after_done(s),
            EventView::Failed(error) => (after_failure(s), failure_notice(s, error)),
            EventView::Cancelled => (RunView { stage: Stage::Cleanup, ..s }, None),
            EventView::Local(content) => after_local(s, content),
            EventView::Response(status) => after_response(s, status),
        }
    }
}

} // verus!
