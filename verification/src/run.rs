//! The patch run, as its driver holds it: the driver carries out the pending
//! command, reports what came of it, and passes on what the run has to tell.

use vstd::prelude::*;
use vstd::string::StringExecFns;

use crate::digest::{content_view, local_digest, needs_fetch};
use crate::error::PatchError;
use crate::manifest::{entry_views, parse_chars, ChangeEntry};
use crate::manifest::{lemma_lines_bound, parsed_paths_stay_in_tree};
use crate::model::{
    after_done, after_local, answers, arises_in, command, initial, react, run_wf,
    stays_in_tree, CommandView, EventView, Notice, RunView, Stage,
};
use crate::progress::{Phase, ProgressEvent};
use crate::text::to_chars;

verus! {

/// The name of the staging directory, directly below the root of the target
/// tree.
pub const STAGING_DIR: &'static str = "tmp";

/// The length of the pacing delay, in seconds.
pub const PACING_SECONDS: u64 = 1;

/// What the run asks its driver to do.
#[derive(Debug, Clone, PartialEq, Eq)]
pub enum Command {
    /// Create the staging directory below the target tree.
    CreateStaging,
    /// Wait for the pacing delay.
    Pause,
    /// Read the file at this path below the target tree.
    ReadLocal(String),
    /// Send a GET request to this address.
    Request(String),
    /// Write the body of the response to this path below the staging
    /// directory, with the directories above it.
    Store(String),
    /// Move the file at this path below the staging directory to the same
    /// path below the target tree, with the directories above it.
    Install(String),
    /// Write this value to the marker file.
    WriteMarker(String),
    /// Remove the staging directory with all it holds.
    RemoveStaging,
    /// Nothing is left to do.
    Finish,
}

impl View for Command {
    type V = CommandView;

    open spec fn view(&self) -> CommandView {
        match self {
            Command::CreateStaging => CommandView::CreateStaging,
            Command::Pause => CommandView::Pause,
            Command::ReadLocal(path) => CommandView::ReadLocal(path@),
            Command::Request(url) => CommandView::Request(url@),
            Command::Store(path) => CommandView::Store(path@),
            Command::Install(path) => CommandView::Install(path@),
            Command::WriteMarker(value) => CommandView::WriteMarker(value@),
            Command::RemoveStaging => CommandView::RemoveStaging,
            Command::Finish => CommandView::Finish,
        }
    }
}

/// What the driver reports back.
#[derive(Debug, Clone, PartialEq, Eq)]
pub enum Event {
    /// The command was carried out.
    Done,
    /// The command failed at this point.
    Failed(PatchError),
    /// The run was cancelled while the command was under way.
    Cancelled,
    /// What reading a local file gave: its content, or nothing where the
    /// file is absent or cannot be read.
    Local(Option<Vec<u8>>),
    /// The status with which the patch server answered.
    Response(u16),
}

impl View for Event {
    type V = EventView;

    open spec fn view(&self) -> EventView {
        match self {
            Event::Done => EventView::Done,
            Event::Failed(error) => EventView::Failed(*error),
            Event::Cancelled => EventView::Cancelled,
            Event::Local(content) => EventView::Local(content_view(*content)),
            Event::Response(status) => EventView::Response(*status),
        }
    }
}

/// One patch run.
pub struct PatchRun {
    stage: Stage,
    manifest: Vec<char>,
    etag: String,
    base_url: String,
    entries: Vec<ChangeEntry>,
    changed: Vec<ChangeEntry>,
    cursor: usize,
}

impl View for PatchRun {
    type V = RunView;

    closed spec fn view(&self) -> RunView {
        RunView {
            stage: self.stage,
            manifest: self.manifest@,
            etag: self.etag@,
            base_url: self.base_url@,
            entries: entry_views(self.entries@),
            changed: entry_views(self.changed@),
            cursor: self.cursor as nat,
        }
    }
}

fn can_arise(stage: Stage, error: PatchError) -> (possible: bool)
    ensures
        possible == arises_in(stage, error),
{
    match stage {
        Stage::CreateStaging => error == PatchError::CreateStaging,
        Stage::Request => error == PatchError::Request,
        Stage::Store => error == PatchError::StagedParent || error
            == PatchError::CreateStagedParent || error == PatchError::OpenStaged || error
            == PatchError::ReadChunk || error == PatchError::WriteChunk,
        Stage::Install => error == PatchError::TargetParent || error
            == PatchError::CreateTargetParent || error == PatchError::MoveFile,
        Stage::WriteMarker => error == PatchError::OpenMarker || error == PatchError::WriteMarker,
        Stage::Cleanup => error == PatchError::RemoveStaging,
        _ => false,
    }
}

impl PatchRun {
    #[verifier::type_invariant]
    spec fn well_formed(self) -> bool {
        run_wf(self@)
    }

    /// A run that is about to start, for a manifest with its version token
    /// and the address of the patch server.
    pub fn new(manifest: &str, etag: &str, base_url: &str) -> (run: PatchRun)
        ensures
            run@ == initial(manifest@, etag@, base_url@),
            run_wf(run@),
    {
        let chars = to_chars(manifest);
        let entries: Vec<ChangeEntry> = Vec::new();
        let changed: Vec<ChangeEntry> = Vec::new();
        assert(chars@.len() == chars.len());
        assert(entry_views(entries@) =~= Seq::empty());
        assert(entry_views(changed@) =~= Seq::empty());
        PatchRun {
            stage: Stage::CreateStaging,
            manifest: chars,
            etag: etag.to_owned(),
            base_url: base_url.to_owned(),
            entries,
            changed,
            cursor: 0,
        }
    }

    /// The stage the run is in.
    pub fn stage(&self) -> (stage: Stage)
        ensures
            stage == self@.stage,
            run_wf(self@),
    {
        proof {
            use_type_invariant(self);
        }
        self.stage
    }

    /// Whether the run is over.
    pub fn is_finished(&self) -> (finished: bool)
        ensures
            finished == (self@.stage == Stage::Finished),
    {
        self.stage == Stage::Finished
    }

    /// The change set, as far as it is known: all of it once downloading
    /// was announced.
    pub fn changed(&self) -> (changed: &Vec<ChangeEntry>)
        ensures
            entry_views(changed@) == self@.changed,
    {
        &self.changed
    }

    /// The command that is pending. The path it names, if any, stays inside
    /// the tree.
    pub fn command(&self) -> (pending: Command)
        ensures
            pending@ == command(self@),
            stays_in_tree(pending@),
    {
        proof {
            use_type_invariant(self);
        }
        match self.stage {
            Stage::CreateStaging => Command::CreateStaging,
            Stage::SettleChecking
            | Stage::SettleDownloading
            | Stage::Pace
            | Stage::SettleDownloaded
            | Stage::SettleDone => Command::Pause,
            Stage::Check => Command::ReadLocal(self.entries[self.cursor].relative_path().clone()),
            Stage::Request => {
                let path = self.changed[self.cursor].relative_path();
                let mut url = self.base_url.clone();
                proof {
                    reveal_strlit("/");
                }
                url.append("/");
                url.append(path.as_str());
                assert("/"@ =~= seq!['/']);
                Command::Request(url)
            },
            Stage::Store => Command::Store(self.changed[self.cursor].relative_path().clone()),
            Stage::Install => Command::Install(self.changed[self.cursor].relative_path().clone()),
            Stage::WriteMarker => Command::WriteMarker(self.etag.clone()),
            Stage::Cleanup => Command::RemoveStaging,
            Stage::Finished => Command::Finish,
        }
    }

    /// Whether an event answers the pending command.
    pub fn accepts(&self, event: &Event) -> (accepted: bool)
        ensures
            accepted == answers(self@, event@),
    {
        match event {
            Event::Done => self.stage != Stage::Check && self.stage != Stage::Request
                && self.stage != Stage::Finished,
            Event::Failed(error) => can_arise(self.stage, *error),
            Event::Cancelled => self.stage == Stage::Pace || self.stage == Stage::Request
                || self.stage == Stage::Store,
            Event::Local(_) => self.stage == Stage::Check,
            Event::Response(_) => self.stage == Stage::Request,
        }
    }

    /// Takes what the driver reports of the pending command and moves on.
    /// It returns what the subscriber is to be told, if anything. An event
    /// that does not answer the pending command is ignored.
    pub fn step(&mut self, event: Event) -> (notice: Option<Notice>)
        ensures
            final(self)@ == react(old(self)@, event@).0,
            notice == react(old(self)@, event@).1,
            run_wf(final(self)@),
    {
        proof {
            use_type_invariant(&*self);
        }
        if !self.accepts(&event) {
            return None;
        }
        let notice = match event {
            Event::Done => self.advance(),
            Event::Failed(error) => {
                match self.stage {
                    Stage::Cleanup => {
                        self.stage = Stage::Finished;
                        None
                    },
                    Stage::CreateStaging => {
                        self.stage = Stage::Finished;
                        Some(Notice::Failure(error))
                    },
                    _ => {
                        self.stage = Stage::Cleanup;
                        Some(Notice::Failure(error))
                    },
                }
            },
            Event::Cancelled => {
                self.stage = Stage::Cleanup;
                None
            },
            Event::Local(content) => self.record(&content),
            Event::Response(status) => {
                if 200 <= status && status <= 299 {
                    self.stage = Stage::Store;
                    None
                } else {
                    self.stage = Stage::Cleanup;
                    Some(Notice::Failure(PatchError::Status))
                }
            },
        };
        proof {
            use_type_invariant(&*self);
        }
        notice
    }

    /// Moves on after the local file of the entry at hand was read.
    fn record(&mut self, content: &Option<Vec<u8>>) -> (notice: Option<Notice>)
        requires
            old(self)@.stage == Stage::Check,
        ensures
            final(self)@ == after_local(old(self)@, content_view(*content)).0,
            notice == after_local(old(self)@, content_view(*content)).1,
    {
        proof {
            use_type_invariant(&*self);
        }
        let digest = local_digest(content);
        let entry = &self.entries[self.cursor];
        let fetch = needs_fetch(entry.expected_digest(), &digest);
        let copy = entry.duplicate();
        let last = self.cursor + 1 >= self.entries.len();
        if last {
            self.stage = Stage::SettleDownloading;
            self.cursor = 0;
        } else {
            self.cursor = self.cursor + 1;
        }
        if fetch {
            let mut changed: Vec<ChangeEntry> = Vec::new();
            assert(entry_views(changed@) =~= Seq::empty());
            std::mem::swap(&mut self.changed, &mut changed);
            let ghost before = changed@;
            changed.push(copy);
            assert(entry_views(changed@) =~= entry_views(before).push(copy@));
            self.changed = changed;
        }
        if last {
            Some(Notice::Progress(ProgressEvent::downloading(self.changed.len(), 0)))
        } else {
            None
        }
    }

    /// Moves on after the pending command was carried out.
    fn advance(&mut self) -> (notice: Option<Notice>)
        requires
            old(self)@.stage != Stage::Check,
            old(self)@.stage != Stage::Request,
            old(self)@.stage != Stage::Finished,
        ensures
            final(self)@ == after_done(old(self)@).0,
            notice == after_done(old(self)@).1,
    {
        proof {
            use_type_invariant(&*self);
        }
        match self.stage {
            Stage::CreateStaging => {
                self.stage = Stage::SettleChecking;
                Some(Notice::Progress(ProgressEvent::plain(Phase::Checking)))
            },
            Stage::SettleChecking => {
                match parse_chars(self.manifest.as_slice()) {
                    Err(_) => {
                        self.stage = Stage::Cleanup;
                        Some(Notice::Failure(PatchError::Manifest))
                    },
                    Ok(entries) => {
                        proof {
                            lemma_lines_bound(self.manifest@);
                            parsed_paths_stay_in_tree(self.manifest@);
                        }
                        let empty = entries.len() == 0;
                        let changed: Vec<ChangeEntry> = Vec::new();
                        assert(entry_views(changed@) =~= Seq::empty());
                        self.cursor = 0;
                        self.changed = changed;
                        self.entries = entries;
                        if empty {
                            self.stage = Stage::SettleDownloading;
                            Some(Notice::Progress(ProgressEvent::downloading(0, 0)))
                        } else {
                            self.stage = Stage::Check;
                            None
                        }
                    },
                }
            },
            Stage::SettleDownloading => {
                if self.changed.len() == 0 {
                    self.stage = Stage::SettleDownloaded;
                } else {
                    self.cursor = 0;
                    self.stage = Stage::Pace;
                }
                None
            },
            Stage::Pace => {
                self.stage = Stage::Request;
                None
            },
            Stage::Store => {
                let total = self.changed.len();
                let current = self.cursor + 1;
                if current < total {
                    self.cursor = current;
                    self.stage = Stage::Pace;
                } else {
                    self.stage = Stage::SettleDownloaded;
                    self.cursor = 0;
                }
                Some(Notice::Progress(ProgressEvent::downloading(total, current)))
            },
            Stage::SettleDownloaded => {
                if self.changed.len() == 0 {
                    self.stage = Stage::WriteMarker;
                } else {
                    self.cursor = 0;
                    self.stage = Stage::Install;
                }
                Some(Notice::Progress(ProgressEvent::plain(Phase::Patching)))
            },
            Stage::Install => {
                if self.cursor + 1 < self.changed.len() {
                    self.cursor = self.cursor + 1;
                } else {
                    self.stage = Stage::WriteMarker;
                    self.cursor = 0;
                }
                None
            },
            Stage::WriteMarker => {
                self.stage = Stage::SettleDone;
                None
            },
            Stage::SettleDone => {
                self.stage = Stage::Cleanup;
                Some(Notice::Progress(ProgressEvent::plain(Phase::Done)))
            },
            Stage::Cleanup => {
                self.stage = Stage::Finished;
                None
            },
            _ => None,
        }
    }
}

} // verus!
