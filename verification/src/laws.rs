//! What holds of every patch run, whatever its driver reports.

use vstd::prelude::*;

use crate::digest::local_digest_of;
use crate::error::PatchError;
use crate::manifest::{
    change_set, lemma_change_set_push, lemma_lines_bound, parse, parsed_paths_stay_in_tree,
    EntryView,
};
use crate::model::{
    answers, command, initial, is_cancellable, react, run_wf, stays_in_tree, url_of,
    CommandView, EventView, Notice, RunView, Stage,
};
use crate::progress::{Phase, ProgressEvent};

verus! {

/// The state of a run after the driver reported `events`, in this order.
pub open spec fn run(s: RunView, events: Seq<EventView>) -> RunView
    decreases events.len(),
{
    if events.len() == 0 {
        s
    } else {
        run(react(s, events[0]).0, events.drop_first())
    }
}

/// What the subscriber is told while the driver reports `events`.
pub open spec fn notices(s: RunView, events: Seq<EventView>) -> Seq<Notice>
    decreases events.len(),
{
    if events.len() == 0 {
        Seq::empty()
    } else {
        let (next, notice) = react(s, events[0]);
        let told = match notice {
            Some(n) => seq![n],
            None => Seq::empty(),
        };
        told + notices(next, events.drop_first())
    }
}

/// The commands that the run issues while the driver reports `events`: one
/// after each event that answers the command pending at that time.
pub open spec fn commands(s: RunView, events: Seq<EventView>) -> Seq<CommandView>
    decreases events.len(),
{
    if events.len() == 0 {
        Seq::empty()
    } else {
        let next = react(s, events[0]).0;
        let issued = if answers(s, events[0]) {
            seq![command(next)]
        } else {
            Seq::empty()
        };
        issued + commands(next, events.drop_first())
    }
}

/// The progress events among `notices`, in order: a failure counts as its
/// event of phase `Error`.
pub open spec fn progress(notices: Seq<Notice>) -> Seq<ProgressEvent> {
    notices.map_values(|n: Notice| n.spec_event())
}

/// A step leads from a state that a run can be in to another such state.
pub proof fn react_keeps_wf(s: RunView, event: EventView)
    requires
        run_wf(s),
    ensures
        run_wf(react(s, event).0),
{
    if s.stage == Stage::SettleChecking {
        lemma_lines_bound(s.manifest);
        if parse(s.manifest) is Some {
            parsed_paths_stay_in_tree(s.manifest);
        }
    }
}

/// From whatever state, no command leads out of the tree.
pub proof fn lemma_stays_in_tree(s: RunView, events: Seq<EventView>)
    requires
        run_wf(s),
    ensures
        forall|i: int|
            0 <= i < commands(s, events).len() ==> stays_in_tree(#[trigger] commands(s, events)[i]),
    decreases events.len(),
{
    if events.len() > 0 {
        let next = react(s, events[0]).0;
        let later = commands(next, events.drop_first());
        react_keeps_wf(s, events[0]);
        lemma_stays_in_tree(next, events.drop_first());
        let issued = commands(s, events);
        if answers(s, events[0]) {
            assert(issued =~= seq![command(next)] + later);
            assert forall|i: int| 0 <= i < issued.len() implies stays_in_tree(
                #[trigger] issued[i],
            ) by {
                if i > 0 {
                    assert(issued[i] == later[i - 1]);
                }
            }
        } else {
            assert(issued =~= later);
        }
    }
}

/// No run reaches outside its tree: whatever the manifest holds and
/// whatever the driver reports, every path that the run asks to read, to
/// store or to install starts with no slash and holds no `..` component.
pub proof fn run_stays_in_tree(
    manifest: Seq<char>,
    etag: Seq<char>,
    base_url: Seq<char>,
    events: Seq<EventView>,
)
    requires
        manifest.len() <= usize::MAX,
    ensures
        forall|i: int|
            0 <= i < commands(initial(manifest, etag, base_url), events).len() ==> stays_in_tree(
                #[trigger] commands(initial(manifest, etag, base_url), events)[i],
            ),
{
    lemma_stays_in_tree(initial(manifest, etag, base_url), events);
}

/// A run that is over takes no event, tells nothing and issues nothing.
pub proof fn nothing_after_finish(s: RunView, events: Seq<EventView>)
    requires
        s.stage == Stage::Finished,
    ensures
        run(s, events) == s,
        notices(s, events) == Seq::<Notice>::empty(),
        commands(s, events) == Seq::<CommandView>::empty(),
    decreases events.len(),
{
    if events.len() > 0 {
        nothing_after_finish(s, events.drop_first());
    }
}

/// A run that is removing its staging directory tells nothing more, and the
/// one thing it can still issue is the end of the run.
pub proof fn nothing_told_after_cleanup(s: RunView, events: Seq<EventView>)
    requires
        s.stage == Stage::Cleanup,
    ensures
        notices(s, events) == Seq::<Notice>::empty(),
        commands(s, events) == Seq::<CommandView>::empty() || commands(s, events)
            == seq![CommandView::Finish],
        run(s, events).stage == Stage::Cleanup || run(s, events).stage == Stage::Finished,
        run(s, events).stage == Stage::Finished <==> commands(s, events)
            == seq![CommandView::Finish],
    decreases events.len(),
{
    if events.len() > 0 {
        let next = react(s, events[0]).0;
        if next.stage == Stage::Finished {
            nothing_after_finish(next, events.drop_first());
            assert(commands(s, events) =~= seq![CommandView::Finish]);
        } else {
            assert(next == s);
            nothing_told_after_cleanup(s, events.drop_first());
            assert(commands(s, events) =~= commands(s, events.drop_first()));
        }
    } else {
        assert(Seq::<CommandView>::empty().len() != seq![CommandView::Finish].len());
    }
}

/// Reporting `first` and then `second` is reporting the two in a row.
pub proof fn lemma_in_a_row(s: RunView, first: Seq<EventView>, second: Seq<EventView>)
    ensures
        run(s, first + second) == run(run(s, first), second),
        notices(s, first + second) == notices(s, first) + notices(run(s, first), second),
        commands(s, first + second) == commands(s, first) + commands(run(s, first), second),
    decreases first.len(),
{
    if first.len() == 0 {
        assert(first + second =~= second);
        assert(notices(s, first + second) =~= notices(s, first) + notices(s, second));
        assert(commands(s, first + second) =~= commands(s, first) + commands(s, second));
    } else {
        let next = react(s, first[0]).0;
        assert((first + second).drop_first() =~= first.drop_first() + second);
        lemma_in_a_row(next, first.drop_first(), second);
        assert(notices(s, first + second) =~= notices(s, first) + notices(
            run(s, first),
            second,
        ));
        assert(commands(s, first + second) =~= commands(s, first) + commands(
            run(s, first),
            second,
        ));
    }
}

/// Whether an event of the given phase is among `notices`.
pub open spec fn tells(notices: Seq<Notice>, phase: Phase) -> bool {
    exists|i: int| 0 <= i < notices.len() && (#[trigger] notices[i]).spec_event().state == phase
}

/// A run that still has work to do has reported no error.
pub proof fn lemma_no_error_so_far(s: RunView, events: Seq<EventView>)
    requires
        run(s, events).stage != Stage::Cleanup,
        run(s, events).stage != Stage::Finished,
    ensures
        !tells(notices(s, events), Phase::Error),
    decreases events.len(),
{
    if events.len() > 0 {
        let (next, notice) = react(s, events[0]);
        let rest = events.drop_first();
        let later = notices(next, rest);
        if next.stage == Stage::Cleanup {
            nothing_told_after_cleanup(next, rest);
        } else if next.stage == Stage::Finished {
            nothing_after_finish(next, rest);
        } else {
            lemma_no_error_so_far(next, rest);
            let all = notices(s, events);
            match notice {
                Some(n) => {
                    assert(all =~= seq![n] + later);
                    assert forall|i: int| 0 <= i < all.len() implies (#[trigger] all[i])
                        .spec_event().state != Phase::Error by {
                        if i > 0 {
                            assert(all[i] == later[i - 1]);
                        }
                    }
                },
                None => {
                    assert(all =~= later);
                },
            }
        }
    }
}

/// Cancelling during the downloads ends the run cleanly. Where the driver
/// reports a cancellation while a file is waited for, requested or stored,
/// then, whatever it reported before and reports afterwards: the subscriber
/// is told nothing more, and was told of no error before; no further file
/// is requested or stored; and the one command that follows is the removal
/// of the staging directory, and after that the end of the run.
pub proof fn cancel_is_clean(s: RunView, before: Seq<EventView>, after: Seq<EventView>)
    requires
        is_cancellable(run(s, before).stage),
    ensures
        notices(s, before + seq![EventView::Cancelled] + after) == notices(s, before),
        !tells(notices(s, before + seq![EventView::Cancelled] + after), Phase::Error),
        commands(s, before + seq![EventView::Cancelled] + after) == commands(s, before) + seq![
            CommandView::RemoveStaging,
        ] || commands(s, before + seq![EventView::Cancelled] + after) == commands(s, before)
            + seq![CommandView::RemoveStaging, CommandView::Finish],
{
    let now = run(s, before);
    let events = seq![EventView::Cancelled] + after;
    let next = react(now, events[0]).0;
    assert(events.drop_first() =~= after);
    nothing_told_after_cleanup(next, after);
    if commands(next, after) == seq![CommandView::Finish] {
        assert(commands(now, events) =~= seq![CommandView::RemoveStaging, CommandView::Finish]);
    } else {
        assert(commands(now, events) =~= seq![CommandView::RemoveStaging]);
    }
    assert(notices(now, events) =~= Seq::<Notice>::empty());
    assert(before + seq![EventView::Cancelled] + after =~= before + events);
    lemma_in_a_row(s, before, events);
    lemma_no_error_so_far(s, before);
    assert(notices(s, before + events) =~= notices(s, before));
}

/// Whether an event of phase `next` may come directly after one of phase
/// `prev`, or first where nothing came before: the phases come in the order
/// checking, downloading, patching, done; none is skipped and none comes
/// back; only downloading is reported more than once; an error may come at
/// any time; and nothing comes after done or after an error.
pub open spec fn may_follow(prev: Option<Phase>, next: Phase) -> bool {
    match prev {
        None => next == Phase::Checking || next == Phase::Error,
        Some(Phase::Checking) => next == Phase::Downloading || next == Phase::Error,
        Some(Phase::Downloading) => next == Phase::Downloading || next == Phase::Patching || next
            == Phase::Error,
        Some(Phase::Patching) => next == Phase::Done || next == Phase::Error,
        Some(Phase::Done) | Some(Phase::Error) => false,
    }
}

/// Whether each of `events` may follow the one before it, the first of them
/// coming after `prev`.
pub open spec fn in_order(prev: Option<Phase>, events: Seq<ProgressEvent>) -> bool
    decreases events.len(),
{
    events.len() == 0 || (may_follow(prev, events[0].state) && in_order(
        Some(events[0].state),
        events.drop_first(),
    ))
}

/// The phase that was reported last when a run entered a stage from which
/// it can still report.
pub open spec fn reported(stage: Stage) -> Option<Phase> {
    match stage {
        Stage::CreateStaging => None,
        Stage::SettleChecking | Stage::Check => Some(Phase::Checking),
        Stage::SettleDownloading
        | Stage::Pace
        | Stage::Request
        | Stage::Store
        | Stage::SettleDownloaded => Some(Phase::Downloading),
        _ => Some(Phase::Patching),
    }
}

/// From whatever state, the events still to come are in order after the
/// phase that was reported last.
pub proof fn lemma_in_order(s: RunView, events: Seq<EventView>)
    requires
        s.stage != Stage::Cleanup,
        s.stage != Stage::Finished,
    ensures
        in_order(reported(s.stage), progress(notices(s, events))),
    decreases events.len(),
{
    if events.len() > 0 {
        let (next, notice) = react(s, events[0]);
        let rest = events.drop_first();
        let later = notices(next, rest);
        if next.stage == Stage::Cleanup {
            nothing_told_after_cleanup(next, rest);
        } else if next.stage == Stage::Finished {
            nothing_after_finish(next, rest);
        } else {
            lemma_in_order(next, rest);
        }
        match notice {
            Some(n) => {
                let all = progress(notices(s, events));
                assert(notices(s, events) =~= seq![n] + later);
                assert(all[0] == n.spec_event());
                assert(all.drop_first() =~= progress(later));
                assert(may_follow(reported(s.stage), n.spec_event().state));
                if next.stage != Stage::Cleanup && next.stage != Stage::Finished {
                    assert(reported(next.stage) == Some(n.spec_event().state));
                } else {
                    assert(progress(later).len() == 0);
                }
                assert(in_order(Some(all[0].state), all.drop_first()));
                assert(in_order(reported(s.stage), all));
            },
            None => {
                assert(notices(s, events) =~= later);
                if next.stage != Stage::Cleanup && next.stage != Stage::Finished {
                    assert(reported(next.stage) == reported(s.stage));
                } else {
                    assert(progress(later).len() == 0);
                }
                assert(in_order(reported(s.stage), progress(later)));
            },
        }
    } else {
        assert(progress(notices(s, events)).len() == 0);
    }
}

/// The subscriber of a run sees the phases in their order, whatever the
/// driver reports: first checking, then downloading, once or more, then
/// patching, then done; an error may take the place of any of them; and
/// after done or an error nothing follows, so a run reports at most one
/// error and none after it is done.
pub proof fn phases_come_in_order(
    manifest: Seq<char>,
    etag: Seq<char>,
    base_url: Seq<char>,
    events: Seq<EventView>,
)
    ensures
        in_order(None, progress(notices(initial(manifest, etag, base_url), events))),
{
    lemma_in_order(initial(manifest, etag, base_url), events);
}

/// Outside the downloading phase the counters of a progress event are 0.
pub proof fn counters_rest_outside_downloading(s: RunView, events: Seq<EventView>, i: int)
    requires
        0 <= i < notices(s, events).len(),
        notices(s, events)[i].spec_event().state != Phase::Downloading,
    ensures
        notices(s, events)[i].spec_event().total == 0,
        notices(s, events)[i].spec_event().current == 0,
    decreases events.len(),
{
    if events.len() > 0 {
        let (next, notice) = react(s, events[0]);
        let later = notices(next, events.drop_first());
        match notice {
            Some(n) => {
                assert(notices(s, events) =~= seq![n] + later);
                if i > 0 {
                    counters_rest_outside_downloading(next, events.drop_first(), i - 1);
                }
            },
            None => {
                assert(notices(s, events) =~= later);
                counters_rest_outside_downloading(next, events.drop_first(), i);
            },
        }
    }
}

/// The events of the downloading phase among `notices`, in order.
pub open spec fn downloads(notices: Seq<Notice>) -> Seq<ProgressEvent>
    decreases notices.len(),
{
    if notices.len() == 0 {
        Seq::empty()
    } else {
        let later = downloads(notices.drop_first());
        if notices[0].spec_event().state == Phase::Downloading {
            seq![notices[0].spec_event()] + later
        } else {
            later
        }
    }
}

/// The number of files that a run has reported as downloaded when it is in
/// a stage of the downloading phase.
pub open spec fn downloaded(s: RunView) -> nat {
    if s.stage == Stage::SettleDownloading {
        0
    } else if is_cancellable(s.stage) {
        s.cursor
    } else {
        s.changed.len()
    }
}

/// Whether a run is in the downloading phase with files left to report.
pub open spec fn is_downloading(stage: Stage) -> bool {
    stage == Stage::SettleDownloading || is_cancellable(stage)
}

/// Whether the change set of a run is settled.
pub open spec fn past_checking(stage: Stage) -> bool {
    stage != Stage::CreateStaging && stage != Stage::SettleChecking && stage != Stage::Check
}

/// From a state in or after the downloading of the files, the downloading
/// events still to come count the outstanding files up, one by one, and
/// none is missing once patching is reported.
pub proof fn lemma_downloads(s: RunView, events: Seq<EventView>)
    requires
        run_wf(s),
        past_checking(s.stage),
    ensures
        downloaded(s) + downloads(notices(s, events)).len() <= s.changed.len(),
        forall|i: int|
            0 <= i < downloads(notices(s, events)).len() ==> (#[trigger] downloads(
                notices(s, events),
            )[i]) == ProgressEvent::spec_downloading(
                s.changed.len() as usize,
                (downloaded(s) + 1 + i) as usize,
            ),
        is_downloading(s.stage) && tells(notices(s, events), Phase::Patching) ==> downloaded(s)
            + downloads(notices(s, events)).len() == s.changed.len(),
    decreases events.len(),
{
    if events.len() > 0 {
        let (next, notice) = react(s, events[0]);
        let rest = events.drop_first();
        let later = notices(next, rest);
        let all = notices(s, events);
        react_keeps_wf(s, events[0]);
        lemma_downloads(next, rest);
        if next.stage == Stage::Cleanup {
            nothing_told_after_cleanup(next, rest);
        }
        if next.stage == Stage::Finished {
            nothing_after_finish(next, rest);
        }
        match notice {
            Some(n) => {
                assert(all =~= seq![n] + later);
                assert(all.drop_first() =~= later);
                if tells(all, Phase::Patching) && n.spec_event().state != Phase::Patching {
                    let j = choose|j: int|
                        0 <= j < all.len() && (#[trigger] all[j]).spec_event().state
                            == Phase::Patching;
                    assert(later[j - 1] == all[j]);
                    assert(tells(later, Phase::Patching));
                }
                if n.spec_event().state == Phase::Downloading {
                    let d = downloads(all);
                    assert(d =~= seq![n.spec_event()] + downloads(later));
                    assert forall|i: int| 0 <= i < d.len() implies (#[trigger] d[i])
                        == ProgressEvent::spec_downloading(
                        s.changed.len() as usize,
                        (downloaded(s) + 1 + i) as usize,
                    ) by {
                        if i > 0 {
                            assert(d[i] == downloads(later)[i - 1]);
                        }
                    }
                } else {
                    assert(downloads(all) =~= downloads(later));
                }
            },
            None => {
                assert(all =~= later);
            },
        }
    }
}

/// Given a change set of `n` files, the downloader reports them one by one:
/// once downloading is announced, whatever the driver reports, the
/// downloading events are `(n, 1)`, `(n, 2)` and so on in this order, each
/// with the total `n`, never more than `n` of them, and exactly `n` once the
/// run has gone on to patching.
pub proof fn downloader_counts_files(s: RunView, events: Seq<EventView>)
    requires
        run_wf(s),
        s.stage == Stage::SettleDownloading,
    ensures
        downloads(notices(s, events)).len() <= s.changed.len(),
        forall|i: int|
            0 <= i < downloads(notices(s, events)).len() ==> {
                let event = #[trigger] downloads(notices(s, events))[i];
                event.state == Phase::Downloading && event.total == s.changed.len()
                    && event.current == i + 1
            },
        tells(notices(s, events), Phase::Patching) ==> downloads(notices(s, events)).len()
            == s.changed.len(),
{
    lemma_downloads(s, events);
}

/// From whatever state, a run that comes to its end has then just removed
/// its staging directory, unless that directory was never created.
pub proof fn lemma_removal(s: RunView, events: Seq<EventView>)
    requires
        s.stage != Stage::Finished,
        run(s, events).stage == Stage::Finished,
    ensures
        commands(s, events).len() >= 1,
        commands(s, events).last() == CommandView::Finish,
        s.stage == Stage::Cleanup ==> commands(s, events) == seq![CommandView::Finish],
        s.stage != Stage::Cleanup ==> {
            ||| (commands(s, events).len() >= 2 && commands(s, events)[commands(s, events).len()
                - 2] == CommandView::RemoveStaging)
            ||| (s.stage == Stage::CreateStaging && commands(s, events) == seq![
                CommandView::Finish,
            ] && notices(s, events) == seq![Notice::Failure(PatchError::CreateStaging)])
        },
    decreases events.len(),
{
    let first = events[0];
    let (next, notice) = react(s, first);
    let rest = events.drop_first();
    let issued = commands(s, events);
    if !answers(s, first) {
        lemma_removal(s, rest);
        assert(issued =~= commands(s, rest));
        assert(notices(s, events) =~= notices(s, rest));
    } else if next.stage == Stage::Finished {
        nothing_after_finish(next, rest);
        assert(issued =~= seq![CommandView::Finish]);
        if s.stage == Stage::CreateStaging {
            assert(notices(s, events) =~= seq![Notice::Failure(PatchError::CreateStaging)]);
        }
    } else {
        lemma_removal(next, rest);
        let later = commands(next, rest);
        assert(issued =~= seq![command(next)] + later);
        assert(issued.last() == later.last());
        if next.stage != Stage::Cleanup {
            assert(issued[issued.len() - 2] == later[later.len() - 2]);
        }
    }
}

/// A run removes its staging directory, however it ends: when a run is over,
/// whether it succeeded, failed or was cancelled, the last thing it did
/// before it ended was to remove the staging directory. The one exception
/// is a run whose staging directory could not be created: it reports that
/// failure and ends at once.
pub proof fn staging_is_removed(
    manifest: Seq<char>,
    etag: Seq<char>,
    base_url: Seq<char>,
    events: Seq<EventView>,
)
    requires
        run(initial(manifest, etag, base_url), events).stage == Stage::Finished,
    ensures
        ({
            let issued = commands(initial(manifest, etag, base_url), events);
            let told = notices(initial(manifest, etag, base_url), events);
            &&& issued.len() >= 1
            &&& issued.last() == CommandView::Finish
            &&& {
                ||| (issued.len() >= 2 && issued[issued.len() - 2] == CommandView::RemoveStaging)
                ||| (issued == seq![CommandView::Finish] && told == seq![
                    Notice::Failure(PatchError::CreateStaging),
                ])
            }
        }),
{
    lemma_removal(initial(manifest, etag, base_url), events);
}

/// The events that report what reading each of `files` gave.
pub open spec fn local_events(files: Seq<Option<Seq<u8>>>) -> Seq<EventView> {
    files.map_values(|file: Option<Seq<u8>>| EventView::Local(file))
}

/// The digests of `files`.
pub open spec fn local_digests(files: Seq<Option<Seq<u8>>>) -> Seq<Option<Seq<char>>> {
    files.map_values(|file: Option<Seq<u8>>| local_digest_of(file))
}

/// The commands that read the local files of the entries from the `k`-th
/// on, one for each in turn.
pub open spec fn reads(entries: Seq<EntryView>, k: nat) -> Seq<CommandView>
    decreases entries.len() - k,
{
    if k >= entries.len() {
        Seq::empty()
    } else {
        seq![CommandView::ReadLocal(entries[k as int].relative_path)] + reads(entries, k + 1)
    }
}

/// From whatever entry, checking the rest of the entries completes the
/// change set.
pub proof fn lemma_checking(s: RunView, files: Seq<Option<Seq<u8>>>)
    requires
        run_wf(s),
        s.stage == Stage::Check,
        files.len() == s.entries.len(),
        s.changed == change_set(s.entries.take(s.cursor as int), local_digests(files)),
    ensures
        ({
            let events = local_events(files.skip(s.cursor as int));
            let end = run(s, events);
            &&& end.stage == Stage::SettleDownloading
            &&& end.entries == s.entries
            &&& end.changed == change_set(s.entries, local_digests(files))
            &&& notices(s, events) == seq![
                Notice::Progress(ProgressEvent::spec_downloading(end.changed.len() as usize, 0)),
            ]
            &&& commands(s, events) == reads(s.entries, s.cursor + 1) + seq![CommandView::Pause]
        }),
    decreases s.entries.len() - s.cursor,
{
    let k = s.cursor as int;
    let events = local_events(files.skip(k));
    let (next, notice) = react(s, events[0]);
    let rest = events.drop_first();
    assert(events[0] == EventView::Local(files[k]));
    assert(local_digests(files)[k] == local_digest_of(files[k]));
    lemma_change_set_push(s.entries, local_digests(files), k);
    react_keeps_wf(s, events[0]);
    if k + 1 < s.entries.len() {
        assert(rest =~= local_events(files.skip(k + 1)));
        lemma_checking(next, files);
        assert(notices(s, events) =~= notices(next, rest));
        assert(commands(s, events) =~= seq![command(next)] + commands(next, rest));
        assert(commands(s, events) =~= reads(s.entries, s.cursor + 1) + seq![CommandView::Pause]);
    } else {
        assert(rest.len() == 0);
        assert(s.entries.take(k + 1) =~= s.entries);
        assert(run(next, rest) == next);
        assert(notices(next, rest) =~= Seq::<Notice>::empty());
        assert(notices(s, events) =~= seq![notice->0]);
        assert(commands(next, rest) =~= Seq::<CommandView>::empty());
        assert(commands(s, events) =~= reads(s.entries, s.cursor + 1) + seq![CommandView::Pause]);
    }
}

/// Checking finds the change set: when the driver reports, for each entry
/// of the manifest in turn, what reading its local file gave, the run comes
/// to hold exactly the entries whose local file is absent or has another
/// digest than the manifest expects, in the order of the manifest, and
/// announces downloading with their number. On the way it asks for the
/// local file of every entry, changed or not.
pub proof fn checking_finds_change_set(s: RunView, files: Seq<Option<Seq<u8>>>)
    requires
        run_wf(s),
        s.stage == Stage::Check,
        s.cursor == 0,
        s.changed.len() == 0,
        files.len() == s.entries.len(),
    ensures
        ({
            let end = run(s, local_events(files));
            &&& end.stage == Stage::SettleDownloading
            &&& end.changed == change_set(s.entries, local_digests(files))
            &&& notices(s, local_events(files)) == seq![
                Notice::Progress(ProgressEvent::spec_downloading(end.changed.len() as usize, 0)),
            ]
            &&& commands(s, local_events(files)) == reads(s.entries, 1) + seq![
                CommandView::Pause,
            ]
        }),
{
    assert(s.entries.take(0) =~= Seq::empty());
    assert(s.changed =~= change_set(s.entries.take(0), local_digests(files)));
    assert(files.skip(0) =~= files);
    lemma_checking(s, files);
}

/// The commands that fetch the changed files from the `k`-th on: for each
/// of them in turn the pacing delay, the request to its address, and the
/// storing of the response at its path.
pub open spec fn fetches(base_url: Seq<char>, changed: Seq<EntryView>, k: nat) -> Seq<CommandView>
    decreases changed.len() - k,
{
    if k >= changed.len() {
        Seq::empty()
    } else {
        seq![
            CommandView::Pause,
            CommandView::Request(url_of(base_url, changed[k as int].relative_path)),
            CommandView::Store(changed[k as int].relative_path),
        ] + fetches(base_url, changed, k + 1)
    }
}

/// The commands that install the changed files from the `k`-th on, one for
/// each in turn.
pub open spec fn installs(changed: Seq<EntryView>, k: nat) -> Seq<CommandView>
    decreases changed.len() - k,
{
    if k >= changed.len() {
        Seq::empty()
    } else {
        seq![CommandView::Install(changed[k as int].relative_path)] + installs(changed, k + 1)
    }
}

/// The commands that close a run that succeeds: the marker is written with
/// the version token of the manifest, and after a pause the staging
/// directory is removed.
pub open spec fn closing(etag: Seq<char>) -> Seq<CommandView> {
    seq![CommandView::WriteMarker(etag), CommandView::Pause, CommandView::RemoveStaging]
}

/// The commands that a run issues from a state on if nothing fails and
/// nobody cancels, up to the removal of the staging directory.
pub open spec fn script(s: RunView) -> Seq<CommandView> {
    let path = s.changed[s.cursor as int].relative_path;
    let patching = seq![CommandView::Pause] + installs(s.changed, 0) + closing(s.etag);
    match s.stage {
        Stage::SettleDownloading => fetches(s.base_url, s.changed, 0) + patching,
        Stage::Pace => seq![
            CommandView::Request(url_of(s.base_url, path)),
            CommandView::Store(path),
        ] + fetches(s.base_url, s.changed, s.cursor + 1) + patching,
        Stage::Request => seq![CommandView::Store(path)] + fetches(
            s.base_url,
            s.changed,
            s.cursor + 1,
        ) + patching,
        Stage::Store => fetches(s.base_url, s.changed, s.cursor + 1) + patching,
        Stage::SettleDownloaded => installs(s.changed, 0) + closing(s.etag),
        Stage::Install => installs(s.changed, s.cursor + 1) + closing(s.etag),
        Stage::WriteMarker => seq![CommandView::Pause, CommandView::RemoveStaging],
        Stage::SettleDone => seq![CommandView::RemoveStaging],
        _ => Seq::empty(),
    }
}

/// From whatever state past checking, a run that reports success has
/// issued the rest of its script and nothing else.
pub proof fn lemma_script(s: RunView, events: Seq<EventView>)
    requires
        run_wf(s),
        past_checking(s.stage),
        tells(notices(s, events), Phase::Done),
    ensures
        commands(s, events) == script(s) || commands(s, events) == script(s) + seq![
            CommandView::Finish,
        ],
    decreases events.len(),
{
    let first = events[0];
    let (next, notice) = react(s, first);
    let rest = events.drop_first();
    let all = notices(s, events);
    let later = notices(next, rest);
    let issued = commands(s, events);
    react_keeps_wf(s, first);
    if s.stage == Stage::Cleanup {
        nothing_told_after_cleanup(s, events);
    } else if s.stage == Stage::Finished {
        nothing_after_finish(s, events);
    } else if !answers(s, first) {
        assert(all =~= notices(s, rest));
        assert(issued =~= commands(s, rest));
        lemma_script(s, rest);
    } else if s.stage == Stage::SettleDone {
        nothing_told_after_cleanup(next, rest);
        assert(issued =~= seq![CommandView::RemoveStaging] + commands(next, rest));
        if commands(next, rest) == seq![CommandView::Finish] {
            assert(issued =~= script(s) + seq![CommandView::Finish]);
        } else {
            assert(issued =~= script(s));
        }
    } else {
        if next.stage == Stage::Cleanup {
            nothing_told_after_cleanup(next, rest);
        }
        if next.stage == Stage::Finished {
            nothing_after_finish(next, rest);
        }
        match notice {
            Some(n) => {
                assert(all =~= seq![n] + later);
                let j = choose|j: int|
                    0 <= j < all.len() && (#[trigger] all[j]).spec_event().state == Phase::Done;
                assert(j > 0);
                assert(later[j - 1] == all[j]);
            },
            None => {
                assert(all =~= later);
            },
        }
        assert(tells(later, Phase::Done));
        lemma_script(next, rest);
        lemma_script_step(s, first);
        assert(issued =~= seq![command(next)] + commands(next, rest));
        if commands(next, rest) == script(next) {
            assert(issued =~= script(s));
        } else {
            assert(issued =~= script(s) + seq![CommandView::Finish]);
        }
    }
}

/// A run that succeeds has done all of its work, in order: once downloading
/// is announced for a change set, a run that goes on to report success has,
/// whatever else the driver reported, issued exactly these commands: for
/// each changed file in the order of the change set a pause, the request to
/// the file's address below the base address, and the storing of the
/// response at the file's path; then a pause; then for each changed file in
/// the same order its installation; then the writing of the marker with the
/// version token of the manifest; then a pause and the removal of the
/// staging directory; and after that at most the end of the run.
pub proof fn success_takes_every_step(s: RunView, events: Seq<EventView>)
    requires
        run_wf(s),
        s.stage == Stage::SettleDownloading,
        tells(notices(s, events), Phase::Done),
    ensures
        ({
            let steps = fetches(s.base_url, s.changed, 0) + seq![CommandView::Pause] + installs(
                s.changed,
                0,
            ) + closing(s.etag);
            commands(s, events) == steps || commands(s, events) == steps + seq![
                CommandView::Finish,
            ]
        }),
{
    lemma_script(s, events);
    let steps = fetches(s.base_url, s.changed, 0) + seq![CommandView::Pause] + installs(
        s.changed,
        0,
    ) + closing(s.etag);
    assert(script(s) =~= steps);
}

/// Whether `issued` keeps to `script`: it is the script, or a part of it
/// from its start; followed, where the part is not all of it, at most by
/// the removal of the staging directory; and closed at most by the end of
/// the run.
pub open spec fn keeps_to(issued: Seq<CommandView>, script: Seq<CommandView>) -> bool {
    ||| exists|k: int| 0 <= k <= script.len() && issued == #[trigger] script.take(k)
    ||| issued == script + seq![CommandView::Finish]
    ||| exists|k: int|
        0 <= k < script.len() && issued == (#[trigger] script.take(k)) + seq![
            CommandView::RemoveStaging,
        ]
    ||| exists|k: int|
        0 <= k < script.len() && issued == (#[trigger] script.take(k)) + seq![
            CommandView::RemoveStaging,
            CommandView::Finish,
        ]
}

/// A step that neither fails nor cancels issues the next command of the
/// script.
pub proof fn lemma_script_step(s: RunView, event: EventView)
    requires
        run_wf(s),
        past_checking(s.stage),
        s.stage != Stage::Cleanup,
        s.stage != Stage::Finished,
        answers(s, event),
        react(s, event).0.stage != Stage::Cleanup,
    ensures
        script(s) == seq![command(react(s, event).0)] + script(react(s, event).0),
{
    let next = react(s, event).0;
    assert(script(s) =~= seq![command(next)] + script(next));
}

/// A command that stands first in the script and was issued first changes
/// nothing about what follows it.
pub proof fn lemma_keeps_to_next(
    step: CommandView,
    later: Seq<CommandView>,
    after: Seq<CommandView>,
)
    requires
        keeps_to(later, after),
    ensures
        keeps_to(seq![step] + later, seq![step] + after),
{
    let issued = seq![step] + later;
    let sc = seq![step] + after;
    if later == after + seq![CommandView::Finish] {
        assert(issued =~= sc + seq![CommandView::Finish]);
    } else if exists|k: int| 0 <= k <= after.len() && later == #[trigger] after.take(k) {
        let k = choose|k: int| 0 <= k <= after.len() && later == #[trigger] after.take(k);
        assert(issued =~= sc.take(k + 1));
    } else if exists|k: int|
        0 <= k < after.len() && later == (#[trigger] after.take(k)) + seq![
            CommandView::RemoveStaging,
        ] {
        let k = choose|k: int|
            0 <= k < after.len() && later == (#[trigger] after.take(k)) + seq![
                CommandView::RemoveStaging,
            ];
        assert(sc.take(k + 1) =~= seq![step] + after.take(k));
        assert(issued =~= sc.take(k + 1) + seq![CommandView::RemoveStaging]);
    } else {
        let k = choose|k: int|
            0 <= k < after.len() && later == (#[trigger] after.take(k)) + seq![
                CommandView::RemoveStaging,
                CommandView::Finish,
            ];
        assert(sc.take(k + 1) =~= seq![step] + after.take(k));
        assert(issued =~= sc.take(k + 1) + seq![
            CommandView::RemoveStaging,
            CommandView::Finish,
        ]);
    }
}

/// Breaking off keeps to the script: the staging directory is removed, and
/// the run ends.
pub proof fn lemma_keeps_to_break(later: Seq<CommandView>, sc: Seq<CommandView>)
    requires
        later == Seq::<CommandView>::empty() || later == seq![CommandView::Finish],
        sc.len() > 0,
    ensures
        keeps_to(seq![CommandView::RemoveStaging] + later, sc),
{
    let issued = seq![CommandView::RemoveStaging] + later;
    if later == seq![CommandView::Finish] {
        assert(issued =~= sc.take(0) + seq![CommandView::RemoveStaging, CommandView::Finish]);
    } else {
        assert(issued =~= sc.take(0) + seq![CommandView::RemoveStaging]);
    }
}

/// From whatever state past checking, a run keeps to the rest of its script.
pub proof fn lemma_keeps_to_script(s: RunView, events: Seq<EventView>)
    requires
        run_wf(s),
        past_checking(s.stage),
    ensures
        keeps_to(commands(s, events), script(s)),
    decreases events.len(),
{
    let sc = script(s);
    let issued = commands(s, events);
    if events.len() == 0 {
        assert(issued =~= sc.take(0));
    } else {
        let first = events[0];
        let next = react(s, first).0;
        let rest = events.drop_first();
        let later = commands(next, rest);
        react_keeps_wf(s, first);
        if s.stage == Stage::Finished {
            nothing_after_finish(s, events);
            assert(issued =~= sc.take(0));
        } else if s.stage == Stage::Cleanup {
            nothing_told_after_cleanup(s, events);
            if issued == seq![CommandView::Finish] {
                assert(issued =~= sc + seq![CommandView::Finish]);
            } else {
                assert(issued =~= sc.take(0));
            }
        } else if !answers(s, first) {
            assert(issued =~= commands(s, rest));
            lemma_keeps_to_script(s, rest);
        } else if next.stage == Stage::Cleanup {
            nothing_told_after_cleanup(next, rest);
            assert(issued =~= seq![CommandView::RemoveStaging] + later);
            if s.stage == Stage::SettleDone {
                if later == seq![CommandView::Finish] {
                    assert(issued =~= sc + seq![CommandView::Finish]);
                } else {
                    assert(issued =~= sc.take(1));
                }
            } else {
                assert(sc.len() > 0);
                lemma_keeps_to_break(later, sc);
            }
        } else {
            lemma_keeps_to_script(next, rest);
            lemma_script_step(s, first);
            assert(issued =~= seq![command(next)] + later);
            lemma_keeps_to_next(command(next), later, script(next));
        }
    }
}

/// A run does its work in order and skips nothing, however it ends: once
/// downloading is announced for a change set, whatever the driver reports,
/// the commands that the run issues are those of a run that succeeds, as
/// far as it gets: a file is installed only after every changed file was
/// fetched and stored, and the marker is written only after every changed
/// file was installed. A run that fails or is cancelled breaks off, removes
/// the staging directory, and ends.
pub proof fn run_keeps_to_script(s: RunView, events: Seq<EventView>)
    requires
        run_wf(s),
        s.stage == Stage::SettleDownloading,
    ensures
        keeps_to(
            commands(s, events),
            fetches(s.base_url, s.changed, 0) + seq![CommandView::Pause] + installs(s.changed, 0)
                + closing(s.etag),
        ),
{
    lemma_keeps_to_script(s, events);
    assert(script(s) =~= fetches(s.base_url, s.changed, 0) + seq![CommandView::Pause] + installs(
        s.changed,
        0,
    ) + closing(s.etag));
}

} // verus!
