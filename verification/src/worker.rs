//! The study worker: the lifecycle of one study, and the event bus that
//! aggregates lifecycle events across all workers.
//!
//! One worker drives one study through Upload, Poll and Fanout, and emits
//! one lifecycle event as each stage completes.  Its failure is terminal for
//! its own study only: a failed worker emits nothing further, and since the
//! next state and the emitted event are a function of the worker's own state
//! and its own observation alone, no worker's outcome depends on another's.
//! The loop that uploads, polls and downloads runs outside the library; the
//! library decides every transition.

use vstd::prelude::*;

verus! {

/// The lifecycle stage of one study's worker.
#[derive(Clone, Copy, PartialEq, Eq, Structural, Debug)]
pub enum WorkerState {
    /// Nothing has happened yet; the upload is next.
    Ready,
    /// The upload succeeded; polling is next (behind the barrier, where one
    /// is configured).
    Uploaded,
    /// Downloads are running; this many parameter-set tasks have not
    /// finished yet.
    Downloading { remaining: usize },
    /// Every parameter-set task of this study has finished.
    Done,
    /// Upload or polling failed; terminal for this study only.
    Failed,
}

/// What a worker observes from the outside work it ordered.
#[derive(Clone, Copy, PartialEq, Eq, Structural, Debug)]
pub enum WorkerEvent {
    /// The study's upload was accepted.
    UploadOk,
    /// The study's upload failed (transport or protocol error).
    UploadFailed,
    /// The poller observed the terminal status.
    PollDone,
    /// Polling failed (transport or protocol error).
    PollFailed,
    /// One parameter-set download task finished, successfully or not; a
    /// parameter set with no output also finishes its task.
    DownloadTaskFinished,
}

/// The kind of a lifecycle event emitted to the bus.
#[derive(Clone, Copy, PartialEq, Eq, Structural, Debug)]
pub enum EventKind {
    /// The study's upload completed.
    Uploaded,
    /// The service finished processing the study.
    Predicted,
    /// Every parameter-set task of the study completed.
    Downloaded,
}

/// One lifecycle event on the bus: which study, and what happened to it.
#[derive(Clone, Debug)]
pub struct Event {
    pub study_key: String,
    pub kind: EventKind,
}

/// One worker transition: from a state and an observation to the next state
/// and the event emitted, if any.  `param_count` is how many parameter-set
/// download tasks the study fans out into once predicted.  From `Failed`
/// nothing moves and nothing is emitted; an observation that does not belong
/// to the current stage changes nothing.
pub open spec fn spec_step(s: WorkerState, ev: WorkerEvent, param_count: usize) -> (
    WorkerState,
    Option<EventKind>,
) {
    match (s, ev) {
        (WorkerState::Ready, WorkerEvent::UploadOk) => (
            WorkerState::Uploaded,
            Option::Some(EventKind::Uploaded),
        ),
        (WorkerState::Ready, WorkerEvent::UploadFailed) => (WorkerState::Failed, Option::None),
        (WorkerState::Uploaded, WorkerEvent::PollDone) => (
            WorkerState::Downloading { remaining: param_count },
            Option::Some(EventKind::Predicted),
        ),
        (WorkerState::Uploaded, WorkerEvent::PollFailed) => (WorkerState::Failed, Option::None),
        (WorkerState::Downloading { remaining }, WorkerEvent::DownloadTaskFinished) => {
            if remaining <= 1 {
                (WorkerState::Done, Option::Some(EventKind::Downloaded))
            } else {
                (WorkerState::Downloading { remaining: (remaining - 1) as usize }, Option::None)
            }
        },
        _ => (s, Option::None),
    }
}

/// Performs one worker transition.
pub fn worker_step(s: WorkerState, ev: WorkerEvent, param_count: usize) -> (r: (
    WorkerState,
    Option<EventKind>,
))
    ensures
        r == spec_step(s, ev, param_count),
{
    match (s, ev) {
        (WorkerState::Ready, WorkerEvent::UploadOk) => (
            WorkerState::Uploaded,
            Some(EventKind::Uploaded),
        ),
        (WorkerState::Ready, WorkerEvent::UploadFailed) => (WorkerState::Failed, None),
        (WorkerState::Uploaded, WorkerEvent::PollDone) => (
            WorkerState::Downloading { remaining: param_count },
            Some(EventKind::Predicted),
        ),
        (WorkerState::Uploaded, WorkerEvent::PollFailed) => (WorkerState::Failed, None),
        (WorkerState::Downloading { remaining }, WorkerEvent::DownloadTaskFinished) => {
            if remaining <= 1 {
                (WorkerState::Done, Some(EventKind::Downloaded))
            } else {
                (WorkerState::Downloading { remaining: remaining - 1 }, None)
            }
        },
        (s2, _) => (s2, None),
    }
}

/// The final state and the emitted events of a worker that starts in `s` and
/// observes `evs` in order.
pub open spec fn spec_run(s: WorkerState, evs: Seq<WorkerEvent>, param_count: usize) -> (
    WorkerState,
    Seq<EventKind>,
)
    decreases evs.len(),
{
    if evs.len() == 0 {
        (s, Seq::empty())
    } else {
        let step = spec_step(s, evs[0], param_count);
        let rest = spec_run(step.0, evs.subrange(1, evs.len() as int), param_count);
        let emitted: Seq<EventKind> = match step.1 {
            Option::Some(k) => seq![k],
            Option::None => Seq::empty(),
        };
        (rest.0, emitted + rest.1)
    }
}

/// Runs a worker from `Ready` over a sequence of observations, returning its
/// final state and the lifecycle events it emitted, in order.
pub fn run_worker(evs: &Vec<WorkerEvent>, param_count: usize) -> (r: (
    WorkerState,
    Vec<EventKind>,
))
    ensures
        r.0 == spec_run(WorkerState::Ready, evs@, param_count).0,
        r.1@ == spec_run(WorkerState::Ready, evs@, param_count).1,
{
    let n = evs.len();
    let mut state = WorkerState::Ready;
    let mut emitted: Vec<EventKind> = Vec::new();
    let mut i: usize = 0;
    proof {
        assert(evs@.subrange(0, n as int) =~= evs@);
        assert(Seq::<EventKind>::empty() + spec_run(WorkerState::Ready, evs@, param_count).1
            =~= spec_run(WorkerState::Ready, evs@, param_count).1);
    }
    while i < n
        invariant
            n == evs@.len(),
            0 <= i <= n,
            spec_run(WorkerState::Ready, evs@, param_count) == (
                {
                    let rest = spec_run(state, evs@.subrange(i as int, n as int), param_count);
                    (rest.0, emitted@ + rest.1)
                }
            ),
        decreases n - i,
    {
        let ghost old_state = state;
        let ghost old_emitted = emitted@;
        let (s2, e) = worker_step(state, evs[i], param_count);
        state = s2;
        if let Some(k) = e {
            emitted.push(k);
        }
        proof {
            let tail_old = evs@.subrange(i as int, n as int);
            let tail_new = evs@.subrange(i + 1 as int, n as int);
            assert(tail_old.subrange(1, tail_old.len() as int) =~= tail_new);
            assert(tail_old[0] == evs@[i as int]);
            let step = spec_step(old_state, evs@[i as int], param_count);
            let rest = spec_run(state, tail_new, param_count);
            match step.1 {
                Option::Some(k) => {
                    assert(emitted@ =~= old_emitted.push(k));
                    assert(old_emitted + (seq![k] + rest.1) =~= emitted@ + rest.1);
                },
                Option::None => {
                    assert(old_emitted + (Seq::<EventKind>::empty() + rest.1) =~= emitted@
                        + rest.1);
                },
            }
        }
        i += 1;
    }
    proof {
        assert(evs@.subrange(n as int, n as int) =~= Seq::<WorkerEvent>::empty());
        assert(emitted@ + Seq::<EventKind>::empty() =~= emitted@);
    }
    (state, emitted)
}

/// Failure isolation, failing side: a failed worker is failed for good and
/// emits nothing, whatever it observes from then on.
pub proof fn lemma_failed_emits_nothing(evs: Seq<WorkerEvent>, param_count: usize)
    ensures
        spec_run(WorkerState::Failed, evs, param_count).0 == WorkerState::Failed,
        spec_run(WorkerState::Failed, evs, param_count).1 == Seq::<EventKind>::empty(),
    decreases evs.len(),
{
    if evs.len() > 0 {
        lemma_failed_emits_nothing(evs.subrange(1, evs.len() as int), param_count);
        assert(Seq::<EventKind>::empty() + Seq::<EventKind>::empty() =~= Seq::<
            EventKind,
        >::empty());
    }
}

/// Failure isolation, failing side: a worker whose upload fails emits no
/// event at all, whatever it observes afterwards.
pub proof fn lemma_upload_failure_isolated(rest: Seq<WorkerEvent>, param_count: usize)
    ensures
        spec_run(WorkerState::Ready, seq![WorkerEvent::UploadFailed] + rest, param_count).0
            == WorkerState::Failed,
        spec_run(WorkerState::Ready, seq![WorkerEvent::UploadFailed] + rest, param_count).1
            == Seq::<EventKind>::empty(),
{
    let evs = seq![WorkerEvent::UploadFailed] + rest;
    assert(evs[0] == WorkerEvent::UploadFailed);
    assert(evs.subrange(1, evs.len() as int) =~= rest);
    lemma_failed_emits_nothing(rest, param_count);
    assert(Seq::<EventKind>::empty() + Seq::<EventKind>::empty() =~= Seq::<EventKind>::empty());
}

/// A run of download-task completions alone brings a worker from the start
/// of its fanout to `Done`, emitting exactly the final `Downloaded` event.
proof fn lemma_fanout_completes(tasks: Seq<WorkerEvent>, param_count: usize)
    requires
        param_count >= 1,
        tasks.len() == param_count,
        forall|i: int| 0 <= i < tasks.len() ==> tasks[i] == WorkerEvent::DownloadTaskFinished,
    ensures
        spec_run(WorkerState::Downloading { remaining: param_count }, tasks, param_count).0
            == WorkerState::Done,
        spec_run(WorkerState::Downloading { remaining: param_count }, tasks, param_count).1
            =~= seq![EventKind::Downloaded],
    decreases param_count,
{
    lemma_fanout_steps(tasks, param_count, param_count);
}

/// Each download-task completion decrements the count; the last one emits
/// `Downloaded`.
proof fn lemma_fanout_steps(tasks: Seq<WorkerEvent>, remaining: usize, param_count: usize)
    requires
        remaining >= 1,
        tasks.len() == remaining,
        forall|i: int| 0 <= i < tasks.len() ==> tasks[i] == WorkerEvent::DownloadTaskFinished,
    ensures
        spec_run(WorkerState::Downloading { remaining }, tasks, param_count).0
            == WorkerState::Done,
        spec_run(WorkerState::Downloading { remaining }, tasks, param_count).1 =~= seq![
            EventKind::Downloaded,
        ],
    decreases remaining,
{
    let rest = tasks.subrange(1, tasks.len() as int);
    assert(tasks[0] == WorkerEvent::DownloadTaskFinished);
    assert forall|i: int| 0 <= i < rest.len() implies rest[i]
        == WorkerEvent::DownloadTaskFinished by {
        assert(rest[i] == tasks[i + 1]);
    }
    let stepped = spec_step(
        WorkerState::Downloading { remaining },
        WorkerEvent::DownloadTaskFinished,
        param_count,
    );
    let whole = spec_run(WorkerState::Downloading { remaining }, tasks, param_count);
    let tail = spec_run(stepped.0, rest, param_count);
    if remaining == 1 {
        assert(stepped == (WorkerState::Done, Option::Some(EventKind::Downloaded)));
        assert(rest =~= Seq::<WorkerEvent>::empty());
        assert(tail == (WorkerState::Done, Seq::<EventKind>::empty()));
        assert(whole == (tail.0, seq![EventKind::Downloaded] + tail.1));
        assert(seq![EventKind::Downloaded] + Seq::<EventKind>::empty() =~= seq![
            EventKind::Downloaded,
        ]);
    } else {
        assert(stepped == (
            WorkerState::Downloading { remaining: (remaining - 1) as usize },
            Option::None::<EventKind>,
        ));
        lemma_fanout_steps(rest, (remaining - 1) as usize, param_count);
        assert(whole == (tail.0, Seq::<EventKind>::empty() + tail.1));
        assert(Seq::<EventKind>::empty() + seq![EventKind::Downloaded] =~= seq![
            EventKind::Downloaded,
        ]);
        assert(whole.1 =~= seq![EventKind::Downloaded]);
    }
}

/// Partial failure isolation, succeeding side: a worker whose upload
/// succeeds, whose poll finishes, and whose download tasks all complete runs
/// the full Upload, Poll, Fanout sequence and emits exactly `Uploaded`,
/// `Predicted`, `Downloaded`, in that order, whatever happens to any other
/// study's worker.
pub proof fn lemma_successful_run(tasks: Seq<WorkerEvent>, param_count: usize)
    requires
        param_count >= 1,
        tasks.len() == param_count,
        forall|i: int| 0 <= i < tasks.len() ==> tasks[i] == WorkerEvent::DownloadTaskFinished,
    ensures
        spec_run(
            WorkerState::Ready,
            seq![WorkerEvent::UploadOk, WorkerEvent::PollDone] + tasks,
            param_count,
        ).0 == WorkerState::Done,
        spec_run(
            WorkerState::Ready,
            seq![WorkerEvent::UploadOk, WorkerEvent::PollDone] + tasks,
            param_count,
        ).1 =~= seq![EventKind::Uploaded, EventKind::Predicted, EventKind::Downloaded],
{
    let evs = seq![WorkerEvent::UploadOk, WorkerEvent::PollDone] + tasks;
    assert(evs[0] == WorkerEvent::UploadOk);
    let evs1 = evs.subrange(1, evs.len() as int);
    assert(evs1[0] == evs[1] && evs[1] == WorkerEvent::PollDone);
    let evs2 = evs1.subrange(1, evs1.len() as int);
    assert(evs2 =~= tasks);
    lemma_fanout_completes(tasks, param_count);
    let r2 = spec_run(WorkerState::Downloading { remaining: param_count }, evs1.subrange(
        1,
        evs1.len() as int,
    ), param_count);
    assert(r2.0 == WorkerState::Done && r2.1 == seq![EventKind::Downloaded]);
    assert(spec_step(WorkerState::Ready, WorkerEvent::UploadOk, param_count) == (
        WorkerState::Uploaded,
        Option::Some(EventKind::Uploaded),
    ));
    assert(spec_step(WorkerState::Uploaded, WorkerEvent::PollDone, param_count) == (
        WorkerState::Downloading { remaining: param_count },
        Option::Some(EventKind::Predicted),
    ));
    let r1 = spec_run(WorkerState::Uploaded, evs1, param_count);
    assert(r1 == (r2.0, seq![EventKind::Predicted] + r2.1));
    let r0 = spec_run(WorkerState::Ready, evs, param_count);
    assert(r0 == (r1.0, seq![EventKind::Uploaded] + r1.1));
    assert(seq![EventKind::Uploaded] + (seq![EventKind::Predicted] + seq![
        EventKind::Downloaded,
    ]) =~= seq![EventKind::Uploaded, EventKind::Predicted, EventKind::Downloaded]);
}

/// Running totals of the lifecycle events the bus has consumed.
#[derive(Clone, Copy, PartialEq, Eq, Structural, Debug)]
pub struct EventCounts {
    pub uploaded: usize,
    pub predicted: usize,
    pub downloaded: usize,
}

/// How many events of one kind a sequence holds.
pub open spec fn spec_count_kind(evs: Seq<Event>, kind: EventKind) -> int
    decreases evs.len(),
{
    if evs.len() == 0 {
        0
    } else {
        spec_count_kind(evs.drop_last(), kind) + if evs.last().kind == kind {
            1int
        } else {
            0int
        }
    }
}

/// Aggregates a run's lifecycle events into per-kind totals, as the event
/// bus reports them.  The bus observes; it decides nothing.
pub fn count_events(events: &Vec<Event>) -> (r: EventCounts)
    requires
        events@.len() <= usize::MAX,
    ensures
        r.uploaded == spec_count_kind(events@, EventKind::Uploaded),
        r.predicted == spec_count_kind(events@, EventKind::Predicted),
        r.downloaded == spec_count_kind(events@, EventKind::Downloaded),
{
    let n = events.len();
    let mut uploaded: usize = 0;
    let mut predicted: usize = 0;
    let mut downloaded: usize = 0;
    let mut i: usize = 0;
    while i < n
        invariant
            n == events@.len(),
            0 <= i <= n,
            uploaded == spec_count_kind(events@.subrange(0, i as int), EventKind::Uploaded),
            predicted == spec_count_kind(events@.subrange(0, i as int), EventKind::Predicted),
            downloaded == spec_count_kind(events@.subrange(0, i as int), EventKind::Downloaded),
            uploaded <= i && predicted <= i && downloaded <= i,
        decreases n - i,
    {
        proof {
            lemma_count_bound(events@.subrange(0, i as int), EventKind::Uploaded);
            lemma_count_bound(events@.subrange(0, i as int), EventKind::Predicted);
            lemma_count_bound(events@.subrange(0, i as int), EventKind::Downloaded);
        }
        match events[i].kind {
            EventKind::Uploaded => {
                uploaded += 1;
            },
            EventKind::Predicted => {
                predicted += 1;
            },
            EventKind::Downloaded => {
                downloaded += 1;
            },
        }
        proof {
            let prev = events@.subrange(0, i as int);
            let cur = events@.subrange(0, i + 1 as int);
            assert(cur.drop_last() =~= prev);
            assert(cur.last() == events@[i as int]);
        }
        i += 1;
    }
    proof {
        assert(events@.subrange(0, n as int) =~= events@);
    }
    EventCounts { uploaded, predicted, downloaded }
}

/// A kind's count never exceeds the number of events.
proof fn lemma_count_bound(evs: Seq<Event>, kind: EventKind)
    ensures
        0 <= spec_count_kind(evs, kind) <= evs.len(),
    decreases evs.len(),
{
    if evs.len() > 0 {
        lemma_count_bound(evs.drop_last(), kind);
    }
}

} // verus!
