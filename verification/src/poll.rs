//! The status poller: the state machine that waits for a study's remote
//! processing to finish.
//!
//! The remote service reports an opaque status string per request; the one
//! terminal value is "done".  The poller asks, and between consecutive
//! requests sleeps a fixed interval; it stops exactly when it observes the
//! terminal value.  The loop that performs the requests and the sleeps runs
//! outside the library; the library decides, from each reading, whether to
//! stop, and its trace over any sequence of readings is specified here.

use vstd::prelude::*;

verus! {

/// The status value with which the analysis service reports that a study's
/// processing has finished.
pub open spec fn done_status() -> Seq<char> {
    "done"@
}

/// The seconds slept between two consecutive status requests.
pub const POLL_INTERVAL_SECS: u64 = 3;

/// True exactly when `status` is the terminal "done" value.
pub fn is_terminal_status(status: &String) -> (r: bool)
    ensures
        r == (status@ == done_status()),
{
    let done = String::from_str("done");
    *status == done
}

/// What the poller does after one status reading.
#[derive(Clone, Copy, PartialEq, Eq, Structural, Debug)]
pub enum PollStep {
    /// The terminal status was observed: stop, the study is predicted.
    Done,
    /// Any other status: sleep the fixed interval, then ask again.
    SleepAndRetry,
}

/// Decides the poller's next move from one status reading.  Only the exact
/// terminal value stops the loop; every other status, whatever it says, is
/// an intermediate one.
pub fn poll_step(status: &String) -> (r: PollStep)
    ensures
        r is Done <==> status@ == done_status(),
{
    if is_terminal_status(status) {
        PollStep::Done
    } else {
        PollStep::SleepAndRetry
    }
}

/// The position of the first terminal reading at or after `from`, if any.
pub open spec fn first_done_from(statuses: Seq<Seq<char>>, from: int) -> Option<int>
    decreases statuses.len() - from,
{
    if from < 0 || from >= statuses.len() {
        Option::None
    } else if statuses[from] == done_status() {
        Option::Some(from)
    } else {
        first_done_from(statuses, from + 1)
    }
}

/// The requests and sleeps of one poll loop run.
#[derive(Clone, Copy, PartialEq, Eq, Structural, Debug)]
pub struct PollTrace {
    /// Status requests issued, the one that observed the terminal value
    /// included.
    pub requests: usize,
    /// Fixed-interval sleeps, one between each pair of consecutive requests.
    pub sleeps: usize,
}

/// Runs the poller against a pre-recorded sequence of status readings, as
/// the live loop runs it against the service: one request per reading in
/// order, one sleep between consecutive requests, stopping at the first
/// terminal reading.  Readings past the first terminal one are never
/// requested.  If the recording is exhausted before a terminal reading, the
/// poller is still waiting and there is no trace.
pub fn poll_trace(statuses: &Vec<String>) -> (r: Option<PollTrace>)
    ensures
        match r {
            Some(t) => {
                &&& first_done_from(statuses@.map_values(|s: String| s@), 0) == Option::Some(
                    t.requests - 1,
                )
                &&& t.requests >= 1
                &&& t.sleeps == t.requests - 1
            },
            None => first_done_from(statuses@.map_values(|s: String| s@), 0) is None,
        },
{
    let ghost views = statuses@.map_values(|s: String| s@);
    let n = statuses.len();
    let mut i: usize = 0;
    while i < n
        invariant
            n == statuses@.len(),
            views == statuses@.map_values(|s: String| s@),
            0 <= i <= n,
            forall|j: int| 0 <= j < i ==> views[j] != done_status(),
            first_done_from(views, 0) == first_done_from(views, i as int),
        decreases n - i,
    {
        match poll_step(&statuses[i]) {
            PollStep::Done => {
                assert(views[i as int] == done_status());
                return Some(PollTrace { requests: i + 1, sleeps: i });
            },
            PollStep::SleepAndRetry => {
                assert(views[i as int] != done_status());
            },
        }
        i += 1;
    }
    None
}

/// Poll termination: over any sequence of readings whose first terminal
/// value stands at position `k`, the poller issues exactly `k + 1` requests
/// with one sleep between each pair, and never stops earlier.
pub proof fn lemma_poll_termination(statuses: Seq<Seq<char>>, k: int)
    requires
        0 <= k < statuses.len(),
        statuses[k] == done_status(),
        forall|j: int| 0 <= j < k ==> statuses[j] != done_status(),
    ensures
        first_done_from(statuses, 0) == Option::Some(k),
    decreases k,
{
    lemma_first_done_step(statuses, 0, k);
}

/// The search for the first terminal reading walks past every intermediate
/// one.
proof fn lemma_first_done_step(statuses: Seq<Seq<char>>, from: int, k: int)
    requires
        0 <= from <= k < statuses.len(),
        statuses[k] == done_status(),
        forall|j: int| from <= j < k ==> statuses[j] != done_status(),
    ensures
        first_done_from(statuses, from) == Option::Some(k),
    decreases k - from,
{
    if from < k {
        lemma_first_done_step(statuses, from + 1, k);
    }
}

} // verus!
