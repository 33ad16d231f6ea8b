//! The coordinator of a search: it accepts the first matching result,
//! raises the stop signal, and turns idle polls into throughput reports.
//!
//! The coordinator is a state machine driven by poll events; spawning the
//! workers, waiting on the result channel and reading the clock are left to
//! the caller, who performs the action each event yields.
use vstd::prelude::*;
use vstd::string::StringSliceAdditionalSpecFns;
use crate::keys::Candidate;
use crate::pattern::{is_hex_pattern, starts_with};

verus! {

broadcast use vstd::string::group_string_axioms;

/// Number of workers a search runs when nothing else is asked for.
pub const DEFAULT_WORKERS: u32 = 4;

/// How long the coordinator waits for a result before reporting progress.
pub const POLL_INTERVAL_MS: u64 = 1000;

/// The number of addresses among which one with a given prefix is expected:
/// sixteen to the power of the prefix length.
pub open spec fn search_space(len: nat) -> nat
    decreases len,
{
    if len == 0 {
        1
    } else {
        16 * search_space((len - 1) as nat)
    }
}

/// The search space of a prefix length, saturated at `u64::MAX`.
pub open spec fn difficulty(len: nat) -> u64 {
    if search_space(len) > u64::MAX {
        u64::MAX
    } else {
        search_space(len) as u64
    }
}

proof fn lemma_search_space_grows(a: nat, b: nat)
    requires
        a <= b,
    ensures
        search_space(a) <= search_space(b),
    decreases b,
{
    if a < b {
        lemma_search_space_grows(a, (b - 1) as nat);
    }
}

/// The expected number of attempts for a prefix of `pattern_len` characters,
/// saturated at `u64::MAX`.
pub fn search_difficulty(pattern_len: usize) -> (r: u64)
    ensures
        r == difficulty(pattern_len as nat),
{
    let mut d: u64 = 1;
    let mut i: usize = 0;
    while i < pattern_len
        invariant
            0 <= i <= pattern_len,
            d as nat == search_space(i as nat),
        decreases pattern_len - i,
    {
        if d > u64::MAX / 16 {
            proof {
                lemma_search_space_grows((i + 1) as nat, pattern_len as nat);
            }
            return u64::MAX;
        }
        d = d * 16;
        i += 1;
    }
    d
}

/// A throughput report: attempts per second, seconds spent, and the seconds
/// still expected, which are unknown while no attempt has been counted.
#[derive(Clone, Copy, Debug, PartialEq, Eq)]
pub struct Progress {
    pub speed: u64,
    pub elapsed_secs: u64,
    pub eta_secs: Option<u64>,
}

/// The report after `elapsed` whole seconds and `processed` attempts, for a
/// prefix of `len` characters; none while no whole second has passed.
pub open spec fn progress_of(processed: u64, elapsed: u64, len: nat) -> Option<Progress> {
    if elapsed == 0 {
        None
    } else {
        let speed = processed / elapsed;
        Some(
            Progress {
                speed,
                elapsed_secs: elapsed,
                eta_secs: if speed == 0 {
                    None
                } else {
                    Some(difficulty(len) / speed)
                },
            },
        )
    }
}

/// The throughput report for a poll that found no result. No division is made
/// by zero: with no elapsed second there is no report, and with no attempt
/// per second the remaining time is unknown.
pub fn progress_report(processed: u64, elapsed_secs: u64, pattern_len: usize) -> (r: Option<Progress>)
    ensures
        r == progress_of(processed, elapsed_secs, pattern_len as nat),
{
    if elapsed_secs == 0 {
        return None;
    }
    let speed = processed / elapsed_secs;
    let eta_secs = if speed == 0 {
        None
    } else {
        Some(search_difficulty(pattern_len) / speed)
    };
    Some(Progress { speed, elapsed_secs, eta_secs })
}

/// Why a search cannot start.
#[derive(Clone, Copy, Debug, PartialEq, Eq)]
pub enum SearchError {
    /// The pattern holds a character other than `0`..`9` and `a`..`f`.
    InvalidPattern,
}

/// What the coordinator learns from one poll of the result channel.
#[derive(Debug)]
pub enum PollEvent {
    /// A worker sent a candidate.
    Received(Candidate),
    /// The wait ran out after `elapsed_secs` whole seconds of searching,
    /// with `processed` attempts counted so far.
    Timeout { elapsed_secs: u64, processed: u64 },
}

/// What the caller does after a poll.
#[derive(Debug)]
pub enum Action {
    /// Print the report and poll again.
    Report(Progress),
    /// Poll again without a report.
    Wait,
    /// The result: print it, raise the stop signal and join the workers.
    Finish(Candidate),
    /// A candidate that is not taken (one came first, or it does not match):
    /// drop it.
    Discard,
}

/// Whether a coordinator in state `stopped`, searching for `pattern`, takes
/// `event` as its result: only the first matching candidate is taken.
pub open spec fn takes(stopped: bool, pattern: Seq<char>, event: PollEvent) -> bool {
    match event {
        PollEvent::Received(c) => !stopped && starts_with(c.address@, pattern),
        PollEvent::Timeout { .. } => false,
    }
}

/// Whether the stop signal is raised after the coordinator, starting in state
/// `stopped`, has seen `events` in order.
pub open spec fn stopped_after(stopped: bool, pattern: Seq<char>, events: Seq<PollEvent>) -> bool
    decreases events.len(),
{
    if events.len() == 0 {
        stopped
    } else {
        stopped_after(stopped || takes(stopped, pattern, events[0]), pattern, events.drop_first())
    }
}

/// How many results the coordinator, starting in state `stopped`, takes from
/// `events`.
pub open spec fn results_taken(stopped: bool, pattern: Seq<char>, events: Seq<PollEvent>) -> nat
    decreases events.len(),
{
    if events.len() == 0 {
        0
    } else {
        (if takes(stopped, pattern, events[0]) {
            1nat
        } else {
            0nat
        }) + results_taken(stopped || takes(stopped, pattern, events[0]), pattern, events.drop_first())
    }
}

/// Once the stop signal is raised, no event lowers it.
pub proof fn lemma_stopped_stays(pattern: Seq<char>, events: Seq<PollEvent>)
    ensures
        stopped_after(true, pattern, events),
    decreases events.len(),
{
    if events.len() > 0 {
        lemma_stopped_stays(pattern, events.drop_first());
    }
}

/// A stopped coordinator takes no further result.
pub proof fn lemma_no_result_after_stop(pattern: Seq<char>, events: Seq<PollEvent>)
    ensures
        results_taken(true, pattern, events) == 0,
    decreases events.len(),
{
    if events.len() > 0 {
        lemma_no_result_after_stop(pattern, events.drop_first());
    }
}

/// However many candidates the workers send, and in whatever order, a search
/// takes at most one result.
pub proof fn lemma_at_most_one_result(pattern: Seq<char>, events: Seq<PollEvent>)
    ensures
        results_taken(false, pattern, events) <= 1,
    decreases events.len(),
{
    if events.len() > 0 {
        if takes(false, pattern, events[0]) {
            lemma_no_result_after_stop(pattern, events.drop_first());
        } else {
            lemma_at_most_one_result(pattern, events.drop_first());
        }
    }
}

/// The stop signal only goes from lowered to raised: if it is raised after
/// the first `i` events, it is raised after the first `j` for every `j >= i`.
pub proof fn lemma_stop_is_monotonic(
    stopped: bool,
    pattern: Seq<char>,
    events: Seq<PollEvent>,
    i: int,
    j: int,
)
    requires
        0 <= i <= j <= events.len(),
    ensures
        stopped_after(stopped, pattern, events.take(i)) ==> stopped_after(
            stopped,
            pattern,
            events.take(j),
        ),
    decreases events.len(),
{
    if i == 0 {
        if stopped {
            lemma_stopped_stays(pattern, events.take(j));
        }
    } else {
        let next = stopped || takes(stopped, pattern, events[0]);
        let rest = events.drop_first();
        assert(events.take(i).drop_first() =~= rest.take(i - 1));
        assert(events.take(j).drop_first() =~= rest.take(j - 1));
        lemma_stop_is_monotonic(next, pattern, rest, i - 1, j - 1);
    }
}

/// What a poll that ran out yields: the progress report, or a wait while
/// there is none.
pub open spec fn report_for(processed: u64, elapsed: u64, len: nat) -> Action {
    match progress_of(processed, elapsed, len) {
        Some(p) => Action::Report(p),
        None => Action::Wait,
    }
}

/// The state of a search: its pattern, how many workers it runs, and whether
/// the stop signal is raised.
pub struct Coordinator {
    pattern: String,
    workers: u32,
    stopped: bool,
}

impl Coordinator {
    /// The pattern searched for.
    pub closed spec fn spec_pattern(&self) -> Seq<char> {
        self.pattern@
    }

    /// The number of workers.
    pub closed spec fn spec_workers(&self) -> u32 {
        self.workers
    }

    /// Whether the stop signal is raised.
    pub closed spec fn spec_stopped(&self) -> bool {
        self.stopped
    }

    /// The pattern is valid and at least one worker runs.
    pub open spec fn wf(&self) -> bool {
        is_hex_pattern(self.spec_pattern()) && self.spec_workers() >= 1
    }

    /// A search for `pattern` with `workers` workers, at least one. An
    /// invalid pattern is refused before anything starts.
    pub fn new(pattern: &str, workers: u32) -> (r: Result<Coordinator, SearchError>)
        ensures
            r is Err <==> !is_hex_pattern(pattern@),
            r matches Err(e) ==> e == SearchError::InvalidPattern,
            r matches Ok(c) ==> {
                &&& c.wf()
                &&& c.spec_pattern() == pattern@
                &&& c.spec_workers() == if workers == 0 { 1 } else { workers }
                &&& !c.spec_stopped()
            },
    {
        if !crate::pattern::is_possible_pattern(pattern) {
            return Err(SearchError::InvalidPattern);
        }
        let workers = if workers == 0 { 1 } else { workers };
        Ok(Coordinator { pattern: pattern.to_string(), workers, stopped: false })
    }

    /// The pattern searched for.
    pub fn pattern(&self) -> (r: &str)
        ensures
            r@ == self.spec_pattern(),
    {
        self.pattern.as_str()
    }

    /// The number of workers to spawn.
    pub fn workers(&self) -> (r: u32)
        ensures
            r == self.spec_workers(),
    {
        self.workers
    }

    /// Whether the stop signal is raised.
    pub fn is_stopped(&self) -> (r: bool)
        ensures
            r == self.spec_stopped(),
    {
        self.stopped
    }

    /// Handles one poll. The first candidate whose address starts with the
    /// pattern is the result, and raises the stop signal; every later one is
    /// discarded. A poll that ran out yields a progress report, or a wait
    /// while no whole second has passed.
    pub fn on_event(&mut self, event: PollEvent) -> (a: Action)
        requires
            old(self).wf(),
        ensures
            final(self).wf(),
            final(self).spec_pattern() == old(self).spec_pattern(),
            final(self).spec_workers() == old(self).spec_workers(),
            final(self).spec_stopped() == (old(self).spec_stopped() || takes(
                old(self).spec_stopped(),
                old(self).spec_pattern(),
                event,
            )),
            a is Finish <==> takes(old(self).spec_stopped(), old(self).spec_pattern(), event),
            a matches Action::Finish(c) ==> {
                &&& event matches PollEvent::Received(e) && c == e
                &&& starts_with(c.address@, old(self).spec_pattern())
            },
            event is Received ==> (a is Finish || a is Discard),
            (event is Timeout) ==> a == report_for(
                event->processed,
                event->elapsed_secs,
                old(self).spec_pattern().len(),
            ),
    {
        match event {
            PollEvent::Received(c) => {
                if !self.stopped && crate::pattern::matches(c.address.as_str(), self.pattern.as_str()) {
                    self.stopped = true;
                    Action::Finish(c)
                } else {
                    Action::Discard
                }
            },
            PollEvent::Timeout { elapsed_secs, processed } => {
                let pattern = self.pattern.as_str();
                proof {
                    crate::pattern::lemma_hex_is_ascii(pattern@);
                    assert(vstd::string::is_ascii(pattern));
                    assert(pattern.spec_bytes().len() == pattern@.len());
                }
                match progress_report(processed, elapsed_secs, pattern.as_bytes().len()) {
                    Some(p) => Action::Report(p),
                    None => Action::Wait,
                }
            },
        }
    }
}

} // verus!
