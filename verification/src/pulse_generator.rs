//! A schedule of pulses at given intervals, measured against one start time
//! so that late polls do not add up to drift.

use vstd::prelude::*;

verus! {

/// The polling granularity when none is given: one millisecond.
pub const DEFAULT_CHECK_INTERVAL: u64 = 1_000_000;

/// What the schedule asks of its driver after one look at the clock.
#[derive(Clone, Copy, Debug, PartialEq, Eq, Structural)]
pub enum Pulse {
    /// The pulse with this number is due: act on it now.
    Tick(u32),
    /// Nothing is due yet: sleep this many nanoseconds and look again.
    Wait(u64),
    /// The schedule has ended and will not pulse again.
    Finished,
}

/// A pulse schedule. All times are in nanoseconds. Pulse 0 is due at once;
/// pulse `i` is due one interval after pulse `i - 1`, the intervals taken
/// from the list in turn, round and round.
pub struct PulseGenerator {
    ticktime: Vec<u64>,
    check_interval: u64,
    is_stopped: bool,
    progress: Progress,
}

/// How far a schedule has come: the number of the next pulse and the time at
/// which it is due.
#[derive(Clone, Copy)]
struct Progress {
    iter: u32,
    time_spended: u128,
}

/// Time from the start at which pulse `i` is due: the sum of the first `i`
/// intervals, taken cyclically.
pub open spec fn due_time(intervals: Seq<u64>, i: nat) -> int
    decreases i,
{
    if i == 0 {
        0
    } else {
        due_time(intervals, (i - 1) as nat) + intervals[((i - 1) as int) % (intervals.len() as int)]
    }
}

/// No pulse is due before the one that precedes it, and none later than its
/// number times the largest interval a `u64` holds.
pub proof fn lemma_due_time_bounds(intervals: Seq<u64>, i: nat)
    requires
        intervals.len() > 0,
    ensures
        0 <= due_time(intervals, i) <= i * u64::MAX,
        i > 0 ==> due_time(intervals, (i - 1) as nat) <= due_time(intervals, i),
    decreases i,
{
    if i > 0 {
        lemma_due_time_bounds(intervals, (i - 1) as nat);
        let k = ((i - 1) as int) % (intervals.len() as int);
        assert(0 <= k < intervals.len()) by (nonlinear_arith)
            requires
                k == ((i - 1) as int) % (intervals.len() as int),
                intervals.len() > 0,
                i >= 1,
        ;
        assert((i - 1) * u64::MAX + u64::MAX == i * u64::MAX) by (nonlinear_arith);
    }
}

/// Due times never decrease with the pulse number.
pub proof fn lemma_due_time_monotonic(intervals: Seq<u64>, i: nat, j: nat)
    requires
        intervals.len() > 0,
        i <= j,
    ensures
        due_time(intervals, i) <= due_time(intervals, j),
    decreases j,
{
    if i < j {
        lemma_due_time_monotonic(intervals, i, (j - 1) as nat);
        lemma_due_time_bounds(intervals, j);
    }
}

/// The schedule repeats with its list of intervals: once round the list
/// later, every pulse is due one round of intervals later.
pub proof fn lemma_due_time_is_periodic(intervals: Seq<u64>, i: nat)
    requires
        intervals.len() > 0,
    ensures
        due_time(intervals, i + intervals.len()) == due_time(intervals, i) + due_time(
            intervals,
            intervals.len(),
        ),
    decreases i,
{
    let len = intervals.len();
    if i > 0 {
        lemma_due_time_is_periodic(intervals, (i - 1) as nat);
        vstd::arithmetic::div_mod::lemma_mod_add_multiples_vanish((i - 1) as int, len as int);
        assert(((i + len - 1) as int) % (len as int) == ((i - 1) as int) % (len as int));
    }
}

impl PulseGenerator {
    #[verifier::type_invariant]
    spec fn inv(self) -> bool {
        &&& self.ticktime@.len() >= 1
        &&& self.progress.time_spended == due_time(self.ticktime@, self.progress.iter as nat)
    }

    /// The intervals between pulses, in nanoseconds.
    pub closed spec fn intervals(self) -> Seq<u64> {
        self.ticktime@
    }

    /// How long the driver sleeps between two looks at the clock.
    pub closed spec fn granularity(self) -> u64 {
        self.check_interval
    }

    /// Whether the schedule has ended.
    pub closed spec fn stopped(self) -> bool {
        self.is_stopped
    }

    /// The number of the next pulse, which is also how many have fired.
    pub closed spec fn fired(self) -> u32 {
        self.progress.iter
    }

    /// A schedule over `ticktime` that is polled every millisecond.
    pub fn new(ticktime: Vec<u64>) -> (g: PulseGenerator)
        requires
            ticktime@.len() >= 1,
        ensures
            g.intervals() == ticktime@,
            g.granularity() == DEFAULT_CHECK_INTERVAL,
            !g.stopped(),
            g.fired() == 0,
    {
        PulseGenerator::with_check_interval(ticktime, DEFAULT_CHECK_INTERVAL)
    }

    /// A schedule over `ticktime` that is polled every `check_interval`
    /// nanoseconds. The list of intervals must not be empty.
    pub fn with_check_interval(ticktime: Vec<u64>, check_interval: u64) -> (g: PulseGenerator)
        requires
            ticktime@.len() >= 1,
        ensures
            g.intervals() == ticktime@,
            g.granularity() == check_interval,
            !g.stopped(),
            g.fired() == 0,
    {
        PulseGenerator {
            ticktime,
            check_interval,
            is_stopped: false,
            progress: Progress { iter: 0, time_spended: 0 },
        }
    }

    /// Ends the schedule; it cannot be started again.
    pub fn stop(&mut self)
        ensures
            final(self).stopped(),
            final(self).intervals() == old(self).intervals(),
            final(self).granularity() == old(self).granularity(),
            final(self).fired() == old(self).fired(),
    {
        proof {
            use_type_invariant(&*self);
        }
        self.is_stopped = true;
    }

    /// Whether the schedule has ended.
    pub fn is_stopped(&self) -> (b: bool)
        ensures
            b == self.stopped(),
    {
        self.is_stopped
    }

    /// The polling granularity in nanoseconds.
    pub fn check_interval(&self) -> (ns: u64)
        ensures
            ns == self.granularity(),
    {
        self.check_interval
    }

    /// One look at the clock, `elapsed` nanoseconds after the start.
    ///
    /// A stopped schedule is finished. Otherwise the next pulse fires if and
    /// only if its due time has come, so no pulse is ever early; if it has
    /// not, the driver is told to sleep one granularity. The pulse numbered
    /// `u32::MAX` is the last: firing it ends the schedule.
    pub fn poll(&mut self, elapsed: u128) -> (p: Pulse)
        ensures
            final(self).intervals() == old(self).intervals(),
            final(self).granularity() == old(self).granularity(),
            old(self).stopped() ==> p == Pulse::Finished && final(self).stopped()
                && final(self).fired() == old(self).fired(),
            !old(self).stopped() && elapsed >= due_time(
                old(self).intervals(),
                old(self).fired() as nat,
            ) ==> {
                &&& p == Pulse::Tick(old(self).fired())
                &&& final(self).stopped() == (old(self).fired() == u32::MAX)
                &&& final(self).fired() == if old(self).fired() == u32::MAX {
                    u32::MAX
                } else {
                    (old(self).fired() + 1) as u32
                }
            },
            !old(self).stopped() && elapsed < due_time(
                old(self).intervals(),
                old(self).fired() as nat,
            ) ==> {
                &&& p == Pulse::Wait(old(self).granularity())
                &&& !final(self).stopped()
                &&& final(self).fired() == old(self).fired()
            },
    {
        proof {
            use_type_invariant(&*self);
        }
        if self.is_stopped {
            return Pulse::Finished;
        }
        if elapsed < self.progress.time_spended {
            return Pulse::Wait(self.check_interval);
        }
        let i = self.progress.iter;
        if i == u32::MAX {
            self.is_stopped = true;
            return Pulse::Tick(i);
        }
        let next_interval = self.ticktime[i as usize % self.ticktime.len()];
        proof {
            lemma_due_time_bounds(self.ticktime@, (i + 1) as nat);
            assert((i + 1) * u64::MAX <= u128::MAX) by (nonlinear_arith)
                requires
                    i < u32::MAX,
            ;
        }
        self.progress = Progress {
            iter: i + 1,
            time_spended: self.progress.time_spended + next_interval as u128,
        };
        Pulse::Tick(i)
    }
}

} // verus!
