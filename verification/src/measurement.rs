//! A rolling average over the most recent readings of one signal.

use crate::average::{Average, Fraction};
use vstd::prelude::*;

verus! {

/// The sum of a run of readings.
pub open spec fn sum(readings: Seq<i32>) -> int
    decreases readings.len(),
{
    if readings.len() == 0 {
        0
    } else {
        sum(readings.drop_last()) + readings.last()
    }
}

/// The arithmetic mean of a run of readings. The mean of no readings is zero.
pub open spec fn mean(readings: Seq<i32>) -> Fraction {
    Fraction {
        num: sum(readings),
        den: if readings.len() == 0 {
            1
        } else {
            readings.len() as int
        },
    }
}

/// The last `capacity` readings of `fed` in the order they arrived, or all of
/// them where fewer have arrived.
pub open spec fn latest(fed: Seq<i32>, capacity: nat) -> Seq<i32> {
    if fed.len() <= capacity {
        fed
    } else {
        fed.subrange(fed.len() - capacity, fed.len() as int)
    }
}

/// What a rolling average stands for: the length of its window and every
/// reading it was ever fed, oldest first.
pub struct Window {
    pub capacity: nat,
    pub fed: Seq<i32>,
}

impl Window {
    /// A window has room for at least one reading.
    pub open spec fn wf(self) -> bool {
        self.capacity > 0
    }

    /// The readings the window retains.
    pub open spec fn samples(self) -> Seq<i32> {
        latest(self.fed, self.capacity)
    }

    /// The mean of the retained readings.
    pub open spec fn average(self) -> Fraction {
        mean(self.samples())
    }

    /// The window after one more reading.
    pub open spec fn feed(self, reading: i32) -> Window {
        Window { capacity: self.capacity, fed: self.fed.push(reading) }
    }
}

/// A window retains as many readings as were fed, up to its capacity, and
/// they are the last ones fed, oldest first.
pub proof fn lemma_latest_is_tail(fed: Seq<i32>, capacity: nat)
    ensures
        latest(fed, capacity).len() == if fed.len() <= capacity {
            fed.len()
        } else {
            capacity
        },
        forall|i: int|
            0 <= i < latest(fed, capacity).len() ==> latest(fed, capacity)[i] == fed[fed.len()
                - latest(fed, capacity).len() + i],
{
}

/// Of two windows that were fed the same readings, the shorter retains the
/// latest part of what the longer retains.
pub proof fn lemma_shorter_window_retains_latest(short: Window, long: Window)
    requires
        short.fed == long.fed,
        short.capacity <= long.capacity,
    ensures
        short.samples() == latest(long.samples(), short.capacity),
{
    assert(short.samples() =~= latest(long.samples(), short.capacity));
}

/// A sum of `i32` readings lies between the lowest and the highest reading
/// times their number.
pub proof fn lemma_sum_bounds(readings: Seq<i32>)
    ensures
        i32::MIN * readings.len() <= sum(readings) <= i32::MAX * readings.len(),
    decreases readings.len(),
{
    if readings.len() > 0 {
        lemma_sum_bounds(readings.drop_last());
    }
}

/// The mean of any run of readings lies in the range of `i32`.
pub proof fn lemma_mean_in_range(readings: Seq<i32>)
    ensures
        mean(readings).in_range(),
{
    lemma_sum_bounds(readings);
}

/// Feeding a reading appends it to the retained readings, after the oldest of
/// them has left where the window was full.
pub proof fn lemma_feed_evicts_oldest(fed: Seq<i32>, capacity: nat, reading: i32)
    requires
        capacity > 0,
    ensures
        latest(fed.push(reading), capacity) == if latest(fed, capacity).len() == capacity {
            latest(fed, capacity).drop_first().push(reading)
        } else {
            latest(fed, capacity).push(reading)
        },
{
    let before = latest(fed, capacity);
    let after = latest(fed.push(reading), capacity);
    if before.len() == capacity {
        assert(after =~= before.drop_first().push(reading));
    } else {
        assert(after =~= before.push(reading));
    }
}

/// The sum of readings that are all equal to `value` is `value` times their
/// number.
pub proof fn lemma_sum_of_constant(readings: Seq<i32>, value: i32)
    requires
        forall|i: int| 0 <= i < readings.len() ==> readings[i] == value,
    ensures
        sum(readings) == value * readings.len(),
    decreases readings.len(),
{
    if readings.len() > 0 {
        lemma_sum_of_constant(readings.drop_last(), value);
        assert(value * readings.len() == value * (readings.len() - 1) + value)
            by (nonlinear_arith);
    }
}

/// Once the last `capacity` readings fed to a window are all equal to
/// `value`, its average is exactly `value`, whatever was fed before.
pub proof fn lemma_constant_feed_settles(window: Window, value: i32)
    requires
        window.wf(),
        window.fed.len() >= window.capacity,
        forall|i: int|
            window.fed.len() - window.capacity <= i < window.fed.len() ==> window.fed[i] == value,
    ensures
        window.average().equals(value as int),
        window.average().den == window.capacity,
{
    lemma_sum_of_constant(window.samples(), value);
}

/// A window that was fed nothing before holds the first reading alone: its
/// average is that reading.
pub proof fn lemma_first_reading_is_the_average(window: Window, reading: i32)
    requires
        window.wf(),
        window.fed.len() == 0,
    ensures
        window.feed(reading).average() == (Fraction { num: reading as int, den: 1 }),
{
    let samples = window.feed(reading).samples();
    assert(samples =~= seq![reading]);
    lemma_sum_of_constant(samples, reading);
}

/// The sum of readings of which none is above `limit`, taken `times` over,
/// is at most `limit` times their number.
proof fn lemma_sum_at_most(readings: Seq<i32>, times: int, limit: int)
    requires
        forall|i: int| 0 <= i < readings.len() ==> times * readings[i] <= limit,
    ensures
        times * sum(readings) <= limit * readings.len(),
    decreases readings.len(),
{
    if readings.len() > 0 {
        lemma_sum_at_most(readings.drop_last(), times, limit);
        assert(times * sum(readings) == times * sum(readings.drop_last()) + times
            * readings.last()) by (nonlinear_arith)
            requires
                sum(readings) == sum(readings.drop_last()) + readings.last(),
        ;
        assert(limit * readings.len() == limit * (readings.len() - 1) + limit)
            by (nonlinear_arith);
    }
}

/// The mean of readings of which none is above `limit` is not above `limit`.
/// The mean of no readings is zero, which a negative limit lies below.
pub proof fn lemma_mean_not_above(readings: Seq<i32>, limit: int)
    requires
        forall|i: int| 0 <= i < readings.len() ==> readings[i] <= limit,
        readings.len() > 0 || limit >= 0,
    ensures
        !mean(readings).exceeds(limit),
{
    lemma_sum_at_most(readings, 1, limit);
}

/// The mean of readings of which none is above half of `limit` is not above
/// half of `limit`.
pub proof fn lemma_mean_not_above_half(readings: Seq<i32>, limit: int)
    requires
        forall|i: int| 0 <= i < readings.len() ==> 2 * readings[i] <= limit,
        readings.len() > 0 || limit >= 0,
    ensures
        !mean(readings).exceeds_half(limit),
{
    lemma_sum_at_most(readings, 2, limit);
}

/// A rolling average of the latest readings of a signal, over a window of a
/// fixed number of readings.
pub struct Measurement {
    measures: Vec<i32>,
    avg: Average,
    max: usize,
    fed: Ghost<Seq<i32>>,
}

impl View for Measurement {
    type V = Window;

    closed spec fn view(&self) -> Window {
        Window { capacity: self.max as nat, fed: self.fed@ }
    }
}

/// The sum of the readings in `measures`.
fn total_of(measures: &Vec<i32>) -> (total: i128)
    ensures
        total == sum(measures@),
{
    let mut total: i128 = 0;
    let mut i: usize = 0;
    while i < measures.len()
        invariant
            i <= measures.len(),
            total == sum(measures@.take(i as int)),
        decreases measures.len() - i,
    {
        proof {
            lemma_sum_bounds(measures@.take(i as int));
            assert(measures@.take(i + 1).drop_last() =~= measures@.take(i as int));
        }
        total = total + measures[i] as i128;
        i = i + 1;
    }
    assert(measures@.take(i as int) =~= measures@);
    total
}

impl Measurement {
    /// The retained readings are the latest ones fed, and the stored average
    /// is their mean.
    pub closed spec fn wf(&self) -> bool {
        &&& self.max > 0
        &&& self.measures@ == latest(self.fed@, self.max as nat)
        &&& self.avg@ == mean(self.measures@)
    }

    /// A well-formed measurement stands for a window of positive length.
    pub proof fn lemma_view_wf(&self)
        requires
            self.wf(),
        ensures
            self@.wf(),
    {
    }

    /// An empty window of `max` readings. Its average is zero until the first
    /// reading arrives.
    pub fn new(max: usize) -> (r: Self)
        requires
            max > 0,
        ensures
            r.wf(),
            r@ == (Window { capacity: max as nat, fed: Seq::empty() }),
    {
        Measurement {
            measures: Vec::new(),
            avg: Average::of_window(0, 1),
            max,
            fed: Ghost(Seq::empty()),
        }
    }

    /// Feeds one reading: the oldest retained reading leaves first where the
    /// window is full, and the average is computed anew over what is retained.
    /// Returns that average.
    pub fn update(&mut self, measurement: i32) -> (r: Average)
        requires
            old(self).wf(),
        ensures
            final(self).wf(),
            final(self)@ == old(self)@.feed(measurement),
            r@ == final(self)@.average(),
    {
        proof {
            lemma_feed_evicts_oldest(self.fed@, self.max as nat, measurement);
        }
        if self.measures.len() >= self.max {
            self.measures.remove(0);
        }
        self.measures.push(measurement);
        self.fed = Ghost(self.fed@.push(measurement));
        let total = total_of(&self.measures);
        proof {
            lemma_mean_in_range(self.measures@);
        }
        self.avg = Average::of_window(total, self.measures.len());
        self.avg
    }

    /// The length of the window, in readings.
    pub fn interval(&self) -> (r: usize)
        ensures
            r == self@.capacity,
    {
        self.max
    }

    /// The mean of the retained readings, as of the latest update.
    pub fn measurement(&self) -> (r: Average)
        requires
            self.wf(),
        ensures
            r@ == self@.average(),
    {
        self.avg
    }
}

} // verus!
