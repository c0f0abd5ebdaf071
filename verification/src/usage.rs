//! The smoothed view of the machine: one bank of rolling averages for the
//! load of the busiest core, one for the temperature of the hottest matching
//! sensor, and the lowest safe limit that such a sensor has reported so far.

use crate::average::{views, Average, Fraction};
use crate::measurement::{Measurement, Window};
use crate::sensor::{
    highest, limits, lowest, matching, peak, survey, temperatures, tighten, tightened,
    SensorReading,
};
use vstd::prelude::*;

verus! {

/// The label prefix of the sensors that sit on the processor package.
pub const CPU_COMPONENT_LABEL: &'static str = "coretemp";

/// Window lengths that may form a bank: all positive, each longer than the
/// one before it.
pub open spec fn ascending(intervals: Seq<usize>) -> bool {
    &&& forall|i: int| 0 <= i < intervals.len() ==> intervals[i] > 0
    &&& forall|i: int, j: int| 0 <= i < j < intervals.len() ==> intervals[i] < intervals[j]
}

/// Whether the window lengths may form a bank.
pub fn is_ascending(intervals: &Vec<usize>) -> (r: bool)
    ensures
        r == ascending(intervals@),
{
    if intervals.len() == 0 {
        return true;
    }
    if intervals[0] == 0 {
        return false;
    }
    let mut i: usize = 1;
    while i < intervals.len()
        invariant
            1 <= i <= intervals.len(),
            intervals[0] > 0,
            forall|a: int, b: int| 0 <= a < b < i ==> intervals[a] < intervals[b],
        decreases intervals.len() - i,
    {
        if intervals[i - 1] >= intervals[i] {
            return false;
        }
        i = i + 1;
    }
    true
}

/// A bank of windows of the given lengths that were fed nothing yet.
pub open spec fn empty_bank(intervals: Seq<usize>) -> Seq<Window> {
    Seq::new(intervals.len(), |i: int| Window { capacity: intervals[i] as nat, fed: Seq::empty() })
}

/// The bank after a tick: every window is fed the same reading, or none is
/// touched where the tick brought no reading.
pub open spec fn feed_bank(bank: Seq<Window>, reading: Option<i32>) -> Seq<Window> {
    match reading {
        Some(value) => Seq::new(bank.len(), |i: int| bank[i].feed(value)),
        None => bank,
    }
}

/// The averages of a bank, window by window.
pub open spec fn averages(bank: Seq<Window>) -> Seq<Fraction> {
    Seq::new(bank.len(), |i: int| bank[i].average())
}

/// The windows of a bank are all of positive length, each longer than the
/// one before it, and all were fed the same readings.
pub open spec fn bank_ascends(bank: Seq<Window>) -> bool {
    &&& forall|i: int| 0 <= i < bank.len() ==> (#[trigger] bank[i]).wf()
    &&& forall|i: int, j: int|
        0 <= i < j < bank.len() ==> (#[trigger] bank[i]).capacity < (#[trigger] bank[j]).capacity
    &&& forall|i: int, j: int|
        0 <= i < j < bank.len() ==> (#[trigger] bank[i]).fed == (#[trigger] bank[j]).fed
}

/// What a `Usage` stands for.
pub struct UsageView {
    /// The windows over the load of the busiest core, shortest first.
    pub cpu: Seq<Window>,
    /// The windows over the temperature of the hottest sensor, shortest first.
    pub temperature: Seq<Window>,
    /// The lowest safe limit reported so far, if any was.
    pub max_temp: Option<i32>,
    /// The label prefix that selects the sensors.
    pub label: Seq<char>,
}

impl UsageView {
    /// Both banks are ordered from the shortest window to the longest, and
    /// the windows of each are in step.
    pub open spec fn wf(self) -> bool {
        &&& bank_ascends(self.cpu)
        &&& bank_ascends(self.temperature)
    }

    /// The state after one tick that brought the loads of the cores and the
    /// readings of the sensors.
    pub open spec fn tick(self, cpu_loads: Seq<i32>, sensors: Seq<SensorReading>) -> UsageView {
        let found = matching(sensors, self.label);
        UsageView {
            cpu: feed_bank(self.cpu, highest(cpu_loads)),
            temperature: feed_bank(self.temperature, highest(temperatures(found))),
            max_temp: tightened(self.max_temp, lowest(limits(found))),
            label: self.label,
        }
    }
}

/// Feeding a bank leaves it ordered and in step.
pub proof fn lemma_feed_keeps_bank(bank: Seq<Window>, reading: Option<i32>)
    requires
        bank_ascends(bank),
    ensures
        bank_ascends(feed_bank(bank, reading)),
{
    let fed = feed_bank(bank, reading);
    assert forall|i: int, j: int| 0 <= i < j < fed.len() implies {
        &&& (#[trigger] fed[i]).capacity < (#[trigger] fed[j]).capacity
        &&& fed[i].fed == fed[j].fed
    } by {
        assert(bank[i].capacity < bank[j].capacity);
        assert(bank[i].fed == bank[j].fed);
    }
    assert forall|i: int| 0 <= i < fed.len() implies (#[trigger] fed[i]).wf() by {
        assert(bank[i].wf());
    }
}

/// A tick leaves both banks ordered and in step.
pub proof fn lemma_tick_keeps_wf(
    before: UsageView,
    cpu_loads: Seq<i32>,
    sensors: Seq<SensorReading>,
)
    requires
        before.wf(),
    ensures
        before.tick(cpu_loads, sensors).wf(),
{
    let found = matching(sensors, before.label);
    lemma_feed_keeps_bank(before.cpu, highest(cpu_loads));
    lemma_feed_keeps_bank(before.temperature, highest(temperatures(found)));
}

/// The lowest safe limit never rises from one tick to the next, and is never
/// forgotten once known.
pub proof fn lemma_ceiling_only_tightens(
    before: UsageView,
    cpu_loads: Seq<i32>,
    sensors: Seq<SensorReading>,
)
    ensures
        before.max_temp matches Some(c) ==> before.tick(cpu_loads, sensors).max_temp matches Some(d)
            && d <= c,
{
}

/// The windows that a bank of measurements stands for.
spec fn bank_view(bank: Seq<Measurement>) -> Seq<Window> {
    Seq::new(bank.len(), |i: int| bank[i]@)
}

/// Every measurement of the bank is well formed, and the windows they stand
/// for form a bank.
spec fn bank_wf(bank: Seq<Measurement>) -> bool {
    &&& forall|i: int| 0 <= i < bank.len() ==> (#[trigger] bank[i]).wf()
    &&& bank_ascends(bank_view(bank))
}

/// One empty measurement for each window length.
fn new_bank(intervals: Vec<usize>) -> (bank: Vec<Measurement>)
    requires
        ascending(intervals@),
    ensures
        bank_wf(bank@),
        bank_view(bank@) == empty_bank(intervals@),
{
    let mut bank: Vec<Measurement> = Vec::new();
    let mut i: usize = 0;
    while i < intervals.len()
        invariant
            i <= intervals.len(),
            ascending(intervals@),
            bank.len() == i,
            forall|k: int| 0 <= k < i ==> (#[trigger] bank[k]).wf(),
            forall|k: int|
                0 <= k < i ==> (#[trigger] bank[k])@ == (Window {
                    capacity: intervals[k] as nat,
                    fed: Seq::empty(),
                }),
        decreases intervals.len() - i,
    {
        bank.push(Measurement::new(intervals[i]));
        i = i + 1;
    }
    assert(bank_view(bank@) =~= empty_bank(intervals@));
    assert(bank_ascends(empty_bank(intervals@)));
    bank
}

/// Feeds the same reading to every measurement of the bank.
fn feed_all(bank: &mut Vec<Measurement>, reading: i32)
    requires
        bank_wf(old(bank)@),
    ensures
        bank_wf(final(bank)@),
        bank_view(final(bank)@) == feed_bank(bank_view(old(bank)@), Some(reading)),
{
    let mut i: usize = 0;
    while i < bank.len()
        invariant
            i <= bank.len(),
            bank.len() == old(bank).len(),
            forall|k: int| 0 <= k < bank.len() ==> (#[trigger] bank[k]).wf(),
            forall|k: int| 0 <= k < i ==> (#[trigger] bank[k])@ == old(bank)[k]@.feed(reading),
            forall|k: int| i <= k < bank.len() ==> (#[trigger] bank[k])@ == old(bank)[k]@,
        decreases bank.len() - i,
    {
        bank[i].update(reading);
        i = i + 1;
    }
    assert(bank_view(bank@) =~= feed_bank(bank_view(old(bank)@), Some(reading)));
    proof {
        lemma_feed_keeps_bank(bank_view(old(bank)@), Some(reading));
    }
}

/// The current average of every measurement of the bank, in order.
fn averages_of(bank: &Vec<Measurement>) -> (r: Vec<Average>)
    requires
        bank_wf(bank@),
    ensures
        views(r@) == averages(bank_view(bank@)),
{
    let mut r: Vec<Average> = Vec::new();
    let mut i: usize = 0;
    while i < bank.len()
        invariant
            i <= bank.len(),
            bank_wf(bank@),
            r.len() == i,
            forall|k: int| 0 <= k < i ==> (#[trigger] r[k])@ == bank[k]@.average(),
        decreases bank.len() - i,
    {
        r.push(bank[i].measurement());
        i = i + 1;
    }
    assert(views(r@) =~= averages(bank_view(bank@)));
    r
}

/// The rolling averages of load and temperature, and the lowest safe limit
/// seen.
pub struct Usage {
    cpu: Vec<Measurement>,
    temperature: Vec<Measurement>,
    max_temp: Option<i32>,
    label: String,
}

impl View for Usage {
    type V = UsageView;

    closed spec fn view(&self) -> UsageView {
        UsageView {
            cpu: bank_view(self.cpu@),
            temperature: bank_view(self.temperature@),
            max_temp: self.max_temp,
            label: self.label@,
        }
    }
}

impl Usage {
    /// Both banks are well formed.
    pub closed spec fn wf(&self) -> bool {
        &&& bank_wf(self.cpu@)
        &&& bank_wf(self.temperature@)
    }

    /// A well-formed tracker stands for banks that are ordered from the
    /// shortest window to the longest and in step.
    pub proof fn lemma_view_wf(&self)
        requires
            self.wf(),
        ensures
            self@.wf(),
    {
    }

    /// A tracker with one empty window per given length, for the sensors of
    /// the processor package. No limit is known yet.
    pub fn new(cpu_intervals_sec: Vec<usize>, temp_intervals_sec: Vec<usize>) -> (r: Self)
        requires
            ascending(cpu_intervals_sec@),
            ascending(temp_intervals_sec@),
        ensures
            r.wf(),
            r@ == (UsageView {
                cpu: empty_bank(cpu_intervals_sec@),
                temperature: empty_bank(temp_intervals_sec@),
                max_temp: None,
                label: CPU_COMPONENT_LABEL@,
            }),
    {
        Self::with_label(cpu_intervals_sec, temp_intervals_sec, CPU_COMPONENT_LABEL)
    }

    /// As `new`, for the sensors whose label begins with `label`.
    pub fn with_label(
        cpu_intervals_sec: Vec<usize>,
        temp_intervals_sec: Vec<usize>,
        label: &str,
    ) -> (r: Self)
        requires
            ascending(cpu_intervals_sec@),
            ascending(temp_intervals_sec@),
        ensures
            r.wf(),
            r@ == (UsageView {
                cpu: empty_bank(cpu_intervals_sec@),
                temperature: empty_bank(temp_intervals_sec@),
                max_temp: None,
                label: label@,
            }),
    {
        Usage {
            cpu: new_bank(cpu_intervals_sec),
            temperature: new_bank(temp_intervals_sec),
            max_temp: None,
            label: label.to_owned(),
        }
    }

    /// One tick. `cpu_loads` holds the load of each core, `sensors` every
    /// temperature sensor. The load bank is fed the highest load, the
    /// temperature bank the highest temperature among the sensors whose
    /// label matches; a bank for which nothing was reported is left as it
    /// is. The lowest safe limit among the matching sensors replaces the
    /// known one where it is lower, or where none was known.
    pub fn update(&mut self, cpu_loads: &Vec<i32>, sensors: &Vec<SensorReading>)
        requires
            old(self).wf(),
        ensures
            final(self).wf(),
            final(self)@ == old(self)@.tick(cpu_loads@, sensors@),
            old(self)@.max_temp matches Some(c) ==> final(self)@.max_temp matches Some(d) && d <= c,
    {
        let max_cpu_usage = peak(cpu_loads);
        let (max_cpu_temps, min_cpu_max) = survey(sensors, self.label.as_str());

        if let Some(load) = max_cpu_usage {
            feed_all(&mut self.cpu, load);
        }
        if let Some(temperature) = max_cpu_temps {
            feed_all(&mut self.temperature, temperature);
        }
        self.max_temp = tighten(self.max_temp, min_cpu_max);
    }

    /// The lowest safe limit that a matching sensor has reported so far.
    pub fn cpu_max_temp(&self) -> (r: Option<i32>)
        ensures
            r == self@.max_temp,
    {
        self.max_temp
    }

    /// The current averages of the load, shortest window first.
    pub fn cpu_measurements(&self) -> (r: Vec<Average>)
        requires
            self.wf(),
        ensures
            views(r@) == averages(self@.cpu),
    {
        averages_of(&self.cpu)
    }

    /// The current averages of the temperature, shortest window first.
    pub fn temperature_measurements(&self) -> (r: Vec<Average>)
        requires
            self.wf(),
        ensures
            views(r@) == averages(self@.temperature),
    {
        averages_of(&self.temperature)
    }
}

} // verus!
