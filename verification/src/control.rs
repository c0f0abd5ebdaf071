//! The decision: when the fan runs.
//!
//! A hard trip turns the fan on whatever happened before: any temperature
//! average above the effective ceiling, or any load average above its
//! ceiling. Without a trip, a fan that has been switched before runs only
//! while the temperature is still rising above half of the configured
//! ceiling; a fan that has never been switched is turned off.

use crate::average::{views, Average, Fraction};
use crate::measurement::{
    lemma_first_reading_is_the_average, lemma_mean_not_above, lemma_mean_not_above_half, Window,
};
use crate::sensor::{highest, lemma_highest_is_maximum, SensorReading};
use crate::usage::{averages, Usage, UsageView};
use vstd::prelude::*;

verus! {

/// The state of the fan output.
#[derive(Clone, Copy, Debug, PartialEq, Eq, Structural)]
pub enum FanState {
    /// Nothing was decided yet.
    Unknown,
    /// The fan runs.
    On,
    /// The fan stands still.
    Off,
}

impl FanState {
    /// What the output line is to be set to: `true` to run the fan, `false`
    /// to stop it, nothing while no decision was made.
    pub fn output(&self) -> (r: Option<bool>)
        ensures
            r == match *self {
                FanState::On => Some(true),
                FanState::Off => Some(false),
                FanState::Unknown => None,
            },
    {
        match self {
            FanState::On => Some(true),
            FanState::Off => Some(false),
            FanState::Unknown => None,
        }
    }

    /// The state in the short form that a log line shows.
    pub fn label(&self) -> (r: &'static str)
        ensures
            r@ == match *self {
                FanState::On => "ON"@,
                FanState::Off => "OFF"@,
                FanState::Unknown => "--"@,
            },
    {
        match self {
            FanState::On => "ON",
            FanState::Off => "OFF",
            FanState::Unknown => "--",
        }
    }
}

/// The temperature above which the fan must run: the configured ceiling, or
/// the lowest safe limit that the sensors reported where that is lower.
pub open spec fn effective_max_temp(max_fan_on_temp: i32, ceiling: Option<i32>) -> i32 {
    match ceiling {
        Some(c) if c < max_fan_on_temp => c,
        _ => max_fan_on_temp,
    }
}

/// Whether any of the averages is above `limit`.
pub open spec fn any_exceeds(averages: Seq<Fraction>, limit: int) -> bool {
    exists|i: int| 0 <= i < averages.len() && (#[trigger] averages[i]).exceeds(limit)
}

/// Whether the temperature is still rising: the average over the shortest
/// window is above half of the configured ceiling and above the average over
/// the window in the middle of the bank. An empty bank never rises.
pub open spec fn rising(temperature: Seq<Fraction>, max_fan_on_temp: i32) -> bool {
    &&& temperature.len() > 0
    &&& temperature[0].exceeds_half(max_fan_on_temp as int)
    &&& temperature[0].above(temperature[temperature.len() as int / 2])
}

/// The state of the fan after a tick, from its state before and the averages
/// as the tick left them.
pub open spec fn decide(
    state: FanState,
    temperature: Seq<Fraction>,
    cpu: Seq<Fraction>,
    max_fan_on_temp: i32,
    max_fan_on_cpu: i32,
    ceiling: Option<i32>,
) -> FanState {
    if any_exceeds(temperature, effective_max_temp(max_fan_on_temp, ceiling) as int) {
        FanState::On
    } else if any_exceeds(cpu, max_fan_on_cpu as int) {
        FanState::On
    } else if state is Unknown {
        FanState::Off
    } else if rising(temperature, max_fan_on_temp) {
        FanState::On
    } else {
        FanState::Off
    }
}

/// A temperature average above the effective ceiling turns the fan on,
/// whatever its state was and whatever the load averages are.
pub proof fn lemma_heat_trip_wins(
    state: FanState,
    temperature: Seq<Fraction>,
    cpu: Seq<Fraction>,
    max_fan_on_temp: i32,
    max_fan_on_cpu: i32,
    ceiling: Option<i32>,
)
    requires
        any_exceeds(temperature, effective_max_temp(max_fan_on_temp, ceiling) as int),
    ensures
        decide(state, temperature, cpu, max_fan_on_temp, max_fan_on_cpu, ceiling) == FanState::On,
{
}

/// A load average above its ceiling turns the fan on, whatever its state was
/// and whatever the temperature averages are.
pub proof fn lemma_load_trip_wins(
    state: FanState,
    temperature: Seq<Fraction>,
    cpu: Seq<Fraction>,
    max_fan_on_temp: i32,
    max_fan_on_cpu: i32,
    ceiling: Option<i32>,
)
    requires
        any_exceeds(cpu, max_fan_on_cpu as int),
    ensures
        decide(state, temperature, cpu, max_fan_on_temp, max_fan_on_cpu, ceiling) == FanState::On,
{
}

/// A fan that was never switched is turned off by a tick without a trip: the
/// first decision is never left open and is `On` only on a trip.
pub proof fn lemma_first_decision_is_off(
    temperature: Seq<Fraction>,
    cpu: Seq<Fraction>,
    max_fan_on_temp: i32,
    max_fan_on_cpu: i32,
    ceiling: Option<i32>,
)
    requires
        !any_exceeds(temperature, effective_max_temp(max_fan_on_temp, ceiling) as int),
        !any_exceeds(cpu, max_fan_on_cpu as int),
    ensures
        decide(FanState::Unknown, temperature, cpu, max_fan_on_temp, max_fan_on_cpu, ceiling)
            == FanState::Off,
{
}

/// Every decision is `On` or `Off`.
pub proof fn lemma_decision_is_made(
    state: FanState,
    temperature: Seq<Fraction>,
    cpu: Seq<Fraction>,
    max_fan_on_temp: i32,
    max_fan_on_cpu: i32,
    ceiling: Option<i32>,
)
    ensures
        decide(state, temperature, cpu, max_fan_on_temp, max_fan_on_cpu, ceiling)
            != FanState::Unknown,
{
}

/// A fan that was switched before, without a trip, runs exactly while the
/// temperature is rising.
pub proof fn lemma_release_needs_rise(
    state: FanState,
    temperature: Seq<Fraction>,
    cpu: Seq<Fraction>,
    max_fan_on_temp: i32,
    max_fan_on_cpu: i32,
    ceiling: Option<i32>,
)
    requires
        state != FanState::Unknown,
        !any_exceeds(temperature, effective_max_temp(max_fan_on_temp, ceiling) as int),
        !any_exceeds(cpu, max_fan_on_cpu as int),
    ensures
        decide(state, temperature, cpu, max_fan_on_temp, max_fan_on_cpu, ceiling) == FanState::On
            <==> rising(temperature, max_fan_on_temp),
{
}

/// Whether any of the averages is above `limit`.
pub fn any_above(averages: &Vec<Average>, limit: i32) -> (r: bool)
    ensures
        r == any_exceeds(views(averages@), limit as int),
{
    let mut i: usize = 0;
    while i < averages.len()
        invariant
            i <= averages.len(),
            forall|k: int| 0 <= k < i ==> !(#[trigger] views(averages@)[k]).exceeds(limit as int),
        decreases averages.len() - i,
    {
        if averages[i].exceeds(limit) {
            assert(views(averages@)[i as int].exceeds(limit as int));
            return true;
        }
        i = i + 1;
    }
    false
}

/// The state of the fan after a tick, from its state before and the averages
/// as the tick left them, shortest window first.
pub fn next_state(
    state: FanState,
    temperature: &Vec<Average>,
    cpu: &Vec<Average>,
    max_fan_on_temp: i32,
    max_fan_on_cpu: i32,
    ceiling: Option<i32>,
) -> (r: FanState)
    ensures
        r == decide(
            state,
            views(temperature@),
            views(cpu@),
            max_fan_on_temp,
            max_fan_on_cpu,
            ceiling,
        ),
        r != FanState::Unknown,
{
    let mut max_temp = max_fan_on_temp;
    if let Some(usage_max) = ceiling {
        if usage_max < max_temp {
            max_temp = usage_max;
        }
    }
    if any_above(temperature, max_temp) {
        return FanState::On;
    }
    if any_above(cpu, max_fan_on_cpu) {
        return FanState::On;
    }
    match state {
        FanState::Unknown => FanState::Off,
        _ => {
            if temperature.len() == 0 {
                return FanState::Off;
            }
            let first = &temperature[0];
            let middle = &temperature[temperature.len() / 2];
            if first.exceeds_half(max_fan_on_temp) && first.is_above(middle) {
                FanState::On
            } else {
                FanState::Off
            }
        },
    }
}

/// What a `FanControl` stands for.
pub struct FanView {
    pub usage: UsageView,
    pub state: FanState,
    pub max_fan_on_temp: i32,
    pub max_fan_on_cpu: i32,
}

impl FanView {
    /// The controller after one tick that brought the loads of the cores and
    /// the readings of the sensors: the averages take the readings in first,
    /// then the fan is decided on the averages as they then are.
    pub open spec fn tick(self, cpu_loads: Seq<i32>, sensors: Seq<SensorReading>) -> FanView {
        let usage = self.usage.tick(cpu_loads, sensors);
        FanView {
            usage,
            state: decide(
                self.state,
                averages(usage.temperature),
                averages(usage.cpu),
                self.max_fan_on_temp,
                self.max_fan_on_cpu,
                usage.max_temp,
            ),
            max_fan_on_temp: self.max_fan_on_temp,
            max_fan_on_cpu: self.max_fan_on_cpu,
        }
    }
}

/// No window of the bank retains a reading above `limit`.
pub open spec fn retains_at_most(bank: Seq<Window>, limit: int) -> bool {
    forall|w: int, s: int|
        0 <= w < bank.len() && 0 <= s < bank[w].samples().len() ==> (
        #[trigger] bank[w].samples()[s]) <= limit
}

/// A bank that retains no reading above `limit` has no average above it.
pub proof fn lemma_quiet_bank_never_trips(bank: Seq<Window>, limit: int)
    requires
        retains_at_most(bank, limit),
        limit >= 0,
    ensures
        !any_exceeds(averages(bank), limit),
{
    assert forall|w: int| 0 <= w < bank.len() implies !(#[trigger] averages(bank)[w]).exceeds(
        limit,
    ) by {
        lemma_mean_not_above(bank[w].samples(), limit);
    }
}

/// Once the windows have run clear, the fan stops: where no load window
/// retains a reading above its ceiling, no temperature window one above the
/// effective ceiling, and the shortest temperature window none above half of
/// the configured ceiling, the decision is `Off`, whatever the state was.
pub proof fn lemma_quiet_turns_off(
    state: FanState,
    usage: UsageView,
    max_fan_on_temp: i32,
    max_fan_on_cpu: i32,
)
    requires
        max_fan_on_cpu >= 0,
        effective_max_temp(max_fan_on_temp, usage.max_temp) >= 0,
        retains_at_most(usage.cpu, max_fan_on_cpu as int),
        retains_at_most(
            usage.temperature,
            effective_max_temp(max_fan_on_temp, usage.max_temp) as int,
        ),
        usage.temperature.len() > 0 ==> forall|s: int|
            0 <= s < usage.temperature[0].samples().len() ==> 2 * (
            #[trigger] usage.temperature[0].samples()[s]) <= max_fan_on_temp,
    ensures
        decide(
            state,
            averages(usage.temperature),
            averages(usage.cpu),
            max_fan_on_temp,
            max_fan_on_cpu,
            usage.max_temp,
        ) == FanState::Off,
{
    lemma_quiet_bank_never_trips(usage.cpu, max_fan_on_cpu as int);
    lemma_quiet_bank_never_trips(
        usage.temperature,
        effective_max_temp(max_fan_on_temp, usage.max_temp) as int,
    );
    if usage.temperature.len() > 0 {
        lemma_mean_not_above_half(usage.temperature[0].samples(), max_fan_on_temp as int);
    }
}

/// A spike trips at once: at the first tick of a controller that has a load
/// window, a core load above the ceiling turns the fan on.
pub proof fn lemma_first_spike_turns_on(
    before: FanView,
    cpu_loads: Seq<i32>,
    sensors: Seq<SensorReading>,
)
    requires
        before.usage.wf(),
        before.usage.cpu.len() > 0,
        before.usage.cpu[0].fed.len() == 0,
        exists|i: int| 0 <= i < cpu_loads.len() && cpu_loads[i] > before.max_fan_on_cpu,
    ensures
        before.tick(cpu_loads, sensors).state == FanState::On,
{
    lemma_highest_is_maximum(cpu_loads);
    let peak = highest(cpu_loads)->Some_0;
    let after = before.usage.tick(cpu_loads, sensors);
    lemma_first_reading_is_the_average(before.usage.cpu[0], peak);
    assert(averages(after.cpu)[0].exceeds(before.max_fan_on_cpu as int));
}

/// The fan controller: the smoothed readings, the two ceilings, and the state
/// of the fan as last decided.
pub struct FanControl {
    usage: Usage,
    fan_on: FanState,
    max_fan_on_temp: i32,
    max_fan_on_cpu: i32,
}

impl View for FanControl {
    type V = FanView;

    closed spec fn view(&self) -> FanView {
        FanView {
            usage: self.usage@,
            state: self.fan_on,
            max_fan_on_temp: self.max_fan_on_temp,
            max_fan_on_cpu: self.max_fan_on_cpu,
        }
    }
}

impl FanControl {
    /// The readings it holds are well formed.
    pub closed spec fn wf(&self) -> bool {
        self.usage.wf()
    }

    /// A controller that has decided nothing yet.
    pub fn new(usage: Usage, max_fan_on_temp: i32, max_fan_on_cpu: i32) -> (r: Self)
        requires
            usage.wf(),
        ensures
            r.wf(),
            r@ == (FanView {
                usage: usage@,
                state: FanState::Unknown,
                max_fan_on_temp,
                max_fan_on_cpu,
            }),
    {
        FanControl { usage, fan_on: FanState::Unknown, max_fan_on_temp, max_fan_on_cpu }
    }

    fn update_fan(&mut self, state: FanState) -> (r: FanState)
        ensures
            r == state,
            final(self).fan_on == state,
            final(self).usage == old(self).usage,
            final(self).max_fan_on_temp == old(self).max_fan_on_temp,
            final(self).max_fan_on_cpu == old(self).max_fan_on_cpu,
    {
        self.fan_on = state;
        self.fan_on
    }

    /// One tick: takes the readings in, decides the fan, and returns the
    /// decision, which is what the output is to be set to.
    pub fn update(&mut self, cpu_loads: &Vec<i32>, sensors: &Vec<SensorReading>) -> (r: FanState)
        requires
            old(self).wf(),
        ensures
            final(self).wf(),
            final(self)@ == old(self)@.tick(cpu_loads@, sensors@),
            r == final(self)@.state,
            r != FanState::Unknown,
    {
        self.usage.update(cpu_loads, sensors);
        let temperature = self.usage.temperature_measurements();
        let cpu = self.usage.cpu_measurements();
        let state = next_state(
            self.fan_on,
            &temperature,
            &cpu,
            self.max_fan_on_temp,
            self.max_fan_on_cpu,
            self.usage.cpu_max_temp(),
        );
        self.update_fan(state)
    }

    /// The state of the fan as last decided.
    pub fn fan_on(&self) -> (r: FanState)
        ensures
            r == self@.state,
    {
        self.fan_on
    }

    /// The smoothed readings.
    pub fn usage(&self) -> (r: &Usage)
        ensures
            r@ == self@.usage,
            self.wf() ==> r.wf(),
    {
        &self.usage
    }
}

} // verus!
