//! Raw readings as the metrics provider reports them, and what one tick
//! distils from them: the busiest core, the hottest matching sensor, and the
//! lowest limit that a matching sensor reports.

use vstd::prelude::*;
use vstd::std_specs::iter::IteratorSpec;

verus! {

/// One temperature sensor as reported at one tick.
#[derive(Clone, Debug)]
pub struct SensorReading {
    /// The name under which the provider lists the sensor.
    pub label: String,
    /// The temperature it reports now.
    pub temperature: i32,
    /// The highest temperature it reports as safe.
    pub max: i32,
}

/// The greatest of `readings`, if there is any.
pub open spec fn highest(readings: Seq<i32>) -> Option<i32>
    decreases readings.len(),
{
    if readings.len() == 0 {
        None
    } else {
        match highest(readings.drop_last()) {
            Some(m) if m >= readings.last() => Some(m),
            _ => Some(readings.last()),
        }
    }
}

/// The least of `readings`, if there is any.
pub open spec fn lowest(readings: Seq<i32>) -> Option<i32>
    decreases readings.len(),
{
    if readings.len() == 0 {
        None
    } else {
        match lowest(readings.drop_last()) {
            Some(m) if m <= readings.last() => Some(m),
            _ => Some(readings.last()),
        }
    }
}

/// The sensors whose label begins with `prefix`, in the order reported.
pub open spec fn matching(sensors: Seq<SensorReading>, prefix: Seq<char>) -> Seq<SensorReading>
    decreases sensors.len(),
{
    if sensors.len() == 0 {
        Seq::empty()
    } else if prefix.is_prefix_of(sensors.last().label@) {
        matching(sensors.drop_last(), prefix).push(sensors.last())
    } else {
        matching(sensors.drop_last(), prefix)
    }
}

/// The temperatures that `sensors` report, in order.
pub open spec fn temperatures(sensors: Seq<SensorReading>) -> Seq<i32> {
    Seq::new(sensors.len(), |i: int| sensors[i].temperature)
}

/// The safe limits that `sensors` report, in order.
pub open spec fn limits(sensors: Seq<SensorReading>) -> Seq<i32> {
    Seq::new(sensors.len(), |i: int| sensors[i].max)
}

/// The ceiling after a tick: the lower of the ceiling known before and the
/// lowest limit reported at this tick, where either exists.
pub open spec fn tightened(ceiling: Option<i32>, limit: Option<i32>) -> Option<i32> {
    match (ceiling, limit) {
        (Some(c), Some(l)) => Some(if l < c { l } else { c }),
        (Some(c), None) => Some(c),
        (None, l) => l,
    }
}

/// `highest` is `None` of no readings only; otherwise it is one of the
/// readings and none is greater.
pub proof fn lemma_highest_is_maximum(readings: Seq<i32>)
    ensures
        highest(readings) is None <==> readings.len() == 0,
        highest(readings) matches Some(m) ==> readings.contains(m) && forall|i: int|
            0 <= i < readings.len() ==> readings[i] <= m,
    decreases readings.len(),
{
    if readings.len() > 0 {
        let rest = readings.drop_last();
        lemma_highest_is_maximum(rest);
        let m = highest(readings)->Some_0;
        if m == readings.last() {
            assert(readings[readings.len() - 1] == m);
        } else {
            let k = choose|k: int| 0 <= k < rest.len() && rest[k] == m;
            assert(readings[k] == m);
        }
        assert forall|i: int| 0 <= i < readings.len() implies readings[i] <= m by {
            if i < rest.len() {
                assert(rest[i] == readings[i]);
            }
        }
    }
}

/// `lowest` is `None` of no readings only; otherwise it is one of the
/// readings and none is less.
pub proof fn lemma_lowest_is_minimum(readings: Seq<i32>)
    ensures
        lowest(readings) is None <==> readings.len() == 0,
        lowest(readings) matches Some(m) ==> readings.contains(m) && forall|i: int|
            0 <= i < readings.len() ==> readings[i] >= m,
    decreases readings.len(),
{
    if readings.len() > 0 {
        let rest = readings.drop_last();
        lemma_lowest_is_minimum(rest);
        let m = lowest(readings)->Some_0;
        if m == readings.last() {
            assert(readings[readings.len() - 1] == m);
        } else {
            let k = choose|k: int| 0 <= k < rest.len() && rest[k] == m;
            assert(readings[k] == m);
        }
        assert forall|i: int| 0 <= i < readings.len() implies readings[i] >= m by {
            if i < rest.len() {
                assert(rest[i] == readings[i]);
            }
        }
    }
}

/// `matching` keeps exactly the sensors whose label begins with `prefix`.
pub proof fn lemma_matching_keeps_prefixed(sensors: Seq<SensorReading>, prefix: Seq<char>)
    ensures
        forall|s: SensorReading| #[trigger]
            matching(sensors, prefix).contains(s) <==> sensors.contains(s) && prefix.is_prefix_of(
                s.label@,
            ),
    decreases sensors.len(),
{
    let kept = matching(sensors, prefix);
    if sensors.len() == 0 {
        assert forall|s: SensorReading| #[trigger]
            kept.contains(s) <==> sensors.contains(s) && prefix.is_prefix_of(s.label@) by {}
    } else {
        let rest = sensors.drop_last();
        let last = sensors.last();
        lemma_matching_keeps_prefixed(rest, prefix);
        let kept_rest = matching(rest, prefix);
        assert forall|s: SensorReading| #[trigger]
            kept.contains(s) <==> sensors.contains(s) && prefix.is_prefix_of(s.label@) by {
            if kept.contains(s) {
                let k = choose|k: int| 0 <= k < kept.len() && kept[k] == s;
                if k < kept_rest.len() {
                    assert(kept_rest[k] == s);
                    assert(kept_rest.contains(s));
                    let j = choose|j: int| 0 <= j < rest.len() && rest[j] == s;
                    assert(sensors[j] == s);
                } else {
                    assert(s == last);
                    assert(sensors[sensors.len() - 1] == s);
                }
            }
            if sensors.contains(s) && prefix.is_prefix_of(s.label@) {
                let j = choose|j: int| 0 <= j < sensors.len() && sensors[j] == s;
                if j < rest.len() {
                    assert(rest[j] == s);
                    assert(rest.contains(s));
                    assert(kept_rest.contains(s));
                    let k = choose|k: int| 0 <= k < kept_rest.len() && kept_rest[k] == s;
                    assert(kept[k] == s);
                } else {
                    assert(kept[kept.len() - 1] == s);
                }
            }
        }
    }
}

/// Whether `label` begins with `prefix`, character by character.
pub fn has_prefix(label: &str, prefix: &str) -> (r: bool)
    ensures
        r == prefix@.is_prefix_of(label@),
{
    broadcast use vstd::string::group_string_axioms;

    let mut wanted = prefix.chars();
    let mut given = label.chars();
    let ghost mut i: int = 0;
    loop
        invariant
            0 <= i <= prefix@.len(),
            i <= label@.len(),
            wanted.remaining() == prefix@.skip(i),
            given.remaining() == label@.skip(i),
            forall|j: int| 0 <= j < i ==> prefix@[j] == label@[j],
        decreases prefix@.len() - i,
    {
        match wanted.next() {
            None => {
                assert(prefix@ =~= label@.subrange(0, prefix@.len() as int));
                return true;
            },
            Some(w) => {
                match given.next() {
                    None => {
                        return false;
                    },
                    Some(g) => {
                        if g != w {
                            assert(prefix@.len() <= label@.len() ==> label@.subrange(
                                0,
                                prefix@.len() as int,
                            )[i] != prefix@[i]);
                            return false;
                        }
                    },
                }
            },
        }
        proof {
            assert(prefix@.skip(i).drop_first() =~= prefix@.skip(i + 1));
            assert(label@.skip(i).drop_first() =~= label@.skip(i + 1));
            i = i + 1;
        }
    }
}

/// The highest of the readings, one per core; `None` where there is none.
pub fn peak(readings: &Vec<i32>) -> (r: Option<i32>)
    ensures
        r == highest(readings@),
{
    let mut best: Option<i32> = None;
    let mut i: usize = 0;
    while i < readings.len()
        invariant
            i <= readings.len(),
            best == highest(readings@.take(i as int)),
        decreases readings.len() - i,
    {
        assert(readings@.take(i + 1).drop_last() =~= readings@.take(i as int));
        let value = readings[i];
        best = match best {
            Some(m) if m >= value => Some(m),
            _ => Some(value),
        };
        i = i + 1;
    }
    assert(readings@.take(i as int) =~= readings@);
    best
}

/// Goes through the sensors once and returns, over those whose label begins
/// with `prefix`, the highest temperature and the lowest safe limit; both
/// are `None` where no sensor matches.
pub fn survey(sensors: &Vec<SensorReading>, prefix: &str) -> (r: (Option<i32>, Option<i32>))
    ensures
        r.0 == highest(temperatures(matching(sensors@, prefix@))),
        r.1 == lowest(limits(matching(sensors@, prefix@))),
{
    let mut hottest: Option<i32> = None;
    let mut limit: Option<i32> = None;
    let mut i: usize = 0;
    while i < sensors.len()
        invariant
            i <= sensors.len(),
            hottest == highest(temperatures(matching(sensors@.take(i as int), prefix@))),
            limit == lowest(limits(matching(sensors@.take(i as int), prefix@))),
        decreases sensors.len() - i,
    {
        let sensor = &sensors[i];
        proof {
            let seen = matching(sensors@.take(i as int), prefix@);
            assert(sensors@.take(i + 1).drop_last() =~= sensors@.take(i as int));
            assert(temperatures(seen.push(*sensor)).drop_last() =~= temperatures(seen));
            assert(limits(seen.push(*sensor)).drop_last() =~= limits(seen));
        }
        if has_prefix(sensor.label.as_str(), prefix) {
            hottest = match hottest {
                Some(m) if m >= sensor.temperature => Some(m),
                _ => Some(sensor.temperature),
            };
            limit = match limit {
                Some(m) if m <= sensor.max => Some(m),
                _ => Some(sensor.max),
            };
        }
        i = i + 1;
    }
    assert(sensors@.take(i as int) =~= sensors@);
    (hottest, limit)
}

/// The lower of the ceiling known so far and a newly reported limit.
pub fn tighten(ceiling: Option<i32>, limit: Option<i32>) -> (r: Option<i32>)
    ensures
        r == tightened(ceiling, limit),
        ceiling matches Some(c) ==> r matches Some(d) && d <= c,
{
    match (ceiling, limit) {
        (Some(c), Some(l)) => Some(if l < c { l } else { c }),
        (Some(c), None) => Some(c),
        (None, l) => l,
    }
}

} // verus!
