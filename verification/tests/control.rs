use fan_control::average::Average;
use fan_control::control::{any_above, next_state, FanControl, FanState};
use fan_control::sensor::SensorReading;
use fan_control::usage::Usage;

fn avg(total: i128, count: usize) -> Average {
    Average::new(total, count).unwrap()
}

fn whole(values: &[i32]) -> Vec<Average> {
    values.iter().map(|v| avg(*v as i128, 1)).collect()
}

fn package(temperature: i32, max: i32) -> Vec<SensorReading> {
    vec![SensorReading { label: "coretemp Package id 0".to_string(), temperature, max }]
}

#[test]
fn labels_of_the_states() {
    assert_eq!(FanState::On.label(), "ON");
    assert_eq!(FanState::Off.label(), "OFF");
    assert_eq!(FanState::Unknown.label(), "--");
}

#[test]
fn outputs_of_the_states() {
    assert_eq!(FanState::On.output(), Some(true));
    assert_eq!(FanState::Off.output(), Some(false));
    assert_eq!(FanState::Unknown.output(), None);
}

#[test]
fn any_above_is_strict_and_looks_at_all() {
    assert!(!any_above(&Vec::new(), 0));
    assert!(!any_above(&whole(&[1, 2, 3]), 3));
    assert!(any_above(&whole(&[1, 2, 4]), 3));
    assert!(any_above(&whole(&[4, 2, 1]), 3));
    assert!(any_above(&vec![avg(7, 2)], 3));
    assert!(!any_above(&vec![avg(6, 2)], 3));
}

#[test]
fn heat_trip_turns_on_whatever_the_load() {
    // no load at all, one temperature average above the ceiling
    let temperature = whole(&[20, 32, 20]);
    let cpu = whole(&[0, 0, 0]);
    for state in [FanState::Unknown, FanState::On, FanState::Off] {
        assert_eq!(next_state(state, &temperature, &cpu, 31, 10, None), FanState::On);
    }
    // and with the highest load possible
    let busy = whole(&[i32::MAX]);
    assert_eq!(next_state(FanState::Off, &temperature, &busy, 31, 10, None), FanState::On);
}

#[test]
fn heat_trip_through_the_controller_with_idle_cores() {
    let mut control = FanControl::new(Usage::new(vec![3, 10, 60], vec![3, 10, 60]), 31, 10);
    assert_eq!(control.update(&vec![0, 0], &package(40, 100)), FanState::On);
    assert_eq!(control.fan_on(), FanState::On);
}

#[test]
fn heat_trip_is_strict() {
    let cpu = whole(&[0]);
    assert_eq!(next_state(FanState::Unknown, &whole(&[31]), &cpu, 31, 10, None), FanState::Off);
    assert_eq!(next_state(FanState::Unknown, &vec![avg(63, 2)], &cpu, 31, 10, None), FanState::On);
}

#[test]
fn reported_limit_lowers_the_ceiling() {
    let temperature = whole(&[28, 27, 27]);
    let cpu = whole(&[0]);
    assert_eq!(next_state(FanState::Unknown, &temperature, &cpu, 31, 10, None), FanState::Off);
    assert_eq!(next_state(FanState::Unknown, &temperature, &cpu, 31, 10, Some(27)), FanState::On);
    assert_eq!(next_state(FanState::Unknown, &temperature, &cpu, 31, 10, Some(28)), FanState::Off);
    // a limit above the configured ceiling changes nothing
    let hot = whole(&[40]);
    assert_eq!(next_state(FanState::Unknown, &hot, &cpu, 31, 10, Some(90)), FanState::On);
    assert_eq!(next_state(FanState::Unknown, &whole(&[31]), &cpu, 31, 10, Some(90)), FanState::Off);
}

#[test]
fn reported_limit_lowers_the_ceiling_of_the_controller() {
    let mut plain = FanControl::new(Usage::new(vec![1], vec![1]), 31, 10);
    assert_eq!(plain.update(&vec![0], &package(28, 90)), FanState::Off);
    let mut limited = FanControl::new(Usage::new(vec![1], vec![1]), 31, 10);
    assert_eq!(limited.update(&vec![0], &package(28, 25)), FanState::On);
    assert_eq!(limited.usage().cpu_max_temp(), Some(25));
}

#[test]
fn load_trip_turns_on() {
    let temperature = whole(&[5, 5, 5]);
    for state in [FanState::Unknown, FanState::On, FanState::Off] {
        assert_eq!(next_state(state, &temperature, &whole(&[0, 11]), 31, 10, None), FanState::On);
        assert_eq!(next_state(state, &temperature, &whole(&[10, 10]), 31, 10, None), FanState::Off);
    }
}

#[test]
fn release_needs_a_rising_short_window() {
    // shortest 20 is above half of 31 but not above the middle 25
    let temperature = whole(&[20, 25, 25]);
    let cpu = whole(&[0, 0, 0]);
    assert_eq!(next_state(FanState::On, &temperature, &cpu, 31, 10, None), FanState::Off);
}

#[test]
fn release_needs_a_rising_short_window_through_the_controller() {
    let mut control = FanControl::new(Usage::new(vec![1], vec![1, 2, 4]), 31, 10);
    // a load trip switches the fan on
    assert_eq!(control.update(&vec![50], &package(30, 100)), FanState::On);
    // shortest window 20, middle window (30 + 20) / 2 = 25
    assert_eq!(control.update(&vec![0], &package(20, 100)), FanState::Off);
    let temperature = control.usage().temperature_measurements();
    assert_eq!((temperature[0].total(), temperature[0].count()), (20, 1));
    assert_eq!((temperature[1].total(), temperature[1].count()), (50, 2));
}

#[test]
fn fan_stays_on_while_the_temperature_rises() {
    let cpu = whole(&[0]);
    // above half of the ceiling and above the middle
    assert_eq!(next_state(FanState::On, &whole(&[20, 18, 17]), &cpu, 31, 10, None), FanState::On);
    assert_eq!(next_state(FanState::Off, &whole(&[20, 18, 17]), &cpu, 31, 10, None), FanState::On);
    // rising but not above half of the ceiling
    assert_eq!(next_state(FanState::On, &whole(&[15, 10, 9]), &cpu, 31, 10, None), FanState::Off);
    // exactly half of the ceiling is not above it
    let half = vec![avg(31, 2), avg(10, 1), avg(9, 1)];
    assert_eq!(next_state(FanState::On, &half, &cpu, 31, 10, None), FanState::Off);
    // equal to the middle is not above it
    assert_eq!(next_state(FanState::On, &whole(&[20, 20, 5]), &cpu, 31, 10, None), FanState::Off);
}

#[test]
fn the_middle_is_at_half_the_length() {
    let cpu = whole(&[0]);
    // one window: the shortest is the middle, and never above itself
    assert_eq!(next_state(FanState::On, &whole(&[20]), &cpu, 31, 10, None), FanState::Off);
    // two windows: the second is the middle
    assert_eq!(next_state(FanState::On, &whole(&[20, 19]), &cpu, 31, 10, None), FanState::On);
    assert_eq!(next_state(FanState::On, &whole(&[20, 21]), &cpu, 31, 10, None), FanState::Off);
    // four windows: the third is the middle
    assert_eq!(
        next_state(FanState::On, &whole(&[20, 30, 19, 30]), &cpu, 31, 10, None),
        FanState::On
    );
    assert_eq!(
        next_state(FanState::On, &whole(&[20, 1, 21, 1]), &cpu, 31, 10, None),
        FanState::Off
    );
    // five windows: the third is the middle
    assert_eq!(
        next_state(FanState::On, &whole(&[20, 30, 19, 30, 30]), &cpu, 31, 10, None),
        FanState::On
    );
}

#[test]
fn empty_banks_never_trip() {
    let none: Vec<Average> = Vec::new();
    assert_eq!(next_state(FanState::Unknown, &none, &none, 31, 10, None), FanState::Off);
    assert_eq!(next_state(FanState::On, &none, &none, 31, 10, None), FanState::Off);
    assert_eq!(next_state(FanState::Off, &none, &none, 31, 10, None), FanState::Off);
    assert_eq!(next_state(FanState::On, &none, &whole(&[11]), 31, 10, None), FanState::On);
}

#[test]
fn first_decision_without_a_trip_is_off() {
    // rising and above half of the ceiling, but the fan was never switched
    let temperature = whole(&[20, 18, 17]);
    let cpu = whole(&[10, 10, 10]);
    assert_eq!(next_state(FanState::Unknown, &temperature, &cpu, 31, 10, None), FanState::Off);
}

#[test]
fn first_tick_below_the_thresholds_ends_off() {
    let mut control = FanControl::new(Usage::new(vec![3, 10, 60], vec![5, 30, 60]), 31, 10);
    assert_eq!(control.fan_on(), FanState::Unknown);
    let state = control.update(&vec![2, 5, 1], &package(20, 100));
    assert_eq!(state, FanState::Off);
    assert_eq!(control.fan_on(), FanState::Off);
}

#[test]
fn first_tick_without_any_reading_ends_off() {
    let mut control = FanControl::new(Usage::new(vec![3, 10, 60], vec![5, 30, 60]), 31, 10);
    assert_eq!(control.update(&Vec::new(), &Vec::new()), FanState::Off);
    assert_eq!(control.fan_on(), FanState::Off);
}

#[test]
fn a_new_controller_has_decided_nothing() {
    let control = FanControl::new(Usage::new(vec![3], vec![5]), 31, 10);
    assert_eq!(control.fan_on(), FanState::Unknown);
    assert_eq!(control.fan_on().output(), None);
    assert_eq!(control.usage().cpu_max_temp(), None);
    assert_eq!(control.usage().cpu_measurements().len(), 1);
}

#[test]
fn spike_of_load_then_quiet() {
    let mut control = FanControl::new(Usage::new(vec![3, 10, 60], vec![3, 10, 60]), 31, 10);
    // the spike: on at once
    assert_eq!(control.update(&vec![50], &package(15, 100)), FanState::On);
    // the averages over 10 and 60 readings are 50 / n after n ticks, above 10 while n < 5
    for _ in 2..5 {
        assert_eq!(control.update(&vec![0], &package(15, 100)), FanState::On);
    }
    // 50 / 5 is not above 10, and a flat 15 is not above half of 31
    for _ in 5..80 {
        assert_eq!(control.update(&vec![0], &package(15, 100)), FanState::Off);
    }
    assert_eq!(control.fan_on(), FanState::Off);
    let cpu = control.usage().cpu_measurements();
    assert_eq!((cpu[0].total(), cpu[0].count()), (0, 3));
    assert_eq!((cpu[1].total(), cpu[1].count()), (0, 10));
    assert_eq!((cpu[2].total(), cpu[2].count()), (0, 60));
}

#[test]
fn spike_of_load_in_thousandths() {
    let mut control =
        FanControl::new(Usage::new(vec![3, 10, 60], vec![3, 10, 60]), 31_000, 10_000);
    assert_eq!(control.update(&vec![12_500, 50_000], &package(15_400, 100_000)), FanState::On);
    let mut ticks_on = 1;
    while control.update(&vec![0, 0], &package(15_400, 100_000)) == FanState::On {
        ticks_on += 1;
        assert!(ticks_on < 100);
    }
    assert_eq!(ticks_on, 4);
    assert_eq!(control.fan_on(), FanState::Off);
}

#[test]
fn cooling_down_after_heat() {
    let mut control = FanControl::new(Usage::new(vec![1], vec![1, 2, 4]), 31, 10);
    assert_eq!(control.update(&vec![0], &package(40, 100)), FanState::On);
    // 30 is below the ceiling, but the averages over 2 and 4 readings are 35
    assert_eq!(control.update(&vec![0], &package(30, 100)), FanState::On);
    // averages 29, 29.5, 33
    assert_eq!(control.update(&vec![0], &package(29, 100)), FanState::On);
    // averages 28, 28.5, 31.75
    assert_eq!(control.update(&vec![0], &package(28, 100)), FanState::On);
    // averages 27, 27.5, 28.5: no trip, and the shortest is below the middle
    assert_eq!(control.update(&vec![0], &package(27, 100)), FanState::Off);
    // averages 29, 28, 28.25: rising above half of the ceiling
    assert_eq!(control.update(&vec![0], &package(29, 100)), FanState::On);
}
