use yourcontrols::var_ids::{map_ids, Error};
use yourcontrols::{
    get_call_counter, get_test_variable, DiffChecker, EventCallCounter, EventSet, KeyEvent,
    NumberDigits, TestVariable,
};

#[test]
fn test_diff() {
    let mut diff_checker = DiffChecker::new();
    diff_checker.add(0, 1.0);

    assert!(!diff_checker.add(0, 1.0));
    assert!(diff_checker.add(0, 5.0));
}

#[test]
fn test_clear() {
    let mut diff_checker = DiffChecker::new();
    diff_checker.add(0, 1.0);
    diff_checker.clear();
    assert!(!diff_checker.add(0, 1.0));
}

#[test]
fn diff_first_value_counts_as_no_change() {
    let mut diff_checker: DiffChecker<u32, f64> = DiffChecker::new();
    assert!(!diff_checker.add(7, 2.5));
    assert!(!diff_checker.add(7, 2.5));
    assert!(diff_checker.add(7, -2.5));
    assert!(!diff_checker.add(8, -2.5));
}

#[test]
fn digits_read_left_to_right_and_pad_with_zero() {
    let digits = NumberDigits::new(1234);
    assert_eq!(digits.get(0), 1);
    assert_eq!(digits.get(1), 2);
    assert_eq!(digits.get(2), 3);
    assert_eq!(digits.get(3), 4);
    assert_eq!(digits.get(4), 0);
    assert_eq!(digits.get(100), 0);
}

#[test]
fn digits_of_zero_and_negative_are_empty() {
    let zero = NumberDigits::new(0);
    assert_eq!(zero.get(0), 0);
    let negative = NumberDigits::new(-52);
    assert_eq!(negative.get(0), 0);
    assert_eq!(negative.get(1), 0);
}

#[test]
fn digits_of_largest_i32() {
    let digits = NumberDigits::new(i32::MAX);
    let expected = [2, 1, 4, 7, 4, 8, 3, 6, 4, 7];
    for (i, d) in expected.iter().enumerate() {
        assert_eq!(digits.get(i), *d);
    }
    assert_eq!(digits.get(10), 0);
}

#[test]
fn event_set_codes() {
    let plain = EventSet::new("TOGGLE_BEACON_LIGHTS".to_string());
    assert_eq!(plain.set_code(), "(>K:TOGGLE_BEACON_LIGHTS)");
    assert_eq!(plain.set_with_value_code("1"), "1 (>K:TOGGLE_BEACON_LIGHTS)");

    let indexed = EventSet::new_with_index("NAV1_SET".to_string(), "2".to_string(), false);
    assert_eq!(indexed.set_with_value_code("110.5"), "110.5 2 (>K:2:NAV1_SET)");

    let reversed = EventSet::new_with_index("NAV1_SET".to_string(), "2".to_string(), true);
    assert_eq!(reversed.set_with_value_code("110.5"), "2 110.5 (>K:2:NAV1_SET)");
}

#[test]
fn key_event_counts_triggers() {
    let mut event = KeyEvent::new("AP_MASTER".to_string(), 12);
    assert_eq!(event.trigger_count(), 0);
    assert_eq!(event.id(), 12);
    event.increment_count();
    event.increment_count();
    assert_eq!(event.trigger_count(), 2);
    event.reset_count();
    assert_eq!(event.trigger_count(), 0);
    assert_eq!(event.incoming_code("3"), "3 (>K:AP_MASTER)");
}

#[test]
fn call_counter_and_test_variable() {
    let mut counter: EventCallCounter = get_call_counter();
    counter.set();
    counter.set_with_value(5.0f64.to_bits());
    assert_eq!(counter.called_count, 2);
    assert_eq!(f64::from_bits(counter.last_set_value), 5.0);
    counter.reset();
    assert_eq!(counter.called_count, 0);
    assert_eq!(counter.last_set_value, 0);

    let mut var: TestVariable = get_test_variable(1.0f64.to_bits());
    assert_eq!(f64::from_bits(var.get()), 1.0);
    var.set(3.0f64.to_bits());
    assert_eq!(f64::from_bits(var.get()), 1.0);
    var.set_new_value(4.0f64.to_bits());
    assert_eq!(f64::from_bits(var.get()), 4.0);
}

use yourcontrols::{NumDigitSet, ToggleChoice, ToggleSwitch};

/// Runs the toggle switch on `value` against the variable, firing the chosen
/// event's counter.
fn process_toggle(
    switch: &ToggleSwitch,
    var: &TestVariable,
    event: &mut EventCallCounter,
    off_event: &mut EventCallCounter,
    value: f64,
) {
    let should_be_on = value == 1.0;
    let currently_on = f64::from_bits(var.get()) == 1.0;
    match switch.process_incoming(should_be_on, currently_on) {
        ToggleChoice::Nothing => {}
        ToggleChoice::Event => event.set(),
        ToggleChoice::OffEvent => off_event.set(),
    }
}

fn process_then_set(
    switch: &ToggleSwitch,
    var: &mut TestVariable,
    event: &mut EventCallCounter,
    off_event: &mut EventCallCounter,
    value: f64,
) {
    process_toggle(switch, var, event, off_event, value);
    var.set_new_value(value.to_bits());
}

#[test]
fn test_toggle_switch() {
    let mut var = get_test_variable(0.0f64.to_bits());
    let mut event_counter = get_call_counter();
    let mut off_event_counter = get_call_counter();

    let mut toggle_switch = ToggleSwitch { has_off_event: true, switch_on: false };

    // Switch changed remotely, but was already in same position for client
    process_toggle(&toggle_switch, &var, &mut event_counter, &mut off_event_counter, 0.0);
    assert_eq!(event_counter.called_count, 0);
    assert_eq!(off_event_counter.called_count, 0);
    // Regular case
    process_then_set(&toggle_switch, &mut var, &mut event_counter, &mut off_event_counter, 1.0);

    assert_eq!(event_counter.called_count, 1);
    assert_eq!(off_event_counter.called_count, 0);
    // Off case
    process_then_set(&toggle_switch, &mut var, &mut event_counter, &mut off_event_counter, 0.0);

    assert_eq!(event_counter.called_count, 1);
    assert_eq!(off_event_counter.called_count, 1);
    // Test switch_on
    toggle_switch.switch_on = true;

    var.set_new_value(0.0f64.to_bits());
    process_toggle(&toggle_switch, &var, &mut event_counter, &mut off_event_counter, 1.0);

    assert_eq!(event_counter.called_count, 2);
    assert_eq!(off_event_counter.called_count, 1);
}

#[test]
fn toggle_switch_without_off_event_uses_its_event() {
    let switch = ToggleSwitch { has_off_event: false, switch_on: false };
    assert_eq!(switch.process_incoming(false, true), ToggleChoice::Event);
    let only_on = ToggleSwitch { has_off_event: true, switch_on: true };
    assert_eq!(only_on.process_incoming(false, true), ToggleChoice::Nothing);
    assert_eq!(only_on.process_incoming(true, false), ToggleChoice::Event);
}

#[test]
fn test_num_digit_set() {
    let var = get_test_variable(3829.5f64.to_bits()); // make sure floating is truncated
    let mut inc_events = vec![get_call_counter(), get_call_counter(), get_call_counter(), get_call_counter()];
    let mut dec_events = vec![get_call_counter(), get_call_counter(), get_call_counter(), get_call_counter()];

    let num_digit_set = NumDigitSet { inc_events: inc_events.len(), dec_events: dec_events.len() };

    let mut process_incoming = |value: f64, inc: &mut Vec<EventCallCounter>, dec: &mut Vec<EventCallCounter>| {
        let current = f64::from_bits(var.get()) as i32;
        let steps = num_digit_set.process_incoming(current, value as i32);
        for (i, (up, down)) in steps.into_iter().enumerate() {
            for _ in 0..up {
                inc[i].set();
            }
            for _ in 0..down {
                dec[i].set();
            }
        }
    };

    process_incoming(1679.0, &mut inc_events, &mut dec_events);

    assert_eq!(dec_events[0].called_count, 2);
    assert_eq!(dec_events[1].called_count, 2);
    assert_eq!(inc_events[2].called_count, 5);
    assert_eq!(dec_events[3].called_count, 0);
    // Should not have been called
    assert_eq!(inc_events[0].called_count, 0);
    assert_eq!(inc_events[1].called_count, 0);
    assert_eq!(dec_events[2].called_count, 0);
    assert_eq!(inc_events[3].called_count, 0);

    process_incoming(4908.0, &mut inc_events, &mut dec_events);

    assert_eq!(inc_events[0].called_count, 1);
    assert_eq!(inc_events[1].called_count, 1);
    assert_eq!(dec_events[2].called_count, 2);
    assert_eq!(dec_events[3].called_count, 1);
}

#[test]
fn num_digit_set_stops_at_the_shorter_event_list() {
    let set = NumDigitSet { inc_events: 3, dec_events: 2 };
    assert_eq!(set.process_incoming(123, 321), vec![(2, 0), (0, 0)]);
    let set = NumDigitSet { inc_events: 2, dec_events: 5 };
    assert_eq!(set.process_incoming(9, 10), vec![(0, 8), (0, 0)]);
}

#[test]
fn map_ids_picks_entries_in_order() {
    let vars = vec![10u32, 20, 30];
    assert_eq!(map_ids(&vars, vec![2, 0, 2]), Ok(vec![30u32, 10, 30]));
    assert_eq!(map_ids(&vars, vec![]), Ok(Vec::<u32>::new()));
    assert_eq!(map_ids(&vars, vec![1, 3]), Err(Error::UnknownId));
}
