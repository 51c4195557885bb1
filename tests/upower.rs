use battery_monitor::battery::State;
use battery_monitor::upower::parse_sample;

fn sample(out: &[u8]) -> (State, i32) {
    let b = parse_sample(out);
    (b.state, b.charge)
}

#[test]
fn empty_output_is_default() {
    assert_eq!(sample(b""), (State::Discharging, 0));
}

#[test]
fn malformed_output_is_default() {
    assert_eq!(sample(b"garbage\nmore garbage\n"), (State::Discharging, 0));
    assert_eq!(sample(b"percentage\n"), (State::Discharging, 0));
    assert_eq!(sample(b"percentage: lots%\n"), (State::Discharging, 0));
    assert_eq!(sample(&[0xff, 0xfe, 0x0a, 0x80]), (State::Discharging, 0));
}

#[test]
fn discharging_output() {
    let out = b"    state:               discharging\n    percentage:          85%\n";
    assert_eq!(sample(out), (State::Discharging, 85));
}

#[test]
fn charging_output() {
    let out = b"    state:               charging\n    percentage:          42%\n";
    assert_eq!(sample(out), (State::Charging, 42));
}

#[test]
fn fully_charged_output() {
    let out = b"    percentage:          100%\n    state:               fully-charged\n";
    assert_eq!(sample(out), (State::FullyCharged, 100));
}

#[test]
fn unknown_state_is_discharging() {
    assert_eq!(sample(b"state: pending-charge\npercentage: 7%"), (State::Discharging, 7));
}

#[test]
fn carriage_returns_are_trimmed() {
    assert_eq!(sample(b"state: charging\r\npercentage: 61%\r\n"), (State::Charging, 61));
}

#[test]
fn value_stops_at_next_colon() {
    assert_eq!(sample(b"percentage: 33%: extra\n"), (State::Discharging, 33));
}

#[test]
fn signed_and_oversized_percentages() {
    assert_eq!(sample(b"percentage: -5%\n"), (State::Discharging, -5));
    assert_eq!(sample(b"percentage: +7%\n"), (State::Discharging, 7));
    assert_eq!(sample(b"percentage: 2147483647%\n"), (State::Discharging, 2147483647));
    assert_eq!(sample(b"percentage: -2147483648%\n"), (State::Discharging, i32::MIN));
    assert_eq!(sample(b"percentage: 2147483648%\n"), (State::Discharging, 0));
    assert_eq!(sample(b"percentage: 99999999999999%\n"), (State::Discharging, 0));
    assert_eq!(sample(b"percentage: -%\n"), (State::Discharging, 0));
}

#[test]
fn unreadable_line_keeps_earlier_value() {
    assert_eq!(sample(b"percentage: 50%\npercentage: x%\n"), (State::Discharging, 50));
}

#[test]
fn space_before_percent_sign_is_unreadable() {
    assert_eq!(sample(b"percentage: 50 %\n"), (State::Discharging, 0));
}

#[test]
fn fraction_is_unreadable() {
    assert_eq!(sample(b"percentage: 50.5%\n"), (State::Discharging, 0));
}
