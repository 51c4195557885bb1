use battery_monitor::battery::{ChargeState, State, BAT};

#[test]
fn tiers_partition_zero_to_hundred() {
    for p in 0..=15 {
        assert_eq!(BAT::get_battery_charge_state(p), ChargeState::Critical);
    }
    for p in 16..=30 {
        assert_eq!(BAT::get_battery_charge_state(p), ChargeState::Low);
    }
    for p in 31..=75 {
        assert_eq!(BAT::get_battery_charge_state(p), ChargeState::Medium);
    }
    for p in 76..=100 {
        assert_eq!(BAT::get_battery_charge_state(p), ChargeState::High);
    }
}

#[test]
fn out_of_range_clamps_to_high() {
    assert_eq!(BAT::get_battery_charge_state(-1), ChargeState::High);
    assert_eq!(BAT::get_battery_charge_state(101), ChargeState::High);
    assert_eq!(BAT::get_battery_charge_state(i32::MIN), ChargeState::High);
    assert_eq!(BAT::get_battery_charge_state(i32::MAX), ChargeState::High);
}

#[test]
fn zero_is_critical() {
    assert_eq!(BAT::get_battery_charge_state(0), ChargeState::Critical);
}

#[test]
fn bat_new_copy_update() {
    let mut b = BAT::new(State::Charging, 42);
    assert_eq!(b.state, State::Charging);
    assert_eq!(b.charge, 42);
    let c = b.copy_bat();
    b.update(State::FullyCharged, 100);
    assert_eq!(b.state, State::FullyCharged);
    assert_eq!(b.charge, 100);
    assert_eq!(c.state, State::Charging);
    assert_eq!(c.charge, 42);
}
