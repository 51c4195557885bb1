use battery_monitor::battery::{ChargeState, State, BAT};
use battery_monitor::monitor::{category, Category, Monitor, NotificationEvent, NotificationState};

fn run(samples: &[(State, i32)]) -> Vec<Option<NotificationEvent>> {
    let mut m = Monitor::new();
    samples
        .iter()
        .map(|&(s, c)| m.transition(BAT::new(s, c)))
        .collect()
}

fn fired(events: &[Option<NotificationEvent>]) -> Vec<NotificationEvent> {
    events.iter().flatten().copied().collect()
}

#[test]
fn drop_to_low_then_critical_fires_twice() {
    let ev = run(&[
        (State::Discharging, 50),
        (State::Discharging, 20),
        (State::Discharging, 20),
        (State::Discharging, 10),
    ]);
    assert!(ev[0].is_none());
    assert!(ev[2].is_none());
    let f = fired(&ev);
    assert_eq!(f.len(), 2);
    assert_eq!(f[0].tier, ChargeState::Low);
    assert_eq!(f[0].charge, 20);
    assert_eq!(f[1].tier, ChargeState::Critical);
    assert_eq!(f[1].charge, 10);
}

#[test]
fn recovery_through_nominal_rearms_critical() {
    let ev = run(&[
        (State::Discharging, 10),
        (State::Discharging, 50),
        (State::Discharging, 10),
    ]);
    let f = fired(&ev);
    assert_eq!(f.len(), 2);
    assert_eq!(f[0].tier, ChargeState::Critical);
    assert!(ev[1].is_none());
    assert_eq!(f[1].tier, ChargeState::Critical);
}

#[test]
fn charging_fires_once_across_tiers() {
    let ev = run(&[
        (State::Charging, 40),
        (State::Charging, 60),
        (State::Charging, 90),
    ]);
    let f = fired(&ev);
    assert_eq!(f.len(), 1);
    assert!(ev[0].is_some());
    assert_eq!(f[0].state, State::Charging);
    assert_eq!(f[0].tier, ChargeState::Medium);
    assert_eq!(f[0].charge, 40);
}

#[test]
fn switching_category_rearms() {
    let ev = run(&[
        (State::Discharging, 20),
        (State::Charging, 20),
        (State::Discharging, 20),
    ]);
    let f = fired(&ev);
    assert_eq!(f.len(), 3);
    assert_eq!(f[0].state, State::Discharging);
    assert_eq!(f[0].tier, ChargeState::Low);
    assert_eq!(f[1].state, State::Charging);
    assert_eq!(f[2].state, State::Discharging);
    assert_eq!(f[2].tier, ChargeState::Low);
}

#[test]
fn fully_charged_shares_power_connected_category() {
    let ev = run(&[(State::Charging, 95), (State::FullyCharged, 100)]);
    assert!(ev[0].is_some());
    assert!(ev[1].is_none());
}

#[test]
fn nominal_keeps_power_connected_record() {
    let mut m = Monitor::new();
    assert!(m.transition(BAT::new(State::Charging, 80)).is_some());
    assert!(m.transition(BAT::new(State::Discharging, 80)).is_none());
    assert_eq!(m.last, NotificationState::PowerConnected);
    assert!(m.transition(BAT::new(State::Charging, 80)).is_none());
    assert!(m.transition(BAT::new(State::Discharging, 25)).is_some());
    assert_eq!(m.last, NotificationState::LowBattery);
}

#[test]
fn nominal_disarms_low_record() {
    let mut m = Monitor::new();
    assert!(m.transition(BAT::new(State::Discharging, 25)).is_some());
    assert!(m.transition(BAT::new(State::Discharging, 90)).is_none());
    assert_eq!(m.last, NotificationState::Unset);
    assert_eq!(m.bat.charge, 90);
    assert_eq!(m.bat.state, State::Discharging);
}

#[test]
fn first_low_sample_fires_from_fresh_monitor() {
    let mut m = Monitor::new();
    assert_eq!(m.last, NotificationState::Unset);
    assert_eq!(m.bat.charge, 0);
    let e = m.transition(BAT::new(State::Discharging, 30)).unwrap();
    assert_eq!(e.tier, ChargeState::Low);
    assert_eq!(e.charge, 30);
}

#[test]
fn out_of_range_discharging_is_nominal() {
    let ev = run(&[(State::Discharging, -3), (State::Discharging, 150)]);
    assert!(ev.iter().all(|e| e.is_none()));
}

#[test]
fn categories() {
    assert_eq!(category(State::Discharging, 5), Category::CriticalBattery);
    assert_eq!(category(State::Discharging, 16), Category::LowBattery);
    assert_eq!(category(State::Discharging, 31), Category::Nominal);
    assert_eq!(category(State::Charging, 5), Category::PowerConnected);
    assert_eq!(category(State::FullyCharged, 100), Category::PowerConnected);
}
