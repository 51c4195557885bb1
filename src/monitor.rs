//! The notification state machine: one notification per change of category,
//! not one per poll.
use vstd::prelude::*;

use crate::battery::{tier_of, ChargeState, State, BAT};

verus! {

/// What a sample calls for: power connected (charging or full), a low or a
/// critical battery while discharging, or nothing (discharging above Low).
#[derive(Debug, Clone, Copy, PartialEq, Eq, Structural)]
pub enum Category {
    PowerConnected,
    LowBattery,
    CriticalBattery,
    Nominal,
}

/// The last category that was notified; `Unset` when none is armed against.
#[derive(Debug, Clone, Copy, PartialEq, Eq, Structural)]
pub enum NotificationState {
    Unset,
    PowerConnected,
    LowBattery,
    CriticalBattery,
}

/// What a notification is about: the sample and the tier of its percentage.
#[derive(Debug, Clone, Copy, PartialEq, Eq, Structural)]
pub struct NotificationEvent {
    pub state: State,
    pub tier: ChargeState,
    pub charge: i32,
}

pub open spec fn category_of(state: State, charge: int) -> Category {
    match state {
        State::Discharging => match tier_of(charge) {
            ChargeState::Low => Category::LowBattery,
            ChargeState::Critical => Category::CriticalBattery,
            _ => Category::Nominal,
        },
        _ => Category::PowerConnected,
    }
}

/// The state that records a category as shown.
pub open spec fn shown(c: Category) -> NotificationState {
    match c {
        Category::PowerConnected => NotificationState::PowerConnected,
        Category::LowBattery => NotificationState::LowBattery,
        Category::CriticalBattery => NotificationState::CriticalBattery,
        Category::Nominal => NotificationState::Unset,
    }
}

/// A sample of category `c` is notified when `c` calls for a notification and
/// is not the one last shown.
pub open spec fn fires(last: NotificationState, c: Category) -> bool {
    c != Category::Nominal && shown(c) != last
}

/// The state after a sample of category `c`: a notifying category is recorded;
/// a nominal one disarms a Low or Critical record and keeps any other.
pub open spec fn next_state(last: NotificationState, c: Category) -> NotificationState {
    if c == Category::Nominal {
        if last == NotificationState::LowBattery || last == NotificationState::CriticalBattery {
            NotificationState::Unset
        } else {
            last
        }
    } else {
        shown(c)
    }
}

pub fn category(state: State, charge: i32) -> (r: Category)
    ensures
        r == category_of(state, charge as int),
{
    match state {
        State::Discharging => match BAT::get_battery_charge_state(charge) {
            ChargeState::Low => Category::LowBattery,
            ChargeState::Critical => Category::CriticalBattery,
            _ => Category::Nominal,
        },
        _ => Category::PowerConnected,
    }
}

/// Two samples in a row of the same category notify at most once: the second
/// one is silent, whatever its tier or percentage.
pub proof fn lemma_same_category_is_silent(
    last: NotificationState,
    state1: State,
    charge1: int,
    state2: State,
    charge2: int,
)
    requires
        category_of(state1, charge1) == category_of(state2, charge2),
    ensures
        !fires(
            next_state(last, category_of(state1, charge1)),
            category_of(state2, charge2),
        ),
{
}

/// A nominal sample (discharging above Low) re-arms the alerts: a Low or
/// Critical sample right after it is notified, whatever came before.
pub proof fn lemma_nominal_rearms(
    last: NotificationState,
    state1: State,
    charge1: int,
    state2: State,
    charge2: int,
)
    requires
        category_of(state1, charge1) == Category::Nominal,
        category_of(state2, charge2) == Category::LowBattery || category_of(state2, charge2)
            == Category::CriticalBattery,
    ensures
        fires(next_state(last, category_of(state1, charge1)), category_of(state2, charge2)),
{
}

/// Going from one notifying category to another always notifies, even when
/// the tier stays the same.
pub proof fn lemma_category_change_notifies(
    last: NotificationState,
    state1: State,
    charge1: int,
    state2: State,
    charge2: int,
)
    requires
        category_of(state1, charge1) != Category::Nominal,
        category_of(state2, charge2) != Category::Nominal,
        category_of(state1, charge1) != category_of(state2, charge2),
    ensures
        fires(next_state(last, category_of(state1, charge1)), category_of(state2, charge2)),
{
}

/// The polling loop's memory: the last sample and the last category shown.
#[derive(Debug)]
pub struct Monitor {
    pub bat: BAT,
    pub last: NotificationState,
}

impl Monitor {
    /// A monitor that has shown nothing, holding the sample `(Discharging, 0)`.
    pub fn new() -> (r: Monitor)
        ensures
            r.bat.state == State::Discharging,
            r.bat.charge == 0,
            r.last == NotificationState::Unset,
    {
        Monitor { bat: BAT::new(State::Discharging, 0), last: NotificationState::Unset }
    }

    /// Takes in one sample: records it, moves the notification state on, and
    /// returns the event to notify, if the sample calls for one.
    pub fn transition(&mut self, sample: BAT) -> (r: Option<NotificationEvent>)
        ensures
            final(self).bat == sample,
            final(self).last == next_state(
                old(self).last,
                category_of(sample.state, sample.charge as int),
            ),
            r is Some <==> fires(old(self).last, category_of(sample.state, sample.charge as int)),
            r matches Some(e) ==> e.state == sample.state && e.charge == sample.charge && e.tier
                == tier_of(sample.charge as int),
    {
        let c = category(sample.state, sample.charge);
        let event = NotificationEvent {
            state: sample.state,
            tier: BAT::get_battery_charge_state(sample.charge),
            charge: sample.charge,
        };
        let r = match c {
            Category::Nominal => {
                if self.last == NotificationState::LowBattery || self.last
                    == NotificationState::CriticalBattery {
                    self.last = NotificationState::Unset;
                }
                None
            },
            _ => {
                let now = match c {
                    Category::PowerConnected => NotificationState::PowerConnected,
                    Category::LowBattery => NotificationState::LowBattery,
                    _ => NotificationState::CriticalBattery,
                };
                if self.last != now {
                    self.last = now;
                    Some(event)
                } else {
                    None
                }
            },
        };
        self.bat = sample;
        r
    }
}

} // verus!
