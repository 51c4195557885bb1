use vstd::prelude::*;

verus! {

/// Whether the battery is taking charge.
#[derive(Debug, Clone, Copy, PartialEq, Eq, Structural)]
pub enum State {
    FullyCharged,
    Charging,
    Discharging,
}

/// The charge tier that a percentage falls in.
#[derive(Debug, Clone, Copy, PartialEq, Eq, Structural)]
pub enum ChargeState {
    High,
    Medium,
    Low,
    Critical,
}

/// The tier of a percentage: 0..=15 is Critical, 16..=30 Low, 31..=75 Medium,
/// 76..=100 High; anything outside 0..=100 is treated as High.
pub open spec fn tier_of(charge: int) -> ChargeState {
    if 0 <= charge <= 15 {
        ChargeState::Critical
    } else if 16 <= charge <= 30 {
        ChargeState::Low
    } else if 31 <= charge <= 75 {
        ChargeState::Medium
    } else {
        ChargeState::High
    }
}

/// One battery reading: charging state and percentage.
#[derive(Debug)]
pub struct BAT {
    pub state: State,
    pub charge: i32,
}

impl BAT {
    pub fn new(state: State, charge: i32) -> (r: BAT)
        ensures
            r.state == state,
            r.charge == charge,
    {
        BAT { state, charge }
    }

    /// Classifies a percentage into its charge tier; total on every `i32`.
    pub fn get_battery_charge_state(charge: i32) -> (r: ChargeState)
        ensures
            r == tier_of(charge as int),
    {
        if 0 <= charge && charge <= 15 {
            ChargeState::Critical
        } else if 16 <= charge && charge <= 30 {
            ChargeState::Low
        } else if 31 <= charge && charge <= 75 {
            ChargeState::Medium
        } else {
            ChargeState::High
        }
    }

    pub fn copy_bat(&self) -> (r: BAT)
        ensures
            r.state == self.state,
            r.charge == self.charge,
    {
        BAT { state: self.state, charge: self.charge }
    }

    pub fn update(&mut self, state: State, charge: i32)
        ensures
            final(self).state == state,
            final(self).charge == charge,
    {
        self.state = state;
        self.charge = charge;
    }
}

} // verus!
