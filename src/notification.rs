//! What a notification shows: urgency, icon and message, by charging state
//! and tier.
use vstd::prelude::*;

use crate::battery::{ChargeState, State};
use crate::monitor::NotificationEvent;

verus! {

#[derive(Debug, Clone, Copy, PartialEq, Eq, Structural)]
pub enum Urgency {
    Normal,
    Critical,
}

/// The icon a notification carries, by name; where the icon files live is
/// the caller's business.
#[derive(Debug, Clone, Copy, PartialEq, Eq, Structural)]
pub enum IconId {
    BatteryEmpty,
    BatteryCaution,
    BatteryLowCharging,
    BatteryGoodCharging,
    BatteryFullCharging,
    BatteryFull,
}

pub open spec fn urgency_name(u: Urgency) -> Seq<char> {
    match u {
        Urgency::Normal => "normal"@,
        Urgency::Critical => "critical"@,
    }
}

pub open spec fn icon_name(i: IconId) -> Seq<char> {
    match i {
        IconId::BatteryEmpty => "battery-empty"@,
        IconId::BatteryCaution => "battery-caution"@,
        IconId::BatteryLowCharging => "battery-low-charging"@,
        IconId::BatteryGoodCharging => "battery-good-charging"@,
        IconId::BatteryFullCharging => "battery-full-charging"@,
        IconId::BatteryFull => "battery-full"@,
    }
}

impl Urgency {
    /// The urgency as the notification tool spells it.
    pub fn as_str(&self) -> (r: &'static str)
        ensures
            r@ == urgency_name(*self),
    {
        match self {
            Urgency::Normal => "normal",
            Urgency::Critical => "critical",
        }
    }
}

impl IconId {
    /// The icon's name in the icon theme.
    pub fn name(&self) -> (r: &'static str)
        ensures
            r@ == icon_name(*self),
    {
        match self {
            IconId::BatteryEmpty => "battery-empty",
            IconId::BatteryCaution => "battery-caution",
            IconId::BatteryLowCharging => "battery-low-charging",
            IconId::BatteryGoodCharging => "battery-good-charging",
            IconId::BatteryFullCharging => "battery-full-charging",
            IconId::BatteryFull => "battery-full",
        }
    }
}

pub open spec fn digit_char(d: int) -> char {
    seq!['0', '1', '2', '3', '4', '5', '6', '7', '8', '9'][d]
}

/// The decimal digits of `n`, most significant first.
pub open spec fn digits_of(n: nat) -> Seq<char>
    decreases n,
{
    if n < 10 {
        seq![digit_char(n as int)]
    } else {
        digits_of(n / 10) + seq![digit_char((n % 10) as int)]
    }
}

/// `n` in decimal, with a `-` before a negative number.
pub open spec fn decimal(n: int) -> Seq<char> {
    if n < 0 {
        seq!['-'] + digits_of((-n) as nat)
    } else {
        digits_of(n as nat)
    }
}

/// The notification table: what an event shows, or nothing for a discharging
/// battery above Low.
pub open spec fn rendered(e: NotificationEvent) -> Option<(Urgency, IconId, Seq<char>)> {
    match e.state {
        State::Charging => Some(
            (
                Urgency::Normal,
                match e.tier {
                    ChargeState::High => IconId::BatteryFullCharging,
                    ChargeState::Medium => IconId::BatteryGoodCharging,
                    _ => IconId::BatteryLowCharging,
                },
                "Battery is charging: "@ + decimal(e.charge as int) + "%"@,
            ),
        ),
        State::FullyCharged => Some(
            (Urgency::Normal, IconId::BatteryFull, "Battery is fully charged"@),
        ),
        State::Discharging => match e.tier {
            ChargeState::Critical => Some(
                (
                    Urgency::Critical,
                    IconId::BatteryEmpty,
                    "Critical Battery Alert: "@ + decimal(e.charge as int) + "%"@,
                ),
            ),
            ChargeState::Low => Some(
                (
                    Urgency::Normal,
                    IconId::BatteryCaution,
                    "Low Battery Alert: "@ + decimal(e.charge as int) + "%"@,
                ),
            ),
            _ => None,
        },
    }
}

/// A notification ready to be shown.
#[derive(Debug)]
pub struct Notification {
    pub urgency: Urgency,
    pub icon: IconId,
    pub message: String,
}

fn digit_str(d: u32) -> (r: &'static str)
    requires
        d < 10,
    ensures
        r@ == seq![digit_char(d as int)],
{
    proof {
        reveal_strlit("0");
        reveal_strlit("1");
        reveal_strlit("2");
        reveal_strlit("3");
        reveal_strlit("4");
        reveal_strlit("5");
        reveal_strlit("6");
        reveal_strlit("7");
        reveal_strlit("8");
        reveal_strlit("9");
    }
    let r = match d {
        0 => "0",
        1 => "1",
        2 => "2",
        3 => "3",
        4 => "4",
        5 => "5",
        6 => "6",
        7 => "7",
        8 => "8",
        _ => "9",
    };
    assert(r@ =~= seq![digit_char(d as int)]);
    r
}

fn push_digits(s: &mut String, n: u32)
    ensures
        final(s)@ == old(s)@ + digits_of(n as nat),
    decreases n,
{
    if n >= 10 {
        push_digits(s, n / 10);
    }
    s.append(digit_str(n % 10));
    proof {
        if n >= 10 {
            assert(final(s)@ =~= old(s)@ + digits_of(n as nat));
        }
    }
}

/// Appends `n` in decimal to `s`.
pub fn push_decimal(s: &mut String, n: i32)
    ensures
        final(s)@ == old(s)@ + decimal(n as int),
{
    if n < 0 {
        s.append("-");
        proof {
            reveal_strlit("-");
        }
        push_digits(s, (0 - n as i64) as u32);
        assert(final(s)@ =~= old(s)@ + decimal(n as int));
    } else {
        push_digits(s, n as u32);
    }
}

/// `prefix`, then `n` in decimal, then `%`.
fn percent_message(prefix: &str, n: i32) -> (r: String)
    ensures
        r@ == prefix@ + decimal(n as int) + "%"@,
{
    let mut m = String::from_str(prefix);
    push_decimal(&mut m, n);
    m.append("%");
    m
}

/// Looks an event up in the notification table; nothing for a discharging
/// battery above Low.
pub fn render(e: &NotificationEvent) -> (r: Option<Notification>)
    ensures
        match r {
            Some(n) => rendered(*e) == Some((n.urgency, n.icon, n.message@)),
            None => rendered(*e) is None,
        },
{
    match e.state {
        State::Charging => {
            let icon = match e.tier {
                ChargeState::High => IconId::BatteryFullCharging,
                ChargeState::Medium => IconId::BatteryGoodCharging,
                _ => IconId::BatteryLowCharging,
            };
            Some(
                Notification {
                    urgency: Urgency::Normal,
                    icon,
                    message: percent_message("Battery is charging: ", e.charge),
                },
            )
        },
        State::FullyCharged => Some(
            Notification {
                urgency: Urgency::Normal,
                icon: IconId::BatteryFull,
                message: String::from_str("Battery is fully charged"),
            },
        ),
        State::Discharging => match e.tier {
            ChargeState::Critical => Some(
                Notification {
                    urgency: Urgency::Critical,
                    icon: IconId::BatteryEmpty,
                    message: percent_message("Critical Battery Alert: ", e.charge),
                },
            ),
            ChargeState::Low => Some(
                Notification {
                    urgency: Urgency::Normal,
                    icon: IconId::BatteryCaution,
                    message: percent_message("Low Battery Alert: ", e.charge),
                },
            ),
            _ => None,
        },
    }
}

} // verus!
