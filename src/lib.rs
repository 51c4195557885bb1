//! Battery monitoring: charge tiers, notification deduplication, the
//! notification table, and the reading of `upower` output.

pub mod battery;
pub mod monitor;
pub mod notification;
pub mod upower;
