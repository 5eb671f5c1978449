//! Board-level power state of a virtual T-Deck: battery voltage, external
//! power and the startup reason.

use vstd::prelude::*;

verus! {

/// Startup reason reported after a normal power-on.
pub const BD_STARTUP_NORMAL: u8 = 0;

/// Battery voltage of a freshly configured board, in millivolts.
pub const DEFAULT_BATTERY_MV: u16 = 3_900;

/// The integer-valued power state of a board.
#[derive(Clone, Copy, Debug, PartialEq, Eq)]
pub struct PowerState {
    pub battery_mv: u16,
    pub startup_reason: u8,
    pub external_powered: bool,
}

impl Default for PowerState {
    fn default() -> (p: Self)
        ensures
            p == (PowerState { battery_mv: DEFAULT_BATTERY_MV, startup_reason: BD_STARTUP_NORMAL, external_powered: false }),
    {
        PowerState { battery_mv: DEFAULT_BATTERY_MV, startup_reason: BD_STARTUP_NORMAL, external_powered: false }
    }
}

impl PowerState {
    pub fn get_battery_mv(&self) -> (mv: u16)
        ensures
            mv == self.battery_mv,
    {
        self.battery_mv
    }

    pub fn set_battery(&mut self, mv: u16)
        ensures
            *final(self) == (PowerState { battery_mv: mv, ..*old(self) }),
    {
        self.battery_mv = mv;
    }

    /// Lowers the battery by `drop_mv` (saturating at zero) unless the board
    /// runs on external power.
    pub fn discharge(&mut self, drop_mv: u16)
        ensures
            *final(self) == (if old(self).external_powered {
                *old(self)
            } else {
                PowerState {
                    battery_mv: if drop_mv > old(self).battery_mv { 0 } else { (old(self).battery_mv - drop_mv) as u16 },
                    ..*old(self)
                }
            }),
    {
        if self.external_powered {
            return;
        }
        self.battery_mv = self.battery_mv.saturating_sub(drop_mv);
    }
}

} // verus!
