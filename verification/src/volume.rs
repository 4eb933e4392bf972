//! Trade volume: a running total of what was swapped into the pool.

use crate::arith::{checked_add, fits_i128, ArithmeticError};
use vstd::prelude::*;

verus! {

/// The volume that the pool has traded.  The two windowed figures are kept
/// equal to the all-time figure: no window is applied.
#[derive(Clone, Copy, Debug, PartialEq, Eq, Structural)]
pub struct VolumeTracker {
    /// The volume of the last day; equal to `total_volume_all_time`.
    pub total_volume_24h: i128,
    /// The volume of the last week; equal to `total_volume_all_time`.
    pub total_volume_7d: i128,
    /// All volume ever traded.
    pub total_volume_all_time: i128,
    /// The ledger of the last swap.
    pub last_swap_ledger: u32,
}

impl VolumeTracker {
    /// The tracker of a pool that has traded nothing.
    pub fn new() -> (tracker: VolumeTracker)
        ensures
            tracker == (VolumeTracker {
                total_volume_24h: 0,
                total_volume_7d: 0,
                total_volume_all_time: 0,
                last_swap_ledger: 0,
            }),
            tracker.wf(),
    {
        VolumeTracker {
            total_volume_24h: 0,
            total_volume_7d: 0,
            total_volume_all_time: 0,
            last_swap_ledger: 0,
        }
    }

    /// Whether the tracker is valid: both windowed figures equal the
    /// all-time figure.
    pub open spec fn wf(self) -> bool {
        &&& self.total_volume_24h == self.total_volume_all_time
        &&& self.total_volume_7d == self.total_volume_all_time
    }

    /// The tracker after a swap of `amount` at `ledger`, or `Overflow` where
    /// the all-time figure would not fit.
    pub open spec fn after_swap(self, amount: int, ledger: u32) -> Result<
        VolumeTracker,
        ArithmeticError,
    > {
        let volume = self.total_volume_all_time + amount;
        if !fits_i128(volume) {
            Err(ArithmeticError::Overflow)
        } else {
            Ok(
                VolumeTracker {
                    total_volume_24h: volume as i128,
                    total_volume_7d: volume as i128,
                    total_volume_all_time: volume as i128,
                    last_swap_ledger: ledger,
                },
            )
        }
    }

    /// Records a swap of `amount` at `ledger`.  On an error the tracker is
    /// as before.
    pub fn update_volume(&mut self, amount: i128, ledger: u32) -> (result: Result<
        (),
        ArithmeticError,
    >)
        ensures
            match old(self).after_swap(amount as int, ledger) {
                Ok(tracker) => result is Ok && *final(self) == tracker && final(self).wf(),
                Err(error) => result == Err::<(), ArithmeticError>(error) && *final(self) == *old(
                    self,
                ),
            },
    {
        let volume = match checked_add(self.total_volume_all_time, amount) {
            Ok(v) => v,
            Err(e) => {
                return Err(e);
            },
        };
        self.total_volume_all_time = volume;
        self.total_volume_24h = volume;
        self.total_volume_7d = volume;
        self.last_swap_ledger = ledger;
        Ok(())
    }
}

} // verus!
