//! Quantities and table lines of device-mapper devices.
use vstd::prelude::*;

verus! {

/// A number of 512-byte sectors.
#[derive(Clone, Copy, Debug, PartialEq, Eq, Structural, Hash)]
pub struct Sectors(pub u64);

impl Default for Sectors {
    fn default() -> (r: Sectors)
        ensures
            r == Sectors(0),
    {
        Sectors(0)
    }
}

/// One line of a device-mapper table: start sector, length in sectors,
/// target type and the target's parameters.
pub type TargetLine = (Sectors, Sectors, String, String);

} // verus!
