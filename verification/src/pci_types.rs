//! Small PCI value types.
use vstd::prelude::*;

verus! {

pub enum PciInterruptPin {
    IntA,
    IntB,
    IntC,
    IntD,
}

impl PciInterruptPin {
    pub fn to_mask(&self) -> (r: u32)
        ensures
            r == match self {
                PciInterruptPin::IntA => 0u32,
                PciInterruptPin::IntB => 1u32,
                PciInterruptPin::IntC => 2u32,
                PciInterruptPin::IntD => 3u32,
            },
    {
        match self {
            PciInterruptPin::IntA => 0,
            PciInterruptPin::IntB => 1,
            PciInterruptPin::IntC => 2,
            PciInterruptPin::IntD => 3,
        }
    }
}

} // verus!
