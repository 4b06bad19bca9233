//! What the analysis hands to the display: one level per bar.

use vstd::prelude::*;

verus! {

/// The level of every bar, from 0 to 255, and whether any analysis has set
/// them yet.
#[derive(Debug)]
pub struct SharedSpectrum {
    pub bars: Vec<u8>,
    pub active: bool,
}

impl SharedSpectrum {
    /// A spectrum of silent bars that no analysis has set yet.
    pub fn new(bar_count: usize) -> (r: SharedSpectrum)
        ensures
            r.bars@ == Seq::new(bar_count as nat, |i: int| 0u8),
            !r.active,
    {
        let mut bars: Vec<u8> = Vec::new();
        while bars.len() < bar_count
            invariant
                bars@.len() <= bar_count,
                forall|i: int| 0 <= i < bars@.len() ==> bars@[i] == 0,
            decreases bar_count - bars@.len(),
        {
            bars.push(0);
        }
        assert(bars@ =~= Seq::new(bar_count as nat, |i: int| 0u8));
        SharedSpectrum { bars, active: false }
    }
}

} // verus!
