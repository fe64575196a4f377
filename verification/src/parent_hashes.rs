//! The parent hashes that an attestation signs over.

use vstd::prelude::*;
use crate::types::Hash256;

verus! {

/// Why no list of parent hashes could be derived.
#[derive(Clone, Copy, Debug, PartialEq, Eq, Structural)]
pub enum ParentHashesError {
    /// The canonical window does not hold two cycles of hashes.
    BadCurrentHashes,
    /// More oblique hashes than a cycle has slots.
    BadObliqueHashes,
    /// The attestation is further than one cycle behind the block.
    SlotTooLow,
    /// The attestation is ahead of the block.
    SlotTooHigh,
    /// An offset into the window did not fit its integer type.
    IntWrapping,
}

/// Where in the canonical window the hashes of an attestation start: the
/// window ends at the block, so an attestation `d` slots behind the block
/// starts `d` places before the middle.
pub open spec fn window_start(cycle_length: u8, block_slot: u64, attestation_slot: u64) -> int {
    cycle_length as int - (block_slot as int - attestation_slot as int)
}

/// The outcome of deriving the parent hashes. The checks are made in the
/// order written, and the first that fails names the error. On success the
/// result is one cycle of hashes: the canonical ones from `window_start` on,
/// with the last of them replaced by the oblique hashes.
pub open spec fn parent_hashes_spec(
    cycle_length: u8,
    block_slot: u64,
    attestation_slot: u64,
    current_hashes: Seq<Hash256>,
    oblique_hashes: Seq<Hash256>,
) -> Result<Seq<Hash256>, ParentHashesError> {
    if current_hashes.len() != 2 * (cycle_length as int) {
        Err(ParentHashesError::BadCurrentHashes)
    } else if oblique_hashes.len() > cycle_length as int {
        Err(ParentHashesError::BadObliqueHashes)
    } else if attestation_slot > block_slot {
        Err(ParentHashesError::SlotTooHigh)
    } else if block_slot - attestation_slot > cycle_length as int {
        Err(ParentHashesError::SlotTooLow)
    } else {
        let start = window_start(cycle_length, block_slot, attestation_slot);
        let end = start + cycle_length as int - oblique_hashes.len();
        Ok(current_hashes.subrange(start, end) + oblique_hashes)
    }
}

/// Derives the parent hashes that an attestation at `attestation_slot`,
/// included in a block at `block_slot`, signs over.
pub fn attestation_parent_hashes(
    cycle_length: u8,
    block_slot: u64,
    attestation_slot: u64,
    current_hashes: &Vec<Hash256>,
    oblique_hashes: &Vec<Hash256>,
) -> (derived: Result<Vec<Hash256>, ParentHashesError>)
    ensures
        match parent_hashes_spec(
            cycle_length,
            block_slot,
            attestation_slot,
            current_hashes@,
            oblique_hashes@,
        ) {
            Ok(hashes) => derived is Ok && derived.unwrap()@ == hashes,
            Err(e) => derived == Err::<Vec<Hash256>, ParentHashesError>(e),
        },
        derived is Ok ==> derived.unwrap()@.len() == cycle_length,
        derived != Err::<Vec<Hash256>, ParentHashesError>(ParentHashesError::IntWrapping),
{
    let cycle: usize = cycle_length as usize;
    if current_hashes.len() != 2 * cycle {
        return Err(ParentHashesError::BadCurrentHashes);
    }
    if oblique_hashes.len() > cycle {
        return Err(ParentHashesError::BadObliqueHashes);
    }
    if attestation_slot > block_slot {
        return Err(ParentHashesError::SlotTooHigh);
    }
    let distance: u64 = block_slot - attestation_slot;
    if distance > cycle_length as u64 {
        return Err(ParentHashesError::SlotTooLow);
    }
    let start: usize = cycle - distance as usize;
    let end: usize = match start.checked_add(cycle) {
        Some(sum) => match sum.checked_sub(oblique_hashes.len()) {
            Some(end) => end,
            None => { return Err(ParentHashesError::IntWrapping); },
        },
        None => { return Err(ParentHashesError::IntWrapping); },
    };
    let mut hashes: Vec<Hash256> = Vec::new();
    let mut i: usize = start;
    while i < end
        invariant
            start <= i <= end <= current_hashes@.len(),
            hashes@ == current_hashes@.subrange(start as int, i as int),
        decreases end - i,
    {
        hashes.push(current_hashes[i]);
        proof {
            assert(hashes@ =~= current_hashes@.subrange(start as int, i + 1));
        }
        i = i + 1;
    }
    let ghost canonical = hashes@;
    let mut j: usize = 0;
    while j < oblique_hashes.len()
        invariant
            j <= oblique_hashes@.len(),
            hashes@ == canonical + oblique_hashes@.take(j as int),
        decreases oblique_hashes@.len() - j,
    {
        hashes.push(oblique_hashes[j]);
        proof {
            assert(hashes@ =~= canonical + oblique_hashes@.take(j + 1));
        }
        j = j + 1;
    }
    proof {
        assert(oblique_hashes@.take(j as int) =~= oblique_hashes@);
    }
    Ok(hashes)
}

} // verus!
