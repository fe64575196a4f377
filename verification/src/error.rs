//! Why an attestation is refused.

use vstd::prelude::*;
use crate::parent_hashes::ParentHashesError;

verus! {

/// Every reason for which an attestation is refused. A refusal is final:
/// the same inputs are refused again for the same reason.
#[derive(Clone, Copy, Debug, PartialEq, Eq, Structural)]
pub enum AttestationValidationError {
    /// The attestation is for a slot after the block's.
    SlotTooHigh,
    /// The attestation is too many slots behind the block.
    SlotTooLow,
    /// The attestation holds a slot justified that is not yet known to be.
    JustifiedSlotTooHigh,
    /// More oblique hashes than a cycle has slots.
    TooManyObliqueHashes,
    /// The canonical window does not hold two cycles of hashes.
    BadCurrentHashes,
    /// The oblique hashes do not fit the window.
    BadObliqueHashes,
    /// No committee is known for the attestation's slot and shard.
    BadAttesterMap,
    /// An offset into the window did not fit its integer type.
    IntWrapping,
    /// The bitfield has not one bit for each committee member, rounded up
    /// to whole bytes.
    IncorrectBitField,
    /// The bitfield selects no signer.
    NoSignatures,
    /// The bitfield has a bit set at or past the committee's size.
    NonZeroTrailingBits,
    /// The aggregate signature does not verify.
    AggregateSignatureFail,
}

/// The refusal that stands for a failure to derive the parent hashes: the
/// one of the same name.
pub open spec fn parent_hashes_refusal(e: ParentHashesError) -> AttestationValidationError {
    match e {
        ParentHashesError::BadCurrentHashes => AttestationValidationError::BadCurrentHashes,
        ParentHashesError::BadObliqueHashes => AttestationValidationError::BadObliqueHashes,
        ParentHashesError::SlotTooLow => AttestationValidationError::SlotTooLow,
        ParentHashesError::SlotTooHigh => AttestationValidationError::SlotTooHigh,
        ParentHashesError::IntWrapping => AttestationValidationError::IntWrapping,
    }
}

impl From<ParentHashesError> for AttestationValidationError {
    fn from(e: ParentHashesError) -> (refusal: AttestationValidationError) {
        match e {
            ParentHashesError::BadCurrentHashes => AttestationValidationError::BadCurrentHashes,
            ParentHashesError::BadObliqueHashes => AttestationValidationError::BadObliqueHashes,
            ParentHashesError::SlotTooLow => AttestationValidationError::SlotTooLow,
            ParentHashesError::SlotTooHigh => AttestationValidationError::SlotTooHigh,
            ParentHashesError::IntWrapping => AttestationValidationError::IntWrapping,
        }
    }
}

impl vstd::std_specs::convert::FromSpecImpl<ParentHashesError> for AttestationValidationError {
    open spec fn obeys_from_spec() -> bool {
        true
    }

    open spec fn from_spec(e: ParentHashesError) -> AttestationValidationError {
        parent_hashes_refusal(e)
    }
}

} // verus!
