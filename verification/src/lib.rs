//! Validation of committee attestations for a proof-of-stake beacon chain.
//!
//! An attestation is accepted when it passes an ordered list of structural
//! checks, when the parent hashes it signs over can be derived from the
//! canonical window, and when its aggregate signature verifies against the
//! keys of the committee members that its bitfield selects.
//!
//! The hash function, the validator registry and the signature scheme belong
//! to the caller and are handed in as function values.

pub mod types;
pub mod error;
pub mod parent_hashes;
pub mod signed_message;
pub mod pub_keys;
pub mod validation;

pub use error::AttestationValidationError;
pub use parent_hashes::{attestation_parent_hashes, ParentHashesError};
pub use pub_keys::{bytes_for_bits, collect_pub_keys};
pub use signed_message::{encode_signed_message, generate_signed_message};
pub use types::{AttestationRecord, AttesterMap, Bitfield, CommitteeEntry, Hash256};
pub use validation::{signature_outcome, validate_attestation};
