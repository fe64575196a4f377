//! The checks that an attestation passes before it is accepted, in their
//! order.

use vstd::prelude::*;
use crate::error::{parent_hashes_refusal, AttestationValidationError};
use crate::parent_hashes::{attestation_parent_hashes, parent_hashes_spec};
use crate::pub_keys::{
    bytes_for_bits,
    bytes_needed,
    collect_pub_keys,
    has_trailing_bits,
    lemma_selected_members_distinct,
    lemma_zero_bytes_select_nothing,
    resolved_by,
    selected_members,
};
use crate::signed_message::{generate_signed_message, signed_message_bytes};
use crate::types::{bit_at, AttestationRecord, AttesterMap, Hash256};

verus! {

/// The lowest slot that a block at `block_slot` accepts an attestation for:
/// `cycle_length + 1` slots before the block, or slot 0 where the chain is
/// not that long yet.
pub open spec fn lowest_slot(block_slot: u64, cycle_length: u8) -> int {
    if block_slot >= cycle_length + 1 {
        block_slot - (cycle_length + 1)
    } else {
        0
    }
}

/// Whether an attestation's slot is not too far behind the block.
pub open spec fn slot_in_reach(slot: u64, block_slot: u64, cycle_length: u8) -> bool {
    slot >= lowest_slot(block_slot, cycle_length)
}

/// Whether an attestation brings no more oblique hashes than a cycle has
/// slots.
pub open spec fn oblique_count_allowed(count: nat, cycle_length: u8) -> bool {
    count <= cycle_length
}

/// Whether a bitfield of `bitfield_bytes` bytes has the length that a
/// committee of `committee_size` members asks for.
pub open spec fn bitfield_length_fits(bitfield_bytes: nat, committee_size: nat) -> bool {
    bitfield_bytes == bytes_needed(committee_size as int)
}

/// What is left to do once an attestation has passed every check but that
/// of its signature.
pub struct SignatureCheck {
    /// The signed message before hashing.
    pub message: Seq<u8>,
    /// The committee members that signed, in committee order.
    pub signers: Seq<usize>,
}

/// The checks on slots, oblique hashes, committee and bitfield length, and
/// the derivation of the parent hashes: the first that fails names the
/// refusal. On success, the committee and the parent hashes.
pub open spec fn committee_and_parents(
    a: AttestationRecord,
    block_slot: u64,
    cycle_length: u8,
    known_last_justified_slot: u64,
    known_parent_hashes: Seq<Hash256>,
    attester_map: Map<(u64, u64), Seq<usize>>,
) -> Result<(Seq<usize>, Seq<Hash256>), AttestationValidationError> {
    if a.slot > block_slot {
        Err(AttestationValidationError::SlotTooHigh)
    } else if !slot_in_reach(a.slot, block_slot, cycle_length) {
        Err(AttestationValidationError::SlotTooLow)
    } else if a.justified_slot > known_last_justified_slot {
        Err(AttestationValidationError::JustifiedSlotTooHigh)
    } else if !oblique_count_allowed(a.oblique_parent_hashes@.len(), cycle_length) {
        Err(AttestationValidationError::TooManyObliqueHashes)
    } else if !attester_map.contains_key((a.slot, a.shard_id as u64)) {
        Err(AttestationValidationError::BadAttesterMap)
    } else {
        let committee = attester_map[(a.slot, a.shard_id as u64)];
        if !bitfield_length_fits(a.attester_bitfield@.len(), committee.len()) {
            Err(AttestationValidationError::IncorrectBitField)
        } else {
            match parent_hashes_spec(
                cycle_length,
                block_slot,
                a.slot,
                known_parent_hashes,
                a.oblique_parent_hashes@,
            ) {
                Err(e) => Err(parent_hashes_refusal(e)),
                Ok(hashes) => Ok((committee, hashes)),
            }
        }
    }
}

/// Every check but that of the signature, in order: those of
/// `committee_and_parents`, then that no bit is set past the committee, then
/// that some member signed. On success, the message and the signers that the
/// signature is to be checked against.
pub open spec fn structural_checks(
    a: AttestationRecord,
    block_slot: u64,
    cycle_length: u8,
    known_last_justified_slot: u64,
    known_parent_hashes: Seq<Hash256>,
    attester_map: Map<(u64, u64), Seq<usize>>,
) -> Result<SignatureCheck, AttestationValidationError> {
    match committee_and_parents(
        a,
        block_slot,
        cycle_length,
        known_last_justified_slot,
        known_parent_hashes,
        attester_map,
    ) {
        Err(e) => Err(e),
        Ok((committee, hashes)) => {
            if has_trailing_bits(a.attester_bitfield@, committee.len() as int) {
                Err(AttestationValidationError::NonZeroTrailingBits)
            } else if selected_members(committee, a.attester_bitfield@).len() == 0 {
                Err(AttestationValidationError::NoSignatures)
            } else {
                Ok(
                    (SignatureCheck {
                        message: signed_message_bytes(
                            a.slot,
                            hashes,
                            a.shard_id,
                            a.shard_block_hash,
                            a.justified_slot,
                        ),
                        signers: selected_members(committee, a.attester_bitfield@),
                    }),
                )
            }
        },
    }
}

/// The verdict on an attestation that passed every other check, by whether
/// its signature verified.
pub open spec fn signature_verdict(valid: bool) -> Result<bool, AttestationValidationError> {
    if valid {
        Ok(true)
    } else {
        Err(AttestationValidationError::AggregateSignatureFail)
    }
}

/// The verdict on an attestation that passed every other check: accepted
/// where the signature verified, refused where it did not.
pub fn signature_outcome(valid: bool) -> (verdict: Result<bool, AttestationValidationError>)
    ensures
        verdict == signature_verdict(valid),
{
    if valid {
        Ok(true)
    } else {
        Err(AttestationValidationError::AggregateSignatureFail)
    }
}

/// Whether `verdict` is what the signature scheme gives for an attestation
/// that passed the structural checks with `check` left to do: the message
/// hashed, each signer's key looked up, the keys combined, and the signature
/// verified against digest and combined key.
pub open spec fn verified_by<P, H, R, G, V>(
    check: SignatureCheck,
    signature: Vec<u8>,
    hash: &H,
    registry: &R,
    aggregate: &G,
    verify: &V,
    verdict: Result<bool, AttestationValidationError>,
) -> bool where
    H: Fn(&Vec<u8>) -> Vec<u8>,
    R: Fn(usize) -> P,
    G: Fn(Vec<P>) -> P,
    V: Fn(&Vec<u8>, &Vec<u8>, &P) -> bool,
{
    exists|message: Vec<u8>, digest: Vec<u8>, keys: Vec<P>, key: P, valid: bool|
        message@ == check.message && #[trigger] hash.ensures((&message,), digest) && resolved_by(
            registry,
            check.signers,
            keys@,
        ) && #[trigger] aggregate.ensures((keys,), key) && #[trigger] verify.ensures(
            (&digest, &signature, &key),
            valid,
        ) && verdict == signature_verdict(valid)
}

/// Whether hash, registry and signature scheme are functions of what they
/// are given: called twice on the same values, each returns the same value.
pub open spec fn scheme_is_functional<P, H, R, G, V>(
    hash: &H,
    registry: &R,
    aggregate: &G,
    verify: &V,
) -> bool where
    H: Fn(&Vec<u8>) -> Vec<u8>,
    R: Fn(usize) -> P,
    G: Fn(Vec<P>) -> P,
    V: Fn(&Vec<u8>, &Vec<u8>, &P) -> bool,
{
    &&& forall|m1: Vec<u8>, m2: Vec<u8>, d1: Vec<u8>, d2: Vec<u8>|
        m1@ == m2@ && #[trigger] hash.ensures((&m1,), d1) && #[trigger] hash.ensures((&m2,), d2)
            ==> d1@ == d2@
    &&& forall|index: usize, k1: P, k2: P|
        #[trigger] registry.ensures((index,), k1) && #[trigger] registry.ensures((index,), k2)
            ==> k1 == k2
    &&& forall|keys1: Vec<P>, keys2: Vec<P>, k1: P, k2: P|
        keys1@ == keys2@ && #[trigger] aggregate.ensures((keys1,), k1)
            && #[trigger] aggregate.ensures((keys2,), k2) ==> k1 == k2
    &&& forall|d1: Vec<u8>, d2: Vec<u8>, signature: Vec<u8>, key: P, v1: bool, v2: bool|
        d1@ == d2@ && #[trigger] verify.ensures((&d1, &signature, &key), v1)
            && #[trigger] verify.ensures((&d2, &signature, &key), v2) ==> v1 == v2
}

/// Validation is repeatable: where hash, registry and signature scheme are
/// functions of what they are given, an attestation that passed the
/// structural checks has one verdict only. The same fields give the same
/// digest, the same signers the same combined key, and so the same answer
/// each time.
pub proof fn lemma_verdict_is_determined<P, H, R, G, V>(
    check: SignatureCheck,
    signature: Vec<u8>,
    hash: &H,
    registry: &R,
    aggregate: &G,
    verify: &V,
    first: Result<bool, AttestationValidationError>,
    second: Result<bool, AttestationValidationError>,
) where
    H: Fn(&Vec<u8>) -> Vec<u8>,
    R: Fn(usize) -> P,
    G: Fn(Vec<P>) -> P,
    V: Fn(&Vec<u8>, &Vec<u8>, &P) -> bool,

    requires
        scheme_is_functional(hash, registry, aggregate, verify),
        verified_by(check, signature, hash, registry, aggregate, verify, first),
        verified_by(check, signature, hash, registry, aggregate, verify, second),
    ensures
        first == second,
{
    let (m1, d1, keys1, key1, v1) = choose|
        message: Vec<u8>,
        digest: Vec<u8>,
        keys: Vec<P>,
        key: P,
        valid: bool,
    |
        message@ == check.message && #[trigger] hash.ensures((&message,), digest) && resolved_by(
            registry,
            check.signers,
            keys@,
        ) && #[trigger] aggregate.ensures((keys,), key) && #[trigger] verify.ensures(
            (&digest, &signature, &key),
            valid,
        ) && first == signature_verdict(valid);
    let (m2, d2, keys2, key2, v2) = choose|
        message: Vec<u8>,
        digest: Vec<u8>,
        keys: Vec<P>,
        key: P,
        valid: bool,
    |
        message@ == check.message && #[trigger] hash.ensures((&message,), digest) && resolved_by(
            registry,
            check.signers,
            keys@,
        ) && #[trigger] aggregate.ensures((keys,), key) && #[trigger] verify.ensures(
            (&digest, &signature, &key),
            valid,
        ) && second == signature_verdict(valid);
    assert(d1@ == d2@);
    assert forall|j: int| 0 <= j < check.signers.len() implies keys1@[j] == keys2@[j] by {
        assert(registry.ensures((check.signers[j],), keys1@[j]));
        assert(registry.ensures((check.signers[j],), keys2@[j]));
    }
    assert(keys1@ =~= keys2@);
    assert(key1 == key2);
    assert(v1 == v2);
}

/// Decides whether an attestation included in a block at `block_slot` is
/// accepted.
///
/// The checks run in a fixed order and the first that fails names the
/// refusal: the slot is not after the block's; it is not more than
/// `cycle_length + 1` slots before it; the justified slot is not after the
/// last one known; there are no more oblique hashes than slots in a cycle;
/// the map has a committee for the slot and shard; the bitfield has the
/// length for that committee; the parent hashes can be derived; no bit is set
/// past the committee; some member signed; the aggregate signature verifies
/// for the digest of the signed message under the combined key of the
/// signers. An accepted attestation gives `Ok(true)`, and no signer's key
/// went into the combined key twice.
///
/// Hash, registry and signature scheme are the caller's. They are called
/// only after the checks that can be made without them, with `hash` first.
pub fn validate_attestation<P, H, R, G, V>(
    a: &AttestationRecord,
    block_slot: u64,
    cycle_length: u8,
    known_last_justified_slot: u64,
    known_parent_hashes: &Vec<Hash256>,
    attester_map: &AttesterMap,
    hash: &H,
    registry: &R,
    aggregate: &G,
    verify: &V,
) -> (verdict: Result<bool, AttestationValidationError>) where
    H: Fn(&Vec<u8>) -> Vec<u8>,
    R: Fn(usize) -> P,
    G: Fn(Vec<P>) -> P,
    V: Fn(&Vec<u8>, &Vec<u8>, &P) -> bool,

    requires
        forall|message: &Vec<u8>| hash.requires((message,)),
        forall|index: usize| registry.requires((index,)),
        forall|keys: Vec<P>| aggregate.requires((keys,)),
        forall|digest: &Vec<u8>, signature: &Vec<u8>, key: &P|
            verify.requires((digest, signature, key)),
    ensures
        match structural_checks(
            *a,
            block_slot,
            cycle_length,
            known_last_justified_slot,
            known_parent_hashes@,
            attester_map@,
        ) {
            Err(e) => verdict == Err::<bool, AttestationValidationError>(e),
            Ok(check) => verified_by(
                check,
                a.aggregate_signature,
                hash,
                registry,
                aggregate,
                verify,
                verdict,
            ),
        },
        verdict is Ok ==> verdict == Ok::<bool, AttestationValidationError>(true),
        verdict is Ok ==> selected_members(
            attester_map@[(a.slot, a.shard_id as u64)],
            a.attester_bitfield@,
        ).no_duplicates(),
{
    if a.slot > block_slot {
        return Err(AttestationValidationError::SlotTooHigh);
    }
    let reach: u64 = cycle_length as u64 + 1;
    if a.slot < block_slot.saturating_sub(reach) {
        return Err(AttestationValidationError::SlotTooLow);
    }
    if a.justified_slot > known_last_justified_slot {
        return Err(AttestationValidationError::JustifiedSlotTooHigh);
    }
    if a.oblique_parent_hashes.len() > cycle_length as usize {
        return Err(AttestationValidationError::TooManyObliqueHashes);
    }
    let committee = match attester_map.get(a.slot, a.shard_id as u64) {
        Some(committee) => committee,
        None => { return Err(AttestationValidationError::BadAttesterMap); },
    };
    if a.attester_bitfield.num_bytes() != bytes_for_bits(committee.len()) {
        return Err(AttestationValidationError::IncorrectBitField);
    }
    let parent_hashes = match attestation_parent_hashes(
        cycle_length,
        block_slot,
        a.slot,
        known_parent_hashes,
        &a.oblique_parent_hashes,
    ) {
        Ok(hashes) => hashes,
        Err(e) => { return Err(AttestationValidationError::from(e)); },
    };
    let digest = generate_signed_message(
        a.slot,
        parent_hashes.as_slice(),
        a.shard_id,
        &a.shard_block_hash,
        a.justified_slot,
        hash,
    );
    let keys = match collect_pub_keys(committee, &a.attester_bitfield, registry) {
        Err(e) => { return Err(e); },
        Ok(None) => { return Err(AttestationValidationError::NoSignatures); },
        Ok(Some(keys)) => keys,
    };
    let ghost resolved = keys;
    let key = aggregate(keys);
    let valid = verify(&digest, &a.aggregate_signature, &key);
    let verdict = signature_outcome(valid);
    proof {
        lemma_selected_members_distinct(committee@, a.attester_bitfield@);
        let check = structural_checks(
            *a,
            block_slot,
            cycle_length,
            known_last_justified_slot,
            known_parent_hashes@,
            attester_map@,
        )->Ok_0;
        let message = choose|m: Vec<u8>|
            m@ == check.message && #[trigger] hash.ensures((&m,), digest);
        assert(hash.ensures((&message,), digest) && aggregate.ensures((resolved,), key)
            && verify.ensures((&digest, &a.aggregate_signature, &key), valid));
    }
    verdict
}

/// An attestation for a slot after the block's is refused as too high,
/// whatever else it holds.
pub proof fn lemma_slot_after_block_is_too_high(
    a: AttestationRecord,
    block_slot: u64,
    cycle_length: u8,
    known_last_justified_slot: u64,
    known_parent_hashes: Seq<Hash256>,
    attester_map: Map<(u64, u64), Seq<usize>>,
)
    requires
        a.slot > block_slot,
    ensures
        structural_checks(
            a,
            block_slot,
            cycle_length,
            known_last_justified_slot,
            known_parent_hashes,
            attester_map,
        ) == Err::<SignatureCheck, AttestationValidationError>(
            AttestationValidationError::SlotTooHigh,
        ),
{
}

/// An attestation for a slot more than `cycle_length + 1` slots before the
/// block's is refused as too low, whatever else it holds.
pub proof fn lemma_slot_out_of_reach_is_too_low(
    a: AttestationRecord,
    block_slot: u64,
    cycle_length: u8,
    known_last_justified_slot: u64,
    known_parent_hashes: Seq<Hash256>,
    attester_map: Map<(u64, u64), Seq<usize>>,
)
    requires
        a.slot < lowest_slot(block_slot, cycle_length),
    ensures
        structural_checks(
            a,
            block_slot,
            cycle_length,
            known_last_justified_slot,
            known_parent_hashes,
            attester_map,
        ) == Err::<SignatureCheck, AttestationValidationError>(
            AttestationValidationError::SlotTooLow,
        ),
{
}

/// The slot exactly `cycle_length + 1` before the block's is in reach, and
/// so is every slot of a chain shorter than that.
pub proof fn lemma_lowest_slot_is_in_reach(slot: u64, block_slot: u64, cycle_length: u8)
    ensures
        slot == block_slot - (cycle_length + 1) ==> slot_in_reach(slot, block_slot, cycle_length),
        block_slot <= cycle_length + 1 ==> slot_in_reach(slot, block_slot, cycle_length),
        slot_in_reach(slot, block_slot, cycle_length) <==> slot + cycle_length + 1 >= block_slot,
{
}

/// An attestation whose slot passes, and which holds justified a slot after
/// the last one known to be, is refused for that.
pub proof fn lemma_justified_slot_after_known_is_too_high(
    a: AttestationRecord,
    block_slot: u64,
    cycle_length: u8,
    known_last_justified_slot: u64,
    known_parent_hashes: Seq<Hash256>,
    attester_map: Map<(u64, u64), Seq<usize>>,
)
    requires
        a.slot <= block_slot,
        slot_in_reach(a.slot, block_slot, cycle_length),
        a.justified_slot > known_last_justified_slot,
    ensures
        structural_checks(
            a,
            block_slot,
            cycle_length,
            known_last_justified_slot,
            known_parent_hashes,
            attester_map,
        ) == Err::<SignatureCheck, AttestationValidationError>(
            AttestationValidationError::JustifiedSlotTooHigh,
        ),
{
}

/// As many oblique hashes as a cycle has slots are allowed, one more is
/// not; an attestation that passes the checks on its slots and brings too
/// many is refused for that.
pub proof fn lemma_oblique_hashes_up_to_cycle_length(
    a: AttestationRecord,
    block_slot: u64,
    cycle_length: u8,
    known_last_justified_slot: u64,
    known_parent_hashes: Seq<Hash256>,
    attester_map: Map<(u64, u64), Seq<usize>>,
)
    requires
        a.slot <= block_slot,
        slot_in_reach(a.slot, block_slot, cycle_length),
        a.justified_slot <= known_last_justified_slot,
    ensures
        oblique_count_allowed(cycle_length as nat, cycle_length),
        !oblique_count_allowed((cycle_length + 1) as nat, cycle_length),
        a.oblique_parent_hashes@.len() > cycle_length ==> structural_checks(
            a,
            block_slot,
            cycle_length,
            known_last_justified_slot,
            known_parent_hashes,
            attester_map,
        ) == Err::<SignatureCheck, AttestationValidationError>(
            AttestationValidationError::TooManyObliqueHashes,
        ),
        a.oblique_parent_hashes@.len() <= cycle_length ==> structural_checks(
            a,
            block_slot,
            cycle_length,
            known_last_justified_slot,
            known_parent_hashes,
            attester_map,
        ) != Err::<SignatureCheck, AttestationValidationError>(
            AttestationValidationError::TooManyObliqueHashes,
        ),
{
}

/// A bitfield fits a committee at one length only: a byte more or a byte
/// less does not. An attestation that passes the checks before, and whose
/// bitfield does not fit its committee, is refused for that.
pub proof fn lemma_bitfield_length_is_exact(
    a: AttestationRecord,
    block_slot: u64,
    cycle_length: u8,
    known_last_justified_slot: u64,
    known_parent_hashes: Seq<Hash256>,
    attester_map: Map<(u64, u64), Seq<usize>>,
    committee_size: nat,
)
    requires
        a.slot <= block_slot,
        slot_in_reach(a.slot, block_slot, cycle_length),
        a.justified_slot <= known_last_justified_slot,
        oblique_count_allowed(a.oblique_parent_hashes@.len(), cycle_length),
        attester_map.contains_key((a.slot, a.shard_id as u64)),
        attester_map[(a.slot, a.shard_id as u64)].len() == committee_size,
    ensures
        bitfield_length_fits(bytes_needed(committee_size as int) as nat, committee_size),
        !bitfield_length_fits((bytes_needed(committee_size as int) + 1) as nat, committee_size),
        bytes_needed(committee_size as int) >= 1 ==> !bitfield_length_fits(
            (bytes_needed(committee_size as int) - 1) as nat,
            committee_size,
        ),
        a.attester_bitfield@.len() != bytes_needed(committee_size as int) ==> structural_checks(
            a,
            block_slot,
            cycle_length,
            known_last_justified_slot,
            known_parent_hashes,
            attester_map,
        ) == Err::<SignatureCheck, AttestationValidationError>(
            AttestationValidationError::IncorrectBitField,
        ),
        a.attester_bitfield@.len() == bytes_needed(committee_size as int) ==> structural_checks(
            a,
            block_slot,
            cycle_length,
            known_last_justified_slot,
            known_parent_hashes,
            attester_map,
        ) != Err::<SignatureCheck, AttestationValidationError>(
            AttestationValidationError::IncorrectBitField,
        ),
{
}

/// An attestation that passes the checks up to the parent hashes, and whose
/// bitfield is zero in every byte, is refused for want of signatures.
pub proof fn lemma_zero_bitfield_has_no_signatures(
    a: AttestationRecord,
    block_slot: u64,
    cycle_length: u8,
    known_last_justified_slot: u64,
    known_parent_hashes: Seq<Hash256>,
    attester_map: Map<(u64, u64), Seq<usize>>,
)
    requires
        committee_and_parents(
            a,
            block_slot,
            cycle_length,
            known_last_justified_slot,
            known_parent_hashes,
            attester_map,
        ) is Ok,
        forall|i: int| 0 <= i < a.attester_bitfield@.len() ==> a.attester_bitfield@[i] == 0,
    ensures
        structural_checks(
            a,
            block_slot,
            cycle_length,
            known_last_justified_slot,
            known_parent_hashes,
            attester_map,
        ) == Err::<SignatureCheck, AttestationValidationError>(
            AttestationValidationError::NoSignatures,
        ),
{
    let committee = attester_map[(a.slot, a.shard_id as u64)];
    lemma_zero_bytes_select_nothing(committee, a.attester_bitfield@);
}

/// An attestation that passes the checks up to the parent hashes, and whose
/// bitfield has a bit set at a position that the committee does not have,
/// is refused for its trailing bits, whatever its other bits are.
pub proof fn lemma_bit_past_committee_is_refused(
    a: AttestationRecord,
    block_slot: u64,
    cycle_length: u8,
    known_last_justified_slot: u64,
    known_parent_hashes: Seq<Hash256>,
    attester_map: Map<(u64, u64), Seq<usize>>,
    position: int,
)
    requires
        committee_and_parents(
            a,
            block_slot,
            cycle_length,
            known_last_justified_slot,
            known_parent_hashes,
            attester_map,
        ) is Ok,
        position >= attester_map[(a.slot, a.shard_id as u64)].len(),
        bit_at(a.attester_bitfield@, position),
    ensures
        structural_checks(
            a,
            block_slot,
            cycle_length,
            known_last_justified_slot,
            known_parent_hashes,
            attester_map,
        ) == Err::<SignatureCheck, AttestationValidationError>(
            AttestationValidationError::NonZeroTrailingBits,
        ),
{
    assert(position < 8 * a.attester_bitfield@.len());
}

} // verus!
