//! From a committee and a bitfield to the public keys of those who signed.

use vstd::prelude::*;
use crate::error::AttestationValidationError;
use crate::types::{bit_at, bit_in_byte, Bitfield};

verus! {

/// The number of bytes that hold `bits` bits: `bits / 8`, rounded up.
pub open spec fn bytes_needed(bits: int) -> int {
    (bits + 7) / 8
}

/// The number of bytes that hold `bits` bits.
pub fn bytes_for_bits(bits: usize) -> (bytes: usize)
    ensures
        bytes == bytes_needed(bits as int),
{
    if bits % 8 == 0 {
        bits / 8
    } else {
        bits / 8 + 1
    }
}

/// Whether a bitfield over `size` positions has a bit set at position
/// `size` or later: in the padding of its last byte, or in a byte too many.
pub open spec fn has_trailing_bits(bytes: Seq<u8>, size: int) -> bool {
    exists|i: int| size <= i < 8 * bytes.len() && #[trigger] bit_at(bytes, i)
}

/// The members of a committee whose position is set in the bitfield, in
/// committee order.
pub open spec fn selected_members(committee: Seq<usize>, bytes: Seq<u8>) -> Seq<usize>
    decreases committee.len(),
{
    if committee.len() == 0 {
        Seq::<usize>::empty()
    } else {
        let before = selected_members(committee.drop_last(), bytes);
        if bit_at(bytes, committee.len() - 1) {
            before.push(committee.last())
        } else {
            before
        }
    }
}

/// No bit is set in a byte that is zero.
pub proof fn lemma_zero_byte_has_no_bit(k: int)
    ensures
        !bit_in_byte(0u8, k),
{
    if 0 <= k < 8 {
        let shift = k as u8;
        assert(shift < 8 ==> (0u8 & (0x80u8 >> shift)) == 0) by (bit_vector);
    }
}

/// A bitfield that is zero in every byte sets no position: it selects no
/// member of any committee and has no trailing bits.
pub proof fn lemma_zero_bytes_select_nothing(committee: Seq<usize>, bytes: Seq<u8>)
    requires
        forall|i: int| 0 <= i < bytes.len() ==> bytes[i] == 0,
    ensures
        selected_members(committee, bytes).len() == 0,
        !has_trailing_bits(bytes, committee.len() as int),
    decreases committee.len(),
{
    assert forall|i: int| !bit_at(bytes, i) by {
        lemma_zero_byte_has_no_bit(i % 8);
    }
    if committee.len() > 0 {
        lemma_zero_bytes_select_nothing(committee.drop_last(), bytes);
    }
}

/// The members that a bitfield selects belong to the committee, and where
/// the committee names no member twice, neither does the selection: no key
/// is combined twice.
pub proof fn lemma_selected_members_distinct(committee: Seq<usize>, bytes: Seq<u8>)
    ensures
        forall|member: usize|
            selected_members(committee, bytes).contains(member) ==> committee.contains(member),
        selected_members(committee, bytes).len() <= committee.len(),
        committee.no_duplicates() ==> selected_members(committee, bytes).no_duplicates(),
    decreases committee.len(),
{
    if committee.len() > 0 {
        let shorter = committee.drop_last();
        let before = selected_members(shorter, bytes);
        let chosen = selected_members(committee, bytes);
        lemma_selected_members_distinct(shorter, bytes);
        assert forall|member: usize| chosen.contains(member) implies committee.contains(
            member,
        ) by {
            let at = choose|i: int| 0 <= i < chosen.len() && chosen[i] == member;
            if at < before.len() {
                assert(before[at] == member);
                assert(before.contains(member));
                assert(shorter.contains(member));
                let from = choose|i: int| 0 <= i < shorter.len() && shorter[i] == member;
                assert(committee[from] == member);
            } else {
                assert(committee[committee.len() - 1] == member);
            }
        }
        if committee.no_duplicates() {
            assert(shorter.no_duplicates());
            assert forall|i: int, j: int|
                0 <= i < chosen.len() && 0 <= j < chosen.len() && i != j implies chosen[i]
                != chosen[j] by {
                if i < before.len() && j < before.len() {
                } else {
                    let inner = if i < before.len() {
                        i
                    } else {
                        j
                    };
                    assert(before.contains(before[inner]));
                    assert(shorter.contains(before[inner]));
                    let from = choose|k: int| 0 <= k < shorter.len() && shorter[k] == before[inner];
                    assert(committee[from] != committee[committee.len() - 1]);
                }
            }
        }
    }
}

/// Whether `keys` are what the registry gave for `members`, one for one.
pub open spec fn resolved_by<P, R: Fn(usize) -> P>(
    registry: &R,
    members: Seq<usize>,
    keys: Seq<P>,
) -> bool {
    keys.len() == members.len() && forall|j: int|
        0 <= j < members.len() ==> #[trigger] registry.ensures((members[j],), keys[j])
}

/// Looks up in the registry the public key of each committee member whose
/// position is set in the bitfield, in committee order.
///
/// A bit set at or past the committee's size is refused before anything is
/// looked up. Where no position is set there is nothing to return.
pub fn collect_pub_keys<P, R: Fn(usize) -> P>(
    attestation_indices: &Vec<usize>,
    bitfield: &Bitfield,
    registry: &R,
) -> (outcome: Result<Option<Vec<P>>, AttestationValidationError>)
    requires
        forall|index: usize| registry.requires((index,)),
    ensures
        outcome is Err <==> has_trailing_bits(bitfield@, attestation_indices@.len() as int),
        outcome is Err ==> outcome->Err_0 == AttestationValidationError::NonZeroTrailingBits,
        outcome is Ok ==> (outcome->Ok_0 is None <==> selected_members(
            attestation_indices@,
            bitfield@,
        ).len() == 0),
        outcome is Ok && outcome->Ok_0 is Some ==> resolved_by(
            registry,
            selected_members(attestation_indices@, bitfield@),
            outcome->Ok_0->Some_0@,
        ),
{
    let size: usize = attestation_indices.len();
    let total: u128 = 8 * (bitfield.num_bytes() as u128);
    let mut p: u128 = size as u128;
    while p < total
        invariant
            size <= p,
            size == attestation_indices@.len(),
            total == 8 * bitfield@.len(),
            forall|i: int| size <= i < p ==> !bit_at(bitfield@, i),
        decreases total - p,
    {
        if bitfield.get_bit(p) {
            proof {
                let witness = p as int;
                assert(size <= witness < 8 * bitfield@.len() && bit_at(bitfield@, witness));
            }
            return Err(AttestationValidationError::NonZeroTrailingBits);
        }
        p = p + 1;
    }
    let mut keys: Vec<P> = Vec::new();
    let mut i: usize = 0;
    while i < size
        invariant
            i <= size,
            size == attestation_indices@.len(),
            forall|index: usize| registry.requires((index,)),
            resolved_by(
                registry,
                selected_members(attestation_indices@.take(i as int), bitfield@),
                keys@,
            ),
        decreases size - i,
    {
        proof {
            assert(attestation_indices@.take(i + 1).drop_last() =~= attestation_indices@.take(
                i as int,
            ));
        }
        if bitfield.get_bit(i as u128) {
            let key = registry(attestation_indices[i]);
            keys.push(key);
        }
        i = i + 1;
    }
    proof {
        assert(attestation_indices@.take(i as int) =~= attestation_indices@);
    }
    if keys.len() == 0 {
        Ok(None)
    } else {
        Ok(Some(keys))
    }
}

} // verus!
