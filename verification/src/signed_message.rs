//! The message that the signers of an attestation sign: a fixed layout of
//! the attestation's fields, reduced to a digest by the caller's hash.
//!
//! The layout stands here alone, apart from the checks that use it, so that
//! it can be replaced without touching them.

use vstd::prelude::*;
use crate::types::Hash256;

verus! {

/// The eight bytes of `x`, most significant first.
pub open spec fn u64_be(x: u64) -> Seq<u8> {
    seq![
        ((x >> 56) & 0xff) as u8,
        ((x >> 48) & 0xff) as u8,
        ((x >> 40) & 0xff) as u8,
        ((x >> 32) & 0xff) as u8,
        ((x >> 24) & 0xff) as u8,
        ((x >> 16) & 0xff) as u8,
        ((x >> 8) & 0xff) as u8,
        (x & 0xff) as u8,
    ]
}

/// The two bytes of `x`, most significant first.
pub open spec fn u16_be(x: u16) -> Seq<u8> {
    seq![((x >> 8) & 0xff) as u8, (x & 0xff) as u8]
}

/// The bytes of a list of hashes, one hash after the other.
pub open spec fn concat_hashes(hashes: Seq<Hash256>) -> Seq<u8>
    decreases hashes.len(),
{
    if hashes.len() == 0 {
        Seq::<u8>::empty()
    } else {
        concat_hashes(hashes.drop_last()) + hashes.last()@
    }
}

/// The signed message before hashing: the slot in 8 bytes, each parent hash
/// in its 32 bytes and in order, the shard in 2 bytes, the hash of the shard
/// block in its 32 bytes, the justified slot in 8 bytes. Integers are
/// written most significant byte first.
pub open spec fn signed_message_bytes(
    slot: u64,
    parent_hashes: Seq<Hash256>,
    shard_id: u16,
    shard_block_hash: Hash256,
    justified_slot: u64,
) -> Seq<u8> {
    u64_be(slot) + concat_hashes(parent_hashes) + u16_be(shard_id) + shard_block_hash@ + u64_be(
        justified_slot,
    )
}

/// Eight bytes written most significant first stand for one integer only.
pub proof fn lemma_u64_be_injective(x: u64, y: u64)
    requires
        u64_be(x) == u64_be(y),
    ensures
        x == y,
{
    let a = u64_be(x);
    let b = u64_be(y);
    assert(a[0] == b[0] && a[1] == b[1] && a[2] == b[2] && a[3] == b[3] && a[4] == b[4] && a[5]
        == b[5] && a[6] == b[6] && a[7] == b[7]);
    assert(((x >> 56) & 0xff) as u8 == ((y >> 56) & 0xff) as u8 && ((x >> 48) & 0xff) as u8 == ((y
        >> 48) & 0xff) as u8 && ((x >> 40) & 0xff) as u8 == ((y >> 40) & 0xff) as u8 && ((x >> 32)
        & 0xff) as u8 == ((y >> 32) & 0xff) as u8 && ((x >> 24) & 0xff) as u8 == ((y >> 24)
        & 0xff) as u8 && ((x >> 16) & 0xff) as u8 == ((y >> 16) & 0xff) as u8 && ((x >> 8)
        & 0xff) as u8 == ((y >> 8) & 0xff) as u8 && (x & 0xff) as u8 == (y & 0xff) as u8 ==> x
        == y) by (bit_vector);
}

/// Two bytes written most significant first stand for one integer only.
pub proof fn lemma_u16_be_injective(x: u16, y: u16)
    requires
        u16_be(x) == u16_be(y),
    ensures
        x == y,
{
    let a = u16_be(x);
    let b = u16_be(y);
    assert(a[0] == b[0] && a[1] == b[1]);
    assert(((x >> 8) & 0xff) as u8 == ((y >> 8) & 0xff) as u8 && (x & 0xff) as u8 == (y
        & 0xff) as u8 ==> x == y) by (bit_vector);
}

/// A list of hashes takes 32 bytes for each.
pub proof fn lemma_concat_hashes_len(hashes: Seq<Hash256>)
    ensures
        concat_hashes(hashes).len() == 32 * hashes.len(),
    decreases hashes.len(),
{
    if hashes.len() > 0 {
        lemma_concat_hashes_len(hashes.drop_last());
        assert(hashes.last()@.len() == 32);
    }
}

/// Two lists of hashes with the same bytes are the same list.
pub proof fn lemma_concat_hashes_injective(first: Seq<Hash256>, second: Seq<Hash256>)
    requires
        concat_hashes(first) == concat_hashes(second),
    ensures
        first == second,
    decreases first.len(),
{
    lemma_concat_hashes_len(first);
    lemma_concat_hashes_len(second);
    if first.len() > 0 {
        let head_first = concat_hashes(first.drop_last());
        let head_second = concat_hashes(second.drop_last());
        lemma_concat_hashes_len(first.drop_last());
        lemma_concat_hashes_len(second.drop_last());
        let whole = concat_hashes(first);
        let cut = head_first.len() as int;
        assert(whole.subrange(0, cut) =~= head_first);
        assert(whole.subrange(0, cut) =~= head_second);
        assert(whole.subrange(cut, cut + 32) =~= first.last()@);
        assert(whole.subrange(cut, cut + 32) =~= second.last()@);
        lemma_concat_hashes_injective(first.drop_last(), second.drop_last());
        assert(first.last().bytes =~= second.last().bytes);
        assert(first.last() == second.last());
        assert(first =~= first.drop_last().push(first.last()));
        assert(second =~= second.drop_last().push(second.last()));
    } else {
        assert(first =~= second);
    }
}

/// The layout of the signed message loses nothing: two messages with the
/// same bytes were written from the same slot, the same parent hashes, the
/// same shard, the same shard block hash and the same justified slot. So a
/// change to any one field changes the bytes that are hashed.
pub proof fn lemma_signed_message_injective(
    slot: u64,
    parent_hashes: Seq<Hash256>,
    shard_id: u16,
    shard_block_hash: Hash256,
    justified_slot: u64,
    other_slot: u64,
    other_parent_hashes: Seq<Hash256>,
    other_shard_id: u16,
    other_shard_block_hash: Hash256,
    other_justified_slot: u64,
)
    requires
        signed_message_bytes(slot, parent_hashes, shard_id, shard_block_hash, justified_slot)
            == signed_message_bytes(
            other_slot,
            other_parent_hashes,
            other_shard_id,
            other_shard_block_hash,
            other_justified_slot,
        ),
    ensures
        slot == other_slot,
        parent_hashes == other_parent_hashes,
        shard_id == other_shard_id,
        shard_block_hash == other_shard_block_hash,
        justified_slot == other_justified_slot,
{
    let whole = signed_message_bytes(
        slot,
        parent_hashes,
        shard_id,
        shard_block_hash,
        justified_slot,
    );
    lemma_concat_hashes_len(parent_hashes);
    lemma_concat_hashes_len(other_parent_hashes);
    assert(shard_block_hash@.len() == 32 && other_shard_block_hash@.len() == 32);
    let n = 32 * parent_hashes.len() as int;
    assert(whole.len() == 8 + n + 2 + 32 + 8);
    assert(whole.len() == 8 + 32 * other_parent_hashes.len() + 2 + 32 + 8);
    assert(whole.subrange(0, 8) =~= u64_be(slot));
    assert(whole.subrange(0, 8) =~= u64_be(other_slot));
    assert(whole.subrange(8, 8 + n) =~= concat_hashes(parent_hashes));
    assert(whole.subrange(8, 8 + n) =~= concat_hashes(other_parent_hashes));
    assert(whole.subrange(8 + n, 10 + n) =~= u16_be(shard_id));
    assert(whole.subrange(8 + n, 10 + n) =~= u16_be(other_shard_id));
    assert(whole.subrange(10 + n, 42 + n) =~= shard_block_hash@);
    assert(whole.subrange(10 + n, 42 + n) =~= other_shard_block_hash@);
    assert(whole.subrange(42 + n, 50 + n) =~= u64_be(justified_slot));
    assert(whole.subrange(42 + n, 50 + n) =~= u64_be(other_justified_slot));
    lemma_u64_be_injective(slot, other_slot);
    lemma_concat_hashes_injective(parent_hashes, other_parent_hashes);
    lemma_u16_be_injective(shard_id, other_shard_id);
    assert(shard_block_hash.bytes =~= other_shard_block_hash.bytes);
    lemma_u64_be_injective(justified_slot, other_justified_slot);
}

fn push_u64_be(out: &mut Vec<u8>, x: u64)
    ensures
        final(out)@ == old(out)@ + u64_be(x),
{
    let b0: u64 = (x >> 56) & 0xff;
    let b1: u64 = (x >> 48) & 0xff;
    let b2: u64 = (x >> 40) & 0xff;
    let b3: u64 = (x >> 32) & 0xff;
    let b4: u64 = (x >> 24) & 0xff;
    let b5: u64 = (x >> 16) & 0xff;
    let b6: u64 = (x >> 8) & 0xff;
    let b7: u64 = x & 0xff;
    proof {
        assert(((x >> 56) & 0xff) < 256 && ((x >> 48) & 0xff) < 256 && ((x >> 40) & 0xff) < 256
            && ((x >> 32) & 0xff) < 256 && ((x >> 24) & 0xff) < 256 && ((x >> 16) & 0xff) < 256
            && ((x >> 8) & 0xff) < 256 && (x & 0xff) < 256) by (bit_vector);
    }
    out.push(b0 as u8);
    out.push(b1 as u8);
    out.push(b2 as u8);
    out.push(b3 as u8);
    out.push(b4 as u8);
    out.push(b5 as u8);
    out.push(b6 as u8);
    out.push(b7 as u8);
    proof {
        assert(out@ =~= old(out)@ + u64_be(x));
    }
}

fn push_u16_be(out: &mut Vec<u8>, x: u16)
    ensures
        final(out)@ == old(out)@ + u16_be(x),
{
    let b0: u16 = (x >> 8) & 0xff;
    let b1: u16 = x & 0xff;
    proof {
        assert(((x >> 8) & 0xff) < 256 && (x & 0xff) < 256) by (bit_vector);
    }
    out.push(b0 as u8);
    out.push(b1 as u8);
    proof {
        assert(out@ =~= old(out)@ + u16_be(x));
    }
}

fn push_hash(out: &mut Vec<u8>, hash: &Hash256)
    ensures
        final(out)@ == old(out)@ + hash@,
{
    let mut i: usize = 0;
    while i < 32
        invariant
            i <= 32,
            hash@.len() == 32,
            out@ == old(out)@ + hash@.take(i as int),
        decreases 32 - i,
    {
        out.push(hash.bytes[i]);
        proof {
            assert(out@ =~= old(out)@ + hash@.take(i + 1));
        }
        i = i + 1;
    }
    proof {
        assert(hash@.take(32) =~= hash@);
    }
}

/// Writes the signed message in its layout.
pub fn encode_signed_message(
    slot: u64,
    parent_hashes: &[Hash256],
    shard_id: u16,
    shard_block_hash: &Hash256,
    justified_slot: u64,
) -> (message: Vec<u8>)
    ensures
        message@ == signed_message_bytes(
            slot,
            parent_hashes@,
            shard_id,
            *shard_block_hash,
            justified_slot,
        ),
{
    let mut out: Vec<u8> = Vec::new();
    push_u64_be(&mut out, slot);
    let mut i: usize = 0;
    while i < parent_hashes.len()
        invariant
            i <= parent_hashes@.len(),
            out@ == u64_be(slot) + concat_hashes(parent_hashes@.take(i as int)),
        decreases parent_hashes@.len() - i,
    {
        push_hash(&mut out, &parent_hashes[i]);
        proof {
            assert(parent_hashes@.take(i + 1).drop_last() =~= parent_hashes@.take(i as int));
            assert(out@ =~= u64_be(slot) + concat_hashes(parent_hashes@.take(i + 1)));
        }
        i = i + 1;
    }
    proof {
        assert(parent_hashes@.take(i as int) =~= parent_hashes@);
    }
    push_u16_be(&mut out, shard_id);
    push_hash(&mut out, shard_block_hash);
    push_u64_be(&mut out, justified_slot);
    out
}

/// The digest that the signers of an attestation signed: the signed message
/// in its layout, reduced by the caller's hash function.
pub fn generate_signed_message<H: Fn(&Vec<u8>) -> Vec<u8>>(
    slot: u64,
    parent_hashes: &[Hash256],
    shard_id: u16,
    shard_block_hash: &Hash256,
    justified_slot: u64,
    hash: &H,
) -> (digest: Vec<u8>)
    requires
        forall|m: &Vec<u8>| hash.requires((m,)),
    ensures
        exists|m: Vec<u8>|
            m@ == signed_message_bytes(
                slot,
                parent_hashes@,
                shard_id,
                *shard_block_hash,
                justified_slot,
            ) && #[trigger] hash.ensures((&m,), digest),
{
    let message = encode_signed_message(
        slot,
        parent_hashes,
        shard_id,
        shard_block_hash,
        justified_slot,
    );
    hash(&message)
}

} // verus!
