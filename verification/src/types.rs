//! The data that validation reads: hashes, bitfields, attestation records and
//! the map from a slot and shard to its committee.

use vstd::prelude::*;

verus! {

/// A 32-byte hash.
#[derive(Clone, Copy, Debug, PartialEq, Eq)]
pub struct Hash256 {
    pub bytes: [u8; 32],
}

impl View for Hash256 {
    type V = Seq<u8>;

    open spec fn view(&self) -> Seq<u8> {
        self.bytes@
    }
}

impl Hash256 {
    /// Wraps 32 bytes as a hash.
    pub fn new(bytes: [u8; 32]) -> (h: Hash256)
        ensures
            h.bytes == bytes,
    {
        Hash256 { bytes }
    }
}

/// Whether bit `k` of `byte` is set, counting from the most significant bit.
pub open spec fn bit_in_byte(byte: u8, k: int) -> bool {
    0 <= k < 8 && (byte & (0x80u8 >> (k as u8))) != 0
}

/// Whether position `i` of a bit-packed byte string is set. Position `i`
/// lives in byte `i / 8`, at bit `i % 8` counted from the most significant
/// bit. A position past the last byte is unset.
pub open spec fn bit_at(bytes: Seq<u8>, i: int) -> bool {
    0 <= i && i / 8 < bytes.len() && bit_in_byte(bytes[i / 8], i % 8)
}

/// A bit-packed set of committee positions, byte-aligned, with padding in
/// the last byte.
#[derive(Clone, Debug, PartialEq, Eq)]
pub struct Bitfield {
    pub bytes: Vec<u8>,
}

impl View for Bitfield {
    type V = Seq<u8>;

    open spec fn view(&self) -> Seq<u8> {
        self.bytes@
    }
}

impl Bitfield {
    /// A bitfield over the given bytes.
    pub fn from_bytes(bytes: Vec<u8>) -> (b: Bitfield)
        ensures
            b@ == bytes@,
    {
        Bitfield { bytes }
    }

    /// The number of bytes the bitfield occupies.
    pub fn num_bytes(&self) -> (n: usize)
        ensures
            n == self@.len(),
    {
        self.bytes.len()
    }

    /// Whether position `i` is set.
    pub fn get_bit(&self, i: u128) -> (set: bool)
        ensures
            set == bit_at(self@, i as int),
    {
        let byte_index: u128 = i / 8;
        if byte_index >= self.bytes.len() as u128 {
            return false;
        }
        let k: u8 = (i % 8) as u8;
        let byte: u8 = self.bytes[byte_index as usize];
        (byte & (0x80u8 >> k)) != 0
    }
}

/// A committee vote on a shard block, as received.
#[derive(Clone, Debug, PartialEq, Eq)]
pub struct AttestationRecord {
    /// The slot the voter attests to.
    pub slot: u64,
    /// The shard whose committee the voter belongs to.
    pub shard_id: u16,
    /// The hashes by which the voter's chain departs from the canonical one.
    pub oblique_parent_hashes: Vec<Hash256>,
    /// The hash of the shard block voted for.
    pub shard_block_hash: Hash256,
    /// Which committee positions signed.
    pub attester_bitfield: Bitfield,
    /// The last slot the voter holds justified.
    pub justified_slot: u64,
    /// The combined signature of the signers, in the encoding of the scheme.
    pub aggregate_signature: Vec<u8>,
}

/// The committee of one slot and shard, in committee order.
#[derive(Clone, Debug, PartialEq, Eq)]
pub struct CommitteeEntry {
    pub slot: u64,
    pub shard_id: u64,
    pub members: Vec<usize>,
}

/// The committee that a list of entries gives for a slot and shard: that of
/// the last entry with this key.
pub open spec fn lookup(entries: Seq<CommitteeEntry>, slot: u64, shard_id: u64) -> Option<Seq<usize>>
    decreases entries.len(),
{
    if entries.len() == 0 {
        None
    } else if entries.last().slot == slot && entries.last().shard_id == shard_id {
        Some(entries.last().members@)
    } else {
        lookup(entries.drop_last(), slot, shard_id)
    }
}

/// Whether an entry is for the slot and shard.
pub open spec fn is_for(entry: CommitteeEntry, slot: u64, shard_id: u64) -> bool {
    entry.slot == slot && entry.shard_id == shard_id
}

/// Whether entry `i` is the last of the list for the slot and shard.
pub open spec fn is_last_for(
    entries: Seq<CommitteeEntry>,
    slot: u64,
    shard_id: u64,
    i: int,
) -> bool {
    &&& 0 <= i < entries.len()
    &&& is_for(entries[i], slot, shard_id)
    &&& forall|j: int| i < j < entries.len() ==> !is_for(#[trigger] entries[j], slot, shard_id)
}

proof fn lemma_lookup_last(entries: Seq<CommitteeEntry>, slot: u64, shard_id: u64, i: int)
    requires
        is_last_for(entries, slot, shard_id, i),
    ensures
        lookup(entries, slot, shard_id) == Some(entries[i].members@),
    decreases entries.len(),
{
    if i < entries.len() - 1 {
        assert(!is_for(entries[entries.len() - 1], slot, shard_id));
        let shorter = entries.drop_last();
        assert(is_last_for(shorter, slot, shard_id, i)) by {
            assert forall|j: int| i < j < shorter.len() implies !is_for(
                #[trigger] shorter[j],
                slot,
                shard_id,
            ) by {
                assert(shorter[j] == entries[j]);
            }
        }
        lemma_lookup_last(shorter, slot, shard_id, i);
    }
}

proof fn lemma_lookup_none(entries: Seq<CommitteeEntry>, slot: u64, shard_id: u64)
    requires
        forall|j: int| 0 <= j < entries.len() ==> !is_for(#[trigger] entries[j], slot, shard_id),
    ensures
        lookup(entries, slot, shard_id) is None,
    decreases entries.len(),
{
    if entries.len() > 0 {
        assert(!is_for(entries[entries.len() - 1], slot, shard_id));
        let shorter = entries.drop_last();
        assert forall|j: int| 0 <= j < shorter.len() implies !is_for(
            #[trigger] shorter[j],
            slot,
            shard_id,
        ) by {
            assert(shorter[j] == entries[j]);
        }
        lemma_lookup_none(shorter, slot, shard_id);
    }
}

proof fn lemma_lookup_elsewhere(
    entries: Seq<CommitteeEntry>,
    i: int,
    entry: CommitteeEntry,
    slot: u64,
    shard_id: u64,
)
    requires
        0 <= i < entries.len(),
        entry.slot == entries[i].slot,
        entry.shard_id == entries[i].shard_id,
        !is_for(entry, slot, shard_id),
    ensures
        lookup(entries.update(i, entry), slot, shard_id) == lookup(entries, slot, shard_id),
    decreases entries.len(),
{
    let updated = entries.update(i, entry);
    if i == entries.len() - 1 {
        assert(updated.drop_last() =~= entries.drop_last());
    } else {
        assert(updated.last() == entries.last());
        assert(updated.drop_last() =~= entries.drop_last().update(i, entry));
        lemma_lookup_elsewhere(entries.drop_last(), i, entry, slot, shard_id);
    }
}

/// Whether the committee names no member twice.
pub fn all_distinct(members: &Vec<usize>) -> (distinct: bool)
    ensures
        distinct == members@.no_duplicates(),
{
    let n: usize = members.len();
    let mut i: usize = 0;
    while i < n
        invariant
            i <= n,
            n == members@.len(),
            forall|a: int, b: int| 0 <= a < i && a < b < n ==> members@[a] != members@[b],
        decreases n - i,
    {
        let mut j: usize = i + 1;
        while j < n
            invariant
                i < j <= n,
                n == members@.len(),
                forall|b: int| i < b < j ==> members@[i as int] != members@[b],
            decreases n - j,
        {
            if members[i] == members[j] {
                return false;
            }
            j = j + 1;
        }
        i = i + 1;
    }
    true
}

/// The committees of one cycle, by slot and shard. No committee names a
/// member twice.
#[derive(Debug)]
pub struct AttesterMap {
    entries: Vec<CommitteeEntry>,
}

impl View for AttesterMap {
    type V = Map<(u64, u64), Seq<usize>>;

    closed spec fn view(&self) -> Map<(u64, u64), Seq<usize>> {
        Map::new(
            |k: (u64, u64)| lookup(self.entries@, k.0, k.1) is Some,
            |k: (u64, u64)| lookup(self.entries@, k.0, k.1).unwrap(),
        )
    }
}

/// Whether no entry of the list names a member twice.
pub open spec fn committees_distinct(entries: Seq<CommitteeEntry>) -> bool {
    forall|i: int| 0 <= i < entries.len() ==> (#[trigger] entries[i]).members@.no_duplicates()
}

impl AttesterMap {
    #[verifier::type_invariant]
    spec fn well_formed(&self) -> bool {
        committees_distinct(self.entries@)
    }

    /// A map without committees.
    pub fn new() -> (m: AttesterMap)
        ensures
            m@ == Map::<(u64, u64), Seq<usize>>::empty(),
    {
        let m = AttesterMap { entries: Vec::new() };
        assert(m@ =~= Map::<(u64, u64), Seq<usize>>::empty());
        m
    }

    /// Where in the list the committee of a slot and shard stands.
    fn position(&self, slot: u64, shard_id: u64) -> (found: Option<usize>)
        ensures
            match found {
                Some(i) => is_last_for(self.entries@, slot, shard_id, i as int),
                None => forall|j: int|
                    0 <= j < self.entries@.len() ==> !is_for(
                        #[trigger] self.entries@[j],
                        slot,
                        shard_id,
                    ),
            },
    {
        let mut i: usize = self.entries.len();
        while i > 0
            invariant
                i <= self.entries@.len(),
                forall|j: int|
                    i <= j < self.entries@.len() ==> !is_for(
                        #[trigger] self.entries@[j],
                        slot,
                        shard_id,
                    ),
            decreases i,
        {
            let entry = &self.entries[i - 1];
            if entry.slot == slot && entry.shard_id == shard_id {
                return Some(i - 1);
            }
            i = i - 1;
        }
        None
    }

    /// Sets the committee of a slot and shard, in place of an earlier one.
    /// A committee that names a member twice is not taken, and the map stays
    /// as it was.
    pub fn insert(&mut self, slot: u64, shard_id: u64, members: Vec<usize>) -> (taken: bool)
        ensures
            taken == members@.no_duplicates(),
            taken ==> final(self)@ == old(self)@.insert((slot, shard_id), members@),
            !taken ==> final(self)@ == old(self)@,
    {
        proof {
            use_type_invariant(&*self);
        }
        if !all_distinct(&members) {
            return false;
        }
        let found = self.position(slot, shard_id);
        let ghost before = self.entries@;
        let entry = CommitteeEntry { slot, shard_id, members };
        let mut entries: Vec<CommitteeEntry> = Vec::new();
        std::mem::swap(&mut entries, &mut self.entries);
        match found {
            Some(i) => {
                entries.set(i, entry);
                proof {
                    assert(is_last_for(entries@, slot, shard_id, i as int));
                    lemma_lookup_last(entries@, slot, shard_id, i as int);
                    assert forall|k: (u64, u64)| k != (slot, shard_id) implies lookup(
                        entries@,
                        k.0,
                        k.1,
                    ) == lookup(before, k.0, k.1) by {
                        lemma_lookup_elsewhere(before, i as int, entry, k.0, k.1);
                    }
                }
            },
            None => {
                entries.push(entry);
                proof {
                    assert(entries@.drop_last() =~= before);
                }
            },
        }
        self.entries = entries;
        proof {
            assert(self@ =~= old(self)@.insert((slot, shard_id), entry.members@));
        }
        true
    }

    /// The committee of a slot and shard, if the map has one.
    pub fn get(&self, slot: u64, shard_id: u64) -> (found: Option<&Vec<usize>>)
        ensures
            found is Some <==> self@.contains_key((slot, shard_id)),
            found is Some ==> found.unwrap()@ == self@[(slot, shard_id)],
            found is Some ==> found.unwrap()@.no_duplicates(),
    {
        proof {
            use_type_invariant(self);
        }
        match self.position(slot, shard_id) {
            Some(i) => {
                proof {
                    lemma_lookup_last(self.entries@, slot, shard_id, i as int);
                }
                Some(&self.entries[i].members)
            },
            None => {
                proof {
                    lemma_lookup_none(self.entries@, slot, shard_id);
                }
                None
            },
        }
    }
}

} // verus!
