use beacon_attestation::{
    validate_attestation, AttestationRecord, AttestationValidationError, AttesterMap, Bitfield,
    Hash256,
};

const CYCLE_LENGTH: u8 = 5;
const BLOCK_SLOT: u64 = 10;
const ATTESTATION_SLOT: u64 = 8;
const SHARD: u16 = 3;

fn hash_of(fill: u8) -> Hash256 {
    Hash256::new([fill; 32])
}

// A toy digest: 32 bytes that depend on every byte of the message and on
// its length.
fn toy_hash(message: &Vec<u8>) -> Vec<u8> {
    let mut state: [u64; 4] = [
        0x9e37_79b9_7f4a_7c15,
        0xbf58_476d_1ce4_e5b9,
        0x94d0_49bb_1331_11eb,
        message.len() as u64,
    ];
    for (i, b) in message.iter().enumerate() {
        let lane = i % 4;
        state[lane] = (state[lane] ^ u64::from(*b)).wrapping_mul(0x0000_0100_0000_01b3);
        state[(lane + 1) % 4] = state[(lane + 1) % 4].rotate_left(7) ^ state[lane];
    }
    let mut digest = Vec::new();
    for lane in state.iter() {
        digest.extend_from_slice(&lane.to_be_bytes());
    }
    digest
}

// A toy registry and signature scheme over 64-bit keys: the key of validator
// `i` is `1000 + i`, keys combine by addition, and a signature is the digest
// followed by the combined key.
fn toy_key(index: usize) -> u64 {
    1000 + index as u64
}

fn toy_aggregate(keys: Vec<u64>) -> u64 {
    keys.iter().fold(0u64, |sum, k| sum.wrapping_add(*k))
}

fn toy_sign(digest: &Vec<u8>, key: u64) -> Vec<u8> {
    let mut signature = digest.clone();
    signature.extend_from_slice(&key.to_be_bytes());
    signature
}

fn toy_verify(digest: &Vec<u8>, signature: &Vec<u8>, key: &u64) -> bool {
    *signature == toy_sign(digest, *key)
}

fn known_hashes() -> Vec<Hash256> {
    (0..2 * CYCLE_LENGTH).map(|i| hash_of(100 + i)).collect()
}

fn committee() -> Vec<usize> {
    vec![11, 22, 33, 44, 55, 66, 77, 88]
}

fn attester_map() -> AttesterMap {
    let mut map = AttesterMap::new();
    map.insert(ATTESTATION_SLOT, u64::from(SHARD), committee());
    map
}

// The message that a voter at `ATTESTATION_SLOT` signs, written out by hand:
// distance 2 from the block, so the window starts at 5 - 2 = 3 and holds the
// canonical hashes 3..8 less those that the oblique hashes replace.
fn expected_message(record: &AttestationRecord) -> Vec<u8> {
    let mut message = Vec::new();
    message.extend_from_slice(&record.slot.to_be_bytes());
    let known = known_hashes();
    let end = 3 + usize::from(CYCLE_LENGTH) - record.oblique_parent_hashes.len();
    for h in &known[3..end] {
        message.extend_from_slice(&h.bytes);
    }
    for h in &record.oblique_parent_hashes {
        message.extend_from_slice(&h.bytes);
    }
    message.extend_from_slice(&record.shard_id.to_be_bytes());
    message.extend_from_slice(&record.shard_block_hash.bytes);
    message.extend_from_slice(&record.justified_slot.to_be_bytes());
    message
}

fn sign(record: &mut AttestationRecord, signers: &[usize]) {
    let digest = toy_hash(&expected_message(record));
    let key = toy_aggregate(signers.iter().map(|i| toy_key(*i)).collect());
    record.aggregate_signature = toy_sign(&digest, key);
}

// An attestation that is accepted: positions 0, 2 and 7 of the committee
// signed.
fn valid_record() -> AttestationRecord {
    let mut record = AttestationRecord {
        slot: ATTESTATION_SLOT,
        shard_id: SHARD,
        oblique_parent_hashes: vec![hash_of(200)],
        shard_block_hash: hash_of(42),
        attester_bitfield: Bitfield::from_bytes(vec![0b1010_0001]),
        justified_slot: 6,
        aggregate_signature: Vec::new(),
    };
    sign(&mut record, &[11, 33, 88]);
    record
}

fn validate_in(
    record: &AttestationRecord,
    block_slot: u64,
    known_last_justified_slot: u64,
    known: &Vec<Hash256>,
    map: &AttesterMap,
) -> Result<bool, AttestationValidationError> {
    validate_attestation(
        record,
        block_slot,
        CYCLE_LENGTH,
        known_last_justified_slot,
        known,
        map,
        &toy_hash,
        &toy_key,
        &toy_aggregate,
        &toy_verify,
    )
}

fn validate(record: &AttestationRecord) -> Result<bool, AttestationValidationError> {
    validate_in(record, BLOCK_SLOT, 6, &known_hashes(), &attester_map())
}

#[test]
fn committee_of_eight_with_valid_signature_is_accepted() {
    assert_eq!(validate(&valid_record()), Ok(true));
}

#[test]
fn validation_is_repeatable() {
    let record = valid_record();
    assert_eq!(validate(&record), validate(&record));
    let mut refused = valid_record();
    refused.slot = 11;
    assert_eq!(validate(&refused), validate(&refused));
}

#[test]
fn slot_after_block_is_too_high() {
    let mut record = valid_record();
    record.slot = BLOCK_SLOT + 1;
    assert_eq!(validate(&record), Err(AttestationValidationError::SlotTooHigh));
    record.slot = u64::MAX;
    assert_eq!(validate(&record), Err(AttestationValidationError::SlotTooHigh));
}

#[test]
fn slot_too_high_wins_over_every_other_fault() {
    let record = AttestationRecord {
        slot: 30,
        shard_id: 9,
        oblique_parent_hashes: vec![hash_of(0); 9],
        shard_block_hash: hash_of(0),
        attester_bitfield: Bitfield::from_bytes(vec![0xff, 0xff, 0xff]),
        justified_slot: 99,
        aggregate_signature: vec![1, 2, 3],
    };
    assert_eq!(
        validate_in(&record, 10, 0, &Vec::new(), &AttesterMap::new()),
        Err(AttestationValidationError::SlotTooHigh)
    );
}

#[test]
fn slot_three_is_too_low_for_block_ten() {
    let mut record = valid_record();
    record.slot = 3;
    record.justified_slot = 7;
    assert_eq!(validate(&record), Err(AttestationValidationError::SlotTooLow));
}

#[test]
fn slot_four_passes_the_lower_bound_for_block_ten() {
    // The justified slot is too high, and that check comes next: it is
    // reached only where the lower bound on the slot let the record pass.
    let mut record = valid_record();
    record.slot = 4;
    record.justified_slot = 7;
    assert_eq!(validate(&record), Err(AttestationValidationError::JustifiedSlotTooHigh));
}

#[test]
fn slot_one_cycle_and_one_behind_has_no_parent_hashes() {
    // Slot 4 is within the bound on slots, but six slots behind block 10:
    // the window of a cycle of five does not reach that far.
    let mut map = AttesterMap::new();
    map.insert(4, u64::from(SHARD), committee());
    let mut record = valid_record();
    record.slot = 4;
    assert_eq!(
        validate_in(&record, BLOCK_SLOT, 6, &known_hashes(), &map),
        Err(AttestationValidationError::SlotTooLow)
    );
    record.slot = 5;
    assert_ne!(
        validate_in(&record, BLOCK_SLOT, 6, &known_hashes(), &map),
        Err(AttestationValidationError::SlotTooLow)
    );
}

#[test]
fn lower_bound_saturates_near_slot_zero() {
    // Block slot 2 with a cycle of 5: the lower bound is slot 0, not a
    // wrapped number.
    let mut record = valid_record();
    record.slot = 0;
    record.justified_slot = 7;
    assert_eq!(
        validate_in(&record, 2, 6, &known_hashes(), &attester_map()),
        Err(AttestationValidationError::JustifiedSlotTooHigh)
    );
}

#[test]
fn justified_slot_after_known_is_too_high() {
    let mut record = valid_record();
    record.justified_slot = 7;
    assert_eq!(validate(&record), Err(AttestationValidationError::JustifiedSlotTooHigh));
}

#[test]
fn justified_slot_equal_to_known_passes() {
    let record = valid_record();
    assert_eq!(record.justified_slot, 6);
    assert_eq!(validate(&record), Ok(true));
}

#[test]
fn six_oblique_hashes_are_too_many_for_a_cycle_of_five() {
    let mut record = valid_record();
    record.oblique_parent_hashes = vec![hash_of(1); 6];
    assert_eq!(validate(&record), Err(AttestationValidationError::TooManyObliqueHashes));
}

#[test]
fn five_oblique_hashes_are_allowed_in_a_cycle_of_five() {
    let mut record = valid_record();
    record.oblique_parent_hashes = (0..5).map(|i| hash_of(210 + i)).collect();
    sign(&mut record, &[11, 33, 88]);
    assert_eq!(validate(&record), Ok(true));
}

#[test]
fn unknown_committee_is_a_bad_attester_map() {
    let mut record = valid_record();
    record.shard_id = SHARD + 1;
    assert_eq!(validate(&record), Err(AttestationValidationError::BadAttesterMap));
    let record = valid_record();
    assert_eq!(
        validate_in(&record, BLOCK_SLOT, 6, &known_hashes(), &AttesterMap::new()),
        Err(AttestationValidationError::BadAttesterMap)
    );
}

#[test]
fn bitfield_one_byte_short_is_incorrect() {
    let mut record = valid_record();
    record.attester_bitfield = Bitfield::from_bytes(Vec::new());
    assert_eq!(validate(&record), Err(AttestationValidationError::IncorrectBitField));
}

#[test]
fn bitfield_one_byte_long_is_incorrect() {
    let mut record = valid_record();
    record.attester_bitfield = Bitfield::from_bytes(vec![0b1010_0001, 0]);
    assert_eq!(validate(&record), Err(AttestationValidationError::IncorrectBitField));
}

#[test]
fn committee_of_nine_needs_two_bytes() {
    let mut map = AttesterMap::new();
    map.insert(ATTESTATION_SLOT, u64::from(SHARD), vec![1, 2, 3, 4, 5, 6, 7, 8, 9]);
    let mut record = valid_record();
    assert_eq!(
        validate_in(&record, BLOCK_SLOT, 6, &known_hashes(), &map),
        Err(AttestationValidationError::IncorrectBitField)
    );
    record.attester_bitfield = Bitfield::from_bytes(vec![0b0100_0000, 0b1000_0000]);
    sign(&mut record, &[2, 9]);
    assert_eq!(validate_in(&record, BLOCK_SLOT, 6, &known_hashes(), &map), Ok(true));
}

#[test]
fn window_of_the_wrong_length_is_bad_current_hashes() {
    let record = valid_record();
    let mut known = known_hashes();
    known.pop();
    assert_eq!(
        validate_in(&record, BLOCK_SLOT, 6, &known, &attester_map()),
        Err(AttestationValidationError::BadCurrentHashes)
    );
}

#[test]
fn all_zero_bitfield_has_no_signatures() {
    let mut record = valid_record();
    record.attester_bitfield = Bitfield::from_bytes(vec![0]);
    assert_eq!(validate(&record), Err(AttestationValidationError::NoSignatures));
}

#[test]
fn bit_past_the_committee_is_a_trailing_bit() {
    // A committee of five in one byte: position 5 is padding.
    let mut map = AttesterMap::new();
    map.insert(ATTESTATION_SLOT, u64::from(SHARD), vec![11, 22, 33, 44, 55]);
    let mut record = valid_record();
    record.attester_bitfield = Bitfield::from_bytes(vec![0b1010_0100]);
    sign(&mut record, &[11, 33]);
    assert_eq!(
        validate_in(&record, BLOCK_SLOT, 6, &known_hashes(), &map),
        Err(AttestationValidationError::NonZeroTrailingBits)
    );
    record.attester_bitfield = Bitfield::from_bytes(vec![0b1010_0000]);
    assert_eq!(validate_in(&record, BLOCK_SLOT, 6, &known_hashes(), &map), Ok(true));
}

#[test]
fn padding_alone_is_a_trailing_bit_not_a_missing_signature() {
    let mut map = AttesterMap::new();
    map.insert(ATTESTATION_SLOT, u64::from(SHARD), vec![11, 22, 33, 44, 55]);
    let mut record = valid_record();
    record.attester_bitfield = Bitfield::from_bytes(vec![0b0000_0001]);
    assert_eq!(
        validate_in(&record, BLOCK_SLOT, 6, &known_hashes(), &map),
        Err(AttestationValidationError::NonZeroTrailingBits)
    );
}

#[test]
fn flipped_signature_bit_fails() {
    let mut record = valid_record();
    record.aggregate_signature[0] ^= 1;
    assert_eq!(validate(&record), Err(AttestationValidationError::AggregateSignatureFail));
    let mut record = valid_record();
    let last = record.aggregate_signature.len() - 1;
    record.aggregate_signature[last] ^= 0x80;
    assert_eq!(validate(&record), Err(AttestationValidationError::AggregateSignatureFail));
}

#[test]
fn change_to_a_signed_field_fails_the_signature() {
    let mut record = valid_record();
    record.shard_block_hash = hash_of(43);
    assert_eq!(validate(&record), Err(AttestationValidationError::AggregateSignatureFail));

    let mut record = valid_record();
    record.justified_slot = 5;
    assert_eq!(validate(&record), Err(AttestationValidationError::AggregateSignatureFail));

    let mut record = valid_record();
    record.oblique_parent_hashes = vec![hash_of(201)];
    assert_eq!(validate(&record), Err(AttestationValidationError::AggregateSignatureFail));

    let record = valid_record();
    let mut known = known_hashes();
    known[4] = hash_of(0);
    assert_eq!(
        validate_in(&record, BLOCK_SLOT, 6, &known, &attester_map()),
        Err(AttestationValidationError::AggregateSignatureFail)
    );
}

#[test]
fn change_of_signers_fails_the_signature() {
    let mut record = valid_record();
    record.attester_bitfield = Bitfield::from_bytes(vec![0b1010_0011]);
    assert_eq!(validate(&record), Err(AttestationValidationError::AggregateSignatureFail));
}

#[test]
fn canonical_hash_outside_the_window_is_not_signed() {
    let record = valid_record();
    let mut known = known_hashes();
    known[0] = hash_of(0);
    known[9] = hash_of(0);
    assert_eq!(validate_in(&record, BLOCK_SLOT, 6, &known, &attester_map()), Ok(true));
}

#[test]
fn passing_the_structural_checks_is_not_acceptance() {
    // The same record under a scheme that verifies nothing and under one that
    // verifies everything: only the signature check tells them apart.
    let record = valid_record();
    let known = known_hashes();
    let map = attester_map();
    let never = |_: &Vec<u8>, _: &Vec<u8>, _: &u64| false;
    let always = |_: &Vec<u8>, _: &Vec<u8>, _: &u64| true;
    assert_eq!(
        validate_attestation(
            &record, BLOCK_SLOT, CYCLE_LENGTH, 6, &known, &map, &toy_hash, &toy_key,
            &toy_aggregate, &never
        ),
        Err(AttestationValidationError::AggregateSignatureFail)
    );
    assert_eq!(
        validate_attestation(
            &record, BLOCK_SLOT, CYCLE_LENGTH, 6, &known, &map, &toy_hash, &toy_key,
            &toy_aggregate, &always
        ),
        Ok(true)
    );
}

#[test]
fn attestation_in_the_block_slot_is_accepted() {
    let mut map = AttesterMap::new();
    map.insert(BLOCK_SLOT, u64::from(SHARD), committee());
    let mut record = valid_record();
    record.slot = BLOCK_SLOT;
    record.oblique_parent_hashes = Vec::new();
    let known = known_hashes();
    let mut message = Vec::new();
    message.extend_from_slice(&BLOCK_SLOT.to_be_bytes());
    for h in &known[5..10] {
        message.extend_from_slice(&h.bytes);
    }
    message.extend_from_slice(&SHARD.to_be_bytes());
    message.extend_from_slice(&record.shard_block_hash.bytes);
    message.extend_from_slice(&record.justified_slot.to_be_bytes());
    record.aggregate_signature =
        toy_sign(&toy_hash(&message), toy_aggregate(vec![1011, 1033, 1088]));
    assert_eq!(validate_in(&record, BLOCK_SLOT, 6, &known, &map), Ok(true));
}
