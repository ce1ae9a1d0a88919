use image_registry::codec::decode_hash_account;
use image_registry::codec::decode_owner_account;
use image_registry::codec::encode_hash_account;
use image_registry::codec::encode_owner_account;
use image_registry::registry::HashAccount;
use image_registry::registry::OwnerAccount;

const HASH_DISC: [u8; 8] = [10, 20, 30, 40, 50, 60, 70, 80];
const OWNER_DISC: [u8; 8] = [81, 71, 61, 51, 41, 31, 21, 11];

#[test]
fn hash_account_image_layout() {
    let rec = HashAccount { owner: [7u8; 32] };
    let bytes = encode_hash_account(&HASH_DISC, &rec);
    assert_eq!(bytes.len(), 40);
    assert_eq!(&bytes[0..8], &HASH_DISC);
    assert_eq!(&bytes[8..40], &[7u8; 32]);
}

#[test]
fn hash_account_round_trip() {
    let rec = HashAccount { owner: [9u8; 32] };
    let bytes = encode_hash_account(&HASH_DISC, &rec);
    let back = decode_hash_account(&HASH_DISC, &bytes).expect("image decodes");
    assert_eq!(back.owner, rec.owner);
}

#[test]
fn hash_account_rejects_wrong_discriminator_and_length() {
    let rec = HashAccount { owner: [9u8; 32] };
    let bytes = encode_hash_account(&HASH_DISC, &rec);
    assert!(decode_hash_account(&OWNER_DISC, &bytes).is_none());
    assert!(decode_hash_account(&HASH_DISC, &bytes[0..39]).is_none());
    let mut long = bytes.clone();
    long.push(0);
    assert!(decode_hash_account(&HASH_DISC, &long).is_none());
}

#[test]
fn owner_account_image_layout() {
    let rec = OwnerAccount {
        hashes: vec![[0x11u8; 32], [0x22u8; 32]],
    };
    let bytes = encode_owner_account(&OWNER_DISC, &rec);
    assert_eq!(bytes.len(), 12 + 64);
    assert_eq!(&bytes[0..8], &OWNER_DISC);
    assert_eq!(&bytes[8..12], &[2, 0, 0, 0]);
    assert_eq!(&bytes[12..44], &[0x11u8; 32]);
    assert_eq!(&bytes[44..76], &[0x22u8; 32]);
}

#[test]
fn owner_account_round_trip() {
    for hashes in [
        vec![],
        vec![[0x11u8; 32]],
        vec![[0x11u8; 32], [0x22u8; 32], [0x33u8; 32]],
    ] {
        let rec = OwnerAccount { hashes };
        let bytes = encode_owner_account(&OWNER_DISC, &rec);
        let back = decode_owner_account(&OWNER_DISC, &bytes).expect("image decodes");
        assert_eq!(back.hashes, rec.hashes);
    }
}

#[test]
fn owner_account_ignores_the_slot_tail() {
    // A deployed slot is allocated at full capacity; bytes past the
    // counted prefix are unused and must not disturb decoding.
    let rec = OwnerAccount {
        hashes: vec![[0x11u8; 32]],
    };
    let mut bytes = encode_owner_account(&OWNER_DISC, &rec);
    bytes.resize(12 + 32 * 100, 0);
    let back = decode_owner_account(&OWNER_DISC, &bytes).expect("image decodes");
    assert_eq!(back.hashes, rec.hashes);
}

#[test]
fn owner_account_rejects_bad_images() {
    let rec = OwnerAccount {
        hashes: vec![[0x11u8; 32]],
    };
    let bytes = encode_owner_account(&OWNER_DISC, &rec);
    // Wrong discriminator.
    assert!(decode_owner_account(&HASH_DISC, &bytes).is_none());
    // Too short for the header.
    assert!(decode_owner_account(&OWNER_DISC, &bytes[0..11]).is_none());
    // Count exceeds the slot's capacity.
    let mut big = bytes.clone();
    big[8..12].copy_from_slice(&101u32.to_le_bytes());
    big.resize(12 + 32 * 101, 0);
    assert!(decode_owner_account(&OWNER_DISC, &big).is_none());
    // Count larger than the bytes present.
    let mut short = bytes.clone();
    short[8..12].copy_from_slice(&2u32.to_le_bytes());
    assert!(decode_owner_account(&OWNER_DISC, &short).is_none());
}
