//! The persisted byte layout of the two records.
//!
//! A hash record image is the host's 8-byte record discriminator followed
//! by the 32-byte owner identity. An owner record image is the
//! discriminator, a 4-byte little-endian count, and the counted hashes
//! laid end to end; the backing slot is allocated at full capacity, so an
//! image may carry unused trailing bytes after the counted prefix. These
//! layouts are the on-chain wire format and interoperate with records a
//! deployed instance has already written.

use vstd::bytes::lemma_auto_spec_u32_to_from_le_bytes;
use vstd::bytes::spec_u32_from_le_bytes;
use vstd::bytes::spec_u32_to_le_bytes;
use vstd::bytes::u32_from_le_bytes;
use vstd::bytes::u32_to_le_bytes;
use vstd::prelude::*;
use vstd::slice::slice_subrange;

use crate::registry::HashAccount;
use crate::registry::MAX_OWNER_HASHES;
use crate::registry::OwnerAccount;

verus! {

/// Byte length of a hash record image: discriminator plus owner identity.
pub const HASH_ACCOUNT_LEN: usize = 40;

/// Byte length of the counted prefix of an owner record image before the
/// hashes: discriminator plus the 4-byte count.
pub const OWNER_ACCOUNT_HEADER_LEN: usize = 12;

/// The serialized image of a hash record.
pub open spec fn spec_hash_account_bytes(disc: Seq<u8>, owner: Seq<u8>) -> Seq<u8> {
    disc + owner
}

/// The hashes of an owner record laid end to end, in list order.
pub open spec fn hash_list_bytes(hs: Seq<[u8; 32]>) -> Seq<u8>
    decreases hs.len(),
{
    if hs.len() == 0 {
        Seq::<u8>::empty()
    } else {
        hash_list_bytes(hs.drop_last()) + hs.last()@
    }
}

/// The serialized image of an owner record: discriminator, little-endian
/// count, then the hashes.
pub open spec fn spec_owner_account_bytes(disc: Seq<u8>, hs: Seq<[u8; 32]>) -> Seq<u8> {
    disc + spec_u32_to_le_bytes(hs.len() as u32) + hash_list_bytes(hs)
}

pub proof fn lemma_hash_list_bytes_len(hs: Seq<[u8; 32]>)
    ensures
        hash_list_bytes(hs).len() == 32 * hs.len(),
    decreases hs.len(),
{
    if hs.len() > 0 {
        lemma_hash_list_bytes_len(hs.drop_last());
    }
}

/// Each hash occupies its own 32-byte window of the laid-out list.
pub proof fn lemma_hash_list_bytes_index(hs: Seq<[u8; 32]>, i: int)
    requires
        0 <= i < hs.len(),
    ensures
        hash_list_bytes(hs).subrange(32 * i, 32 * i + 32) == hs[i]@,
    decreases hs.len(),
{
    lemma_hash_list_bytes_len(hs);
    lemma_hash_list_bytes_len(hs.drop_last());
    if i == hs.len() - 1 {
        assert(hash_list_bytes(hs).subrange(32 * i, 32 * i + 32) =~= hs[i]@);
    } else {
        lemma_hash_list_bytes_index(hs.drop_last(), i);
        assert(hash_list_bytes(hs).subrange(32 * i, 32 * i + 32) =~= hash_list_bytes(
            hs.drop_last(),
        ).subrange(32 * i, 32 * i + 32));
    }
}

/// Append a byte slice to a buffer.
fn push_slice(out: &mut Vec<u8>, b: &[u8])
    ensures
        final(out)@ == old(out)@ + b@,
{
    let mut i: usize = 0;
    while i < b.len()
        invariant
            i <= b@.len(),
            out@ == old(out)@ + b@.subrange(0, i as int),
        decreases b@.len() - i,
    {
        out.push(b[i]);
        i += 1;
        proof {
            assert(out@ =~= old(out)@ + b@.subrange(0, i as int));
        }
    }
    proof {
        assert(old(out)@ + b@.subrange(0, b@.len() as int) =~= old(out)@ + b@);
    }
}

/// Whether `data` begins with the 8-byte discriminator `disc`.
fn has_discriminator(disc: &[u8; 8], data: &[u8]) -> (r: bool)
    requires
        data@.len() >= 8,
    ensures
        r <==> data@.subrange(0, 8) == disc@,
{
    let mut i: usize = 0;
    while i < 8
        invariant
            i <= 8,
            data@.len() >= 8,
            forall|j: int| 0 <= j < i ==> data@[j] == disc@[j],
        decreases 8 - i,
    {
        if data[i] != disc[i] {
            proof {
                assert(data@.subrange(0, 8)[i as int] == data@[i as int]);
            }
            return false;
        }
        i += 1;
    }
    proof {
        assert(data@.subrange(0, 8) =~= disc@);
    }
    true
}

/// Copy the 32-byte hash at offset `off` out of a record image.
fn read_hash(data: &[u8], off: usize) -> (h: [u8; 32])
    requires
        off + 32 <= data@.len(),
    ensures
        h@ == data@.subrange(off as int, off as int + 32),
{
    let data_len = data.len();
    let mut h = [0u8; 32];
    let mut j: usize = 0;
    while j < 32
        invariant
            j <= 32,
            off + 32 <= data_len,
            data_len == data@.len(),
            forall|t: int| 0 <= t < j ==> h@[t] == data@[off + t],
        decreases 32 - j,
    {
        h[j] = data[off + j];
        j += 1;
    }
    proof {
        assert(h@ =~= data@.subrange(off as int, off as int + 32));
    }
    h
}

/// Serialize a hash record under the host's discriminator for its type.
pub fn encode_hash_account(disc: &[u8; 8], rec: &HashAccount) -> (out: Vec<u8>)
    ensures
        out@ == spec_hash_account_bytes(disc@, rec.owner@),
        out@.len() == HASH_ACCOUNT_LEN,
{
    let mut out: Vec<u8> = Vec::new();
    push_slice(&mut out, disc.as_slice());
    push_slice(&mut out, rec.owner.as_slice());
    proof {
        assert(out@ =~= disc@ + rec.owner@);
    }
    out
}

/// Parse a hash record image: exactly the discriminator and the owner.
pub fn decode_hash_account(disc: &[u8; 8], data: &[u8]) -> (out: Option<HashAccount>)
    ensures
        out is Some <==> data@.len() == HASH_ACCOUNT_LEN && data@.subrange(0, 8) == disc@,
        out matches Some(rec) ==> rec.owner@ == data@.subrange(8, 40),
{
    if data.len() != HASH_ACCOUNT_LEN {
        return None;
    }
    if !has_discriminator(disc, data) {
        return None;
    }
    let owner = read_hash(data, 8);
    Some(HashAccount { owner })
}

/// Serialize an owner record under the host's discriminator for its type.
pub fn encode_owner_account(disc: &[u8; 8], rec: &OwnerAccount) -> (out: Vec<u8>)
    requires
        rec.hashes@.len() <= MAX_OWNER_HASHES,
    ensures
        out@ == spec_owner_account_bytes(disc@, rec.hashes@),
        out@.len() == OWNER_ACCOUNT_HEADER_LEN + 32 * rec.hashes@.len(),
{
    proof {
        lemma_auto_spec_u32_to_from_le_bytes();
        lemma_hash_list_bytes_len(rec.hashes@);
    }
    let count = rec.hashes.len() as u32;
    let mut out: Vec<u8> = Vec::new();
    push_slice(&mut out, disc.as_slice());
    let len_bytes = u32_to_le_bytes(count);
    push_slice(&mut out, len_bytes.as_slice());
    let mut k: usize = 0;
    while k < rec.hashes.len()
        invariant
            k <= rec.hashes@.len(),
            rec.hashes@.len() <= MAX_OWNER_HASHES,
            count == rec.hashes@.len() as u32,
            out@ == disc@ + spec_u32_to_le_bytes(count) + hash_list_bytes(
                rec.hashes@.subrange(0, k as int),
            ),
        decreases rec.hashes@.len() - k,
    {
        push_slice(&mut out, rec.hashes[k].as_slice());
        k += 1;
        proof {
            assert(rec.hashes@.subrange(0, k as int).drop_last() =~= rec.hashes@.subrange(
                0,
                k as int - 1,
            ));
            assert(out@ =~= disc@ + spec_u32_to_le_bytes(count) + hash_list_bytes(
                rec.hashes@.subrange(0, k as int),
            ));
        }
    }
    proof {
        assert(rec.hashes@.subrange(0, rec.hashes@.len() as int) =~= rec.hashes@);
    }
    out
}

/// Parse an owner record image: the discriminator, the count, and that
/// many hashes; bytes past the counted prefix are the slot's unused tail
/// and are ignored. The count must not exceed the record's capacity.
pub fn decode_owner_account(disc: &[u8; 8], data: &[u8]) -> (out: Option<OwnerAccount>)
    ensures
        out is Some <==> data@.len() >= OWNER_ACCOUNT_HEADER_LEN && data@.subrange(0, 8) == disc@
            && spec_u32_from_le_bytes(data@.subrange(8, 12)) <= MAX_OWNER_HASHES && data@.len()
            >= OWNER_ACCOUNT_HEADER_LEN + 32 * spec_u32_from_le_bytes(data@.subrange(8, 12)),
        out matches Some(rec) ==> rec.hashes@.len() == spec_u32_from_le_bytes(
            data@.subrange(8, 12),
        ),
        out matches Some(rec) ==> forall|i: int|
            0 <= i < rec.hashes@.len() ==> rec.hashes@[i]@ == data@.subrange(
                12 + 32 * i,
                12 + 32 * i + 32,
            ),
{
    if data.len() < OWNER_ACCOUNT_HEADER_LEN {
        return None;
    }
    if !has_discriminator(disc, data) {
        return None;
    }
    let count_bytes = slice_subrange(data, 8, 12);
    let count = u32_from_le_bytes(count_bytes);
    if count > MAX_OWNER_HASHES as u32 {
        return None;
    }
    let count = count as usize;
    if data.len() < OWNER_ACCOUNT_HEADER_LEN + 32 * count {
        return None;
    }
    let mut hashes: Vec<[u8; 32]> = Vec::new();
    let mut k: usize = 0;
    while k < count
        invariant
            k <= count,
            count <= MAX_OWNER_HASHES,
            OWNER_ACCOUNT_HEADER_LEN + 32 * count <= data@.len(),
            hashes@.len() == k,
            forall|i: int|
                0 <= i < k ==> hashes@[i]@ == data@.subrange(12 + 32 * i, 12 + 32 * i + 32),
        decreases count - k,
    {
        let h = read_hash(data, OWNER_ACCOUNT_HEADER_LEN + 32 * k);
        hashes.push(h);
        k += 1;
    }
    Some(OwnerAccount { hashes })
}

/// A hash record image is read back exactly: it has the record's length,
/// begins with the discriminator, and carries the owner at its offset.
pub proof fn lemma_hash_account_bytes_faithful(disc: Seq<u8>, owner: Seq<u8>)
    requires
        disc.len() == 8,
        owner.len() == 32,
    ensures
        spec_hash_account_bytes(disc, owner).len() == HASH_ACCOUNT_LEN,
        spec_hash_account_bytes(disc, owner).subrange(0, 8) == disc,
        spec_hash_account_bytes(disc, owner).subrange(8, 40) == owner,
{
    assert(spec_hash_account_bytes(disc, owner).subrange(0, 8) =~= disc);
    assert(spec_hash_account_bytes(disc, owner).subrange(8, 40) =~= owner);
}

/// An owner record image is read back exactly: it satisfies every
/// condition under which decoding succeeds, its count is the list's
/// length, and each 32-byte window carries the listed hash, in order.
pub proof fn lemma_owner_account_bytes_faithful(disc: Seq<u8>, hs: Seq<[u8; 32]>)
    requires
        disc.len() == 8,
        hs.len() <= MAX_OWNER_HASHES,
    ensures
        spec_owner_account_bytes(disc, hs).len() == OWNER_ACCOUNT_HEADER_LEN + 32 * hs.len(),
        spec_owner_account_bytes(disc, hs).subrange(0, 8) == disc,
        spec_u32_from_le_bytes(spec_owner_account_bytes(disc, hs).subrange(8, 12)) == hs.len(),
        forall|i: int|
            0 <= i < hs.len() ==> spec_owner_account_bytes(disc, hs).subrange(
                12 + 32 * i,
                12 + 32 * i + 32,
            ) == hs[i]@,
{
    lemma_auto_spec_u32_to_from_le_bytes();
    lemma_hash_list_bytes_len(hs);
    let whole = spec_owner_account_bytes(disc, hs);
    assert(whole.subrange(0, 8) =~= disc);
    assert(whole.subrange(8, 12) =~= spec_u32_to_le_bytes(hs.len() as u32));
    assert forall|i: int| 0 <= i < hs.len() implies whole.subrange(12 + 32 * i, 12 + 32 * i + 32)
        == hs[i]@ by {
        lemma_hash_list_bytes_index(hs, i);
        assert(whole.subrange(12 + 32 * i, 12 + 32 * i + 32) =~= hash_list_bytes(hs).subrange(
            32 * i,
            32 * i + 32,
        ));
    }
}

} // verus!
