//! The registry's record types, its error taxonomy, and the one state
//! transition: `register_image`.

use vstd::prelude::*;

verus! {

/// Hard cap on the number of hashes one owner may register. The backing
/// record is allocated at a fixed size, so the list can never grow past
/// this count; it is a static limit, not an eviction or growth policy.
pub const MAX_OWNER_HASHES: usize = 100;

/// The all-zero 32-byte identity. A record whose `owner` equals this value
/// is unregistered: a real signer's key is never the all-zero default, so
/// the zero value is free to mean "not yet registered".
pub open spec fn zero_key() -> Seq<u8> {
    Seq::new(32, |i: int| 0u8)
}

/// One record per registered hash, located by a derivation of the tag
/// `"hash"` and the hash bytes. `owner` is the identity of the account that
/// first registered the hash; the all-zero value means not yet registered.
/// Once set to a non-default identity it is never overwritten.
pub struct HashAccount {
    pub owner: [u8; 32],
}

/// One record per registering identity, located by a derivation of the tag
/// `"owner"` and the owner's identity. `hashes` lists the hashes this
/// identity has registered, in registration order, append-only, and never
/// longer than [`MAX_OWNER_HASHES`].
pub struct OwnerAccount {
    pub hashes: Vec<[u8; 32]>,
}

/// The two writable records a registration touches, pre-resolved by the
/// host from the hash and the author's identity, together with that
/// authenticated identity.
pub struct RegisterImage {
    pub hash_account: HashAccount,
    pub owner_account: OwnerAccount,
    pub author: [u8; 32],
}

/// The two domain errors: both are pure validation failures, detected
/// before any write, and terminal for the enclosing transaction.
#[derive(Clone, Copy, Debug, PartialEq, Eq, Structural)]
pub enum ErrorCode {
    InvalidHash,
    HashAlreadyRegistered,
}

/// Every way a registration can fail: a domain rejection, or exhaustion of
/// the owner record's fixed storage. In the hosted deployment the latter
/// surfaces as the ledger's storage-capacity failure rather than as a
/// domain error; here it is made explicit so the cap is part of the
/// contract.
#[derive(Clone, Copy, Debug, PartialEq, Eq, Structural)]
pub enum RegisterError {
    Program(ErrorCode),
    OwnerAccountFull,
}

/// A hash record with this owner value has not been registered yet.
pub open spec fn unregistered(rec: HashAccount) -> bool {
    rec.owner@ == zero_key()
}

/// The owner record's invariant: the list never exceeds the fixed capacity.
pub open spec fn owner_wf(rec: OwnerAccount) -> bool {
    rec.hashes@.len() <= MAX_OWNER_HASHES
}

/// The exact outcome of a registration attempt, as a function of the hash,
/// the current owner field of the hash record, and the current length of
/// the author's hash list. The checks apply in this order: zero hash,
/// already registered, owner list full.
pub open spec fn spec_outcome(hash: Seq<u8>, owner: Seq<u8>, owned: nat) -> Result<
    (),
    RegisterError,
> {
    if hash == zero_key() {
        Err(RegisterError::Program(ErrorCode::InvalidHash))
    } else if owner != zero_key() {
        Err(RegisterError::Program(ErrorCode::HashAlreadyRegistered))
    } else if owned >= MAX_OWNER_HASHES {
        Err(RegisterError::OwnerAccountFull)
    } else {
        Ok(())
    }
}

/// Whether a 32-byte value is the all-zero default. This is also the whole
/// read path of the registry: a hash is registered exactly when the record
/// at its derived address carries a non-zero owner.
pub fn is_zero_key(key: &[u8; 32]) -> (r: bool)
    ensures
        r <==> key@ == zero_key(),
{
    let mut i: usize = 0;
    while i < 32
        invariant
            i <= 32,
            forall|j: int| 0 <= j < i ==> key@[j] == 0u8,
        decreases 32 - i,
    {
        if key[i] != 0 {
            proof {
                assert(zero_key()[i as int] == 0u8);
            }
            return false;
        }
        i += 1;
    }
    proof {
        assert(key@ =~= zero_key());
    }
    true
}

/// Validate and apply one registration: reject an all-zero hash, reject a
/// hash that already carries an owner, reject an owner list that is already
/// at capacity; otherwise set the hash record's owner to the author and
/// append the hash to the author's list. The first failing check returns
/// with neither record changed.
pub fn register_image(ctx: &mut RegisterImage, hash: [u8; 32]) -> (r: Result<(), RegisterError>)
    requires
        old(ctx).author@ != zero_key(),
    ensures
        r == spec_outcome(
            hash@,
            old(ctx).hash_account.owner@,
            old(ctx).owner_account.hashes@.len(),
        ),
        final(ctx).author == old(ctx).author,
        r is Ok ==> final(ctx).hash_account.owner == old(ctx).author && !unregistered(
            final(ctx).hash_account,
        ),
        r is Ok ==> final(ctx).owner_account.hashes@ == old(ctx).owner_account.hashes@.push(hash),
        r is Err ==> final(ctx).hash_account.owner == old(ctx).hash_account.owner,
        r is Err ==> final(ctx).owner_account.hashes@ == old(ctx).owner_account.hashes@,
        owner_wf(old(ctx).owner_account) ==> owner_wf(final(ctx).owner_account),
{
    if is_zero_key(&hash) {
        return Err(RegisterError::Program(ErrorCode::InvalidHash));
    }
    if !is_zero_key(&ctx.hash_account.owner) {
        return Err(RegisterError::Program(ErrorCode::HashAlreadyRegistered));
    }
    if ctx.owner_account.hashes.len() >= MAX_OWNER_HASHES {
        return Err(RegisterError::OwnerAccountFull);
    }
    ctx.hash_account.owner = ctx.author;
    ctx.owner_account.hashes.push(hash);
    Ok(())
}

impl ErrorCode {
    /// The human-readable message reported with each domain error.
    pub fn message(&self) -> (r: &'static str)
        ensures
            *self is InvalidHash ==> r@ == "The provided hash is invalid (all zeros)."@,
            *self is HashAlreadyRegistered ==> r@ == "This hash has already been registered."@,
    {
        match self {
            ErrorCode::InvalidHash => "The provided hash is invalid (all zeros).",
            ErrorCode::HashAlreadyRegistered => "This hash has already been registered.",
        }
    }
}

} // verus!
