//! A ledger-wide model of the registry, and the laws of its transition.
//!
//! [`crate::registry::register_image`] acts on the two records the host
//! resolves for one (hash, author) pair. This module models the whole
//! ledger — every hash record and every owner record at once — as two
//! maps, restates the transition over that state, and proves the laws the
//! registry promises: first write wins, ownership is permanent, rejection
//! is idempotent, owner lists are append-only, and registrations on
//! disjoint records are independent. [`lemma_register_refines`] ties the
//! record-level contract of `register_image` to this model.

use vstd::prelude::*;

use crate::registry::ErrorCode;
use crate::registry::HashAccount;
use crate::registry::MAX_OWNER_HASHES;
use crate::registry::OwnerAccount;
use crate::registry::RegisterError;
use crate::registry::spec_outcome;
use crate::registry::zero_key;

verus! {

/// The whole registry at one instant: which identity owns each registered
/// hash, and the ordered hash list of each owner that has registered at
/// least once. A hash is registered exactly when it is in `owner_of`'s
/// domain.
#[verifier::ext_equal]
pub struct RegistryState {
    pub owner_of: Map<Seq<u8>, Seq<u8>>,
    pub hashes_of: Map<Seq<u8>, Seq<Seq<u8>>>,
}

/// Whether `h` has been registered in state `s`.
pub open spec fn registered(s: RegistryState, h: Seq<u8>) -> bool {
    s.owner_of.dom().contains(h)
}

/// The ordered list of hashes author `a` has registered so far; empty for
/// an author that never registered.
pub open spec fn author_hashes(s: RegistryState, a: Seq<u8>) -> Seq<Seq<u8>> {
    if s.hashes_of.dom().contains(a) {
        s.hashes_of[a]
    } else {
        Seq::<Seq<u8>>::empty()
    }
}

/// The state invariant: every registered hash is non-zero and carries a
/// non-default owner, and no owner's list exceeds the fixed capacity.
pub open spec fn state_wf(s: RegistryState) -> bool {
    &&& forall|h: Seq<u8>|
        #[trigger] s.owner_of.dom().contains(h) ==> s.owner_of[h] != zero_key() && h != zero_key()
    &&& forall|a: Seq<u8>|
        #[trigger] s.hashes_of.dom().contains(a) ==> s.hashes_of[a].len() <= MAX_OWNER_HASHES
}

/// The outcome of author `a` attempting to register `h` in state `s`,
/// with the checks in the transition's order.
pub open spec fn reg_outcome(s: RegistryState, h: Seq<u8>, a: Seq<u8>) -> Result<
    (),
    RegisterError,
> {
    if h == zero_key() {
        Err(RegisterError::Program(ErrorCode::InvalidHash))
    } else if registered(s, h) {
        Err(RegisterError::Program(ErrorCode::HashAlreadyRegistered))
    } else if author_hashes(s, a).len() >= MAX_OWNER_HASHES {
        Err(RegisterError::OwnerAccountFull)
    } else {
        Ok(())
    }
}

/// The state after author `a` attempts to register `h`: on success the
/// hash is bound to `a` and appended to `a`'s list, atomically; on any
/// failure the state is unchanged.
pub open spec fn reg_step(s: RegistryState, h: Seq<u8>, a: Seq<u8>) -> RegistryState {
    if reg_outcome(s, h, a) is Ok {
        RegistryState {
            owner_of: s.owner_of.insert(h, a),
            hashes_of: s.hashes_of.insert(a, author_hashes(s, a).push(h)),
        }
    } else {
        s
    }
}

/// The views of the hashes in an owner record.
pub open spec fn hash_views(hs: Seq<[u8; 32]>) -> Seq<Seq<u8>> {
    hs.map_values(|x: [u8; 32]| x@)
}

/// The hash record the host resolves for `h` matches state `s`: it carries
/// `h`'s owner, or the all-zero default while `h` is unregistered.
pub open spec fn hash_account_tracks(s: RegistryState, h: Seq<u8>, rec: HashAccount) -> bool {
    rec.owner@ == if registered(s, h) {
        s.owner_of[h]
    } else {
        zero_key()
    }
}

/// The owner record the host resolves for `a` matches state `s`: it holds
/// exactly `a`'s registered hashes, in order.
pub open spec fn owner_account_tracks(s: RegistryState, a: Seq<u8>, rec: OwnerAccount) -> bool {
    hash_views(rec.hashes@) == author_hashes(s, a)
}

/// A step preserves the state invariant.
pub proof fn lemma_step_preserves_wf(s: RegistryState, h: Seq<u8>, a: Seq<u8>)
    requires
        state_wf(s),
        a != zero_key(),
    ensures
        state_wf(reg_step(s, h, a)),
{
}

/// The record-level transition agrees with the ledger-wide model: on
/// records that match state `s`, `register_image`'s outcome is the model's
/// outcome, and the records it writes on success match the stepped state.
/// `rec_h2` and `rec_o2` are the records after a successful call, exactly
/// as `register_image` ensures them.
pub proof fn lemma_register_refines(
    s: RegistryState,
    hash: [u8; 32],
    author: [u8; 32],
    rec_h: HashAccount,
    rec_o: OwnerAccount,
    rec_h2: HashAccount,
    rec_o2: OwnerAccount,
)
    requires
        state_wf(s),
        author@ != zero_key(),
        hash_account_tracks(s, hash@, rec_h),
        owner_account_tracks(s, author@, rec_o),
        rec_h2.owner == author,
        rec_o2.hashes@ == rec_o.hashes@.push(hash),
    ensures
        spec_outcome(hash@, rec_h.owner@, rec_o.hashes@.len()) == reg_outcome(s, hash@, author@),
        reg_outcome(s, hash@, author@) is Ok ==> hash_account_tracks(
            reg_step(s, hash@, author@),
            hash@,
            rec_h2,
        ),
        reg_outcome(s, hash@, author@) is Ok ==> owner_account_tracks(
            reg_step(s, hash@, author@),
            author@,
            rec_o2,
        ),
        reg_outcome(s, hash@, author@) is Err ==> reg_step(s, hash@, author@) == s,
{
    assert(hash_views(rec_o.hashes@).len() == rec_o.hashes@.len());
    if reg_outcome(s, hash@, author@) is Ok {
        assert(hash_views(rec_o2.hashes@) =~= hash_views(rec_o.hashes@).push(hash@));
    }
}

/// Once a hash is registered its owner is permanent: no later attempt, by
/// anyone and for any hash, changes it, and a later attempt for that very
/// hash is rejected as already registered.
pub proof fn lemma_owner_is_permanent(s: RegistryState, h: Seq<u8>, h2: Seq<u8>, a2: Seq<u8>)
    requires
        state_wf(s),
        registered(s, h),
    ensures
        registered(reg_step(s, h2, a2), h),
        reg_step(s, h2, a2).owner_of[h] == s.owner_of[h],
        h2 == h ==> reg_outcome(s, h2, a2) == Err::<(), RegisterError>(
            RegisterError::Program(ErrorCode::HashAlreadyRegistered),
        ),
{
}

/// The state after a whole sequence of registration attempts, applied in
/// order; each element is a (hash, author) pair.
pub open spec fn run_steps(s: RegistryState, steps: Seq<(Seq<u8>, Seq<u8>)>) -> RegistryState
    decreases steps.len(),
{
    if steps.len() == 0 {
        s
    } else {
        reg_step(run_steps(s, steps.drop_last()), steps.last().0, steps.last().1)
    }
}

/// The state invariant holds along any run of attempts by authenticated
/// (non-default) authors.
pub proof fn lemma_run_preserves_wf(s: RegistryState, steps: Seq<(Seq<u8>, Seq<u8>)>)
    requires
        state_wf(s),
        forall|i: int| 0 <= i < steps.len() ==> (#[trigger] steps[i]).1 != zero_key(),
    ensures
        state_wf(run_steps(s, steps)),
    decreases steps.len(),
{
    if steps.len() > 0 {
        lemma_run_preserves_wf(s, steps.drop_last());
        lemma_step_preserves_wf(run_steps(s, steps.drop_last()), steps.last().0, steps.last().1);
    }
}

/// Ownership is permanent: once a hash is registered, no later run of
/// attempts, of any length and by anyone, changes its owner.
pub proof fn lemma_owner_survives_run(
    s: RegistryState,
    h: Seq<u8>,
    steps: Seq<(Seq<u8>, Seq<u8>)>,
)
    requires
        state_wf(s),
        registered(s, h),
        forall|i: int| 0 <= i < steps.len() ==> (#[trigger] steps[i]).1 != zero_key(),
    ensures
        registered(run_steps(s, steps), h),
        run_steps(s, steps).owner_of[h] == s.owner_of[h],
    decreases steps.len(),
{
    if steps.len() > 0 {
        lemma_owner_survives_run(s, h, steps.drop_last());
        lemma_run_preserves_wf(s, steps.drop_last());
        lemma_owner_is_permanent(
            run_steps(s, steps.drop_last()),
            h,
            steps.last().0,
            steps.last().1,
        );
    }
}

/// First write wins: for a non-zero, unregistered hash and two distinct
/// authors, the author whose call is applied first succeeds and becomes
/// the owner; the other author's call is rejected as already registered
/// and changes nothing, so the first author owns the hash permanently.
/// Either submission order is this lemma with `a` and `b` exchanged.
pub proof fn lemma_first_write_wins(s: RegistryState, h: Seq<u8>, a: Seq<u8>, b: Seq<u8>)
    requires
        state_wf(s),
        h != zero_key(),
        a != zero_key(),
        b != zero_key(),
        a != b,
        !registered(s, h),
        author_hashes(s, a).len() < MAX_OWNER_HASHES,
    ensures
        reg_outcome(s, h, a) == Ok::<(), RegisterError>(()),
        reg_step(s, h, a).owner_of[h] == a,
        reg_outcome(reg_step(s, h, a), h, b) == Err::<(), RegisterError>(
            RegisterError::Program(ErrorCode::HashAlreadyRegistered),
        ),
        reg_step(reg_step(s, h, a), h, b) == reg_step(s, h, a),
        reg_step(reg_step(s, h, a), h, b).owner_of[h] == a,
{
}

/// Rejection is idempotent: repeating the exact call that just succeeded
/// is rejected as already registered, changes nothing, and in particular
/// does not append the hash to the author's list a second time.
pub proof fn lemma_idempotent_rejection(s: RegistryState, h: Seq<u8>, a: Seq<u8>)
    requires
        state_wf(s),
        reg_outcome(s, h, a) == Ok::<(), RegisterError>(()),
    ensures
        reg_outcome(reg_step(s, h, a), h, a) == Err::<(), RegisterError>(
            RegisterError::Program(ErrorCode::HashAlreadyRegistered),
        ),
        reg_step(reg_step(s, h, a), h, a) == reg_step(s, h, a),
        author_hashes(reg_step(reg_step(s, h, a), h, a), a) == author_hashes(reg_step(s, h, a), a),
{
}

/// Owner lists are append-only and ordered: three successful
/// registrations by one author extend the author's list by exactly those
/// three hashes, in submission order, leaving every earlier entry in
/// place — no reordering and no deduplication across distinct hashes.
pub proof fn lemma_append_only_ordering(
    s: RegistryState,
    h1: Seq<u8>,
    h2: Seq<u8>,
    h3: Seq<u8>,
    a: Seq<u8>,
)
    requires
        state_wf(s),
        a != zero_key(),
        h1 != zero_key(),
        h2 != zero_key(),
        h3 != zero_key(),
        h1 != h2,
        h1 != h3,
        h2 != h3,
        !registered(s, h1),
        !registered(s, h2),
        !registered(s, h3),
        author_hashes(s, a).len() + 3 <= MAX_OWNER_HASHES,
    ensures
        reg_outcome(s, h1, a) == Ok::<(), RegisterError>(()),
        reg_outcome(reg_step(s, h1, a), h2, a) == Ok::<(), RegisterError>(()),
        reg_outcome(reg_step(reg_step(s, h1, a), h2, a), h3, a) == Ok::<(), RegisterError>(()),
        author_hashes(reg_step(reg_step(reg_step(s, h1, a), h2, a), h3, a), a) == author_hashes(
            s,
            a,
        ) + seq![h1, h2, h3],
        forall|i: int|
            0 <= i < author_hashes(s, a).len() ==> author_hashes(
                reg_step(reg_step(reg_step(s, h1, a), h2, a), h3, a),
                a,
            )[i] == author_hashes(s, a)[i],
{
    let s1 = reg_step(s, h1, a);
    let s2 = reg_step(s1, h2, a);
    let s3 = reg_step(s2, h3, a);
    assert(author_hashes(s1, a) == author_hashes(s, a).push(h1));
    assert(author_hashes(s2, a) == author_hashes(s1, a).push(h2));
    assert(author_hashes(s3, a) == author_hashes(s2, a).push(h3));
    assert(author_hashes(s3, a) =~= author_hashes(s, a) + seq![h1, h2, h3]);
}

/// Registrations of distinct hashes by distinct authors are independent:
/// neither call's outcome is affected by whether the other was applied
/// first, and the two steps commute to the same final state.
pub proof fn lemma_disjoint_independence(
    s: RegistryState,
    h1: Seq<u8>,
    a1: Seq<u8>,
    h2: Seq<u8>,
    a2: Seq<u8>,
)
    requires
        h1 != h2,
        a1 != a2,
    ensures
        reg_outcome(reg_step(s, h2, a2), h1, a1) == reg_outcome(s, h1, a1),
        reg_outcome(reg_step(s, h1, a1), h2, a2) == reg_outcome(s, h2, a2),
        reg_step(reg_step(s, h1, a1), h2, a2) == reg_step(reg_step(s, h2, a2), h1, a1),
{
    let sa = reg_step(reg_step(s, h1, a1), h2, a2);
    let sb = reg_step(reg_step(s, h2, a2), h1, a1);
    assert(sa.owner_of =~= sb.owner_of);
    assert(sa.hashes_of =~= sb.hashes_of);
    assert(sa =~= sb);
}

} // verus!
