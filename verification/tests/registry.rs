use image_registry::registry::is_zero_key;
use image_registry::registry::register_image;
use image_registry::registry::ErrorCode;
use image_registry::registry::HashAccount;
use image_registry::registry::OwnerAccount;
use image_registry::registry::RegisterError;
use image_registry::registry::RegisterImage;
use image_registry::registry::MAX_OWNER_HASHES;

fn fresh_ctx(author: [u8; 32]) -> RegisterImage {
    RegisterImage {
        hash_account: HashAccount { owner: [0u8; 32] },
        owner_account: OwnerAccount { hashes: Vec::new() },
        author,
    }
}

#[test]
fn zero_hash_is_rejected_without_writes() {
    let mut ctx = fresh_ctx([1u8; 32]);
    let r = register_image(&mut ctx, [0u8; 32]);
    assert_eq!(r, Err(RegisterError::Program(ErrorCode::InvalidHash)));
    assert_eq!(ctx.hash_account.owner, [0u8; 32]);
    assert!(ctx.owner_account.hashes.is_empty());
}

#[test]
fn successful_registration_writes_both_records() {
    let author = [1u8; 32];
    let hash = [0x11u8; 32];
    let mut ctx = fresh_ctx(author);
    let r = register_image(&mut ctx, hash);
    assert_eq!(r, Ok(()));
    assert_eq!(ctx.hash_account.owner, author);
    assert_eq!(ctx.owner_account.hashes, vec![hash]);
}

#[test]
fn first_write_wins() {
    let a = [1u8; 32];
    let b = [2u8; 32];
    let hash = [0x11u8; 32];

    // A registers first and owns the hash.
    let mut ctx_a = fresh_ctx(a);
    assert_eq!(register_image(&mut ctx_a, hash), Ok(()));
    assert_eq!(ctx_a.hash_account.owner, a);

    // B's attempt resolves the same hash record, already owned by A.
    let mut ctx_b = RegisterImage {
        hash_account: HashAccount { owner: ctx_a.hash_account.owner },
        owner_account: OwnerAccount { hashes: Vec::new() },
        author: b,
    };
    let r = register_image(&mut ctx_b, hash);
    assert_eq!(
        r,
        Err(RegisterError::Program(ErrorCode::HashAlreadyRegistered))
    );
    // The owner is unchanged and B's list gained nothing.
    assert_eq!(ctx_b.hash_account.owner, a);
    assert!(ctx_b.owner_account.hashes.is_empty());
}

#[test]
fn repeating_a_successful_call_is_rejected_without_a_duplicate() {
    let a = [1u8; 32];
    let hash = [0x11u8; 32];
    let mut ctx = fresh_ctx(a);
    assert_eq!(register_image(&mut ctx, hash), Ok(()));
    let r = register_image(&mut ctx, hash);
    assert_eq!(
        r,
        Err(RegisterError::Program(ErrorCode::HashAlreadyRegistered))
    );
    assert_eq!(ctx.hash_account.owner, a);
    assert_eq!(ctx.owner_account.hashes, vec![hash]);
}

#[test]
fn owner_list_keeps_registration_order() {
    let a = [1u8; 32];
    let h1 = [0x11u8; 32];
    let h2 = [0x22u8; 32];
    let h3 = [0x33u8; 32];
    let mut ctx = fresh_ctx(a);
    for h in [h1, h2, h3] {
        // Each hash resolves its own, still unregistered, hash record.
        ctx.hash_account = HashAccount { owner: [0u8; 32] };
        assert_eq!(register_image(&mut ctx, h), Ok(()));
    }
    assert_eq!(ctx.owner_account.hashes, vec![h1, h2, h3]);
}

#[test]
fn disjoint_registrations_are_independent() {
    let a1 = [1u8; 32];
    let a2 = [2u8; 32];
    let h1 = [0x11u8; 32];
    let h2 = [0x22u8; 32];

    // Either submission order leaves both pairs of records the same.
    for order in [[0, 1], [1, 0]] {
        let mut ctx1 = fresh_ctx(a1);
        let mut ctx2 = fresh_ctx(a2);
        for which in order {
            if which == 0 {
                assert_eq!(register_image(&mut ctx1, h1), Ok(()));
            } else {
                assert_eq!(register_image(&mut ctx2, h2), Ok(()));
            }
        }
        assert_eq!(ctx1.hash_account.owner, a1);
        assert_eq!(ctx2.hash_account.owner, a2);
        assert_eq!(ctx1.owner_account.hashes, vec![h1]);
        assert_eq!(ctx2.owner_account.hashes, vec![h2]);
    }
}

#[test]
fn registration_at_capacity_fails() {
    let a = [1u8; 32];
    let mut ctx = fresh_ctx(a);
    for i in 0..MAX_OWNER_HASHES {
        let mut h = [0u8; 32];
        h[0] = (i % 256) as u8;
        h[1] = (i / 256) as u8;
        h[31] = 1;
        ctx.owner_account.hashes.push(h);
    }
    assert_eq!(ctx.owner_account.hashes.len(), 100);
    let r = register_image(&mut ctx, [0x44u8; 32]);
    assert_eq!(r, Err(RegisterError::OwnerAccountFull));
    assert_eq!(ctx.hash_account.owner, [0u8; 32]);
    assert_eq!(ctx.owner_account.hashes.len(), 100);
}

#[test]
fn registration_just_below_capacity_succeeds() {
    let a = [1u8; 32];
    let mut ctx = fresh_ctx(a);
    for i in 0..MAX_OWNER_HASHES - 1 {
        let mut h = [0u8; 32];
        h[0] = (i % 256) as u8;
        h[1] = (i / 256) as u8;
        h[31] = 1;
        ctx.owner_account.hashes.push(h);
    }
    let r = register_image(&mut ctx, [0x44u8; 32]);
    assert_eq!(r, Ok(()));
    assert_eq!(ctx.owner_account.hashes.len(), 100);
    assert_eq!(ctx.owner_account.hashes[99], [0x44u8; 32]);
}

#[test]
fn example_scenario() {
    let a = [0xaau8; 32];
    let b = [0xbbu8; 32];
    let h1 = [0x11u8; 32];
    let h2 = [0x22u8; 32];

    // A registers [0x11; 32].
    let mut ctx_a = fresh_ctx(a);
    assert_eq!(register_image(&mut ctx_a, h1), Ok(()));
    let hex = image_registry::hex::hash_to_hex(&h1);
    assert_eq!(hex, [b'1'; 64].to_vec());

    // B's attempt with the same hash fails.
    let mut ctx_b = RegisterImage {
        hash_account: HashAccount { owner: ctx_a.hash_account.owner },
        owner_account: OwnerAccount { hashes: Vec::new() },
        author: b,
    };
    assert_eq!(
        register_image(&mut ctx_b, h1),
        Err(RegisterError::Program(ErrorCode::HashAlreadyRegistered))
    );

    // A registers [0x22; 32]; A's list is exactly [h1, h2].
    ctx_a.hash_account = HashAccount { owner: [0u8; 32] };
    assert_eq!(register_image(&mut ctx_a, h2), Ok(()));
    assert_eq!(ctx_a.owner_account.hashes, vec![h1, h2]);
}

#[test]
fn zero_key_detection() {
    assert!(is_zero_key(&[0u8; 32]));
    let mut k = [0u8; 32];
    k[31] = 1;
    assert!(!is_zero_key(&k));
    assert!(!is_zero_key(&[0xffu8; 32]));
}

#[test]
fn error_messages() {
    assert_eq!(
        ErrorCode::InvalidHash.message(),
        "The provided hash is invalid (all zeros)."
    );
    assert_eq!(
        ErrorCode::HashAlreadyRegistered.message(),
        "This hash has already been registered."
    );
}
