//! Lowercase hex rendering of a hash, used for the informational line
//! logged on each successful registration.

use vstd::prelude::*;

verus! {

/// The ASCII code of the lowercase hex digit for a nibble.
pub open spec fn hex_digit(n: u8) -> u8
    recommends
        n < 16,
{
    if n < 10 {
        (48 + n) as u8
    } else {
        (87 + n) as u8
    }
}

/// The high nibble of a byte.
pub open spec fn hi_nibble(b: u8) -> u8 {
    (b / 16) as u8
}

/// The low nibble of a byte.
pub open spec fn lo_nibble(b: u8) -> u8 {
    (b % 16) as u8
}

fn hex_digit_byte(n: u8) -> (r: u8)
    requires
        n < 16,
    ensures
        r == hex_digit(n),
{
    if n < 10 {
        48 + n
    } else {
        87 + n
    }
}

/// The 64 ASCII bytes of the lowercase hex form of a 32-byte hash: two
/// digits per byte, in byte order, high nibble first.
pub fn hash_to_hex(hash: &[u8; 32]) -> (out: Vec<u8>)
    ensures
        out@.len() == 64,
        forall|i: int|
            0 <= i < 32 ==> out@[2 * i] == hex_digit(hi_nibble(hash@[i])) && out@[2 * i + 1]
                == hex_digit(lo_nibble(hash@[i])),
{
    let mut out: Vec<u8> = Vec::new();
    let mut i: usize = 0;
    while i < 32
        invariant
            i <= 32,
            out@.len() == 2 * i,
            forall|j: int|
                0 <= j < i ==> out@[2 * j] == hex_digit(hi_nibble(hash@[j])) && out@[2 * j + 1]
                    == hex_digit(lo_nibble(hash@[j])),
        decreases 32 - i,
    {
        let b = hash[i];
        out.push(hex_digit_byte(b / 16));
        out.push(hex_digit_byte(b % 16));
        i += 1;
    }
    out
}

} // verus!
