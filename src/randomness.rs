//! Seeding and the random draws that the lattice set-up takes.
use vstd::prelude::*;

use rand::rngs::StdRng;

verus! {

#[verifier::external_type_specification]
#[verifier::external_body]
pub struct ExStdRng(StdRng);

/// Relies on rand's `seq::index::sample`: it returns exactly `amount`
/// distinct indices from `0..n`, and panics when `amount > n`.
#[verifier::external_body]
pub(crate) fn choose_indices(rng: &mut StdRng, n: usize, amount: usize) -> (r: Vec<usize>)
    requires
        amount <= n,
    ensures
        r@.len() == amount,
        r@.no_duplicates(),
        forall|j: int| 0 <= j < r@.len() ==> #[trigger] r@[j] < n,
{
    rand::seq::index::sample(rng, n, amount).into_vec()
}

/// `v` reduced modulo 255 into a byte.
pub open spec fn wrap_byte(v: int) -> u8 {
    (v % 255) as u8
}

/// A 32-byte seed built from the current time given as milliseconds,
/// seconds and nanoseconds since the epoch: byte 0, 15 and 31 hold them
/// modulo 255, every other byte is zero.
pub fn gen_seed_from_time(millis: u128, secs: u64, nanos: u128) -> (s: [u8; 32])
    ensures
        s@[0] == wrap_byte(millis as int),
        s@[15] == wrap_byte(secs as int),
        s@[31] == wrap_byte(nanos as int),
        forall|i: int| 0 <= i < 32 && i != 0 && i != 15 && i != 31 ==> #[trigger] s@[i] == 0,
{
    let mut s = [0u8; 32];
    s[0] = (millis % 255) as u8;
    s[15] = (secs as u128 % 255) as u8;
    s[31] = (nanos % 255) as u8;
    s
}

} // verus!
