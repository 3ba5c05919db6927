//! Small facts about numbers that the size checks use.

use vstd::prelude::*;

verus! {

/// Whether `n` is a power of two (1, 2, 4, ...).
pub open spec fn is_power_of_two(n: nat) -> bool
    decreases n,
{
    if n == 0 {
        false
    } else if n == 1 {
        true
    } else if n % 2 == 1 {
        false
    } else {
        is_power_of_two(n / 2)
    }
}

/// Whether `n` is a power of two, as `u32::is_power_of_two` tells.
pub fn power_of_two(n: u32) -> (r: bool)
    ensures
        r == is_power_of_two(n as nat),
{
    if n == 0 {
        return false;
    }
    let mut x: u32 = n;
    while x > 1 && x % 2 == 0
        invariant
            x > 0,
            is_power_of_two(x as nat) == is_power_of_two(n as nat),
        decreases x,
    {
        x = x / 2;
    }
    x == 1
}

/// The powers of two from 1 to 32768 are the sixteen numbers 1, 2, 4, ..., 32768.
pub proof fn lemma_small_powers_of_two(n: nat)
    requires
        is_power_of_two(n),
        n <= 32768,
    ensures
        n == 1 || n == 2 || n == 4 || n == 8 || n == 16 || n == 32 || n == 64 || n == 128 || n == 256 || n == 512 || n == 1024 || n == 2048 || n == 4096 || n == 8192 || n == 16384 || n == 32768,
    decreases n,
{
    if n > 1 {
        lemma_small_powers_of_two(n / 2);
    }
}

} // verus!
