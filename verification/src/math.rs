//! Powers of three, the weight base of balanced-ternary positions.

use vstd::prelude::*;

verus! {

/// 3 to the power `n`, the weight of the `n`-th trit position.
pub open spec fn pow3(n: nat) -> int
    decreases n,
{
    if n == 0 {
        1
    } else {
        3 * pow3((n - 1) as nat)
    }
}

/// Every power of three is positive.
pub proof fn lemma_pow3_pos(n: nat)
    ensures
        pow3(n) >= 1,
    decreases n,
{
    if n > 0 {
        lemma_pow3_pos((n - 1) as nat);
    }
}

/// Powers of three grow with the exponent.
pub proof fn lemma_pow3_mono(m: nat, n: nat)
    requires
        m <= n,
    ensures
        pow3(m) <= pow3(n),
    decreases n,
{
    if m < n {
        lemma_pow3_mono(m, (n - 1) as nat);
        lemma_pow3_pos((n - 1) as nat);
    }
}

/// Three trit positions make one tryte position: the base steps by 27.
pub proof fn lemma_pow3_tryte_step(n: nat)
    ensures
        pow3(n + 3) == 27 * pow3(n),
{
    assert(pow3(n + 3) == 3 * pow3(n + 2));
    assert(pow3(n + 2) == 3 * pow3(n + 1));
    assert(pow3(n + 1) == 3 * pow3(n));
}

/// The concrete weight of the position past 20 trits, the trit decoder's
/// length bound.
pub proof fn lemma_pow3_20()
    ensures
        pow3(20) == 3486784401,
{
    reveal_with_fuel(pow3, 21);
}

/// The concrete weight of the position past 33 trits (11 trytes).
pub proof fn lemma_pow3_33()
    ensures
        pow3(33) == 5559060566555523,
{
    reveal_with_fuel(pow3, 34);
}

/// The concrete weight of the position past 39 trits (13 trytes).
pub proof fn lemma_pow3_39()
    ensures
        pow3(39) == 4052555153018976267,
{
    reveal_with_fuel(pow3, 40);
}

/// The concrete weight of the position past 81 trits (27 trytes).
pub proof fn lemma_pow3_81()
    ensures
        pow3(81) == 443426488243037769948249630619149892803,
{
    reveal_with_fuel(pow3, 82);
}

/// 27 to the power `i`, the weight of tryte position `i` in the bounded
/// 11-tryte fast path, precomputed for each of the 11 positions.
pub fn pow27(i: usize) -> (r: i64)
    requires
        i < 11,
    ensures
        r == pow3(3 * i as nat),
{
    proof {
        reveal_with_fuel(pow3, 31);
    }
    match i {
        0 => 1,
        1 => 27,
        2 => 729,
        3 => 19683,
        4 => 531441,
        5 => 14348907,
        6 => 387420489,
        7 => 10460353203,
        8 => 282429536481,
        9 => 7625597484987,
        _ => 205891132094649,
    }
}

} // verus!
