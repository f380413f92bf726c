//! Decoders from trit and tryte sequences to signed integers.
//!
//! Sequences carry their least significant digit first. A sequence of
//! trytes stands for the balanced-ternary numeral obtained by expanding each
//! symbol into its three trits, so position `i` of a tryte sequence has
//! weight `27^i` and position `i` of a trit sequence has weight `3^i`.

use vstd::prelude::*;
use crate::alphabet::{
    is_trit, is_tryte, is_trit_val, is_tryte_sym, tryte_num, tryte_to_trits, tryte_val, Trit,
    Tryte,
};
use crate::math::{lemma_pow3_mono, lemma_pow3_pos, lemma_pow3_tryte_step, pow27, pow3};
use crate::types::{s129_canonical, s129_val, Error, Sign, S129};

verus! {

/// Whether every byte of a sequence is a tryte symbol.
pub open spec fn trytes_ok(s: Seq<u8>) -> bool {
    forall|i: int| 0 <= i < s.len() ==> is_tryte(s[i])
}

/// Whether every element of a sequence is a balanced-ternary digit.
pub open spec fn trits_ok(s: Seq<i8>) -> bool {
    forall|i: int| 0 <= i < s.len() ==> is_trit(s[i])
}

/// The integer a tryte sequence stands for, least significant tryte first.
pub open spec fn trytes_val(s: Seq<u8>) -> int
    decreases s.len(),
{
    if s.len() == 0 {
        0
    } else {
        tryte_val(s[0]) + 27 * trytes_val(s.drop_first())
    }
}

/// The integer a trit sequence stands for, least significant trit first.
pub open spec fn trits_val(s: Seq<i8>) -> int
    decreases s.len(),
{
    if s.len() == 0 {
        0
    } else {
        s[0] + 3 * trits_val(s.drop_first())
    }
}

/// Splitting off the least significant tryte of the suffix starting at `j`.
pub proof fn lemma_trytes_val_skip(s: Seq<u8>, j: int)
    requires
        0 <= j < s.len(),
    ensures
        trytes_val(s.skip(j)) == tryte_val(s[j]) + 27 * trytes_val(s.skip(j + 1)),
{
    assert(s.skip(j).len() > 0);
    assert(s.skip(j)[0] == s[j]);
    assert(s.skip(j).drop_first() =~= s.skip(j + 1));
}

/// Splitting off the least significant trit of the suffix starting at `j`.
pub proof fn lemma_trits_val_skip(s: Seq<i8>, j: int)
    requires
        0 <= j < s.len(),
    ensures
        trits_val(s.skip(j)) == s[j] + 3 * trits_val(s.skip(j + 1)),
{
    assert(s.skip(j).len() > 0);
    assert(s.skip(j)[0] == s[j]);
    assert(s.skip(j).drop_first() =~= s.skip(j + 1));
}

/// Appending a tryte at the most significant end adds its value at weight
/// `27^len`.
pub proof fn lemma_trytes_val_push(s: Seq<u8>, x: u8)
    ensures
        trytes_val(s.push(x)) == trytes_val(s) + pow3(3 * s.len()) * tryte_val(x),
    decreases s.len(),
{
    if s.len() == 0 {
        assert(s.push(x)[0] == x);
        assert(s.push(x).drop_first() =~= Seq::<u8>::empty());
        assert(trytes_val(Seq::<u8>::empty()) == 0);
    } else {
        assert(s.push(x).drop_first() =~= s.drop_first().push(x));
        assert(s.push(x)[0] == s[0]);
        lemma_trytes_val_push(s.drop_first(), x);
        lemma_pow3_tryte_step(3 * (s.len() - 1) as nat);
        assert(trytes_val(s.push(x)) == tryte_val(s[0]) + 27 * (trytes_val(s.drop_first())
            + pow3(3 * (s.len() - 1) as nat) * tryte_val(x)));
        assert(27 * (pow3(3 * (s.len() - 1) as nat) * tryte_val(x)) == (27 * pow3(3 * (s.len()
            - 1) as nat)) * tryte_val(x)) by (nonlinear_arith);
    }
}

/// The value of a trit sequence of length `n` lies strictly inside
/// `(-3^n/2, 3^n/2)`: twice its magnitude is at most `3^n - 1`.
pub proof fn lemma_trits_val_bound(s: Seq<i8>)
    requires
        trits_ok(s),
    ensures
        -(pow3(s.len()) - 1) <= 2 * trits_val(s) <= pow3(s.len()) - 1,
    decreases s.len(),
{
    if s.len() == 0 {
    } else {
        assert(is_trit(s[0]));
        lemma_trits_val_bound(s.drop_first());
    }
}

/// The value of a tryte sequence of length `n` lies strictly inside
/// `(-27^n/2, 27^n/2)`: twice its magnitude is at most `3^(3n) - 1`.
pub proof fn lemma_trytes_val_bound(s: Seq<u8>)
    requires
        trytes_ok(s),
    ensures
        -(pow3(3 * s.len()) - 1) <= 2 * trytes_val(s) <= pow3(3 * s.len()) - 1,
    decreases s.len(),
{
    if s.len() == 0 {
    } else {
        assert(is_tryte(s[0]));
        lemma_trytes_val_bound(s.drop_first());
        lemma_pow3_tryte_step(3 * (s.len() - 1) as nat);
        lemma_pow3_pos(3 * (s.len() - 1) as nat);
    }
}

/// A single tryte decodes to its own symbol value, so every decoder that
/// pins its result to `trytes_val` returns that value on one-symbol input.
pub proof fn lemma_single_tryte_val(a: u8)
    ensures
        trytes_val(seq![a]) == tryte_val(a),
{
    assert(seq![a][0] == a);
    assert(seq![a].drop_first() =~= Seq::<u8>::empty());
    assert(trytes_val(Seq::<u8>::empty()) == 0);
}

/// A tryte in the second position weighs 27 times one in the first: a
/// two-tryte sequence decodes to the first symbol's value plus 27 times the
/// second symbol's value.
pub proof fn lemma_second_position_weight(a: u8, b: u8)
    ensures
        trytes_val(seq![a, b]) == tryte_val(a) + 27 * tryte_val(b),
{
    assert(seq![a, b][0] == a);
    assert(seq![a, b].drop_first() =~= seq![b]);
    lemma_single_tryte_val(b);
    assert(trytes_val(seq![a, b]) == tryte_val(a) + 27 * trytes_val(seq![b]));
}

/// The extended decoder's result reconstructs the bounded decoders' integer
/// wherever both apply: for one tryte sequence, a canonical sign-magnitude
/// pair with the sequence's value splits a signed integer with that value
/// into its sign and its absolute value.
pub proof fn lemma_extended_matches_bounded(x: S129, n: i64, s: Seq<u8>)
    requires
        s129_canonical(x),
        s129_val(x) == trytes_val(s),
        n == trytes_val(s),
    ensures
        x.0 == Sign::Pos ==> n >= 0 && x.1 == n,
        x.0 == Sign::Neg ==> n < 0 && x.1 == -(n as int),
{
}

/// Tests every byte of a slice for membership in the tryte alphabet.
fn check_trytes(trytes: &[Tryte]) -> (r: bool)
    ensures
        r == trytes_ok(trytes@),
{
    let mut i: usize = 0;
    while i < trytes.len()
        invariant
            i <= trytes@.len(),
            forall|k: int| 0 <= k < i ==> is_tryte(trytes@[k]),
        decreases trytes@.len() - i,
    {
        if !is_tryte_sym(trytes[i]) {
            return false;
        }
        i = i + 1;
    }
    true
}

/// Tests every element of a slice for membership in the trit range.
fn check_trits(trits: &[Trit]) -> (r: bool)
    ensures
        r == trits_ok(trits@),
{
    let mut i: usize = 0;
    while i < trits.len()
        invariant
            i <= trits@.len(),
            forall|k: int| 0 <= k < i ==> is_trit(trits@[k]),
        decreases trits@.len() - i,
    {
        if !is_trit_val(trits[i]) {
            return false;
        }
        i = i + 1;
    }
    true
}

/// The contribution of one symbol at one tryte position to the bounded
/// decoder's weighted sum: the symbol's value at weight `27^i`.
fn position_contribution(i: usize, b: Tryte) -> (r: i64)
    requires
        i < 11,
        is_tryte(b),
    ensures
        r == pow3(3 * i as nat) * tryte_val(b),
        -13 * pow3(3 * i as nat) <= r <= 13 * pow3(3 * i as nat),
{
    let c = tryte_num(b);
    let p = pow27(i);
    proof {
        lemma_pow3_pos(3 * i as nat);
        lemma_pow3_tryte_step(30);
        lemma_pow3_mono(3 * i as nat, 30);
        crate::math::lemma_pow3_33();
        assert(-13 * p <= c * p <= 13 * p && c * p == p * c) by (nonlinear_arith)
            requires
                -13 <= c <= 13,
                p >= 1,
        ;
    }
    c * p
}

/// Decodes up to 11 trytes into an `i64` without validating them first, for
/// callers that guarantee valid input.
///
/// Sums one precomputed positional contribution per tryte: the symbol's
/// value weighted by `27^i` for position `i`, with no per-trit inner loop.
pub fn from_trytes_max11_trusted(trytes: &[Tryte]) -> (r: i64)
    requires
        trytes_ok(trytes@),
        trytes@.len() <= 11,
    ensures
        r == trytes_val(trytes@),
{
    let ghost s = trytes@;
    let mut number: i64 = 0;
    let mut i: usize = 0;
    while i < trytes.len()
        invariant
            trytes_ok(s),
            s.len() <= 11,
            s == trytes@,
            i <= s.len(),
            number == trytes_val(s.take(i as int)),
        decreases s.len() - i,
    {
        proof {
            assert(trytes_ok(s.take(i as int))) by {
                assert forall|k: int| 0 <= k < i implies is_tryte(s.take(i as int)[k]) by {
                    assert(s.take(i as int)[k] == s[k]);
                }
            }
            assert(s.take(i as int).push(s[i as int]) =~= s.take(i as int + 1));
            lemma_trytes_val_push(s.take(i as int), s[i as int]);
            lemma_trytes_val_bound(s.take(i as int));
            lemma_pow3_tryte_step(3 * i as nat);
            lemma_pow3_mono(3 * (i + 1) as nat, 33);
            lemma_pow3_pos(3 * i as nat);
            crate::math::lemma_pow3_33();
        }
        let contribution = position_contribution(i, trytes[i]);
        number = number + contribution;
        i = i + 1;
    }
    proof {
        assert(s.take(s.len() as int) =~= s);
    }
    number
}

/// Decodes up to 11 trytes into an `i64`.
///
/// 11 trytes (33 trits) bound the values this library's callers store as
/// token amounts, leaving ample margin inside the signed 64-bit range.
/// Rejects a sequence holding any byte outside the alphabet with
/// `InvalidInput`, and a valid sequence longer than 11 trytes with
/// `LengthExceeded`; every other input is decoded.
pub fn from_trytes_max11(trytes: &[Tryte]) -> (r: Result<i64, Error>)
    ensures
        !trytes_ok(trytes@) ==> r == Err::<i64, Error>(Error::InvalidInput),
        trytes_ok(trytes@) && trytes@.len() > 11 ==> r == Err::<i64, Error>(
            Error::LengthExceeded,
        ),
        trytes_ok(trytes@) && trytes@.len() <= 11 ==> (r matches Ok(v) && v == trytes_val(
            trytes@,
        )),
{
    if !check_trytes(trytes) {
        return Err(Error::InvalidInput);
    }
    if trytes.len() > 11 {
        return Err(Error::LengthExceeded);
    }
    Ok(from_trytes_max11_trusted(trytes))
}

/// Decodes up to 13 trytes into an `i64` without validating them first, for
/// callers that guarantee valid input.
///
/// Works from the most significant tryte down, expanding each symbol into
/// its three trits and folding every trit into the accumulator at base 3.
pub fn from_trytes_max13_trusted(trytes: &[Tryte]) -> (r: i64)
    requires
        trytes_ok(trytes@),
        trytes@.len() <= 13,
    ensures
        r == trytes_val(trytes@),
{
    let ghost s = trytes@;
    let mut number: i64 = 0;
    let mut j: usize = trytes.len();
    while j > 0
        invariant
            trytes_ok(s),
            s.len() <= 13,
            s == trytes@,
            j <= s.len(),
            number == trytes_val(s.skip(j as int)),
        decreases j,
    {
        j = j - 1;
        let ghost vsuf = trytes_val(s.skip(j as int + 1));
        let ghost p = pow3(3 * (s.len() - j - 1) as nat);
        proof {
            lemma_trytes_val_skip(s, j as int);
            lemma_trytes_val_bound(s.skip(j as int + 1));
            assert(s.skip(j as int + 1).len() == s.len() - j - 1);
            lemma_pow3_mono(3 * (s.len() - j - 1) as nat, 36);
            crate::math::lemma_pow3_39();
            lemma_pow3_pos(3 * (s.len() - j - 1) as nat);
            assert(pow3(37) == 3 * pow3(36));
            assert(pow3(38) == 3 * pow3(37));
            assert(pow3(39) == 3 * pow3(38));
        }
        assert(is_tryte(s[j as int]));
        let (t0, t1, t2) = tryte_to_trits(trytes[j]);
        assert(-(pow3(36) - 1) <= 2 * number <= pow3(36) - 1);
        number = number * 3 + (t2 as i64);
        assert(number == 3 * vsuf + t2 && -(pow3(37) - 1) <= 2 * number <= pow3(37) - 1);
        number = number * 3 + (t1 as i64);
        assert(number == 9 * vsuf + 3 * t2 + t1 && -(pow3(38) - 1) <= 2 * number <= pow3(38)
            - 1);
        number = number * 3 + (t0 as i64);
        assert(number == 27 * vsuf + 9 * t2 + 3 * t1 + t0);
        assert(number == 27 * vsuf + tryte_val(s[j as int]));
        assert(number == trytes_val(s.skip(j as int)));
    }
    proof {
        assert(s.skip(0) =~= s);
    }
    number
}

/// Decodes up to 13 trytes into an `i64`.
///
/// 13 trytes (39 trits) is the longest length whose every value stays
/// within the signed 64-bit range. Rejects a sequence holding any byte
/// outside the alphabet with `InvalidInput`, and a valid sequence longer
/// than 13 trytes with `LengthExceeded`; every other input is decoded.
pub fn from_trytes_max13(trytes: &[Tryte]) -> (r: Result<i64, Error>)
    ensures
        !trytes_ok(trytes@) ==> r == Err::<i64, Error>(Error::InvalidInput),
        trytes_ok(trytes@) && trytes@.len() > 13 ==> r == Err::<i64, Error>(
            Error::LengthExceeded,
        ),
        trytes_ok(trytes@) && trytes@.len() <= 13 ==> (r matches Ok(v) && v == trytes_val(
            trytes@,
        )),
{
    if !check_trytes(trytes) {
        return Err(Error::InvalidInput);
    }
    if trytes.len() > 13 {
        return Err(Error::LengthExceeded);
    }
    Ok(from_trytes_max13_trusted(trytes))
}

/// The running state of the extended decoder: a sign not yet fixed pairs
/// with magnitude zero; a fixed sign carries a magnitude of at least one.
spec fn dec_state_ok(sign: Option<Sign>, mag: u128) -> bool {
    match sign {
        None => mag == 0,
        Some(_) => mag >= 1,
    }
}

/// The signed value the extended decoder's state stands for.
spec fn dec_state_val(sign: Option<Sign>, mag: u128) -> int {
    match sign {
        None => 0,
        Some(Sign::Pos) => mag as int,
        Some(Sign::Neg) => -(mag as int),
    }
}

/// Folds one trit, scanning toward the least significant end, into the
/// sign-and-magnitude state: the first nonzero trit fixes the sign, and
/// each step multiplies the magnitude by 3, then moves it up or down by one
/// as the trit's polarity agrees or disagrees with the fixed sign. The
/// magnitude never has to represent a negative value.
fn dec_step(sign: Option<Sign>, mag: u128, t: i8) -> (res: (Option<Sign>, u128))
    requires
        is_trit(t),
        dec_state_ok(sign, mag),
        3 * mag + 1 <= u128::MAX,
    ensures
        dec_state_ok(res.0, res.1),
        dec_state_val(res.0, res.1) == 3 * dec_state_val(sign, mag) + t,
{
    let new_sign = match sign {
        None => {
            if t == 1 {
                Some(Sign::Pos)
            } else if t == -1 {
                Some(Sign::Neg)
            } else {
                None
            }
        },
        Some(sg) => Some(sg),
    };
    let m = mag * 3;
    let m2 = match new_sign {
        None => m,
        Some(Sign::Pos) => {
            if t == 1 {
                m + 1
            } else if t == -1 {
                m - 1
            } else {
                m
            }
        },
        Some(Sign::Neg) => {
            if t == -1 {
                m + 1
            } else if t == 1 {
                m - 1
            } else {
                m
            }
        },
    };
    (new_sign, m2)
}

/// Decodes up to 27 trytes into an `S129` without validating them first,
/// for callers that guarantee valid input.
///
/// Works from the most significant trit down, fixing the sign at the first
/// nonzero trit and accumulating the magnitude in an unsigned 128-bit
/// value. All-zero input yields canonical zero.
pub fn from_trytes_max27_trusted(trytes: &[Tryte]) -> (r: S129)
    requires
        trytes_ok(trytes@),
        trytes@.len() <= 27,
    ensures
        s129_canonical(r),
        s129_val(r) == trytes_val(trytes@),
{
    let ghost s = trytes@;
    let mut sign: Option<Sign> = None;
    let mut mag: u128 = 0;
    let mut j: usize = trytes.len();
    while j > 0
        invariant
            trytes_ok(s),
            s.len() <= 27,
            s == trytes@,
            j <= s.len(),
            dec_state_ok(sign, mag),
            dec_state_val(sign, mag) == trytes_val(s.skip(j as int)),
        decreases j,
    {
        j = j - 1;
        let ghost vsuf = trytes_val(s.skip(j as int + 1));
        proof {
            lemma_trytes_val_skip(s, j as int);
            lemma_trytes_val_bound(s.skip(j as int + 1));
            assert(s.skip(j as int + 1).len() == s.len() - j - 1);
            lemma_pow3_mono(3 * (s.len() - j - 1) as nat, 78);
            crate::math::lemma_pow3_81();
            lemma_pow3_pos(3 * (s.len() - j - 1) as nat);
            assert(pow3(79) == 3 * pow3(78));
            assert(pow3(80) == 3 * pow3(79));
            assert(pow3(81) == 3 * pow3(80));
        }
        assert(is_tryte(s[j as int]));
        let (t0, t1, t2) = tryte_to_trits(trytes[j]);
        assert(-(pow3(78) - 1) <= 2 * dec_state_val(sign, mag) <= pow3(78) - 1);
        let st = dec_step(sign, mag, t2);
        sign = st.0;
        mag = st.1;
        assert(dec_state_val(sign, mag) == 3 * vsuf + t2 && -(pow3(79) - 1) <= 2
            * dec_state_val(sign, mag) <= pow3(79) - 1);
        let st = dec_step(sign, mag, t1);
        sign = st.0;
        mag = st.1;
        assert(dec_state_val(sign, mag) == 9 * vsuf + 3 * t2 + t1 && -(pow3(80) - 1) <= 2
            * dec_state_val(sign, mag) <= pow3(80) - 1);
        let st = dec_step(sign, mag, t0);
        sign = st.0;
        mag = st.1;
        assert(dec_state_val(sign, mag) == 27 * vsuf + 9 * t2 + 3 * t1 + t0);
        assert(dec_state_val(sign, mag) == trytes_val(s.skip(j as int)));
    }
    proof {
        assert(s.skip(0) =~= s);
    }
    match sign {
        None => S129(Sign::Pos, 0),
        Some(sg) => S129(sg, mag),
    }
}

/// Decodes up to 27 trytes into an `S129`.
///
/// 27 trytes (81 trits) is the full extended range, whose values reach
/// magnitude `(3^81 - 1) / 2`. Rejects a sequence holding any byte outside
/// the alphabet with `InvalidInput`, and a valid sequence longer than 27
/// trytes with `LengthExceeded`; every other input is decoded to the
/// canonical sign-magnitude representation of its value.
pub fn from_trytes_max27(trytes: &[Tryte]) -> (r: Result<S129, Error>)
    ensures
        !trytes_ok(trytes@) ==> r == Err::<S129, Error>(Error::InvalidInput),
        trytes_ok(trytes@) && trytes@.len() > 27 ==> r == Err::<S129, Error>(
            Error::LengthExceeded,
        ),
        trytes_ok(trytes@) && trytes@.len() <= 27 ==> (r matches Ok(v) && s129_canonical(v)
            && s129_val(v) == trytes_val(trytes@)),
{
    if !check_trytes(trytes) {
        return Err(Error::InvalidInput);
    }
    if trytes.len() > 27 {
        return Err(Error::LengthExceeded);
    }
    Ok(from_trytes_max27_trusted(trytes))
}

/// Decodes up to 20 trits into an `i64` without validating them first, for
/// callers that guarantee valid input.
pub fn from_trits_trusted(trits: &[Trit]) -> (r: i64)
    requires
        trits_ok(trits@),
        trits@.len() <= 20,
    ensures
        r == trits_val(trits@),
{
    let ghost s = trits@;
    let mut number: i64 = 0;
    let mut j: usize = trits.len();
    while j > 0
        invariant
            trits_ok(s),
            s.len() <= 20,
            s == trits@,
            j <= s.len(),
            number == trits_val(s.skip(j as int)),
        decreases j,
    {
        j = j - 1;
        proof {
            lemma_trits_val_skip(s, j as int);
            lemma_trits_val_bound(s.skip(j as int + 1));
            lemma_pow3_mono((s.len() - j - 1) as nat, 20);
            crate::math::lemma_pow3_20();
        }
        number = number * 3 + (trits[j] as i64);
    }
    proof {
        assert(s.skip(0) =~= s);
    }
    number
}

/// Decodes up to 20 trits into an `i64`.
///
/// Rejects a sequence holding any value outside {-1, 0, 1} with
/// `InvalidInput`, and a valid sequence longer than 20 trits with
/// `LengthExceeded`; every other input is decoded.
pub fn from_trits(trits: &[Trit]) -> (r: Result<i64, Error>)
    ensures
        !trits_ok(trits@) ==> r == Err::<i64, Error>(Error::InvalidInput),
        trits_ok(trits@) && trits@.len() > 20 ==> r == Err::<i64, Error>(Error::LengthExceeded),
        trits_ok(trits@) && trits@.len() <= 20 ==> (r matches Ok(v) && v == trits_val(trits@)),
{
    if !check_trits(trits) {
        return Err(Error::InvalidInput);
    }
    if trits.len() > 20 {
        return Err(Error::LengthExceeded);
    }
    Ok(from_trits_trusted(trits))
}

} // verus!
