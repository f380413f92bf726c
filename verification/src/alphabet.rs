//! The 27-symbol tryte alphabet and its fixed mapping to trit triples.
//!
//! The symbol `'9'` stands for zero; `'A'` through `'M'` stand for 1 through
//! 13 and `'N'` through `'Z'` for -13 through -1. Each symbol encodes exactly
//! three balanced-ternary digits (trits), least significant first.

use vstd::prelude::*;

verus! {

/// A balanced-ternary digit, valid when in {-1, 0, 1}.
pub type Trit = i8;

/// A tryte symbol, one byte of the 27-symbol alphabet.
pub type Tryte = u8;

/// Whether a byte is one of the 27 alphabet symbols.
pub open spec fn is_tryte(b: u8) -> bool {
    b == 57 || (65 <= b && b <= 90)
}

/// Whether a trit value lies in the balanced-ternary digit range.
pub open spec fn is_trit(t: i8) -> bool {
    -1 <= t && t <= 1
}

/// The integer value a single tryte symbol stands for, in [-13, 13].
pub open spec fn tryte_val(b: u8) -> int {
    if b == 57 {
        0
    } else if 65 <= b && b <= 77 {
        b - 64
    } else if 78 <= b && b <= 90 {
        b - 91
    } else {
        0
    }
}

/// Tests a byte for membership in the tryte alphabet.
pub fn is_tryte_sym(b: Tryte) -> (r: bool)
    ensures
        r == is_tryte(b),
{
    b == 57 || (65 <= b && b <= 90)
}

/// Tests a value for membership in the balanced-ternary digit range.
pub fn is_trit_val(t: Trit) -> (r: bool)
    ensures
        r == is_trit(t),
{
    -1 <= t && t <= 1
}

/// The value of a single tryte symbol.
pub fn tryte_num(b: Tryte) -> (r: i64)
    requires
        is_tryte(b),
    ensures
        r == tryte_val(b),
{
    if b == 57 {
        0
    } else if b <= 77 {
        (b - 64) as i64
    } else {
        (b as i64) - 91
    }
}

/// The three trits a tryte symbol encodes, least significant first.
///
/// The triple is the balanced-ternary expansion of the symbol's value:
/// `t0 + 3*t1 + 9*t2 == tryte_val(b)`, each digit in {-1, 0, 1}.
pub fn tryte_to_trits(b: Tryte) -> (r: (Trit, Trit, Trit))
    requires
        is_tryte(b),
    ensures
        is_trit(r.0) && is_trit(r.1) && is_trit(r.2),
        r.0 + 3 * r.1 + 9 * r.2 == tryte_val(b),
{
    match b {
        57 => (0, 0, 0),  // '9' ->  0
        65 => (1, 0, 0),  // 'A' ->  1
        66 => (-1, 1, 0),  // 'B' ->  2
        67 => (0, 1, 0),  // 'C' ->  3
        68 => (1, 1, 0),  // 'D' ->  4
        69 => (-1, -1, 1),  // 'E' ->  5
        70 => (0, -1, 1),  // 'F' ->  6
        71 => (1, -1, 1),  // 'G' ->  7
        72 => (-1, 0, 1),  // 'H' ->  8
        73 => (0, 0, 1),  // 'I' ->  9
        74 => (1, 0, 1),  // 'J' -> 10
        75 => (-1, 1, 1),  // 'K' -> 11
        76 => (0, 1, 1),  // 'L' -> 12
        77 => (1, 1, 1),  // 'M' -> 13
        78 => (-1, -1, -1),  // 'N' -> -13
        79 => (0, -1, -1),  // 'O' -> -12
        80 => (1, -1, -1),  // 'P' -> -11
        81 => (-1, 0, -1),  // 'Q' -> -10
        82 => (0, 0, -1),  // 'R' ->  -9
        83 => (1, 0, -1),  // 'S' ->  -8
        84 => (-1, 1, -1),  // 'T' ->  -7
        85 => (0, 1, -1),  // 'U' ->  -6
        86 => (1, 1, -1),  // 'V' ->  -5
        87 => (-1, -1, 0),  // 'W' ->  -4
        88 => (0, -1, 0),  // 'X' ->  -3
        89 => (1, -1, 0),  // 'Y' ->  -2
        _ => (-1, 0, 0),  // 'Z' ->  -1
    }
}

} // verus!
