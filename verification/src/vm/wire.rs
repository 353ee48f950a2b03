//! Little-endian words, as programs and their container hold them.

use vstd::prelude::*;

verus! {

/// The number that eight bytes spell, least significant byte first.
pub open spec fn le_u64(bytes: Seq<u8>) -> u64
    recommends
        bytes.len() == 8,
{
    (bytes[0] as int + bytes[1] as int * 0x100 + bytes[2] as int * 0x1_0000 + bytes[3] as int
        * 0x100_0000 + bytes[4] as int * 0x1_0000_0000 + bytes[5] as int * 0x100_0000_0000
        + bytes[6] as int * 0x1_0000_0000_0000 + bytes[7] as int * 0x100_0000_0000_0000) as u64
}

/// The eight bytes that spell a number, least significant byte first.
pub open spec fn le_bytes(n: u64) -> Seq<u8> {
    seq![
        (n % 0x100) as u8,
        (n / 0x100 % 0x100) as u8,
        (n / 0x1_0000 % 0x100) as u8,
        (n / 0x100_0000 % 0x100) as u8,
        (n / 0x1_0000_0000 % 0x100) as u8,
        (n / 0x100_0000_0000 % 0x100) as u8,
        (n / 0x1_0000_0000_0000 % 0x100) as u8,
        (n / 0x100_0000_0000_0000 % 0x100) as u8,
    ]
}

/// Spelling a number and reading the bytes back gives the number.
pub proof fn lemma_le_round_trip(n: u64)
    ensures
        le_bytes(n).len() == 8,
        le_u64(le_bytes(n)) == n,
{
    let q1 = n / 0x100;
    let q2 = q1 / 0x100;
    let q3 = q2 / 0x100;
    let q4 = q3 / 0x100;
    let q5 = q4 / 0x100;
    let q6 = q5 / 0x100;
    let q7 = q6 / 0x100;
    assert(q2 == n / 0x1_0000);
    assert(q3 == n / 0x100_0000);
    assert(q4 == n / 0x1_0000_0000);
    assert(q5 == n / 0x100_0000_0000);
    assert(q6 == n / 0x1_0000_0000_0000);
    assert(q7 == n / 0x100_0000_0000_0000);
    assert(q7 < 0x100);
    let b = le_bytes(n);
    assert(b[0] == n % 0x100 && b[1] == q1 % 0x100 && b[2] == q2 % 0x100 && b[3] == q3 % 0x100);
    assert(b[4] == q4 % 0x100 && b[5] == q5 % 0x100 && b[6] == q6 % 0x100 && b[7] == q7);
    assert(q6 == b[6] + 0x100 * b[7]);
    assert(q5 == b[5] + 0x100 * q6);
    assert(q4 == b[4] + 0x100 * q5);
    assert(q3 == b[3] + 0x100 * q4);
    assert(q2 == b[2] + 0x100 * q3);
    assert(q1 == b[1] + 0x100 * q2);
    assert(n == b[0] + 0x100 * q1);
}

/// Reads the word that starts at `at`.
pub fn word_at(bytes: &[u8], at: usize) -> (word: u64)
    requires
        at + 8 <= bytes@.len(),
    ensures
        word == le_u64(bytes@.subrange(at as int, at + 8)),
{
    let b0: u64 = bytes[at] as u64;
    let b1: u64 = bytes[at + 1] as u64;
    let b2: u64 = bytes[at + 2] as u64;
    let b3: u64 = bytes[at + 3] as u64;
    let b4: u64 = bytes[at + 4] as u64;
    let b5: u64 = bytes[at + 5] as u64;
    let b6: u64 = bytes[at + 6] as u64;
    let b7: u64 = bytes[at + 7] as u64;
    b0 + b1 * 0x100 + b2 * 0x1_0000 + b3 * 0x100_0000 + b4 * 0x1_0000_0000 + b5 * 0x100_0000_0000
        + b6 * 0x1_0000_0000_0000 + b7 * 0x100_0000_0000_0000
}

} // verus!
