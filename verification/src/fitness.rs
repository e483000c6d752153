//! Fitness scores.
//!
//! A score is a binary64 number, kept by its 64-bit pattern so that it can be
//! ordered and put on the wire with integer arithmetic alone. "Higher is
//! better"; a pattern that is not a number ranks below every number.

use byteorder::{BigEndian, ByteOrder};
use vstd::prelude::*;

verus! {

/// The sign bit of a binary64 pattern.
pub const SIGN_BIT: u64 = 0x8000_0000_0000_0000;

/// The magnitude of the two infinities; every larger magnitude is not a number.
pub const INFINITY_MAGNITUDE: u64 = 0x7FF0_0000_0000_0000;

/// A fitness score, held as the bit pattern of a binary64 number.
#[derive(Clone, Copy, Debug, PartialEq, Eq, Structural)]
pub struct Fitness {
    pub bits: u64,
}

/// The value of eight bytes read as one big-endian unsigned integer.
pub open spec fn be_value(bytes: Seq<u8>) -> u64
    recommends
        bytes.len() == 8,
{
    (bytes[0] as u64) << 56 | (bytes[1] as u64) << 48 | (bytes[2] as u64) << 40 | (bytes[3] as u64)
        << 32 | (bytes[4] as u64) << 24 | (bytes[5] as u64) << 16 | (bytes[6] as u64) << 8 | (
    bytes[7] as u64)
}

/// The eight bytes of `n`, most significant first.
pub open spec fn be_bytes(n: u64) -> Seq<u8> {
    seq![
        (n >> 56) as u8,
        ((n >> 48) & 0xff) as u8,
        ((n >> 40) & 0xff) as u8,
        ((n >> 32) & 0xff) as u8,
        ((n >> 24) & 0xff) as u8,
        ((n >> 16) & 0xff) as u8,
        ((n >> 8) & 0xff) as u8,
        (n & 0xff) as u8,
    ]
}

/// Reading back the bytes of `n` gives `n`.
pub proof fn lemma_be_value_of_bytes(n: u64)
    ensures
        be_bytes(n).len() == 8,
        be_value(be_bytes(n)) == n,
{
    assert((((n >> 56) as u8) as u64) << 56 | ((((n >> 48) & 0xff) as u8) as u64) << 48 | ((((n
        >> 40) & 0xff) as u8) as u64) << 40 | ((((n >> 32) & 0xff) as u8) as u64) << 32 | ((((n
        >> 24) & 0xff) as u8) as u64) << 24 | ((((n >> 16) & 0xff) as u8) as u64) << 16 | ((((n
        >> 8) & 0xff) as u8) as u64) << 8 | (((n & 0xff) as u8) as u64) == n) by (bit_vector);
}

/// Eight bytes are the big-endian bytes of the value they spell.
pub proof fn lemma_be_bytes_of_value(bytes: Seq<u8>)
    requires
        bytes.len() == 8,
    ensures
        be_bytes(be_value(bytes)) == bytes,
{
    let b0 = bytes[0];
    let b1 = bytes[1];
    let b2 = bytes[2];
    let b3 = bytes[3];
    let b4 = bytes[4];
    let b5 = bytes[5];
    let b6 = bytes[6];
    let b7 = bytes[7];
    let n = be_value(bytes);
    assert(n == (b0 as u64) << 56 | (b1 as u64) << 48 | (b2 as u64) << 40 | (b3 as u64) << 32 | (
    b4 as u64) << 24 | (b5 as u64) << 16 | (b6 as u64) << 8 | (b7 as u64));
    assert(n == (b0 as u64) << 56 | (b1 as u64) << 48 | (b2 as u64) << 40 | (b3 as u64) << 32 | (
    b4 as u64) << 24 | (b5 as u64) << 16 | (b6 as u64) << 8 | (b7 as u64) ==> (n >> 56) as u8
        == b0 && ((n >> 48) & 0xff) as u8 == b1 && ((n >> 40) & 0xff) as u8 == b2 && ((n >> 32)
        & 0xff) as u8 == b3 && ((n >> 24) & 0xff) as u8 == b4 && ((n >> 16) & 0xff) as u8 == b5
        && ((n >> 8) & 0xff) as u8 == b6 && (n & 0xff) as u8 == b7) by (bit_vector);
    assert(be_bytes(n) =~= bytes);
}

/// Calls `byteorder::BigEndian::write_u64` on a fresh buffer of eight bytes. The
/// contract claims that the buffer then holds the bytes of `n`, most
/// significant first.
#[verifier::external_body]
fn write_be_u64(n: u64) -> (out: [u8; 8])
    ensures
        out@ == be_bytes(n),
{
    let mut out = [0u8; 8];
    BigEndian::write_u64(&mut out, n);
    out
}

/// Calls `byteorder::BigEndian::read_u64`, which panics on fewer than eight
/// bytes. The contract claims that it returns the first eight bytes read as one
/// big-endian integer.
#[verifier::external_body]
fn read_be_u64(bytes: &[u8]) -> (n: u64)
    requires
        bytes@.len() >= 8,
    ensures
        n == be_value(bytes@.subrange(0, 8)),
{
    BigEndian::read_u64(bytes)
}

impl Fitness {
    /// The pattern without its sign bit.
    pub open spec fn magnitude(self) -> int {
        if self.bits >= SIGN_BIT {
            self.bits - SIGN_BIT
        } else {
            self.bits as int
        }
    }

    /// Whether the sign bit is set.
    pub open spec fn is_negative(self) -> bool {
        self.bits >= SIGN_BIT
    }

    /// Whether the pattern is not a number.
    pub open spec fn is_nan(self) -> bool {
        self.magnitude() > INFINITY_MAGNITUDE
    }

    /// The place of the score in the order of all scores: numbers in their
    /// numeric order, both zeros at 0, and what is not a number below all of
    /// them.
    pub open spec fn rank(self) -> int {
        if self.is_nan() {
            -(SIGN_BIT as int)
        } else if self.is_negative() {
            -self.magnitude()
        } else {
            self.magnitude()
        }
    }

    /// The score with the given binary64 pattern.
    pub fn from_bits(bits: u64) -> (fitness: Fitness)
        ensures
            fitness.bits == bits,
    {
        Fitness { bits }
    }

    /// The binary64 pattern of the score.
    pub fn to_bits(&self) -> (bits: u64)
        ensures
            bits == self.bits,
    {
        self.bits
    }

    /// Whether the score is not a number.
    pub fn is_not_a_number(&self) -> (nan: bool)
        ensures
            nan == self.is_nan(),
    {
        if self.bits >= SIGN_BIT {
            self.bits - SIGN_BIT > INFINITY_MAGNITUDE
        } else {
            self.bits > INFINITY_MAGNITUDE
        }
    }

    /// The rank of the score as a machine integer.
    pub fn ordering_key(&self) -> (key: i64)
        ensures
            key == self.rank(),
    {
        if self.bits >= SIGN_BIT {
            let magnitude: u64 = self.bits - SIGN_BIT;
            if magnitude > INFINITY_MAGNITUDE {
                i64::MIN
            } else {
                0 - (magnitude as i64)
            }
        } else if self.bits > INFINITY_MAGNITUDE {
            i64::MIN
        } else {
            self.bits as i64
        }
    }

    /// Whether this score is strictly better than `other`.
    pub fn exceeds(&self, other: &Fitness) -> (better: bool)
        ensures
            better == (self.rank() > other.rank()),
    {
        self.ordering_key() > other.ordering_key()
    }

    /// Whether this score is at least `threshold`. No score reaches a threshold
    /// that is not a number.
    pub fn reaches(&self, threshold: &Fitness) -> (reached: bool)
        ensures
            reached == (!threshold.is_nan() && self.rank() >= threshold.rank()),
    {
        !threshold.is_not_a_number() && self.ordering_key() >= threshold.ordering_key()
    }

    /// The eight bytes that carry the score on the wire: its pattern, most
    /// significant byte first.
    pub fn to_be_bytes(&self) -> (out: [u8; 8])
        ensures
            out@ == be_bytes(self.bits),
    {
        write_be_u64(self.bits)
    }

    /// The score carried by the first eight bytes of `bytes`, if there are that
    /// many.
    pub fn from_be_bytes(bytes: &[u8]) -> (fitness: Option<Fitness>)
        ensures
            fitness is Some <==> bytes@.len() >= 8,
            fitness matches Some(f) ==> f.bits == be_value(bytes@.subrange(0, 8)),
    {
        if bytes.len() >= 8 {
            Some(Fitness { bits: read_be_u64(bytes) })
        } else {
            None
        }
    }
}

} // verus!
