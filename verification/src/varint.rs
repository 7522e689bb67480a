//! Numbers of varying length on the wire: seven bits to the byte, the low
//! bits first, the high bit of a byte saying that another byte follows. A
//! number of 32 bits takes at most five bytes.

use vstd::prelude::*;

verus! {

/// Why bytes could not be read.
#[derive(Clone, Copy, Debug, PartialEq, Eq, Structural)]
pub enum ReadingError {
    /// The bytes end before what is read does.
    Incomplete,
    /// A number goes on for more than five bytes.
    TooLarge,
}

/// The most bytes that a number takes.
pub const MAX_SIZE: usize = 5;

/// The 32 bits of a signed number, read as an unsigned number.
pub open spec fn unsigned_of(v: i32) -> u32 {
    if v >= 0 {
        v as u32
    } else {
        (v + 0x1_0000_0000) as u32
    }
}

/// The 32 bits of an unsigned number, read as a signed number.
pub open spec fn signed_of(v: u32) -> i32 {
    if v < 0x8000_0000 {
        v as i32
    } else {
        (v - 0x1_0000_0000) as i32
    }
}

/// The 32 bits of a signed number, read as an unsigned number.
pub fn to_unsigned(v: i32) -> (r: u32)
    ensures
        r == unsigned_of(v),
        signed_of(r) == v,
{
    if v >= 0 {
        v as u32
    } else {
        (v as i64 + 0x1_0000_0000) as u32
    }
}

/// The 32 bits of an unsigned number, read as a signed number.
pub fn to_signed(v: u32) -> (r: i32)
    ensures
        r == signed_of(v),
        unsigned_of(r) == v,
{
    if v < 0x8000_0000 {
        v as i32
    } else {
        (v as i64 - 0x1_0000_0000) as i32
    }
}

/// The bytes of a number: its lowest seven bits, with the high bit set if
/// more bits follow, and then the bytes of the rest.
pub open spec fn spec_encode(v: nat) -> Seq<u8>
    decreases v,
{
    if v < 128 {
        seq![v as u8]
    } else {
        seq![(v % 128 + 128) as u8] + spec_encode(v / 128)
    }
}

/// The weight of the byte at place `i`: 128 to the power of `i`.
pub open spec fn weight(i: int) -> int
    decreases i,
{
    if i <= 0 {
        1
    } else {
        128 * weight(i - 1)
    }
}

/// The number that bytes hold from place `i` on, taken as the bytes at the
/// places `i`, `i + 1`, .. of one number, and the number of its bytes: the
/// sum of the low seven bits of each byte, each with the weight of its
/// place, up to the first byte without the high bit.
pub open spec fn spec_decode_from(bytes: Seq<u8>, i: int) -> Result<(int, int), ReadingError>
    decreases MAX_SIZE - i,
{
    if i < 0 || i >= MAX_SIZE {
        Err(ReadingError::TooLarge)
    } else if i >= bytes.len() {
        Err(ReadingError::Incomplete)
    } else if bytes[i] < 128 {
        Ok((bytes[i] * weight(i), i + 1))
    } else {
        match spec_decode_from(bytes, i + 1) {
            Ok((v, n)) => Ok((v + (bytes[i] - 128) * weight(i), n)),
            Err(e) => Err(e),
        }
    }
}

/// The number at the start of bytes, cut to 32 bits, with the number of
/// bytes that it takes.
pub open spec fn spec_decode(bytes: Seq<u8>) -> Result<(u32, int), ReadingError> {
    match spec_decode_from(bytes, 0) {
        Ok((v, n)) => Ok(((v % 0x1_0000_0000) as u32, n)),
        Err(e) => Err(e),
    }
}

/// The bytes of a number.
pub fn encode(value: u32) -> (r: Vec<u8>)
    ensures
        r@ == spec_encode(value as nat),
        1 <= r@.len() <= MAX_SIZE,
{
    let mut r: Vec<u8> = Vec::new();
    let mut rest: u32 = value;
    let mut i: usize = 0;
    while rest >= 128
        invariant
            i <= 4,
            r@.len() == i,
            rest * weight(i as int) <= value,
            spec_encode(value as nat) == r@ + spec_encode(rest as nat),
        decreases rest,
    {
        let ghost before = r@;
        proof {
            lemma_weights();
            assert(i < 4) by {
                if i == 4 {
                    assert(rest * weight(4) <= value);
                    assert(rest * 268435456 >= 128 * 268435456) by (nonlinear_arith)
                        requires
                            rest >= 128,
                    ;
                }
            }
            assert((rest / 128) * weight(i + 1) <= rest * weight(i as int)) by {
                let w = weight(i as int);
                assert((rest / 128) * (128 * w) <= rest * w) by (nonlinear_arith)
                    requires
                        w >= 0,
                        rest >= 0,
                ;
            }
        }
        r.push((rest % 128 + 128) as u8);
        proof {
            assert(spec_encode(rest as nat) == seq![((rest as nat) % 128 + 128) as u8]
                + spec_encode((rest as nat) / 128));
            assert(r@ + spec_encode((rest / 128) as nat) =~= before + spec_encode(rest as nat));
        }
        rest = rest / 128;
        i += 1;
    }
    let ghost before = r@;
    r.push(rest as u8);
    proof {
        assert(spec_encode(rest as nat) =~= seq![rest as u8]);
        assert(r@ =~= before + spec_encode(rest as nat));
    }
    r
}

/// The weights of the five places.
pub proof fn lemma_weights()
    ensures
        weight(0) == 1,
        weight(1) == 128,
        weight(2) == 16384,
        weight(3) == 2097152,
        weight(4) == 268435456,
{
    assert(weight(0) == 1);
    assert(weight(1) == 128 * weight(0));
    assert(weight(2) == 128 * weight(1));
    assert(weight(3) == 128 * weight(2));
    assert(weight(4) == 128 * weight(3));
}

/// The number at the start of bytes, with the number of bytes that it takes.
pub fn decode(bytes: &[u8]) -> (r: Result<(u32, usize), ReadingError>)
    ensures
        match r {
            Ok((v, n)) => spec_decode(bytes@) == Ok::<(u32, int), ReadingError>((v, n as int)) && 1
                <= n <= MAX_SIZE && n <= bytes@.len(),
            Err(e) => spec_decode(bytes@) == Err::<(u32, int), ReadingError>(e),
        },
{
    match decode_from(bytes, 0) {
        Ok((v, n)) => Ok(((v % 0x1_0000_0000) as u32, n)),
        Err(e) => Err(e),
    }
}

/// The number that bytes hold from place `i` on.
fn decode_from(bytes: &[u8], i: usize) -> (r: Result<(u64, usize), ReadingError>)
    requires
        i <= MAX_SIZE,
    ensures
        match r {
            Ok((v, n)) => spec_decode_from(bytes@, i as int) == Ok::<(int, int), ReadingError>(
                (v as int, n as int),
            ) && i < n <= MAX_SIZE && n <= bytes@.len() && v + weight(i as int) <= 128 * weight(4),
            Err(e) => spec_decode_from(bytes@, i as int) == Err::<(int, int), ReadingError>(e),
        },
    decreases MAX_SIZE - i,
{
    if i >= MAX_SIZE {
        return Err(ReadingError::TooLarge);
    }
    if i >= bytes.len() {
        return Err(ReadingError::Incomplete);
    }
    let b = bytes[i];
    let w: u64 = if i == 0 {
        1
    } else if i == 1 {
        128
    } else if i == 2 {
        16384
    } else if i == 3 {
        2097152
    } else {
        268435456
    };
    proof {
        lemma_weights();
        assert(w == weight(i as int));
    }
    if b < 128 {
        assert(b * w + w <= 128 * weight(4)) by (nonlinear_arith)
            requires
                0 <= b < 128,
                0 < w <= 268435456,
                weight(4) == 268435456,
        ;
        return Ok(((b as u64) * w, i + 1));
    }
    match decode_from(bytes, i + 1) {
        Ok((v, n)) => {
            assert(v + (b - 128) * w + w <= 128 * weight(4) && (b - 128) * w >= 0)
                by (nonlinear_arith)
                requires
                    128 <= b < 256,
                    0 < w,
                    v + 128 * w <= 128 * weight(4),
            ;
            Ok((v + ((b - 128) as u64) * w, n))
        },
        Err(e) => Err(e),
    }
}

/// The value that the bytes of a number hold, given that they stand at the
/// places from `i` on.
proof fn lemma_decode_encode_from(v: nat, rest: Seq<u8>, head: Seq<u8>, i: int)
    requires
        0 <= i < MAX_SIZE,
        head.len() == i,
        v * weight(i) < 0x1_0000_0000,
    ensures
        spec_decode_from(head + spec_encode(v) + rest, i) == Ok::<(int, int), ReadingError>(
            (v * weight(i), i + spec_encode(v).len()),
        ),
    decreases v,
{
    lemma_weights();
    let bytes = head + spec_encode(v) + rest;
    if v < 128 {
        assert(spec_encode(v) =~= seq![v as u8]);
        assert(bytes[i] == v as u8);
    } else {
        let low = (v % 128 + 128) as u8;
        let tail = spec_encode(v / 128);
        assert(spec_encode(v) == seq![low] + tail);
        assert(bytes[i] == low);
        let w = weight(i);
        assert(i < 4) by {
            if i == 4 {
                assert(v * 268435456 >= 128 * 268435456) by (nonlinear_arith)
                    requires
                        v >= 128,
                ;
            }
        }
        assert((v / 128) * weight(i + 1) < 0x1_0000_0000) by {
            assert((v / 128) * (128 * w) <= v * w) by (nonlinear_arith)
                requires
                    w >= 0,
                    v >= 0,
            ;
        }
        lemma_decode_encode_from(v / 128, rest, head.push(low), i + 1);
        assert(head.push(low) + tail + rest =~= bytes);
        assert((v / 128) * (128 * w) + (v % 128) * w == v * w) by (nonlinear_arith);
        assert(spec_encode(v).len() == 1 + tail.len());
    }
}

/// The bytes of a number, with whatever bytes behind them, hold the number
/// and no more than its own bytes.
pub proof fn law_decode_encode(v: u32, rest: Seq<u8>)
    ensures
        spec_decode(spec_encode(v as nat) + rest) == Ok::<(u32, int), ReadingError>(
            (v, spec_encode(v as nat).len() as int),
        ),
{
    lemma_weights();
    let empty = Seq::<u8>::empty();
    assert(v * weight(0) == v) by (nonlinear_arith)
        requires
            weight(0) == 1,
    ;
    lemma_decode_encode_from(v as nat, rest, empty, 0);
    assert(empty + spec_encode(v as nat) + rest =~= spec_encode(v as nat) + rest);
}

} // verus!
