//! The small encodings that every information object is built from:
//! little-endian integers, quality descriptors, time tags and command
//! qualifiers.
//!
//! Each has a spec function that gives its bytes, a spec function that reads
//! it at an offset of a byte sequence, and executable functions proved to
//! compute the two.

use vstd::prelude::*;

verus! {

/// 1 for `true`, 0 for `false`.
pub open spec fn bit(b: bool) -> int {
    if b {
        1
    } else {
        0
    }
}

/// The unsigned number that two bytes hold, low byte first.
pub open spec fn u16_le(b0: u8, b1: u8) -> u16 {
    (b0 + 256 * b1) as u16
}

/// The unsigned number that three bytes hold, low byte first.
pub open spec fn u24_le(b0: u8, b1: u8, b2: u8) -> u32 {
    (b0 + 256 * b1 + 65536 * b2) as u32
}

/// The unsigned number that four bytes hold, low byte first.
pub open spec fn u32_le(b0: u8, b1: u8, b2: u8, b3: u8) -> u32 {
    (b0 + 256 * b1 + 65536 * b2 + 16777216 * b3) as u32
}

/// Byte `k` of `x`, counted from the low end.
pub open spec fn byte_of(x: int, k: nat) -> u8 {
    if k == 0 {
        (x % 256) as u8
    } else if k == 1 {
        ((x / 256) % 256) as u8
    } else if k == 2 {
        ((x / 65536) % 256) as u8
    } else {
        ((x / 16777216) % 256) as u8
    }
}

/// The two's-complement reading of 16 bits.
pub open spec fn signed16(u: u16) -> i16 {
    if u < 0x8000 {
        u as i16
    } else {
        (u - 0x1_0000) as i16
    }
}

/// The 16 bits that hold `v` in two's complement.
pub open spec fn unsigned16(v: i16) -> u16 {
    if v >= 0 {
        v as u16
    } else {
        (v + 0x1_0000) as u16
    }
}

/// The two's-complement reading of 32 bits.
pub open spec fn signed32(u: u32) -> i32 {
    if u < 0x8000_0000 {
        u as i32
    } else {
        (u - 0x1_0000_0000) as i32
    }
}

/// The 32 bits that hold `v` in two's complement.
pub open spec fn unsigned32(v: i32) -> u32 {
    if v >= 0 {
        v as u32
    } else {
        (v + 0x1_0000_0000) as u32
    }
}

/// The two bytes of `x`, low byte first.
pub open spec fn bytes16(x: u16) -> Seq<u8> {
    seq![byte_of(x as int, 0), byte_of(x as int, 1)]
}

/// The four bytes of `x`, low byte first.
pub open spec fn bytes32(x: u32) -> Seq<u8> {
    seq![byte_of(x as int, 0), byte_of(x as int, 1), byte_of(x as int, 2), byte_of(x as int, 3)]
}

pub fn read_u16(buf: &[u8], at: usize) -> (x: u16)
    requires
        at + 2 <= buf.len(),
    ensures
        x == u16_le(buf@[at as int], buf@[at + 1]),
{
    buf[at] as u16 + 256 * (buf[at + 1] as u16)
}

pub fn read_u32(buf: &[u8], at: usize) -> (x: u32)
    requires
        at + 4 <= buf.len(),
    ensures
        x == u32_le(buf@[at as int], buf@[at + 1], buf@[at + 2], buf@[at + 3]),
{
    buf[at] as u32 + 256 * (buf[at + 1] as u32) + 65536 * (buf[at + 2] as u32) + 16777216 * (buf[at
        + 3] as u32)
}

pub fn read_i16(buf: &[u8], at: usize) -> (v: i16)
    requires
        at + 2 <= buf.len(),
    ensures
        v == signed16(u16_le(buf@[at as int], buf@[at + 1])),
{
    let u: u16 = read_u16(buf, at);
    if u < 0x8000 {
        u as i16
    } else {
        (u as i32 - 0x1_0000) as i16
    }
}

pub fn read_i32(buf: &[u8], at: usize) -> (v: i32)
    requires
        at + 4 <= buf.len(),
    ensures
        v == signed32(u32_le(buf@[at as int], buf@[at + 1], buf@[at + 2], buf@[at + 3])),
{
    let u: u32 = read_u32(buf, at);
    if u < 0x8000_0000 {
        u as i32
    } else {
        (u as i64 - 0x1_0000_0000) as i32
    }
}

pub fn write_u16(x: u16, out: &mut Vec<u8>)
    ensures
        final(out)@ == old(out)@ + bytes16(x),
{
    let ghost before = out@;
    out.push((x % 256) as u8);
    out.push((x / 256) as u8);
    assert(out@ =~= before + bytes16(x));
}

pub fn write_u32(x: u32, out: &mut Vec<u8>)
    ensures
        final(out)@ == old(out)@ + bytes32(x),
{
    let ghost before = out@;
    out.push((x % 256) as u8);
    out.push(((x / 256) % 256) as u8);
    out.push(((x / 65536) % 256) as u8);
    out.push((x / 16777216) as u8);
    assert(out@ =~= before + bytes32(x));
}

pub fn write_i16(v: i16, out: &mut Vec<u8>)
    ensures
        final(out)@ == old(out)@ + bytes16(unsigned16(v)),
{
    let u: u16 = if v >= 0 {
        v as u16
    } else {
        (v as i32 + 0x1_0000) as u16
    };
    write_u16(u, out);
}

pub fn write_i32(v: i32, out: &mut Vec<u8>)
    ensures
        final(out)@ == old(out)@ + bytes32(unsigned32(v)),
{
    let u: u32 = if v >= 0 {
        v as u32
    } else {
        (v as i64 + 0x1_0000_0000) as u32
    };
    write_u32(u, out);
}

/// Four bytes that were written little-endian are read back as the number
/// they came from.
pub proof fn lemma_u32_round_trip(x: u32)
    ensures
        bytes32(x).len() == 4,
        u32_le(bytes32(x)[0], bytes32(x)[1], bytes32(x)[2], bytes32(x)[3]) == x,
{
}

/// A signed 16-bit number that was written is read back as it was.
pub proof fn lemma_i16_round_trip(v: i16)
    ensures
        bytes16(unsigned16(v)).len() == 2,
        signed16(u16_le(bytes16(unsigned16(v))[0], bytes16(unsigned16(v))[1])) == v,
{
}

/// A signed 32-bit number that was written is read back as it was.
pub proof fn lemma_i32_round_trip(v: i32)
    ensures
        bytes32(unsigned32(v)).len() == 4,
        signed32(
            u32_le(
                bytes32(unsigned32(v))[0],
                bytes32(unsigned32(v))[1],
                bytes32(unsigned32(v))[2],
                bytes32(unsigned32(v))[3],
            ),
        ) == v,
{
    lemma_u32_round_trip(unsigned32(v));
}

/// Appends `bytes` to `out`.
pub fn append_bytes(out: &mut Vec<u8>, bytes: &[u8])
    ensures
        final(out)@ == old(out)@ + bytes@,
{
    let ghost before = out@;
    let mut i: usize = 0;
    while i < bytes.len()
        invariant
            i <= bytes.len(),
            out@ == before + bytes@.take(i as int),
        decreases bytes.len() - i,
    {
        out.push(bytes[i]);
        assert(out@ =~= before + bytes@.take(i + 1));
        i = i + 1;
    }
    assert(bytes@.take(bytes.len() as int) =~= bytes@);
}

/// The five flags of a quality descriptor.
#[derive(Clone, Copy, Debug, PartialEq, Eq, Structural)]
pub struct Quality {
    /// Bit 0: the value is beyond its range.
    pub overflow: bool,
    /// Bit 4: the value is blocked for transmission.
    pub blocked: bool,
    /// Bit 5: the value was substituted.
    pub substituted: bool,
    /// Bit 6: the value was not updated of late.
    pub not_topical: bool,
    /// Bit 7: the value is invalid.
    pub invalid: bool,
}

impl Quality {
    /// The descriptor byte: each flag at its bit, the three bits between
    /// them clear.
    #[verifier::opaque]
    pub open spec fn spec_byte(&self) -> u8 {
        (bit(self.overflow) + 16 * bit(self.blocked) + 32 * bit(self.substituted) + 64 * bit(
            self.not_topical,
        ) + 128 * bit(self.invalid)) as u8
    }

    /// The flags that a byte holds. Bits 1 to 3 are not looked at.
    #[verifier::opaque]
    pub open spec fn spec_from_byte(b: u8) -> Quality {
        Quality {
            overflow: b % 2 == 1,
            blocked: (b / 16) % 2 == 1,
            substituted: (b / 32) % 2 == 1,
            not_topical: (b / 64) % 2 == 1,
            invalid: b / 128 == 1,
        }
    }

    /// The four flags of the high half of a byte, where its low half holds
    /// a value. `overflow` is clear.
    #[verifier::opaque]
    pub open spec fn spec_from_high_bits(b: u8) -> Quality {
        Quality {
            overflow: false,
            blocked: (b / 16) % 2 == 1,
            substituted: (b / 32) % 2 == 1,
            not_topical: (b / 64) % 2 == 1,
            invalid: b / 128 == 1,
        }
    }

    /// Whether no flag is set.
    pub open spec fn spec_is_good(&self) -> bool {
        !self.overflow && !self.blocked && !self.substituted && !self.not_topical && !self.invalid
    }

    #[verifier::when_used_as_spec(spec_byte)]
    pub fn byte(&self) -> (b: u8)
        ensures
            b == self.spec_byte(),
    {
        reveal(Quality::spec_byte);
        let mut b: u8 = 0;
        if self.overflow {
            b = b + 1;
        }
        if self.blocked {
            b = b + 16;
        }
        if self.substituted {
            b = b + 32;
        }
        if self.not_topical {
            b = b + 64;
        }
        if self.invalid {
            b = b + 128;
        }
        b
    }

    #[verifier::when_used_as_spec(spec_from_byte)]
    pub fn from_byte(b: u8) -> (q: Quality)
        ensures
            q == Quality::spec_from_byte(b),
    {
        reveal(Quality::spec_from_byte);
        Quality {
            overflow: b % 2 == 1,
            blocked: (b / 16) % 2 == 1,
            substituted: (b / 32) % 2 == 1,
            not_topical: (b / 64) % 2 == 1,
            invalid: b / 128 == 1,
        }
    }

    #[verifier::when_used_as_spec(spec_from_high_bits)]
    pub fn from_high_bits(b: u8) -> (q: Quality)
        ensures
            q == Quality::spec_from_high_bits(b),
    {
        reveal(Quality::spec_from_high_bits);
        Quality {
            overflow: false,
            blocked: (b / 16) % 2 == 1,
            substituted: (b / 32) % 2 == 1,
            not_topical: (b / 64) % 2 == 1,
            invalid: b / 128 == 1,
        }
    }

    #[verifier::when_used_as_spec(spec_is_good)]
    pub fn is_good(&self) -> (b: bool)
        ensures
            b == self.spec_is_good(),
    {
        !self.overflow && !self.blocked && !self.substituted && !self.not_topical && !self.invalid
    }

    /// The descriptor with no flag set.
    pub open spec fn spec_good() -> Quality {
        Quality {
            overflow: false,
            blocked: false,
            substituted: false,
            not_topical: false,
            invalid: false,
        }
    }

    #[verifier::when_used_as_spec(spec_good)]
    pub fn good() -> (q: Quality)
        ensures
            q == Quality::spec_good(),
    {
        Quality {
            overflow: false,
            blocked: false,
            substituted: false,
            not_topical: false,
            invalid: false,
        }
    }
}

/// The flags of a quality byte are the bits that the protocol assigns them.
pub proof fn law_quality_flags_are_bits(b: u8)
    by (bit_vector)
    ensures
        (b % 2 == 1) == (b & 0x01 != 0),
        ((b / 16) % 2 == 1) == (b & 0x10 != 0),
        ((b / 32) % 2 == 1) == (b & 0x20 != 0),
        ((b / 64) % 2 == 1) == (b & 0x40 != 0),
        (b / 128 == 1) == (b & 0x80 != 0),
{
}

/// A quality byte that was written is read back as it was. With a value in
/// its low half, its four high flags are read back, and the low half is the
/// value.
pub proof fn lemma_quality_round_trip(q: Quality, low: u8)
    requires
        low < 16,
    ensures
        Quality::spec_from_byte(q.spec_byte()) == q,
        q.spec_byte() == q.spec_byte() / 16 * 16 + bit(q.overflow),
        !q.overflow ==> q.spec_byte() + low < 256,
        !q.overflow ==> Quality::spec_from_high_bits((q.spec_byte() + low) as u8) == q,
        !q.overflow ==> (q.spec_byte() + low) % 16 == low,
        !q.overflow ==> (q.spec_byte() + low) % 2 == low % 2,
        !q.overflow ==> (q.spec_byte() + low) % 4 == low % 4,
        Quality::spec_good().spec_is_good(),
{
    reveal(Quality::spec_byte);
    reveal(Quality::spec_from_byte);
    reveal(Quality::spec_from_high_bits);
    let h = 16 * bit(q.blocked) + 32 * bit(q.substituted) + 64 * bit(q.not_topical) + 128 * bit(
        q.invalid,
    );
    assert(h == 16 * (bit(q.blocked) + 2 * bit(q.substituted) + 4 * bit(q.not_topical) + 8 * bit(
        q.invalid,
    )));
    assert(q.spec_byte() == h + bit(q.overflow));
    if !q.overflow {
        let b = (h + low) as u8;
        assert(b / 16 == h / 16);
        assert(b % 16 == low);
    }
}

/// A quality byte with its three unused bits clear is written back as it
/// was read. Where the low half holds a value and the rest of it is clear,
/// the four high flags and the value give back the byte.
pub proof fn lemma_quality_write_back(b: u8)
    ensures
        (b / 2) % 8 == 0 ==> Quality::spec_from_byte(b).spec_byte() == b,
        (b / 2) % 8 == 0 ==> Quality::spec_from_high_bits(b).spec_byte() + b % 2 == b,
        (b / 4) % 4 == 0 ==> Quality::spec_from_high_bits(b).spec_byte() + b % 4 == b,
        !Quality::spec_from_high_bits(b).overflow,
{
    reveal(Quality::spec_byte);
    reveal(Quality::spec_from_byte);
    reveal(Quality::spec_from_high_bits);
    let h = b / 16;
    assert(b == 16 * h + b % 16);
    assert(h == (h % 2) + 2 * ((h / 2) % 2) + 4 * ((h / 4) % 2) + 8 * (h / 8));
    assert((b / 32) % 2 == (h / 2) % 2);
    assert((b / 64) % 2 == (h / 4) % 2);
    assert(b / 128 == h / 8);
}

/// The bytes of a little-endian number are its digits to the base 256.
proof fn lemma_le_digits(b0: u8, b1: u8, b2: u8, b3: u8)
    ensures
        ({
            let y = b0 + 256 * b1 + 65536 * b2 + 16777216 * b3;
            &&& y % 256 == b0
            &&& (y / 256) % 256 == b1
            &&& (y / 65536) % 256 == b2
            &&& y / 16777216 == b3
        }),
{
    let y = b0 + 256 * b1 + 65536 * b2 + 16777216 * b3;
    let q1 = b1 + 256 * b2 + 65536 * b3;
    let q2 = b2 + 256 * b3;
    assert(y == 256 * q1 + b0);
    assert(y / 256 == q1 && y % 256 == b0);
    assert(q1 == 256 * q2 + b1);
    assert(q1 % 256 == b1);
    assert(y == 65536 * q2 + (b0 + 256 * b1));
    assert(y / 65536 == q2);
    assert(q2 % 256 == b2);
    assert(y == 16777216 * b3 + (b0 + 256 * b1 + 65536 * b2));
    assert(y / 16777216 == b3);
}

/// Two bytes that were read little-endian, as an unsigned or as a signed
/// number, are written back as they were.
pub proof fn lemma_u16_write_back(b0: u8, b1: u8)
    ensures
        bytes16(u16_le(b0, b1)) == seq![b0, b1],
        bytes16(unsigned16(signed16(u16_le(b0, b1)))) == seq![b0, b1],
{
    lemma_le_digits(b0, b1, 0, 0);
    let x = u16_le(b0, b1);
    assert(x == b0 + 256 * b1);
    assert(unsigned16(signed16(x)) == x);
    assert((x as int / 256) % 256 == b1);
    assert(bytes16(x) =~= seq![b0, b1]);
}

/// Three bytes that were read little-endian are the three low bytes of
/// the number.
pub proof fn lemma_u24_write_back(b0: u8, b1: u8, b2: u8)
    ensures
        byte_of(u24_le(b0, b1, b2) as int, 0) == b0,
        byte_of(u24_le(b0, b1, b2) as int, 1) == b1,
        byte_of(u24_le(b0, b1, b2) as int, 2) == b2,
{
    lemma_le_digits(b0, b1, b2, 0);
    assert(u24_le(b0, b1, b2) == b0 + 256 * b1 + 65536 * b2);
}

/// Four bytes that were read little-endian, as an unsigned or as a signed
/// number, are written back as they were.
pub proof fn lemma_u32_write_back(b0: u8, b1: u8, b2: u8, b3: u8)
    ensures
        bytes32(u32_le(b0, b1, b2, b3)) == seq![b0, b1, b2, b3],
        bytes32(unsigned32(signed32(u32_le(b0, b1, b2, b3)))) == seq![b0, b1, b2, b3],
{
    lemma_le_digits(b0, b1, b2, b3);
    let y = u32_le(b0, b1, b2, b3);
    assert(y == b0 + 256 * b1 + 65536 * b2 + 16777216 * b3);
    assert(unsigned32(signed32(y)) == y);
    assert(bytes32(y) =~= seq![b0, b1, b2, b3]);
}

/// The state of a double point, or the state that a double command asks for.
#[derive(Clone, Copy, Debug, PartialEq, Eq, Structural)]
pub enum DoubleState {
    /// 0: in between, or not permitted.
    Indeterminate0,
    /// 1
    Off,
    /// 2
    On,
    /// 3: indeterminate, or not permitted.
    Indeterminate1,
}

impl DoubleState {
    /// The two bits of the state.
    pub open spec fn spec_value(&self) -> u8 {
        match self {
            DoubleState::Indeterminate0 => 0,
            DoubleState::Off => 1,
            DoubleState::On => 2,
            DoubleState::Indeterminate1 => 3,
        }
    }

    /// The state that the two low bits of `b` hold.
    pub open spec fn spec_from_low_bits(b: u8) -> DoubleState {
        if b % 4 == 0 {
            DoubleState::Indeterminate0
        } else if b % 4 == 1 {
            DoubleState::Off
        } else if b % 4 == 2 {
            DoubleState::On
        } else {
            DoubleState::Indeterminate1
        }
    }

    #[verifier::when_used_as_spec(spec_value)]
    pub fn value(&self) -> (v: u8)
        ensures
            v == self.spec_value(),
    {
        match self {
            DoubleState::Indeterminate0 => 0,
            DoubleState::Off => 1,
            DoubleState::On => 2,
            DoubleState::Indeterminate1 => 3,
        }
    }

    #[verifier::when_used_as_spec(spec_from_low_bits)]
    pub fn from_low_bits(b: u8) -> (s: DoubleState)
        ensures
            s == DoubleState::spec_from_low_bits(b),
    {
        let v: u8 = b % 4;
        if v == 0 {
            DoubleState::Indeterminate0
        } else if v == 1 {
            DoubleState::Off
        } else if v == 2 {
            DoubleState::On
        } else {
            DoubleState::Indeterminate1
        }
    }
}

/// What a command byte says beside its value: whether the command selects
/// or executes, and a qualifier code.
#[derive(Clone, Copy, Debug, PartialEq, Eq, Structural)]
pub struct CommandQualifier {
    /// Bit 7: `true` for select, `false` for execute.
    pub select: bool,
    /// The bits between bit 7 and the value.
    pub code: u8,
}

} // verus!
