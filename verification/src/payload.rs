//! The value part of an information object, one variant for each category
//! of the layout table.

use crate::primitive::{
    bit,
    lemma_i16_round_trip,
    lemma_i32_round_trip,
    lemma_quality_round_trip,
    lemma_quality_write_back,
    lemma_u16_write_back,
    lemma_u32_write_back,
    lemma_u32_round_trip,
    bytes16,
    bytes32,
    read_i16,
    read_i32,
    read_u32,
    signed16,
    signed32,
    u16_le,
    u32_le,
    unsigned16,
    unsigned32,
    write_i16,
    write_i32,
    write_u32,
    CommandQualifier,
    DoubleState,
    Quality,
};
use crate::type_id::Category;
use vstd::prelude::*;

verus! {

/// What an information object holds beside its address and its time tag.
///
/// A floating-point value is kept as the 32 bits of its IEEE-754 form, and
/// a normalized value as its 16-bit numerator over 32768.
#[allow(inconsistent_fields)]
#[derive(Clone, Copy, Debug, PartialEq, Eq, Structural)]
pub enum Payload {
    SinglePoint { value: bool, quality: Quality },
    DoublePoint { state: DoubleState, quality: Quality },
    Normalized { value: i16, quality: Quality },
    Scaled { value: i16, quality: Quality },
    Float { bits: u32, quality: Quality },
    /// A counter reading. `sequence` is the 5-bit sequence number; the three
    /// flags are the quality of the reading.
    IntegratedTotal { counter: i32, sequence: u8, carry: bool, adjusted: bool, invalid: bool },
    SingleCommand { value: bool, qualifier: CommandQualifier },
    DoubleCommand { state: DoubleState, qualifier: CommandQualifier },
    SetpointNormalized { value: i16, qualifier: CommandQualifier },
    SetpointScaled { value: i16, qualifier: CommandQualifier },
    SetpointFloat { bits: u32, qualifier: CommandQualifier },
    Bitstring32Command { bits: u32 },
    Interrogation { qualifier: u8 },
    CounterInterrogation { qualifier: u8 },
    ResetProcess { qualifier: u8 },
    EndOfInit { cause: u8 },
}

/// The byte of a single point: the value in bit 0, the quality flags in
/// the high half.
#[verifier::opaque]
pub open spec fn single_point_byte(value: bool, quality: Quality) -> u8 {
    (bit(value) + quality.spec_byte()) as u8
}

/// The byte of a double point: the state in bits 0 and 1, the quality flags
/// in the high half.
#[verifier::opaque]
pub open spec fn double_point_byte(state: DoubleState, quality: Quality) -> u8 {
    (state.spec_value() + quality.spec_byte()) as u8
}

/// The byte of a single command: the value in bit 0, the qualifier code in
/// bits 1 to 6, select in bit 7.
#[verifier::opaque]
pub open spec fn single_command_byte(value: bool, q: CommandQualifier) -> u8 {
    (bit(value) + 2 * q.code + 128 * bit(q.select)) as u8
}

/// The qualifier that the byte of a single command holds.
#[verifier::opaque]
pub open spec fn single_command_qualifier(b: u8) -> CommandQualifier {
    CommandQualifier { select: b / 128 == 1, code: (b % 128) / 2 }
}

/// The byte of a double command: the state in bits 0 and 1, the qualifier
/// code in bits 2 to 6, select in bit 7.
#[verifier::opaque]
pub open spec fn double_command_byte(state: DoubleState, q: CommandQualifier) -> u8 {
    (state.spec_value() + 4 * q.code + 128 * bit(q.select)) as u8
}

/// The qualifier that the byte of a double command holds.
#[verifier::opaque]
pub open spec fn double_command_qualifier(b: u8) -> CommandQualifier {
    CommandQualifier { select: b / 128 == 1, code: (b % 128) / 4 }
}

/// The qualifier byte of a set point: the code in bits 0 to 6, select in
/// bit 7.
#[verifier::opaque]
pub open spec fn setpoint_qualifier_byte(q: CommandQualifier) -> u8 {
    (q.code + 128 * bit(q.select)) as u8
}

/// The qualifier that the qualifier byte of a set point holds.
#[verifier::opaque]
pub open spec fn setpoint_qualifier(b: u8) -> CommandQualifier {
    CommandQualifier { select: b / 128 == 1, code: b % 128 }
}

/// The byte that ends a counter reading: the sequence number in bits 0 to
/// 4, then carry, adjusted and invalid.
#[verifier::opaque]
pub open spec fn counter_flags_byte(sequence: u8, carry: bool, adjusted: bool, invalid: bool) -> u8 {
    (sequence + 32 * bit(carry) + 64 * bit(adjusted) + 128 * bit(invalid)) as u8
}

impl Payload {
    /// The category that this payload belongs to.
    pub open spec fn spec_category(&self) -> Category {
        match self {
            Payload::SinglePoint { .. } => Category::SinglePoint,
            Payload::DoublePoint { .. } => Category::DoublePoint,
            Payload::Normalized { .. } => Category::Normalized,
            Payload::Scaled { .. } => Category::Scaled,
            Payload::Float { .. } => Category::Float,
            Payload::IntegratedTotal { .. } => Category::IntegratedTotal,
            Payload::SingleCommand { .. } => Category::SingleCommand,
            Payload::DoubleCommand { .. } => Category::DoubleCommand,
            Payload::SetpointNormalized { .. } => Category::SetpointNormalized,
            Payload::SetpointScaled { .. } => Category::SetpointScaled,
            Payload::SetpointFloat { .. } => Category::SetpointFloat,
            Payload::Bitstring32Command { .. } => Category::Bitstring32Command,
            Payload::Interrogation { .. } => Category::Interrogation,
            Payload::CounterInterrogation { .. } => Category::CounterInterrogation,
            Payload::ResetProcess { .. } => Category::ResetProcess,
            Payload::EndOfInit { .. } => Category::EndOfInit,
        }
    }

    /// Whether the payload can be written, with (`quality`) or without a
    /// quality descriptor: each field fits its bits, a point has no
    /// overflow flag, and a measured value that is sent without quality
    /// has no flag at all.
    pub open spec fn spec_valid(&self, quality: bool) -> bool {
        match self {
            Payload::SinglePoint { quality: q, .. } => !q.overflow,
            Payload::DoublePoint { quality: q, .. } => !q.overflow,
            Payload::Normalized { quality: q, .. } => quality || q.spec_is_good(),
            Payload::Scaled { quality: q, .. } => quality || q.spec_is_good(),
            Payload::Float { quality: q, .. } => quality || q.spec_is_good(),
            Payload::IntegratedTotal { sequence, .. } => *sequence < 32,
            Payload::SingleCommand { qualifier, .. } => qualifier.code < 64,
            Payload::DoubleCommand { qualifier, .. } => qualifier.code < 32,
            Payload::SetpointNormalized { qualifier, .. } => qualifier.code < 128,
            Payload::SetpointScaled { qualifier, .. } => qualifier.code < 128,
            Payload::SetpointFloat { qualifier, .. } => qualifier.code < 128,
            _ => true,
        }
    }

    /// The bytes of the payload.
    ///
    /// A point is one byte: the value in the low bits, the quality flags in
    /// the high half. A measured value is its number, low byte first, then
    /// its quality byte where `quality` holds. A counter reading is the
    /// counter and a byte with the sequence number in bits 0 to 4 and the
    /// flags above. A command is one byte: the value in the low bits, the
    /// qualifier code above it, select in bit 7. A set point is its number
    /// and a byte with the qualifier code in bits 0 to 6 and select in bit 7.
    pub open spec fn spec_bytes(&self, quality: bool) -> Seq<u8> {
        match self {
            Payload::SinglePoint { value, quality: q } => seq![single_point_byte(*value, *q)],
            Payload::DoublePoint { state, quality: q } => seq![double_point_byte(*state, *q)],
            Payload::Normalized { value, quality: q } => bytes16(unsigned16(*value)) + (if quality {
                seq![q.spec_byte()]
            } else {
                Seq::empty()
            }),
            Payload::Scaled { value, quality: q } => bytes16(unsigned16(*value)) + (if quality {
                seq![q.spec_byte()]
            } else {
                Seq::empty()
            }),
            Payload::Float { bits, quality: q } => bytes32(*bits) + (if quality {
                seq![q.spec_byte()]
            } else {
                Seq::empty()
            }),
            Payload::IntegratedTotal { counter, sequence, carry, adjusted, invalid } => bytes32(
                unsigned32(*counter),
            ) + seq![counter_flags_byte(*sequence, *carry, *adjusted, *invalid)],
            Payload::SingleCommand { value, qualifier } => seq![
                single_command_byte(*value, *qualifier),
            ],
            Payload::DoubleCommand { state, qualifier } => seq![
                double_command_byte(*state, *qualifier),
            ],
            Payload::SetpointNormalized { value, qualifier } => bytes16(unsigned16(*value)) + seq![
                setpoint_qualifier_byte(*qualifier),
            ],
            Payload::SetpointScaled { value, qualifier } => bytes16(unsigned16(*value)) + seq![
                setpoint_qualifier_byte(*qualifier),
            ],
            Payload::SetpointFloat { bits, qualifier } => bytes32(*bits) + seq![
                setpoint_qualifier_byte(*qualifier),
            ],
            Payload::Bitstring32Command { bits } => bytes32(*bits),
            Payload::Interrogation { qualifier } => seq![*qualifier],
            Payload::CounterInterrogation { qualifier } => seq![*qualifier],
            Payload::ResetProcess { qualifier } => seq![*qualifier],
            Payload::EndOfInit { cause } => seq![*cause],
        }
    }

    /// The payload of category `category` that the bytes from `at` on hold.
    /// Bits that the category does not use are not looked at. A measured
    /// value that comes without quality byte gets the quality with no flag.
    pub open spec fn spec_read(category: Category, quality: bool, s: Seq<u8>, at: int) -> Payload {
        match category {
            Category::SinglePoint => Payload::SinglePoint {
                value: s[at] % 2 == 1,
                quality: Quality::spec_from_high_bits(s[at]),
            },
            Category::DoublePoint => Payload::DoublePoint {
                state: DoubleState::spec_from_low_bits(s[at]),
                quality: Quality::spec_from_high_bits(s[at]),
            },
            Category::Normalized => Payload::Normalized {
                value: signed16(u16_le(s[at], s[at + 1])),
                quality: if quality {
                    Quality::spec_from_byte(s[at + 2])
                } else {
                    Quality::spec_good()
                },
            },
            Category::Scaled => Payload::Scaled {
                value: signed16(u16_le(s[at], s[at + 1])),
                quality: if quality {
                    Quality::spec_from_byte(s[at + 2])
                } else {
                    Quality::spec_good()
                },
            },
            Category::Float => Payload::Float {
                bits: u32_le(s[at], s[at + 1], s[at + 2], s[at + 3]),
                quality: if quality {
                    Quality::spec_from_byte(s[at + 4])
                } else {
                    Quality::spec_good()
                },
            },
            Category::IntegratedTotal => Payload::IntegratedTotal {
                counter: signed32(u32_le(s[at], s[at + 1], s[at + 2], s[at + 3])),
                sequence: s[at + 4] % 32,
                carry: (s[at + 4] / 32) % 2 == 1,
                adjusted: (s[at + 4] / 64) % 2 == 1,
                invalid: s[at + 4] / 128 == 1,
            },
            Category::SingleCommand => Payload::SingleCommand {
                value: s[at] % 2 == 1,
                qualifier: single_command_qualifier(s[at]),
            },
            Category::DoubleCommand => Payload::DoubleCommand {
                state: DoubleState::spec_from_low_bits(s[at]),
                qualifier: double_command_qualifier(s[at]),
            },
            Category::SetpointNormalized => Payload::SetpointNormalized {
                value: signed16(u16_le(s[at], s[at + 1])),
                qualifier: setpoint_qualifier(s[at + 2]),
            },
            Category::SetpointScaled => Payload::SetpointScaled {
                value: signed16(u16_le(s[at], s[at + 1])),
                qualifier: setpoint_qualifier(s[at + 2]),
            },
            Category::SetpointFloat => Payload::SetpointFloat {
                bits: u32_le(s[at], s[at + 1], s[at + 2], s[at + 3]),
                qualifier: setpoint_qualifier(s[at + 4]),
            },
            Category::Bitstring32Command => Payload::Bitstring32Command {
                bits: u32_le(s[at], s[at + 1], s[at + 2], s[at + 3]),
            },
            Category::Interrogation => Payload::Interrogation { qualifier: s[at] },
            Category::CounterInterrogation => Payload::CounterInterrogation { qualifier: s[at] },
            Category::ResetProcess => Payload::ResetProcess { qualifier: s[at] },
            Category::EndOfInit => Payload::EndOfInit { cause: s[at] },
        }
    }

    /// Whether the bytes from `at` on hold a payload of category `category`
    /// and nothing else: the bits that the category does not use are clear.
    ///
    /// Those are bits 1 to 3 of a single point, bits 2 and 3 of a double
    /// point, and bits 1 to 3 of the quality byte of a measured value. The
    /// other categories use every bit.
    pub open spec fn bytes_are_canonical(
        category: Category,
        quality: bool,
        s: Seq<u8>,
        at: int,
    ) -> bool {
        match category {
            Category::SinglePoint => (s[at] / 2) % 8 == 0,
            Category::DoublePoint => (s[at] / 4) % 4 == 0,
            Category::Normalized => quality ==> (s[at + 2] / 2) % 8 == 0,
            Category::Scaled => quality ==> (s[at + 2] / 2) % 8 == 0,
            Category::Float => quality ==> (s[at + 4] / 2) % 8 == 0,
            _ => true,
        }
    }

    #[verifier::when_used_as_spec(spec_category)]
    pub fn category(&self) -> (c: Category)
        ensures
            c == self.spec_category(),
    {
        match self {
            Payload::SinglePoint { .. } => Category::SinglePoint,
            Payload::DoublePoint { .. } => Category::DoublePoint,
            Payload::Normalized { .. } => Category::Normalized,
            Payload::Scaled { .. } => Category::Scaled,
            Payload::Float { .. } => Category::Float,
            Payload::IntegratedTotal { .. } => Category::IntegratedTotal,
            Payload::SingleCommand { .. } => Category::SingleCommand,
            Payload::DoubleCommand { .. } => Category::DoubleCommand,
            Payload::SetpointNormalized { .. } => Category::SetpointNormalized,
            Payload::SetpointScaled { .. } => Category::SetpointScaled,
            Payload::SetpointFloat { .. } => Category::SetpointFloat,
            Payload::Bitstring32Command { .. } => Category::Bitstring32Command,
            Payload::Interrogation { .. } => Category::Interrogation,
            Payload::CounterInterrogation { .. } => Category::CounterInterrogation,
            Payload::ResetProcess { .. } => Category::ResetProcess,
            Payload::EndOfInit { .. } => Category::EndOfInit,
        }
    }

    #[verifier::when_used_as_spec(spec_valid)]
    pub fn valid(&self, quality: bool) -> (b: bool)
        ensures
            b == self.spec_valid(quality),
    {
        match self {
            Payload::SinglePoint { quality: q, .. } => !q.overflow,
            Payload::DoublePoint { quality: q, .. } => !q.overflow,
            Payload::Normalized { quality: q, .. } => quality || q.is_good(),
            Payload::Scaled { quality: q, .. } => quality || q.is_good(),
            Payload::Float { quality: q, .. } => quality || q.is_good(),
            Payload::IntegratedTotal { sequence, .. } => *sequence < 32,
            Payload::SingleCommand { qualifier, .. } => qualifier.code < 64,
            Payload::DoubleCommand { qualifier, .. } => qualifier.code < 32,
            Payload::SetpointNormalized { qualifier, .. } => qualifier.code < 128,
            Payload::SetpointScaled { qualifier, .. } => qualifier.code < 128,
            Payload::SetpointFloat { qualifier, .. } => qualifier.code < 128,
            _ => true,
        }
    }
}

fn flag(b: bool) -> (v: u8)
    ensures
        v == 128 * bit(b),
{
    if b {
        128
    } else {
        0
    }
}

fn read_quality_after(quality: bool, buf: &[u8], at: usize) -> (q: Quality)
    requires
        quality ==> at < buf.len(),
    ensures
        q == (if quality {
            Quality::spec_from_byte(buf@[at as int])
        } else {
            Quality::spec_good()
        }),
{
    if quality {
        Quality::from_byte(buf[at])
    } else {
        Quality::good()
    }
}

fn write_quality_after(quality: bool, q: &Quality, out: &mut Vec<u8>)
    ensures
        final(out)@ == old(out)@ + (if quality {
            seq![q.spec_byte()]
        } else {
            Seq::<u8>::empty()
        }),
{
    let ghost before = out@;
    if quality {
        out.push(q.byte());
    }
    assert(out@ =~= before + (if quality {
        seq![q.spec_byte()]
    } else {
        Seq::<u8>::empty()
    }));
}

impl Payload {
    /// Reads a payload of category `category` at `at`.
    pub fn read(category: Category, quality: bool, buf: &[u8], at: usize) -> (p: Payload)
        requires
            at + category.spec_value_len(quality) <= buf.len(),
        ensures
            p == Payload::spec_read(category, quality, buf@, at as int),
            p.spec_category() == category,
            p.spec_valid(quality),
    {
        reveal(single_command_qualifier);
        reveal(double_command_qualifier);
        reveal(setpoint_qualifier);
        reveal(Quality::spec_from_high_bits);
        match category {
            Category::SinglePoint => {
                let b: u8 = buf[at];
                Payload::SinglePoint { value: b % 2 == 1, quality: Quality::from_high_bits(b) }
            },
            Category::DoublePoint => {
                let b: u8 = buf[at];
                Payload::DoublePoint {
                    state: DoubleState::from_low_bits(b),
                    quality: Quality::from_high_bits(b),
                }
            },
            Category::Normalized => Payload::Normalized {
                value: read_i16(buf, at),
                quality: read_quality_after(quality, buf, at + 2),
            },
            Category::Scaled => Payload::Scaled {
                value: read_i16(buf, at),
                quality: read_quality_after(quality, buf, at + 2),
            },
            Category::Float => Payload::Float {
                bits: read_u32(buf, at),
                quality: read_quality_after(quality, buf, at + 4),
            },
            Category::IntegratedTotal => {
                let b: u8 = buf[at + 4];
                Payload::IntegratedTotal {
                    counter: read_i32(buf, at),
                    sequence: b % 32,
                    carry: (b / 32) % 2 == 1,
                    adjusted: (b / 64) % 2 == 1,
                    invalid: b / 128 == 1,
                }
            },
            Category::SingleCommand => {
                let b: u8 = buf[at];
                Payload::SingleCommand {
                    value: b % 2 == 1,
                    qualifier: CommandQualifier { select: b / 128 == 1, code: (b % 128) / 2 },
                }
            },
            Category::DoubleCommand => {
                let b: u8 = buf[at];
                Payload::DoubleCommand {
                    state: DoubleState::from_low_bits(b),
                    qualifier: CommandQualifier { select: b / 128 == 1, code: (b % 128) / 4 },
                }
            },
            Category::SetpointNormalized => {
                let b: u8 = buf[at + 2];
                Payload::SetpointNormalized {
                    value: read_i16(buf, at),
                    qualifier: CommandQualifier { select: b / 128 == 1, code: b % 128 },
                }
            },
            Category::SetpointScaled => {
                let b: u8 = buf[at + 2];
                Payload::SetpointScaled {
                    value: read_i16(buf, at),
                    qualifier: CommandQualifier { select: b / 128 == 1, code: b % 128 },
                }
            },
            Category::SetpointFloat => {
                let b: u8 = buf[at + 4];
                Payload::SetpointFloat {
                    bits: read_u32(buf, at),
                    qualifier: CommandQualifier { select: b / 128 == 1, code: b % 128 },
                }
            },
            Category::Bitstring32Command => Payload::Bitstring32Command { bits: read_u32(buf, at) },
            Category::Interrogation => Payload::Interrogation { qualifier: buf[at] },
            Category::CounterInterrogation => Payload::CounterInterrogation { qualifier: buf[at] },
            Category::ResetProcess => Payload::ResetProcess { qualifier: buf[at] },
            Category::EndOfInit => Payload::EndOfInit { cause: buf[at] },
        }
    }

    /// Appends the bytes of the payload to `out`.
    pub fn write(&self, quality: bool, out: &mut Vec<u8>)
        requires
            self.spec_valid(quality),
        ensures
            final(out)@ == old(out)@ + self.spec_bytes(quality),
    {
        reveal(single_point_byte);
        reveal(double_point_byte);
        reveal(single_command_byte);
        reveal(double_command_byte);
        reveal(setpoint_qualifier_byte);
        reveal(counter_flags_byte);
        reveal(Quality::spec_byte);
        let ghost before = out@;
        match self {
            Payload::SinglePoint { value, quality: q } => {
                let v: u8 = if *value {
                    1
                } else {
                    0
                };
                out.push(v + q.byte());
            },
            Payload::DoublePoint { state, quality: q } => {
                out.push(state.value() + q.byte());
            },
            Payload::Normalized { value, quality: q } => {
                write_i16(*value, out);
                write_quality_after(quality, q, out);
            },
            Payload::Scaled { value, quality: q } => {
                write_i16(*value, out);
                write_quality_after(quality, q, out);
            },
            Payload::Float { bits, quality: q } => {
                write_u32(*bits, out);
                write_quality_after(quality, q, out);
            },
            Payload::IntegratedTotal { counter, sequence, carry, adjusted, invalid } => {
                write_i32(*counter, out);
                let c: u8 = if *carry {
                    32
                } else {
                    0
                };
                let a: u8 = if *adjusted {
                    64
                } else {
                    0
                };
                out.push(*sequence + c + a + flag(*invalid));
            },
            Payload::SingleCommand { value, qualifier } => {
                let v: u8 = if *value {
                    1
                } else {
                    0
                };
                out.push(v + 2 * qualifier.code + flag(qualifier.select));
            },
            Payload::DoubleCommand { state, qualifier } => {
                out.push(state.value() + 4 * qualifier.code + flag(qualifier.select));
            },
            Payload::SetpointNormalized { value, qualifier } => {
                write_i16(*value, out);
                out.push(qualifier.code + flag(qualifier.select));
            },
            Payload::SetpointScaled { value, qualifier } => {
                write_i16(*value, out);
                out.push(qualifier.code + flag(qualifier.select));
            },
            Payload::SetpointFloat { bits, qualifier } => {
                write_u32(*bits, out);
                out.push(qualifier.code + flag(qualifier.select));
            },
            Payload::Bitstring32Command { bits } => {
                write_u32(*bits, out);
            },
            Payload::Interrogation { qualifier } => {
                out.push(*qualifier);
            },
            Payload::CounterInterrogation { qualifier } => {
                out.push(*qualifier);
            },
            Payload::ResetProcess { qualifier } => {
                out.push(*qualifier);
            },
            Payload::EndOfInit { cause } => {
                out.push(*cause);
            },
        }
        assert(out@ =~= before + self.spec_bytes(quality));
    }
}

/// A single point's byte gives back its value and its quality.
pub proof fn lemma_single_point_round_trip(value: bool, quality: Quality)
    requires
        !quality.overflow,
    ensures
        (single_point_byte(value, quality) % 2 == 1) == value,
        Quality::spec_from_high_bits(single_point_byte(value, quality)) == quality,
{
    reveal(single_point_byte);
    lemma_quality_round_trip(quality, bit(value) as u8);
}

/// A double point's byte gives back its state and its quality.
pub proof fn lemma_double_point_round_trip(state: DoubleState, quality: Quality)
    requires
        !quality.overflow,
    ensures
        DoubleState::spec_from_low_bits(double_point_byte(state, quality)) == state,
        Quality::spec_from_high_bits(double_point_byte(state, quality)) == quality,
{
    reveal(double_point_byte);
    lemma_quality_round_trip(quality, state.spec_value());
}

/// A single command's byte gives back its value and its qualifier.
pub proof fn lemma_single_command_round_trip(value: bool, q: CommandQualifier)
    requires
        q.code < 64,
    ensures
        (single_command_byte(value, q) % 2 == 1) == value,
        single_command_qualifier(single_command_byte(value, q)) == q,
{
    reveal(single_command_byte);
    reveal(single_command_qualifier);
}

/// A double command's byte gives back its state and its qualifier.
pub proof fn lemma_double_command_round_trip(state: DoubleState, q: CommandQualifier)
    requires
        q.code < 32,
    ensures
        DoubleState::spec_from_low_bits(double_command_byte(state, q)) == state,
        double_command_qualifier(double_command_byte(state, q)) == q,
{
    reveal(double_command_byte);
    reveal(double_command_qualifier);
}

/// A set point's qualifier byte gives back the qualifier.
pub proof fn lemma_setpoint_qualifier_round_trip(q: CommandQualifier)
    requires
        q.code < 128,
    ensures
        setpoint_qualifier(setpoint_qualifier_byte(q)) == q,
{
    reveal(setpoint_qualifier_byte);
    reveal(setpoint_qualifier);
}

/// The last byte of a counter reading gives back the sequence number and
/// the three flags that it was made of.
pub proof fn lemma_counter_flags_round_trip(
    sequence: u8,
    carry: bool,
    adjusted: bool,
    invalid: bool,
)
    requires
        sequence < 32,
    ensures
        ({
            let b = counter_flags_byte(sequence, carry, adjusted, invalid);
            &&& b % 32 == sequence
            &&& ((b / 32) % 2 == 1) == carry
            &&& ((b / 64) % 2 == 1) == adjusted
            &&& (b / 128 == 1) == invalid
        }),
{
    reveal(counter_flags_byte);
}

proof fn lemma_read_own_bytes_points(p: Payload, quality: bool)
    requires
        p.spec_valid(quality),
        p is SinglePoint || p is DoublePoint,
    ensures
        p.spec_bytes(quality).len() == p.spec_category().spec_value_len(quality),
        Payload::spec_read(p.spec_category(), quality, p.spec_bytes(quality), 0) == p,
{
    match p {
        Payload::SinglePoint { value, quality: q } => {
            lemma_single_point_round_trip(value, q);
        },
        Payload::DoublePoint { state, quality: q } => {
            lemma_double_point_round_trip(state, q);
        },
        _ => {},
    }
}

proof fn lemma_read_own_bytes_measured(p: Payload, quality: bool)
    requires
        p.spec_valid(quality),
        p is Normalized || p is Scaled,
    ensures
        p.spec_bytes(quality).len() == p.spec_category().spec_value_len(quality),
        Payload::spec_read(p.spec_category(), quality, p.spec_bytes(quality), 0) == p,
{
    match p {
        Payload::Normalized { value, quality: q } => {
            lemma_i16_round_trip(value);
            lemma_quality_round_trip(q, 0);
        },
        Payload::Scaled { value, quality: q } => {
            lemma_i16_round_trip(value);
            lemma_quality_round_trip(q, 0);
        },
        _ => {},
    }
}

proof fn lemma_read_own_bytes_float(p: Payload, quality: bool)
    requires
        p.spec_valid(quality),
        p is Float,
    ensures
        p.spec_bytes(quality).len() == p.spec_category().spec_value_len(quality),
        Payload::spec_read(p.spec_category(), quality, p.spec_bytes(quality), 0) == p,
{
    match p {
        Payload::Float { bits, quality: q } => {
            lemma_u32_round_trip(bits);
            lemma_quality_round_trip(q, 0);
        },
        _ => {},
    }
}

proof fn lemma_read_own_bytes_counter(p: Payload, quality: bool)
    requires
        p.spec_valid(quality),
        p is IntegratedTotal,
    ensures
        p.spec_bytes(quality).len() == p.spec_category().spec_value_len(quality),
        Payload::spec_read(p.spec_category(), quality, p.spec_bytes(quality), 0) == p,
{
    match p {
        Payload::IntegratedTotal { counter, sequence, carry, adjusted, invalid } => {
            lemma_i32_round_trip(counter);
            lemma_counter_flags_round_trip(sequence, carry, adjusted, invalid);
        },
        _ => {},
    }
}

proof fn lemma_read_own_bytes_commands(p: Payload, quality: bool)
    requires
        p.spec_valid(quality),
        p is SingleCommand || p is DoubleCommand,
    ensures
        p.spec_bytes(quality).len() == p.spec_category().spec_value_len(quality),
        Payload::spec_read(p.spec_category(), quality, p.spec_bytes(quality), 0) == p,
{
    match p {
        Payload::SingleCommand { value, qualifier } => {
            lemma_single_command_round_trip(value, qualifier);
        },
        Payload::DoubleCommand { state, qualifier } => {
            lemma_double_command_round_trip(state, qualifier);
        },
        _ => {},
    }
}

proof fn lemma_read_own_bytes_setpoints(p: Payload, quality: bool)
    requires
        p.spec_valid(quality),
        p is SetpointNormalized || p is SetpointScaled,
    ensures
        p.spec_bytes(quality).len() == p.spec_category().spec_value_len(quality),
        Payload::spec_read(p.spec_category(), quality, p.spec_bytes(quality), 0) == p,
{
    match p {
        Payload::SetpointNormalized { value, qualifier } => {
            lemma_i16_round_trip(value);
            lemma_setpoint_qualifier_round_trip(qualifier);
        },
        Payload::SetpointScaled { value, qualifier } => {
            lemma_i16_round_trip(value);
            lemma_setpoint_qualifier_round_trip(qualifier);
        },
        _ => {},
    }
}

proof fn lemma_read_own_bytes_bitstrings(p: Payload, quality: bool)
    requires
        p.spec_valid(quality),
        p is SetpointFloat || p is Bitstring32Command,
    ensures
        p.spec_bytes(quality).len() == p.spec_category().spec_value_len(quality),
        Payload::spec_read(p.spec_category(), quality, p.spec_bytes(quality), 0) == p,
{
    match p {
        Payload::SetpointFloat { bits, qualifier } => {
            lemma_u32_round_trip(bits);
            lemma_setpoint_qualifier_round_trip(qualifier);
        },
        Payload::Bitstring32Command { bits } => {
            lemma_u32_round_trip(bits);
        },
        _ => {},
    }
}

proof fn lemma_read_own_bytes_qualifiers(p: Payload, quality: bool)
    requires
        p.spec_valid(quality),
        p is Interrogation || p is CounterInterrogation || p is ResetProcess || p is EndOfInit,
    ensures
        p.spec_bytes(quality).len() == p.spec_category().spec_value_len(quality),
        Payload::spec_read(p.spec_category(), quality, p.spec_bytes(quality), 0) == p,
{

}

/// The bytes of a valid payload, read from their start, give the payload.
proof fn lemma_payload_read_own_bytes(p: Payload, quality: bool)
    requires
        p.spec_valid(quality),
    ensures
        p.spec_bytes(quality).len() == p.spec_category().spec_value_len(quality),
        Payload::spec_read(p.spec_category(), quality, p.spec_bytes(quality), 0) == p,
{
    match p {
        Payload::SinglePoint { .. } | Payload::DoublePoint { .. } => {
            lemma_read_own_bytes_points(p, quality);
        },
        Payload::Normalized { .. } | Payload::Scaled { .. } => {
            lemma_read_own_bytes_measured(p, quality);
        },
        Payload::Float { .. } => {
            lemma_read_own_bytes_float(p, quality);
        },
        Payload::IntegratedTotal { .. } => {
            lemma_read_own_bytes_counter(p, quality);
        },
        Payload::SingleCommand { .. } | Payload::DoubleCommand { .. } => {
            lemma_read_own_bytes_commands(p, quality);
        },
        Payload::SetpointNormalized { .. } | Payload::SetpointScaled { .. } => {
            lemma_read_own_bytes_setpoints(p, quality);
        },
        Payload::SetpointFloat { .. } | Payload::Bitstring32Command { .. } => {
            lemma_read_own_bytes_bitstrings(p, quality);
        },
        _ => {
            lemma_read_own_bytes_qualifiers(p, quality);
        },
    }
}

/// What is read at `at` depends on the bytes of the value part alone.
pub proof fn lemma_payload_read_is_local(
    category: Category,
    quality: bool,
    s: Seq<u8>,
    at: int,
    t: Seq<u8>,
    at_t: int,
)
    requires
        0 <= at,
        0 <= at_t,
        at + category.spec_value_len(quality) <= s.len(),
        at_t + category.spec_value_len(quality) <= t.len(),
        s.subrange(at, at + category.spec_value_len(quality)) == t.subrange(
            at_t,
            at_t + category.spec_value_len(quality),
        ),
    ensures
        Payload::spec_read(category, quality, s, at) == Payload::spec_read(
            category,
            quality,
            t,
            at_t,
        ),
{
    let n = category.spec_value_len(quality) as int;
    let a = s.subrange(at, at + n);
    let b = t.subrange(at_t, at_t + n);
    if n >= 1 {
        assert(a[0] == s[at] && b[0] == t[at_t]);
    }
    if n >= 2 {
        assert(a[1] == s[at + 1] && b[1] == t[at_t + 1]);
    }
    if n >= 3 {
        assert(a[2] == s[at + 2] && b[2] == t[at_t + 2]);
    }
    if n >= 4 {
        assert(a[3] == s[at + 3] && b[3] == t[at_t + 3]);
    }
    if n >= 5 {
        assert(a[4] == s[at + 4] && b[4] == t[at_t + 4]);
    }
}

/// A payload that was written is read back as it was, wherever its bytes
/// stand in a sequence, and takes the bytes that its category calls for.
pub proof fn lemma_payload_round_trip(p: Payload, quality: bool, s: Seq<u8>, at: int)
    requires
        p.spec_valid(quality),
        0 <= at,
        at + p.spec_bytes(quality).len() <= s.len(),
        s.subrange(at, at + p.spec_bytes(quality).len()) == p.spec_bytes(quality),
    ensures
        p.spec_bytes(quality).len() == p.spec_category().spec_value_len(quality),
        Payload::spec_read(p.spec_category(), quality, s, at) == p,
{
    let b = p.spec_bytes(quality);
    lemma_payload_read_own_bytes(p, quality);
    assert(b.subrange(0, b.len() as int) == b);
    lemma_payload_read_is_local(p.spec_category(), quality, s, at, b, 0);
}

/// Whatever is read as a payload of a category is a valid payload of that
/// category.
pub proof fn lemma_payload_read_is_valid(category: Category, quality: bool, s: Seq<u8>, at: int)
    ensures
        Payload::spec_read(category, quality, s, at).spec_category() == category,
        Payload::spec_read(category, quality, s, at).spec_valid(quality),
{
    reveal(Quality::spec_from_high_bits);
    reveal(single_command_qualifier);
    reveal(double_command_qualifier);
    reveal(setpoint_qualifier);
}

/// The one-byte encodings give back the byte that they were read from,
/// where the bits that they do not use are clear.
pub proof fn lemma_byte_write_back(b: u8)
    ensures
        (b / 2) % 8 == 0 ==> single_point_byte(b % 2 == 1, Quality::spec_from_high_bits(b)) == b,
        (b / 4) % 4 == 0 ==> double_point_byte(
            DoubleState::spec_from_low_bits(b),
            Quality::spec_from_high_bits(b),
        ) == b,
        single_command_byte(b % 2 == 1, single_command_qualifier(b)) == b,
        double_command_byte(DoubleState::spec_from_low_bits(b), double_command_qualifier(b)) == b,
        setpoint_qualifier_byte(setpoint_qualifier(b)) == b,
        counter_flags_byte(b % 32, (b / 32) % 2 == 1, (b / 64) % 2 == 1, b / 128 == 1) == b,
{
    lemma_quality_write_back(b);
    assert(single_command_byte(b % 2 == 1, single_command_qualifier(b)) == b) by {
        reveal(single_command_byte);
        reveal(single_command_qualifier);
    }
    assert(double_command_byte(DoubleState::spec_from_low_bits(b), double_command_qualifier(b))
        == b) by {
        reveal(double_command_byte);
        reveal(double_command_qualifier);
    }
    assert(setpoint_qualifier_byte(setpoint_qualifier(b)) == b) by {
        reveal(setpoint_qualifier_byte);
        reveal(setpoint_qualifier);
    }
    assert(counter_flags_byte(b % 32, (b / 32) % 2 == 1, (b / 64) % 2 == 1, b / 128 == 1) == b) by {
        reveal(counter_flags_byte);
    }
    if (b / 2) % 8 == 0 {
        reveal(single_point_byte);
    }
    if (b / 4) % 4 == 0 {
        reveal(double_point_byte);
    }
}

proof fn lemma_write_back_one_byte(category: Category, quality: bool, s: Seq<u8>, at: int)
    requires
        0 <= at,
        at + category.spec_value_len(quality) <= s.len(),
        Payload::bytes_are_canonical(category, quality, s, at),
        category.spec_value_len(quality) == 1,
    ensures
        Payload::spec_read(category, quality, s, at).spec_bytes(quality) == s.subrange(at, at + 1),
{
    lemma_byte_write_back(s[at]);
    let out = Payload::spec_read(category, quality, s, at).spec_bytes(quality);
    assert(out =~= seq![s[at]]);
    assert(s.subrange(at, at + 1) =~= seq![s[at]]);
}

proof fn lemma_write_back_16(category: Category, quality: bool, s: Seq<u8>, at: int)
    requires
        0 <= at,
        at + category.spec_value_len(quality) <= s.len(),
        Payload::bytes_are_canonical(category, quality, s, at),
        category == Category::Normalized || category == Category::Scaled || category
            == Category::SetpointNormalized || category == Category::SetpointScaled,
    ensures
        Payload::spec_read(category, quality, s, at).spec_bytes(quality) == s.subrange(
            at,
            at + category.spec_value_len(quality),
        ),
{
    lemma_u16_write_back(s[at], s[at + 1]);
    let n = category.spec_value_len(quality) as int;
    let out = Payload::spec_read(category, quality, s, at).spec_bytes(quality);
    if n == 3 {
        lemma_byte_write_back(s[at + 2]);
        lemma_quality_write_back(s[at + 2]);
        assert(out =~= seq![s[at], s[at + 1], s[at + 2]]);
        assert(s.subrange(at, at + 3) =~= seq![s[at], s[at + 1], s[at + 2]]);
    } else {
        assert(out =~= seq![s[at], s[at + 1]]);
        assert(s.subrange(at, at + 2) =~= seq![s[at], s[at + 1]]);
    }
}

proof fn lemma_write_back_32(category: Category, quality: bool, s: Seq<u8>, at: int)
    requires
        0 <= at,
        at + category.spec_value_len(quality) <= s.len(),
        Payload::bytes_are_canonical(category, quality, s, at),
        category == Category::Float || category == Category::IntegratedTotal || category
            == Category::SetpointFloat || category == Category::Bitstring32Command,
    ensures
        Payload::spec_read(category, quality, s, at).spec_bytes(quality) == s.subrange(
            at,
            at + category.spec_value_len(quality),
        ),
{
    lemma_u32_write_back(s[at], s[at + 1], s[at + 2], s[at + 3]);
    let n = category.spec_value_len(quality) as int;
    let out = Payload::spec_read(category, quality, s, at).spec_bytes(quality);
    if n == 5 {
        lemma_byte_write_back(s[at + 4]);
        lemma_quality_write_back(s[at + 4]);
        assert(out =~= seq![s[at], s[at + 1], s[at + 2], s[at + 3], s[at + 4]]);
        assert(s.subrange(at, at + 5) =~= seq![s[at], s[at + 1], s[at + 2], s[at + 3], s[at + 4]]);
    } else {
        assert(out =~= seq![s[at], s[at + 1], s[at + 2], s[at + 3]]);
        assert(s.subrange(at, at + 4) =~= seq![s[at], s[at + 1], s[at + 2], s[at + 3]]);
    }
}

/// A payload that was read from canonical bytes is written back as those
/// bytes.
pub proof fn lemma_payload_write_back(category: Category, quality: bool, s: Seq<u8>, at: int)
    requires
        0 <= at,
        at + category.spec_value_len(quality) <= s.len(),
        Payload::bytes_are_canonical(category, quality, s, at),
    ensures
        Payload::spec_read(category, quality, s, at).spec_bytes(quality) == s.subrange(
            at,
            at + category.spec_value_len(quality),
        ),
{
    match category {
        Category::Normalized
        | Category::Scaled
        | Category::SetpointNormalized
        | Category::SetpointScaled => {
            lemma_write_back_16(category, quality, s, at);
        },
        Category::Float
        | Category::IntegratedTotal
        | Category::SetpointFloat
        | Category::Bitstring32Command => {
            lemma_write_back_32(category, quality, s, at);
        },
        _ => {
            lemma_write_back_one_byte(category, quality, s, at);
        },
    }
}

/// The bits of a command byte are the ones the protocol assigns: select in
/// bit 7, the qualifier code below it, the value in the lowest bits.
pub proof fn law_command_fields_are_bits(b: u8)
    by (bit_vector)
    ensures
        (b / 128 == 1) == (b & 0x80 != 0),
        (b % 128) / 2 == (b >> 1) & 0x3f,
        (b % 128) / 4 == (b >> 2) & 0x1f,
        b % 128 == b & 0x7f,
        (b % 2 == 1) == (b & 0x01 != 0),
        b % 4 == b & 0x03,
{
}

} // verus!
