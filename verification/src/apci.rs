//! The control field of a frame.
//!
//! Four bytes after the start marker and the length tell the three kinds of
//! frame apart and carry their sequence numbers or their function.

use vstd::prelude::*;

verus! {

/// The start marker of every frame.
pub const START_BYTE: u8 = 0x68;

/// The smallest length byte: the control field alone.
pub const MIN_LENGTH: u8 = 4;

/// The largest length byte: the control field and 249 bytes of ASDU.
pub const MAX_LENGTH: u8 = 253;

/// The first value that a sequence number cannot hold: they count modulo
/// 2 to the 15.
pub const SEQUENCE_LIMIT: u16 = 0x8000;

/// The function of an unnumbered frame.
#[derive(Clone, Copy, Debug, PartialEq, Eq, Structural)]
pub enum UFunction {
    StartDtAct,
    StartDtCon,
    StopDtAct,
    StopDtCon,
    TestFrAct,
    TestFrCon,
}

impl UFunction {
    /// The first control byte of an unnumbered frame with this function:
    /// the two low bits set, and one of the six bits above them.
    pub open spec fn spec_control_byte(self) -> u8 {
        match self {
            UFunction::StartDtAct => 0x07,
            UFunction::StartDtCon => 0x0B,
            UFunction::StopDtAct => 0x13,
            UFunction::StopDtCon => 0x23,
            UFunction::TestFrAct => 0x43,
            UFunction::TestFrCon => 0x83,
        }
    }

    /// The function that a first control byte names, if it names exactly
    /// one.
    pub open spec fn spec_from_control_byte(c0: u8) -> Option<UFunction> {
        if c0 == 0x07 {
            Some(UFunction::StartDtAct)
        } else if c0 == 0x0B {
            Some(UFunction::StartDtCon)
        } else if c0 == 0x13 {
            Some(UFunction::StopDtAct)
        } else if c0 == 0x23 {
            Some(UFunction::StopDtCon)
        } else if c0 == 0x43 {
            Some(UFunction::TestFrAct)
        } else if c0 == 0x83 {
            Some(UFunction::TestFrCon)
        } else {
            None
        }
    }

    #[verifier::when_used_as_spec(spec_control_byte)]
    pub fn control_byte(self) -> (b: u8)
        ensures
            b == self.spec_control_byte(),
    {
        match self {
            UFunction::StartDtAct => 0x07,
            UFunction::StartDtCon => 0x0B,
            UFunction::StopDtAct => 0x13,
            UFunction::StopDtCon => 0x23,
            UFunction::TestFrAct => 0x43,
            UFunction::TestFrCon => 0x83,
        }
    }

    #[verifier::when_used_as_spec(spec_from_control_byte)]
    pub fn from_control_byte(c0: u8) -> (r: Option<UFunction>)
        ensures
            r == UFunction::spec_from_control_byte(c0),
    {
        if c0 == 0x07 {
            Some(UFunction::StartDtAct)
        } else if c0 == 0x0B {
            Some(UFunction::StartDtCon)
        } else if c0 == 0x13 {
            Some(UFunction::StopDtAct)
        } else if c0 == 0x23 {
            Some(UFunction::StopDtCon)
        } else if c0 == 0x43 {
            Some(UFunction::TestFrAct)
        } else if c0 == 0x83 {
            Some(UFunction::TestFrCon)
        } else {
            None
        }
    }
}

/// A byte names a function exactly when its two low bits are set and
/// exactly one of its six high bits is.
pub proof fn law_function_is_single_bit(c0: u8)
    by (bit_vector)
    ensures
        (c0 == 0x07 || c0 == 0x0B || c0 == 0x13 || c0 == 0x23 || c0 == 0x43 || c0 == 0x83) <==> (c0
            & 3 == 3 && (c0 >> 2) != 0 && (c0 >> 2) & (((c0 >> 2) - 1) as u8) == 0),
{
}

/// What the control field of a frame says.
#[derive(Clone, Copy, Debug, PartialEq, Eq, Structural)]
pub enum Apci {
    /// An information frame, with the sender's send and receive counters.
    Information { send_seq: u16, recv_seq: u16 },
    /// A supervisory frame, which acknowledges up to `recv_seq`.
    Supervisory { recv_seq: u16 },
    /// An unnumbered frame, which carries one link function.
    Unnumbered { function: UFunction },
}

/// The 15-bit number that two control bytes hold: the low byte without its
/// lowest bit, and the high byte above it.
pub open spec fn sequence_number(low: u8, high: u8) -> u16 {
    (low / 2 + high * 128) as u16
}

/// The shifts that the protocol writes for a sequence number give
/// [`sequence_number`].
pub proof fn law_sequence_number_is_shifts(low: u8, high: u8)
    by (bit_vector)
    ensures
        ((low >> 1) as u16) | ((high as u16) << 7) == (low / 2 + high * 128) as u16,
        low / 2 + high * 128 < 0x8000,
{
}

impl Apci {
    /// Whether the sequence numbers fit their 15 bits.
    pub open spec fn spec_valid(&self) -> bool {
        match self {
            Apci::Information { send_seq, recv_seq } => send_seq < SEQUENCE_LIMIT && recv_seq
                < SEQUENCE_LIMIT,
            Apci::Supervisory { recv_seq } => recv_seq < SEQUENCE_LIMIT,
            Apci::Unnumbered { .. } => true,
        }
    }

    /// The four control bytes of a frame of this kind.
    pub open spec fn control_field(self) -> Seq<u8> {
        match self {
            Apci::Information { send_seq, recv_seq } => seq![
                ((send_seq % 128) * 2) as u8,
                (send_seq / 128) as u8,
                ((recv_seq % 128) * 2) as u8,
                (recv_seq / 128) as u8,
            ],
            Apci::Supervisory { recv_seq } => seq![
                1u8,
                0u8,
                ((recv_seq % 128) * 2) as u8,
                (recv_seq / 128) as u8,
            ],
            Apci::Unnumbered { function } => seq![function.spec_control_byte(), 0u8, 0u8, 0u8],
        }
    }

    /// What four control bytes say. An even first byte is an information
    /// frame. A first byte with low bits `01` is a supervisory frame. One
    /// with low bits `11` is an unnumbered frame if it names exactly one
    /// function, and nothing otherwise.
    pub open spec fn spec_from_control(c0: u8, c1: u8, c2: u8, c3: u8) -> Option<Apci> {
        if c0 % 2 == 0 {
            Some(
                Apci::Information {
                    send_seq: sequence_number(c0, c1),
                    recv_seq: sequence_number(c2, c3),
                },
            )
        } else if c0 % 4 == 1 {
            Some(Apci::Supervisory { recv_seq: sequence_number(c2, c3) })
        } else {
            match UFunction::spec_from_control_byte(c0) {
                Some(function) => Some(Apci::Unnumbered { function }),
                None => None,
            }
        }
    }

    /// Whether this is an information frame's control field.
    pub open spec fn spec_is_information(&self) -> bool {
        self is Information
    }

    #[verifier::when_used_as_spec(spec_is_information)]
    pub fn is_information(&self) -> (b: bool)
        ensures
            b == self.spec_is_information(),
    {
        match self {
            Apci::Information { .. } => true,
            _ => false,
        }
    }

    #[verifier::when_used_as_spec(spec_valid)]
    pub fn valid(&self) -> (b: bool)
        ensures
            b == self.spec_valid(),
    {
        match self {
            Apci::Information { send_seq, recv_seq } => *send_seq < SEQUENCE_LIMIT && *recv_seq
                < SEQUENCE_LIMIT,
            Apci::Supervisory { recv_seq } => *recv_seq < SEQUENCE_LIMIT,
            Apci::Unnumbered { .. } => true,
        }
    }

    /// Reads four control bytes.
    #[verifier::when_used_as_spec(spec_from_control)]
    pub fn from_control(c0: u8, c1: u8, c2: u8, c3: u8) -> (r: Option<Apci>)
        ensures
            r == Apci::spec_from_control(c0, c1, c2, c3),
    {
        if c0 % 2 == 0 {
            Some(
                Apci::Information {
                    send_seq: read_sequence_number(c0, c1),
                    recv_seq: read_sequence_number(c2, c3),
                },
            )
        } else if c0 % 4 == 1 {
            Some(Apci::Supervisory { recv_seq: read_sequence_number(c2, c3) })
        } else {
            match UFunction::from_control_byte(c0) {
                Some(function) => Some(Apci::Unnumbered { function }),
                None => None,
            }
        }
    }

    /// Appends the four control bytes to `out`.
    pub fn write_control(&self, out: &mut Vec<u8>)
        requires
            self.spec_valid(),
        ensures
            final(out)@ == old(out)@ + self.control_field(),
    {
        let ghost before = out@;
        match self {
            Apci::Information { send_seq, recv_seq } => {
                out.push(((*send_seq % 128) * 2) as u8);
                out.push((*send_seq / 128) as u8);
                out.push(((*recv_seq % 128) * 2) as u8);
                out.push((*recv_seq / 128) as u8);
            },
            Apci::Supervisory { recv_seq } => {
                out.push(1u8);
                out.push(0u8);
                out.push(((*recv_seq % 128) * 2) as u8);
                out.push((*recv_seq / 128) as u8);
            },
            Apci::Unnumbered { function } => {
                out.push(function.control_byte());
                out.push(0u8);
                out.push(0u8);
                out.push(0u8);
            },
        }
        assert(out@ =~= before + self.control_field());
    }
}

fn read_sequence_number(low: u8, high: u8) -> (n: u16)
    ensures
        n == sequence_number(low, high),
        n < SEQUENCE_LIMIT,
{
    (low / 2) as u16 + (high as u16) * 128
}

/// A control field that was written is read back as it was.
pub proof fn lemma_control_round_trip(apci: Apci)
    requires
        apci.spec_valid(),
    ensures
        apci.control_field().len() == 4,
        Apci::spec_from_control(
            apci.control_field()[0],
            apci.control_field()[1],
            apci.control_field()[2],
            apci.control_field()[3],
        ) == Some(apci),
{
}

/// Whether four control bytes hold nothing but what they say: the bits
/// that their kind of frame does not use are clear.
///
/// In an information frame that is the lowest bit of the third byte. In a
/// supervisory frame the first byte is `01`, the second is zero and the
/// lowest bit of the third is clear. In an unnumbered frame the last three
/// bytes are zero.
pub open spec fn control_is_canonical(c0: u8, c1: u8, c2: u8, c3: u8) -> bool {
    if c0 % 2 == 0 {
        c2 % 2 == 0
    } else if c0 % 4 == 1 {
        c0 == 1 && c1 == 0 && c2 % 2 == 0
    } else {
        c1 == 0 && c2 == 0 && c3 == 0
    }
}

/// A canonical control field that was read is written back as it was.
pub proof fn lemma_control_write_back(c0: u8, c1: u8, c2: u8, c3: u8)
    requires
        Apci::spec_from_control(c0, c1, c2, c3) is Some,
        control_is_canonical(c0, c1, c2, c3),
    ensures
        Apci::spec_from_control(c0, c1, c2, c3)->0.control_field() == seq![c0, c1, c2, c3],
{
    let apci = Apci::spec_from_control(c0, c1, c2, c3)->0;
    assert(apci.control_field() =~= seq![c0, c1, c2, c3]);
}

/// Whatever is read from a control field has sequence numbers of 15 bits.
pub proof fn lemma_control_read_is_valid(c0: u8, c1: u8, c2: u8, c3: u8)
    ensures
        Apci::spec_from_control(c0, c1, c2, c3) is Some ==> Apci::spec_from_control(
            c0,
            c1,
            c2,
            c3,
        )->0.spec_valid(),
{
}

} // verus!
