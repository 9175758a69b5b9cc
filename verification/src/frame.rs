//! Frames: the start marker, the length, the control field and, in an
//! information frame, an ASDU.

use crate::apci::{control_is_canonical, Apci, MAX_LENGTH, MIN_LENGTH, START_BYTE};
use crate::asdu::{asdu_is_canonical, decode_asdu, decode_asdu_spec, Asdu, AsduView};
use crate::error::FrameError;
use crate::laws::{
    law_canonical_frame_is_written_back,
    law_decoded_frame_is_valid,
    law_frame_round_trip,
};
use crate::profile::Profile;
use vstd::prelude::*;
use vstd::slice::slice_subrange;

verus! {

/// One frame: what its control field says, and its ASDU if it carries one.
#[derive(Clone, Debug, PartialEq, Eq)]
pub struct Apdu {
    pub apci: Apci,
    /// Present only in an information frame.
    pub asdu: Option<Asdu>,
}

/// The mathematical value of an [`Apdu`].
#[verifier::ext_equal]
pub ghost struct ApduView {
    pub apci: Apci,
    pub asdu: Option<AsduView>,
}

impl View for Apdu {
    type V = ApduView;

    open spec fn view(&self) -> ApduView {
        ApduView {
            apci: self.apci,
            asdu: match self.asdu {
                Some(asdu) => Some(asdu@),
                None => None,
            },
        }
    }
}

/// What the front of a buffer turned out to be.
#[derive(Clone, Debug, PartialEq, Eq)]
pub enum DecodeOutcome {
    /// A whole frame, and the number of bytes it took.
    Decoded { apdu: Apdu, consumed: usize },
    /// The start of a frame that is not all there yet. This is no error:
    /// the same bytes with more behind them may decode.
    Incomplete,
    /// Not a frame.
    Malformed(FrameError),
}

/// The mathematical value of a [`DecodeOutcome`].
#[verifier::ext_equal]
pub ghost enum OutcomeView {
    Decoded { apdu: ApduView, consumed: int },
    Incomplete,
    Malformed(FrameError),
}

impl View for DecodeOutcome {
    type V = OutcomeView;

    open spec fn view(&self) -> OutcomeView {
        match self {
            DecodeOutcome::Decoded { apdu, consumed } => OutcomeView::Decoded {
                apdu: apdu@,
                consumed: *consumed as int,
            },
            DecodeOutcome::Incomplete => OutcomeView::Incomplete,
            DecodeOutcome::Malformed(e) => OutcomeView::Malformed(*e),
        }
    }
}

impl ApduView {
    /// Whether the frame can be written under `profile`: its sequence
    /// numbers fit, only an information frame carries an ASDU, and the
    /// ASDU can be written.
    pub open spec fn valid(self, profile: Profile) -> bool {
        &&& self.apci.spec_valid()
        &&& match self.asdu {
            Some(asdu) => self.apci is Information && asdu.valid(profile),
            None => true,
        }
    }

    /// The value of the length byte: the control field and the ASDU.
    pub open spec fn length(self, profile: Profile) -> int {
        4 + match self.asdu {
            Some(asdu) => asdu.encoded_len(profile),
            None => 0,
        }
    }

    /// The bytes of the frame: the start marker, the length, the control
    /// field, and the ASDU if there is one.
    pub open spec fn bytes(self, profile: Profile) -> Seq<u8> {
        seq![START_BYTE, self.length(profile) as u8] + self.apci.control_field() + match self.asdu {
            Some(asdu) => asdu.bytes(profile),
            None => Seq::empty(),
        }
    }
}

/// What the front of `s` is.
///
/// With fewer than two bytes nothing can be said yet. The first byte must
/// be the start marker and the second a length from 4 to 253. The frame is
/// that length and two bytes more; where `s` is shorter, it is incomplete.
/// The four bytes after the length are the control field. An information
/// frame longer than its control field carries an ASDU in the rest of the
/// frame; any other frame carries none.
pub open spec fn decode_frame_spec(s: Seq<u8>, profile: Profile) -> OutcomeView {
    if s.len() < 2 {
        OutcomeView::Incomplete
    } else if s[0] != START_BYTE {
        OutcomeView::Malformed(FrameError::InvalidStartByte)
    } else if s[1] < MIN_LENGTH || s[1] > MAX_LENGTH {
        OutcomeView::Malformed(FrameError::InvalidLength)
    } else if s.len() < s[1] + 2 {
        OutcomeView::Incomplete
    } else {
        match Apci::spec_from_control(s[2], s[3], s[4], s[5]) {
            None => OutcomeView::Malformed(FrameError::InvalidControlField),
            Some(apci) => if apci is Information && s[1] > 4 {
                match decode_asdu_spec(s.subrange(6, s[1] + 2), profile) {
                    Err(e) => OutcomeView::Malformed(FrameError::Asdu(e)),
                    Ok(asdu) => OutcomeView::Decoded {
                        apdu: ApduView { apci, asdu: Some(asdu) },
                        consumed: s[1] + 2,
                    },
                }
            } else {
                OutcomeView::Decoded { apdu: ApduView { apci, asdu: None }, consumed: s[1] + 2 }
            },
        }
    }
}

/// Whether the frame at the front of `s` holds nothing but what decoding
/// keeps: its control field and its ASDU are canonical, and a frame that
/// carries no ASDU ends with its control field.
pub open spec fn frame_is_canonical(s: Seq<u8>, profile: Profile) -> bool {
    &&& control_is_canonical(s[2], s[3], s[4], s[5])
    &&& if s[2] % 2 == 0 && s[1] > 4 {
        asdu_is_canonical(s.subrange(6, s[1] + 2), profile)
    } else {
        s[1] == 4
    }
}

/// Decodes the frame at the front of `buf`.
///
/// `buf` may hold more than one frame, or less. The outcome is the one
/// that [`decode_frame_spec`] gives. A decoded frame takes exactly the two
/// bytes of marker and length and the bytes that the length announces; the
/// other two outcomes take none. A decoded frame can be written again, and
/// where the bytes that were taken are canonical, it is written as them.
pub fn decode_frame(buf: &[u8], profile: &Profile) -> (out: DecodeOutcome)
    ensures
        out@ == decode_frame_spec(buf@, *profile),
        out matches DecodeOutcome::Decoded { consumed, .. } ==> consumed == buf@[1] + 2 && consumed
            <= buf@.len(),
        out matches DecodeOutcome::Decoded { apdu, .. } ==> apdu@.valid(*profile),
        out matches DecodeOutcome::Decoded { apdu, consumed } ==> (frame_is_canonical(
            buf@,
            *profile,
        ) ==> apdu@.bytes(*profile) == buf@.take(consumed as int)),
{
    proof {
        if decode_frame_spec(buf@, *profile) is Decoded {
            law_decoded_frame_is_valid(buf@, *profile);
            if frame_is_canonical(buf@, *profile) {
                law_canonical_frame_is_written_back(buf@, *profile);
            }
        }
    }
    if buf.len() < 2 {
        return DecodeOutcome::Incomplete;
    }
    if buf[0] != START_BYTE {
        return DecodeOutcome::Malformed(FrameError::InvalidStartByte);
    }
    let length: u8 = buf[1];
    if length < MIN_LENGTH || length > MAX_LENGTH {
        return DecodeOutcome::Malformed(FrameError::InvalidLength);
    }
    let total: usize = length as usize + 2;
    if buf.len() < total {
        return DecodeOutcome::Incomplete;
    }
    let apci = match Apci::from_control(buf[2], buf[3], buf[4], buf[5]) {
        None => {
            return DecodeOutcome::Malformed(FrameError::InvalidControlField);
        },
        Some(apci) => apci,
    };
    if apci.is_information() && length > 4 {
        match decode_asdu(slice_subrange(buf, 6, total), profile) {
            Err(e) => DecodeOutcome::Malformed(FrameError::Asdu(e)),
            Ok(asdu) => DecodeOutcome::Decoded {
                apdu: Apdu { apci, asdu: Some(asdu) },
                consumed: total,
            },
        }
    } else {
        DecodeOutcome::Decoded { apdu: Apdu { apci, asdu: None }, consumed: total }
    }
}

impl Apdu {
    /// Whether the frame can be written under `profile`.
    pub fn is_valid(&self, profile: &Profile) -> (b: bool)
        ensures
            b == self@.valid(*profile),
    {
        if !self.apci.valid() {
            return false;
        }
        match &self.asdu {
            Some(asdu) => self.apci.is_information() && asdu.is_valid(profile),
            None => true,
        }
    }
}

/// Encodes a frame.
///
/// Returns `None` where the frame cannot be written under `profile`, and
/// the bytes of the frame otherwise. Those bytes decode to the frame, and
/// all of them are taken.
pub fn encode_frame(apdu: &Apdu, profile: &Profile) -> (r: Option<Vec<u8>>)
    ensures
        r is Some <==> apdu@.valid(*profile),
        r is Some ==> r->0@ == apdu@.bytes(*profile),
        r is Some ==> r->0@.len() == apdu@.length(*profile) + 2,
        r is Some ==> decode_frame_spec(r->0@, *profile) == (OutcomeView::Decoded {
            apdu: apdu@,
            consumed: r->0@.len() as int,
        }),
{
    if !apdu.is_valid(profile) {
        return None;
    }
    let mut out: Vec<u8> = Vec::new();
    out.push(START_BYTE);
    match &apdu.asdu {
        Some(asdu) => {
            let n: usize = asdu.encoded_len(profile);
            out.push((4 + n) as u8);
            apdu.apci.write_control(&mut out);
            asdu.write(profile, &mut out);
        },
        None => {
            out.push(4u8);
            apdu.apci.write_control(&mut out);
        },
    }
    proof {
        assert(out@ =~= apdu@.bytes(*profile));
        law_frame_round_trip(apdu@, *profile, Seq::empty());
        assert(out@ + Seq::<u8>::empty() =~= out@);
    }
    Some(out)
}

} // verus!
