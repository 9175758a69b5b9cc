//! Decoding from a stream.
//!
//! Bytes arrive from the transport in pieces that know nothing of frames.
//! A [`FrameReader`] keeps the bytes that have arrived and are not decoded
//! yet, and hands out one frame at a time. [`decode_from`] does the same on
//! a `bytes::BytesMut` that the caller keeps; what this module states of
//! that type is trusted, not proved, and each such statement says so.

use crate::frame::{decode_frame, decode_frame_spec, DecodeOutcome};
use crate::primitive::append_bytes;
use crate::profile::Profile;
use bytes::BytesMut;
use vstd::prelude::*;
use vstd::slice::{slice_subrange, slice_to_vec};

verus! {

/// `bytes::BytesMut`, a growable byte buffer. Verus sees nothing inside it.
#[verifier::external_type_specification]
#[verifier::external_body]
pub struct ExBytesMut(bytes::BytesMut);

/// The bytes that a buffer holds, first to last.
pub uninterp spec fn buffer_bytes(buf: BytesMut) -> Seq<u8>;

/// Calls `AsRef::<[u8]>::as_ref` of `BytesMut`. Trusted: the slice is the
/// bytes that the buffer holds.
#[verifier::external_body]
fn buffer_slice(buf: &BytesMut) -> (s: &[u8])
    ensures
        s@ == buffer_bytes(*buf),
{
    buf.as_ref()
}

/// Calls `Buf::advance` of `BytesMut`. Trusted: the buffer then holds what
/// it held without its first `n` bytes. The call panics where `n` is more
/// than the buffer holds, which the precondition leaves out.
#[verifier::external_body]
fn buffer_advance(buf: &mut BytesMut, n: usize)
    requires
        n <= buffer_bytes(*old(buf)).len(),
    ensures
        buffer_bytes(*final(buf)) == buffer_bytes(*old(buf)).skip(n as int),
{
    bytes::Buf::advance(buf, n)
}

/// Decodes the frame at the front of `buf` and takes it out of the buffer.
///
/// The outcome is that of [`decode_frame`] on the bytes of the buffer. A
/// decoded frame leaves the buffer; otherwise the buffer stays as it was,
/// so that more bytes can be put behind an incomplete frame.
pub fn decode_from(buf: &mut BytesMut, profile: &Profile) -> (out: DecodeOutcome)
    ensures
        out@ == decode_frame_spec(buffer_bytes(*old(buf)), *profile),
        out matches DecodeOutcome::Decoded { consumed, .. } ==> buffer_bytes(*final(buf))
            == buffer_bytes(*old(buf)).skip(consumed as int),
        !(out is Decoded) ==> buffer_bytes(*final(buf)) == buffer_bytes(*old(buf)),
{
    let out = decode_frame(buffer_slice(buf), profile);
    match &out {
        DecodeOutcome::Decoded { consumed, .. } => {
            buffer_advance(buf, *consumed);
        },
        _ => {},
    }
    out
}

/// The bytes of a stream that are not decoded yet, and the profile of the
/// link they came over.
pub struct FrameReader {
    residual: Vec<u8>,
    profile: Profile,
}

impl FrameReader {
    /// The bytes that the reader holds, oldest first.
    pub closed spec fn pending(&self) -> Seq<u8> {
        self.residual@
    }

    /// The profile that the reader decodes by.
    pub closed spec fn spec_profile(&self) -> Profile {
        self.profile
    }

    /// A reader that holds no byte.
    pub fn new(profile: Profile) -> (reader: FrameReader)
        ensures
            reader.pending() == Seq::<u8>::empty(),
            reader.spec_profile() == profile,
    {
        FrameReader { residual: Vec::new(), profile }
    }

    #[verifier::when_used_as_spec(spec_profile)]
    pub fn profile(&self) -> (p: Profile)
        ensures
            p == self.spec_profile(),
    {
        self.profile
    }

    /// The bytes that the reader holds.
    pub fn pending_bytes(&self) -> (bytes: &[u8])
        ensures
            bytes@ == self.pending(),
    {
        self.residual.as_slice()
    }

    /// The number of bytes that the reader holds.
    pub fn pending_len(&self) -> (n: usize)
        ensures
            n == self.pending().len(),
    {
        self.residual.len()
    }

    /// Puts `data` behind the bytes that the reader holds.
    pub fn push(&mut self, data: &[u8])
        ensures
            final(self).spec_profile() == old(self).spec_profile(),
            final(self).pending() == old(self).pending() + data@,
    {
        append_bytes(&mut self.residual, data);
    }

    /// Decodes the frame at the front of the bytes that the reader holds.
    ///
    /// A decoded frame leaves the reader. On `Incomplete` and on
    /// `Malformed` the reader holds what it held.
    pub fn next_frame(&mut self) -> (out: DecodeOutcome)
        ensures
            final(self).spec_profile() == old(self).spec_profile(),
            out@ == decode_frame_spec(old(self).pending(), old(self).spec_profile()),
            out matches DecodeOutcome::Decoded { consumed, .. } ==> final(self).pending() == old(
                self,
            ).pending().skip(consumed as int),
            !(out is Decoded) ==> final(self).pending() == old(self).pending(),
    {
        let out = decode_frame(self.residual.as_slice(), &self.profile);
        match &out {
            DecodeOutcome::Decoded { consumed, .. } => {
                self.discard(*consumed);
            },
            _ => {},
        }
        out
    }

    /// Drops the first `n` bytes that the reader holds, or all of them if
    /// it holds fewer. After a malformed frame this is how a caller moves
    /// on to the next start marker.
    pub fn discard(&mut self, n: usize)
        ensures
            final(self).spec_profile() == old(self).spec_profile(),
            n <= old(self).pending().len() ==> final(self).pending() == old(self).pending().skip(
                n as int,
            ),
            n > old(self).pending().len() ==> final(self).pending() == Seq::<u8>::empty(),
    {
        let held: usize = self.residual.len();
        if n <= held {
            let rest = slice_to_vec(slice_subrange(self.residual.as_slice(), n, held));
            assert(rest@ =~= self.residual@.skip(n as int));
            self.residual = rest;
        } else {
            self.residual = Vec::new();
        }
    }
}

} // verus!
