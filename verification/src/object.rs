//! Information objects: an address, a payload and a time tag.

use crate::payload::{
    lemma_payload_read_is_valid,
    lemma_payload_round_trip,
    lemma_payload_write_back,
    Payload,
};
use crate::primitive::{byte_of, bytes16, lemma_u16_write_back, lemma_u24_write_back, u16_le, u24_le};
use crate::profile::{ObjectAddressWidth, Profile};
use crate::time::{
    lemma_timestamp_read_is_valid,
    lemma_timestamp_round_trip,
    lemma_timestamp_write_back,
    Timestamp,
};
use crate::type_id::{lemma_element_len, Layout};
use vstd::prelude::*;

verus! {

/// One information object of an ASDU.
#[derive(Clone, Copy, Debug, PartialEq, Eq, Structural)]
pub struct InformationObject {
    /// The information object address. In an ASDU with sequential
    /// addressing only the first object's address is sent; the others
    /// follow it one by one.
    pub address: u32,
    pub payload: Payload,
    pub timestamp: Timestamp,
}

/// The bytes of an object address under `profile`, low byte first.
pub open spec fn address_bytes(address: u32, profile: Profile) -> Seq<u8> {
    match profile.object_address_width {
        ObjectAddressWidth::One => seq![byte_of(address as int, 0)],
        ObjectAddressWidth::Two => seq![byte_of(address as int, 0), byte_of(address as int, 1)],
        ObjectAddressWidth::Three => seq![
            byte_of(address as int, 0),
            byte_of(address as int, 1),
            byte_of(address as int, 2),
        ],
    }
}

/// The object address that the bytes from `at` on hold under `profile`.
pub open spec fn address_at(profile: Profile, s: Seq<u8>, at: int) -> u32 {
    match profile.object_address_width {
        ObjectAddressWidth::One => s[at] as u32,
        ObjectAddressWidth::Two => u16_le(s[at], s[at + 1]) as u32,
        ObjectAddressWidth::Three => u24_le(s[at], s[at + 1], s[at + 2]),
    }
}

/// Reads an object address at `at`.
pub fn read_address(profile: &Profile, buf: &[u8], at: usize) -> (a: u32)
    requires
        at + profile.spec_object_address_len() <= buf.len(),
    ensures
        a == address_at(*profile, buf@, at as int),
        a < profile.object_address_limit(),
{
    match profile.object_address_width {
        ObjectAddressWidth::One => buf[at] as u32,
        ObjectAddressWidth::Two => buf[at] as u32 + 256 * (buf[at + 1] as u32),
        ObjectAddressWidth::Three => buf[at] as u32 + 256 * (buf[at + 1] as u32) + 65536 * (buf[at
            + 2] as u32),
    }
}

/// Appends the bytes of an object address to `out`.
pub fn write_address(address: u32, profile: &Profile, out: &mut Vec<u8>)
    requires
        address < profile.object_address_limit(),
    ensures
        final(out)@ == old(out)@ + address_bytes(address, *profile),
{
    let ghost before = out@;
    match profile.object_address_width {
        ObjectAddressWidth::One => {
            out.push(address as u8);
        },
        ObjectAddressWidth::Two => {
            out.push((address % 256) as u8);
            out.push((address / 256) as u8);
        },
        ObjectAddressWidth::Three => {
            out.push((address % 256) as u8);
            out.push(((address / 256) % 256) as u8);
            out.push((address / 65536) as u8);
        },
    }
    assert(out@ =~= before + address_bytes(address, *profile));
}

/// An address that was written is read back as it was, wherever its bytes
/// stand in a sequence.
pub proof fn lemma_address_round_trip(address: u32, profile: Profile, s: Seq<u8>, at: int)
    requires
        address < profile.object_address_limit(),
        0 <= at,
        at + address_bytes(address, profile).len() <= s.len(),
        s.subrange(at, at + address_bytes(address, profile).len()) == address_bytes(
            address,
            profile,
        ),
    ensures
        address_bytes(address, profile).len() == profile.spec_object_address_len(),
        address_at(profile, s, at) == address,
{
    let b = address_bytes(address, profile);
    let n = b.len() as int;
    let a = s.subrange(at, at + n);
    assert(a[0] == s[at]);
    if n >= 2 {
        assert(a[1] == s[at + 1]);
    }
    if n >= 3 {
        assert(a[2] == s[at + 2]);
    }
}

/// An address that was read is written back as the bytes it was read from.
pub proof fn lemma_address_write_back(profile: Profile, s: Seq<u8>, at: int)
    requires
        0 <= at,
        at + profile.spec_object_address_len() <= s.len(),
    ensures
        address_bytes(address_at(profile, s, at), profile) == s.subrange(
            at,
            at + profile.spec_object_address_len(),
        ),
        address_at(profile, s, at) < profile.object_address_limit(),
{
    let out = address_bytes(address_at(profile, s, at), profile);
    match profile.object_address_width {
        ObjectAddressWidth::One => {
            assert(out =~= seq![s[at]]);
            assert(s.subrange(at, at + 1) =~= seq![s[at]]);
        },
        ObjectAddressWidth::Two => {
            lemma_u16_write_back(s[at], s[at + 1]);
            let m = bytes16(u16_le(s[at], s[at + 1]));
            assert(m[0] == s[at] && m[1] == s[at + 1]);
            assert(out =~= seq![s[at], s[at + 1]]);
            assert(s.subrange(at, at + 2) =~= seq![s[at], s[at + 1]]);
        },
        ObjectAddressWidth::Three => {
            lemma_u24_write_back(s[at], s[at + 1], s[at + 2]);
            assert(out =~= seq![s[at], s[at + 1], s[at + 2]]);
            assert(s.subrange(at, at + 3) =~= seq![s[at], s[at + 1], s[at + 2]]);
        },
    }
}

impl InformationObject {
    /// Whether the bytes from `at` on hold an element of the row `layout`
    /// and nothing else: a canonical payload and a canonical time tag.
    pub open spec fn element_is_canonical(layout: Layout, s: Seq<u8>, at: int) -> bool {
        &&& Payload::bytes_are_canonical(layout.category, layout.quality, s, at)
        &&& Timestamp::bytes_are_canonical(layout.time, s, at + layout.spec_value_len())
    }

    /// Whether the object is one of the type whose row is `layout` and can
    /// be written: its payload is of the row's category, its time tag of
    /// the row's class, and both are valid.
    pub open spec fn spec_fits(&self, layout: Layout) -> bool {
        &&& self.payload.spec_category() == layout.category
        &&& self.payload.spec_valid(layout.quality)
        &&& self.timestamp.spec_class() == layout.time
        &&& self.timestamp.spec_valid()
    }

    /// The bytes of the object without its address: the payload, then the
    /// time tag.
    pub open spec fn spec_element_bytes(&self, layout: Layout) -> Seq<u8> {
        self.payload.spec_bytes(layout.quality) + self.timestamp.spec_bytes()
    }

    /// The object with address `address` whose payload and time tag the
    /// bytes from `at` on hold, read by the row `layout`.
    pub open spec fn spec_read_element(
        layout: Layout,
        address: u32,
        s: Seq<u8>,
        at: int,
    ) -> InformationObject {
        InformationObject {
            address,
            payload: Payload::spec_read(layout.category, layout.quality, s, at),
            timestamp: Timestamp::spec_read(layout.time, s, at + layout.spec_value_len()),
        }
    }

    #[verifier::when_used_as_spec(spec_fits)]
    pub fn fits(&self, layout: Layout) -> (b: bool)
        ensures
            b == self.spec_fits(layout),
    {
        self.payload.category() == layout.category && self.payload.valid(layout.quality)
            && self.timestamp.class() == layout.time && self.timestamp.valid()
    }

    /// Reads the payload and the time tag of an object at `at`.
    pub fn read_element(layout: Layout, address: u32, buf: &[u8], at: usize) -> (o:
        InformationObject)
        requires
            at + layout.spec_element_len() <= buf.len(),
        ensures
            o == InformationObject::spec_read_element(layout, address, buf@, at as int),
            o.spec_fits(layout),
    {
        proof {
            lemma_element_len(layout);
        }
        let payload = Payload::read(layout.category, layout.quality, buf, at);
        let timestamp = Timestamp::read(layout.time, buf, at + layout.value_len());
        InformationObject { address, payload, timestamp }
    }

    /// Appends the payload and the time tag of the object to `out`.
    pub fn write_element(&self, layout: Layout, out: &mut Vec<u8>)
        requires
            self.spec_fits(layout),
        ensures
            final(out)@ == old(out)@ + self.spec_element_bytes(layout),
    {
        let ghost before = out@;
        self.payload.write(layout.quality, out);
        self.timestamp.write(out);
        assert(out@ =~= before + self.spec_element_bytes(layout));
    }
}

/// Whatever is read by a row fits that row.
pub proof fn lemma_read_element_fits(layout: Layout, address: u32, s: Seq<u8>, at: int)
    ensures
        InformationObject::spec_read_element(layout, address, s, at).spec_fits(layout),
        InformationObject::spec_read_element(layout, address, s, at).address == address,
{
    lemma_payload_read_is_valid(layout.category, layout.quality, s, at);
    lemma_timestamp_read_is_valid(layout.time, s, at + layout.spec_value_len());
}

/// An element that was read from canonical bytes is written back as those
/// bytes.
pub proof fn lemma_element_write_back(layout: Layout, address: u32, s: Seq<u8>, at: int)
    requires
        0 <= at,
        at + layout.spec_element_len() <= s.len(),
        InformationObject::element_is_canonical(layout, s, at),
    ensures
        InformationObject::spec_read_element(layout, address, s, at).spec_element_bytes(layout)
            == s.subrange(at, at + layout.spec_element_len()),
{
    lemma_element_len(layout);
    let v = layout.spec_value_len() as int;
    let n = layout.spec_element_len() as int;
    lemma_payload_write_back(layout.category, layout.quality, s, at);
    lemma_timestamp_write_back(layout.time, s, at + v);
    assert(s.subrange(at, at + v) + s.subrange(at + v, at + n) =~= s.subrange(at, at + n));
}

/// The payload and time tag of an object that fits its row, once written,
/// are read back as they were, and take the bytes that the row calls for.
pub proof fn lemma_element_round_trip(o: InformationObject, layout: Layout, s: Seq<u8>, at: int)
    requires
        o.spec_fits(layout),
        0 <= at,
        at + o.spec_element_bytes(layout).len() <= s.len(),
        s.subrange(at, at + o.spec_element_bytes(layout).len()) == o.spec_element_bytes(layout),
    ensures
        o.spec_element_bytes(layout).len() == layout.spec_element_len(),
        InformationObject::spec_read_element(layout, o.address, s, at) == o,
{
    lemma_element_len(layout);
    let pb = o.payload.spec_bytes(layout.quality);
    let tb = o.timestamp.spec_bytes();
    let e = o.spec_element_bytes(layout);
    let vl = pb.len() as int;
    let n = e.len() as int;
    assert(s.subrange(at, at + vl) =~= pb) by {
        assert(s.subrange(at, at + vl) =~= s.subrange(at, at + n).subrange(0, vl));
        assert(e.subrange(0, vl) =~= pb);
    }
    assert(s.subrange(at + vl, at + n) =~= tb) by {
        assert(s.subrange(at + vl, at + n) =~= s.subrange(at, at + n).subrange(vl, n));
        assert(e.subrange(vl, n) =~= tb);
    }
    lemma_payload_round_trip(o.payload, layout.quality, s, at);
    lemma_timestamp_round_trip(o.timestamp, s, at + vl);
}

} // verus!
