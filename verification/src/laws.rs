//! The laws of the codec.
//!
//! Each public proof function here states one property of encoding and
//! decoding over the spec functions that the executable functions are
//! proved against, and Verus checks it for every input.

use crate::apci::{
    lemma_control_read_is_valid,
    lemma_control_round_trip,
    lemma_control_write_back,
    Apci,
    START_BYTE,
};
use crate::asdu::{
    asdu_is_canonical,
    common_address_at,
    common_address_bytes,
    decode_asdu_spec,
    element_offset,
    lemma_objects_bytes_step,
    lemma_offset_step,
    object_address_at,
    object_at,
    object_bytes,
    object_len,
    objects_at,
    objects_bytes,
    objects_len,
    objects_offset,
    qualifier_byte,
    AsduView,
    BodyView,
    Cause,
    MAX_ASDU_LEN,
};
use crate::error::AsduError;
use crate::frame::{decode_frame_spec, frame_is_canonical, ApduView, OutcomeView};
use crate::object::{
    address_at,
    address_bytes,
    lemma_address_round_trip,
    lemma_address_write_back,
    lemma_element_round_trip,
    lemma_element_write_back,
    lemma_read_element_fits,
    InformationObject,
};
use crate::primitive::{bytes16, lemma_u16_write_back, u16_le};
use crate::profile::Profile;
use crate::type_id::{lemma_element_len, lemma_type_code_round_trip, Layout, TypeId};
use vstd::prelude::*;

verus! {

/// An object that fits its row takes the bytes that the row and the
/// addressing mode call for: its address, if it carries one, and then its
/// element.
proof fn lemma_object_bytes_len(
    o: InformationObject,
    layout: Layout,
    with_address: bool,
    profile: Profile,
)
    requires
        o.spec_fits(layout),
    ensures
        o.spec_element_bytes(layout).len() == layout.spec_element_len(),
        address_bytes(o.address, profile).len() == profile.spec_object_address_len(),
        object_bytes(o, layout, with_address, profile).len() == object_len(
            layout,
            with_address,
            profile,
        ),
        object_bytes(o, layout, with_address, profile) == (if with_address {
            address_bytes(o.address, profile)
        } else {
            Seq::<u8>::empty()
        }) + o.spec_element_bytes(layout),
{
    reveal(object_bytes);
    let e = o.spec_element_bytes(layout);
    assert(e.subrange(0, e.len() as int) =~= e);
    lemma_element_round_trip(o, layout, e, 0);
}

/// The bytes of a run of objects are as long as their number calls for.
proof fn lemma_objects_bytes_len(
    objects: Seq<InformationObject>,
    layout: Layout,
    sequential: bool,
    profile: Profile,
)
    requires
        forall|i: int| 0 <= i < objects.len() ==> (#[trigger] objects[i]).spec_fits(layout),
    ensures
        objects_bytes(objects, layout, sequential, profile).len() == objects_offset(
            layout,
            sequential,
            objects.len() as int,
            profile,
        ),
    decreases objects.len(),
{
    let n = objects.len() as int;
    if n > 0 {
        let front = objects.drop_last();
        assert forall|i: int| 0 <= i < front.len() implies (#[trigger] front[i]).spec_fits(
            layout,
        ) by {
            assert(front[i] == objects[i]);
        }
        lemma_objects_bytes_len(front, layout, sequential, profile);
        lemma_object_bytes_len(objects.last(), layout, !sequential || n == 1, profile);
        lemma_offset_step(layout, sequential, profile, 0, n - 1);
    }
}

/// The bytes of the first `m` objects are the front of the bytes of all.
proof fn lemma_objects_bytes_prefix(
    objects: Seq<InformationObject>,
    layout: Layout,
    sequential: bool,
    profile: Profile,
    m: int,
)
    requires
        0 <= m <= objects.len(),
    ensures
        objects_bytes(objects.take(m), layout, sequential, profile).len() <= objects_bytes(
            objects,
            layout,
            sequential,
            profile,
        ).len(),
        objects_bytes(objects, layout, sequential, profile).subrange(
            0,
            objects_bytes(objects.take(m), layout, sequential, profile).len() as int,
        ) == objects_bytes(objects.take(m), layout, sequential, profile),
    decreases objects.len() - m,
{
    let all = objects_bytes(objects, layout, sequential, profile);
    let front = objects_bytes(objects.take(m), layout, sequential, profile);
    if m < objects.len() {
        let next = objects_bytes(objects.take(m + 1), layout, sequential, profile);
        lemma_objects_bytes_step(objects, m, layout, sequential, profile);
        lemma_objects_bytes_prefix(objects, layout, sequential, profile, m + 1);
        assert(all.subrange(0, front.len() as int) =~= all.subrange(0, next.len() as int).subrange(
            0,
            front.len() as int,
        ));
        assert(next.subrange(0, front.len() as int) =~= front);
    } else {
        assert(objects.take(m) =~= objects);
        assert(all.subrange(0, all.len() as int) =~= all);
    }
}

/// The bytes of object `i` stand right after those of the `i` objects
/// before it.
proof fn lemma_object_position(
    objects: Seq<InformationObject>,
    layout: Layout,
    sequential: bool,
    profile: Profile,
    i: int,
)
    requires
        0 <= i < objects.len(),
        forall|k: int| 0 <= k < objects.len() ==> (#[trigger] objects[k]).spec_fits(layout),
    ensures
        ({
            let all = objects_bytes(objects, layout, sequential, profile);
            let start = objects_offset(layout, sequential, i, profile);
            let len = object_len(layout, !sequential || i == 0, profile);
            &&& 0 <= start
            &&& start + len <= all.len()
            &&& all.subrange(start, start + len) == object_bytes(
                objects[i],
                layout,
                !sequential || i == 0,
                profile,
            )
        }),
{
    let all = objects_bytes(objects, layout, sequential, profile);
    let front = objects_bytes(objects.take(i), layout, sequential, profile);
    let next = objects_bytes(objects.take(i + 1), layout, sequential, profile);
    let ob = object_bytes(objects[i], layout, !sequential || i == 0, profile);
    let start = objects_offset(layout, sequential, i, profile);
    let len = object_len(layout, !sequential || i == 0, profile);
    assert forall|k: int| 0 <= k < objects.take(i).len() implies (#[trigger] objects.take(
        i,
    )[k]).spec_fits(layout) by {
        assert(objects.take(i)[k] == objects[k]);
    }
    lemma_objects_bytes_len(objects.take(i), layout, sequential, profile);
    lemma_object_bytes_len(objects[i], layout, !sequential || i == 0, profile);
    lemma_objects_bytes_step(objects, i, layout, sequential, profile);
    lemma_objects_bytes_prefix(objects, layout, sequential, profile, i + 1);
    assert(front.len() == start);
    assert(ob.len() == len);
    assert(next == front + ob);
    assert(next.subrange(start, start + len) =~= ob);
    assert(all.subrange(start, start + len) =~= all.subrange(0, next.len() as int).subrange(
        start,
        start + len,
    ));
}

/// The first byte of a cause field gives back the cause's flags and code.
proof fn lemma_cause_byte(cause: Cause)
    requires
        cause.code < 64,
    ensures
        ((cause.spec_byte() / 64) % 2 == 1) == cause.test,
        (cause.spec_byte() / 128 == 1) == cause.negative,
        cause.spec_byte() % 64 == cause.code,
{
}

/// A header that was written is read back as it was.
proof fn lemma_header_round_trip(asdu: AsduView, profile: Profile, s: Seq<u8>)
    requires
        asdu.type_id.spec_valid(),
        asdu.cause.spec_valid(profile),
        asdu.common_address < profile.common_address_limit(),
        0 <= asdu.count() <= 127,
        asdu.header_bytes(profile).len() <= s.len(),
        s.subrange(0, asdu.header_bytes(profile).len() as int) == asdu.header_bytes(profile),
    ensures
        asdu.header_bytes(profile).len() == profile.spec_header_len(),
        TypeId::spec_from_code(s[0]) == asdu.type_id,
        (s[1] / 128 == 1) == asdu.sequential,
        s[1] % 128 == asdu.count(),
        Cause::spec_read(profile, s, 2) == asdu.cause,
        common_address_at(profile, s, 2 + profile.spec_cause_len()) == asdu.common_address,
{
    let h = asdu.header_bytes(profile);
    let n = h.len() as int;
    let cb = asdu.cause.spec_bytes();
    let ab = common_address_bytes(asdu.common_address, profile);
    let c = cb.len() as int;
    assert(c == profile.spec_cause_len());
    assert(n == 2 + c + ab.len());
    assert forall|k: int| 0 <= k < n implies s[k] == h[k] by {
        assert(s.subrange(0, n)[k] == s[k]);
    }
    assert(s[0] == h[0] && s[1] == h[1] && s[2] == h[2]);
    assert(h[0] == asdu.type_id.spec_code());
    assert(h[1] == qualifier_byte(asdu.sequential, asdu.count()));
    assert(h[2] == cb[0]);
    lemma_type_code_round_trip(asdu.type_id, s[0]);
    lemma_cause_byte(asdu.cause);
    if c == 2 {
        assert(s[3] == h[3]);
        assert(h[3] == cb[1]);
    }
    assert(s[2 + c] == h[2 + c]);
    assert(h[2 + c] == ab[0]);
    if ab.len() == 2 {
        assert(s[3 + c] == h[3 + c]);
        assert(h[3 + c] == ab[1]);
    }
}

/// An ASDU that was written is read back as it was, and takes the bytes
/// that its length announces.
pub proof fn law_asdu_round_trip(asdu: AsduView, profile: Profile)
    requires
        asdu.valid(profile),
    ensures
        asdu.bytes(profile).len() == asdu.encoded_len(profile),
        decode_asdu_spec(asdu.bytes(profile), profile) == Ok::<AsduView, AsduError>(asdu),
{
    let s = asdu.bytes(profile);
    let h = asdu.header_bytes(profile);
    let b = asdu.body_bytes(profile);
    let header = profile.spec_header_len() as int;
    assert(s.subrange(0, h.len() as int) =~= h);
    lemma_header_round_trip(asdu, profile, s);
    match asdu.body {
        BodyView::Raw { count, bytes } => {
            assert(s.skip(header) =~= bytes);
        },
        BodyView::Objects(objects) => {
            let layout = asdu.type_id.spec_layout()->0;
            let sequential = asdu.sequential;
            let n = objects.len() as int;
            lemma_objects_bytes_len(objects, layout, sequential, profile);
            assert(b.len() == objects_len(layout, sequential, n, profile));
            assert(s.subrange(header, s.len() as int) =~= b);
            let decoded = objects_at(layout, sequential, n, profile, s, header);
            assert forall|i: int| 0 <= i < n implies decoded[i] == objects[i] by {
                lemma_object_round_trip(objects, layout, sequential, profile, s, header, i);
            }
            assert(decoded =~= objects);
        },
    }
}

/// Object `i` of a run of objects that was written is read back as it was.
proof fn lemma_object_round_trip(
    objects: Seq<InformationObject>,
    layout: Layout,
    sequential: bool,
    profile: Profile,
    s: Seq<u8>,
    base: int,
    i: int,
)
    requires
        0 <= i < objects.len() <= 127,
        0 <= base,
        forall|k: int| 0 <= k < objects.len() ==> (#[trigger] objects[k]).spec_fits(layout),
        AsduView::addresses_valid(objects, sequential, profile),
        s.len() == base + objects_bytes(objects, layout, sequential, profile).len(),
        s.subrange(base, s.len() as int) == objects_bytes(objects, layout, sequential, profile),
    ensures
        object_at(layout, sequential, profile, s, base, i) == objects[i],
{
    let all = objects_bytes(objects, layout, sequential, profile);
    let e = layout.spec_element_len() as int;
    let a = profile.spec_object_address_len() as int;
    lemma_element_len(layout);
    // The bytes of object i, and where they stand in s.
    let with_address = !sequential || i == 0;
    let start = objects_offset(layout, sequential, i, profile);
    let len = object_len(layout, with_address, profile);
    let o = objects[i];
    let ob = object_bytes(o, layout, with_address, profile);
    lemma_object_position(objects, layout, sequential, profile, i);
    lemma_object_bytes_len(o, layout, with_address, profile);
    lemma_offset_step(layout, sequential, profile, base, i);
    assert(s.subrange(base + start, base + start + len) =~= all.subrange(start, start + len));
    let at = element_offset(layout, sequential, profile, base, i);
    assert(at + e == base + start + len);
    assert(s.subrange(at, at + e) =~= o.spec_element_bytes(layout)) by {
        assert(s.subrange(at, at + e) =~= ob.subrange(len - e, len));
        assert(ob.subrange(len - e, len) =~= o.spec_element_bytes(layout));
    }
    lemma_element_round_trip(o, layout, s, at);
    // The address of object i.
    if sequential {
        let first = objects[0];
        let fb = object_bytes(first, layout, true, profile);
        lemma_object_position(objects, layout, sequential, profile, 0);
        lemma_object_bytes_len(first, layout, true, profile);
        assert(all.subrange(0, a + e) == fb);
        assert(s.subrange(base, base + a) =~= address_bytes(first.address, profile)) by {
            assert(s.subrange(base, base + a) =~= all.subrange(0, a + e).subrange(0, a));
            assert(fb.subrange(0, a) =~= address_bytes(first.address, profile));
        }
        lemma_address_round_trip(first.address, profile, s, base);
        assert(o.address == first.address + i);
        assert(object_address_at(layout, sequential, profile, s, base, i) == o.address);
    } else {
        assert(s.subrange(at - a, at) =~= address_bytes(o.address, profile)) by {
            assert(s.subrange(at - a, at) =~= ob.subrange(0, a));
            assert(ob.subrange(0, a) =~= address_bytes(o.address, profile));
        }
        lemma_address_round_trip(o.address, profile, s, at - a);
        assert(object_address_at(layout, sequential, profile, s, base, i) == o.address);
    }
}

/// Decoding what was encoded gives back the frame.
///
/// For every frame that can be written, the bytes of the frame, with
/// whatever follows them in the buffer, decode to that frame, and exactly
/// the bytes of the frame are taken.
pub proof fn law_frame_round_trip(apdu: ApduView, profile: Profile, rest: Seq<u8>)
    requires
        apdu.valid(profile),
    ensures
        apdu.bytes(profile).len() == apdu.length(profile) + 2,
        decode_frame_spec(apdu.bytes(profile) + rest, profile) == (OutcomeView::Decoded {
            apdu,
            consumed: apdu.bytes(profile).len() as int,
        }),
{
    let frame = apdu.bytes(profile);
    let s = frame + rest;
    let control = apdu.apci.control_field();
    lemma_control_round_trip(apdu.apci);
    match apdu.asdu {
        Some(asdu) => {
            law_asdu_round_trip(asdu, profile);
            let body = asdu.bytes(profile);
            assert(frame.len() == 6 + body.len());
            assert(s[0] == frame[0] && s[1] == frame[1]);
            assert(s[2] == control[0] && s[3] == control[1] && s[4] == control[2] && s[5]
                == control[3]) by {
                assert(s[2] == frame[2] && s[3] == frame[3] && s[4] == frame[4] && s[5]
                    == frame[5]);
            }
            assert(s[1] == 4 + body.len());
            assert(s.subrange(6, s[1] + 2) =~= body);
        },
        None => {
            assert(frame.len() == 6);
            assert(s[0] == frame[0] && s[1] == frame[1]);
            assert(s[2] == control[0] && s[3] == control[1] && s[4] == control[2] && s[5]
                == control[3]) by {
                assert(s[2] == frame[2] && s[3] == frame[3] && s[4] == frame[4] && s[5]
                    == frame[5]);
            }
        },
    }
}

/// A frame that is not all there is incomplete.
///
/// Where the front of `s` decodes to a frame, every shorter front of it is
/// incomplete: never malformed, and never another frame.
pub proof fn law_prefix_is_incomplete(s: Seq<u8>, profile: Profile, k: int)
    requires
        decode_frame_spec(s, profile) is Decoded,
        0 <= k < decode_frame_spec(s, profile)->consumed,
    ensures
        decode_frame_spec(s.take(k), profile) == OutcomeView::Incomplete,
{
    let t = s.take(k);
    if k >= 2 {
        assert(t[0] == s[0] && t[1] == s[1]);
    }
}

/// A decoded frame takes the two bytes of marker and length and the bytes
/// that its length byte announces, all of which are in the buffer.
pub proof fn law_length_fidelity(s: Seq<u8>, profile: Profile)
    requires
        decode_frame_spec(s, profile) is Decoded,
    ensures
        s.len() >= 2,
        decode_frame_spec(s, profile)->consumed == s[1] + 2,
        6 <= decode_frame_spec(s, profile)->consumed <= s.len(),
{
}

/// With sequential addressing the region holds one address and then the
/// elements, and the addresses of the objects follow the first one by one.
pub proof fn law_sequential_addressing(s: Seq<u8>, profile: Profile)
    requires
        decode_asdu_spec(s, profile) is Ok,
        decode_asdu_spec(s, profile)->Ok_0.sequential,
        decode_asdu_spec(s, profile)->Ok_0.body is Objects,
    ensures
        ({
            let asdu = decode_asdu_spec(s, profile)->Ok_0;
            let objects = asdu.body->Objects_0;
            let layout = asdu.type_id.spec_layout()->0;
            let header = profile.spec_header_len() as int;
            &&& asdu.type_id.spec_layout() is Some
            &&& objects.len() == s[1] % 128
            &&& s.len() - header == profile.spec_object_address_len() + objects.len()
                * layout.spec_element_len()
            &&& objects[0].address == address_at(profile, s, header)
            &&& forall|i: int|
                0 <= i < objects.len() ==> (#[trigger] objects[i]).address == objects[0].address
                    + i
        }),
{
    let asdu = decode_asdu_spec(s, profile)->Ok_0;
    let objects = asdu.body->Objects_0;
    let layout = asdu.type_id.spec_layout()->0;
    let header = profile.spec_header_len() as int;
    let n = (s[1] % 128) as int;
    reveal(objects_len);
    assert(address_at(profile, s, header) < 0x100_0000);
    assert forall|i: int| 0 <= i < objects.len() implies (#[trigger] objects[i]).address
        == objects[0].address + i by {
        assert(objects[i] == object_at(layout, true, profile, s, header, i));
        assert(objects[0] == object_at(layout, true, profile, s, header, 0));
    }
    assert(objects[0] == object_at(layout, true, profile, s, header, 0));
}

/// Without sequential addressing the region holds an address and an
/// element for each object, and each object has the address that stands
/// before its own element.
pub proof fn law_individual_addressing(s: Seq<u8>, profile: Profile)
    requires
        decode_asdu_spec(s, profile) is Ok,
        !decode_asdu_spec(s, profile)->Ok_0.sequential,
        decode_asdu_spec(s, profile)->Ok_0.body is Objects,
    ensures
        ({
            let asdu = decode_asdu_spec(s, profile)->Ok_0;
            let objects = asdu.body->Objects_0;
            let layout = asdu.type_id.spec_layout()->0;
            let header = profile.spec_header_len() as int;
            let stride = profile.spec_object_address_len() + layout.spec_element_len();
            &&& asdu.type_id.spec_layout() is Some
            &&& objects.len() == s[1] % 128
            &&& s.len() - header == objects.len() * stride
            &&& forall|i: int|
                0 <= i < objects.len() ==> (#[trigger] objects[i]).address == address_at(
                    profile,
                    s,
                    header + i * stride,
                )
        }),
{
    let asdu = decode_asdu_spec(s, profile)->Ok_0;
    let objects = asdu.body->Objects_0;
    let layout = asdu.type_id.spec_layout()->0;
    let header = profile.spec_header_len() as int;
    reveal(objects_len);
    assert forall|i: int| 0 <= i < objects.len() implies (#[trigger] objects[i]).address
        == address_at(
        profile,
        s,
        header + i * (profile.spec_object_address_len() + layout.spec_element_len()),
    ) by {
        assert(objects[i] == object_at(layout, false, profile, s, header, i));
        lemma_offset_step(layout, false, profile, header, i);
    }
}

/// A frame of an unknown type decodes, and keeps what follows its header.
///
/// Where the front of `s` is a whole information frame whose ASDU region
/// holds at least a header, and the type byte is one that the layout table
/// has no row for, the frame decodes: its type is `Unknown` with that
/// byte, its header is read as any header is, and the bytes after the
/// header are kept as they are.
pub proof fn law_unknown_type_is_kept(s: Seq<u8>, profile: Profile)
    requires
        s.len() >= 2,
        s[0] == START_BYTE,
        4 + profile.spec_header_len() <= s[1] <= 253,
        s.len() >= s[1] + 2,
        s[2] % 2 == 0,
        TypeId::spec_from_code(s[6]).spec_layout() is None,
    ensures
        decode_frame_spec(s, profile) == (OutcomeView::Decoded {
            apdu: ApduView {
                apci: Apci::spec_from_control(s[2], s[3], s[4], s[5])->0,
                asdu: Some(
                    AsduView {
                        type_id: TypeId::Unknown(s[6]),
                        sequential: s[7] / 128 == 1,
                        cause: Cause::spec_read(profile, s, 8),
                        common_address: common_address_at(
                            profile,
                            s,
                            8 + profile.spec_cause_len(),
                        ),
                        body: BodyView::Raw {
                            count: s[7] % 128,
                            bytes: s.subrange(6 + profile.spec_header_len(), s[1] + 2),
                        },
                    },
                ),
            },
            consumed: s[1] + 2,
        }),
{
    let region = s.subrange(6, s[1] + 2);
    let header = profile.spec_header_len() as int;
    assert(region.len() == s[1] - 4);
    assert(region[0] == s[6] && region[1] == s[7] && region[2] == s[8] && region[3] == s[9]);
    if header >= 5 {
        assert(region[4] == s[10]);
    }
    if header >= 6 {
        assert(region[5] == s[11]);
    }
    assert(region.skip(header) =~= s.subrange(6 + header, s[1] + 2));
}

/// Whatever is decoded from a region that fits a frame can be written, and
/// takes as many bytes as the region has.
pub proof fn law_decoded_asdu_is_valid(s: Seq<u8>, profile: Profile)
    requires
        decode_asdu_spec(s, profile) is Ok,
        s.len() <= MAX_ASDU_LEN,
    ensures
        decode_asdu_spec(s, profile)->Ok_0.valid(profile),
        decode_asdu_spec(s, profile)->Ok_0.encoded_len(profile) == s.len(),
{
    let asdu = decode_asdu_spec(s, profile)->Ok_0;
    let header = profile.spec_header_len() as int;
    lemma_type_code_round_trip(asdu.type_id, s[0]);
    match asdu.body {
        BodyView::Raw { count, bytes } => {},
        BodyView::Objects(objects) => {
            let layout = asdu.type_id.spec_layout()->0;
            let n = objects.len() as int;
            assert(n == s[1] % 128);
            assert forall|i: int| 0 <= i < objects.len() implies (#[trigger] objects[i]).spec_fits(
                layout,
            ) by {
                assert(objects[i] == object_at(layout, asdu.sequential, profile, s, header, i));
                lemma_read_element_fits(
                    layout,
                    object_address_at(layout, asdu.sequential, profile, s, header, i),
                    s,
                    element_offset(layout, asdu.sequential, profile, header, i),
                );
            }
            if asdu.sequential {
                law_sequential_addressing(s, profile);
                assert(AsduView::addresses_valid(objects, true, profile));
            } else {
                assert forall|i: int| 0 <= i < objects.len() implies (#[trigger] objects[i]).address
                    < profile.object_address_limit() by {
                    assert(objects[i] == object_at(layout, false, profile, s, header, i));
                }
                assert(AsduView::addresses_valid(objects, false, profile));
            }
        },
    }
}

/// Whatever frame is decoded can be written. Its length byte is then the
/// one that was read, unless the frame is a supervisory or unnumbered one
/// that came with bytes behind its control field: those are not kept.
pub proof fn law_decoded_frame_is_valid(s: Seq<u8>, profile: Profile)
    requires
        decode_frame_spec(s, profile) is Decoded,
    ensures
        decode_frame_spec(s, profile)->apdu.valid(profile),
        decode_frame_spec(s, profile)->apdu.apci is Information || s[1] == 4 ==> decode_frame_spec(
            s,
            profile,
        )->apdu.length(profile) == s[1],
{
    lemma_control_read_is_valid(s[2], s[3], s[4], s[5]);
    let apdu = decode_frame_spec(s, profile)->apdu;
    if apdu.asdu is Some {
        law_decoded_asdu_is_valid(s.subrange(6, s[1] + 2), profile);
    }
}

/// A decoded frame, written again and decoded again, is the same frame.
pub proof fn law_decoding_is_stable(s: Seq<u8>, profile: Profile)
    requires
        decode_frame_spec(s, profile) is Decoded,
    ensures
        decode_frame_spec(decode_frame_spec(s, profile)->apdu.bytes(profile), profile) is Decoded,
        decode_frame_spec(
            decode_frame_spec(s, profile)->apdu.bytes(profile),
            profile,
        )->apdu == decode_frame_spec(s, profile)->apdu,
{
    let apdu = decode_frame_spec(s, profile)->apdu;
    law_decoded_frame_is_valid(s, profile);
    law_frame_round_trip(apdu, profile, Seq::empty());
    assert(apdu.bytes(profile) + Seq::<u8>::empty() =~= apdu.bytes(profile));
}

/// An encoded frame that lost bytes at its end is incomplete.
///
/// For every frame that can be written, every strict prefix of its bytes
/// decodes to `Incomplete`: a frame cut short is never taken for another
/// frame, nor for a malformed one.
pub proof fn law_truncated_encoding_is_incomplete(apdu: ApduView, profile: Profile, k: int)
    requires
        apdu.valid(profile),
        0 <= k < apdu.bytes(profile).len(),
    ensures
        decode_frame_spec(apdu.bytes(profile).take(k), profile) == OutcomeView::Incomplete,
{
    let frame = apdu.bytes(profile);
    law_frame_round_trip(apdu, profile, Seq::empty());
    assert(frame + Seq::<u8>::empty() =~= frame);
    law_prefix_is_incomplete(frame, profile, k);
}

/// Two frames with the same bytes are the same frame.
pub proof fn law_encoding_is_injective(a: ApduView, b: ApduView, profile: Profile)
    requires
        a.valid(profile),
        b.valid(profile),
        a.bytes(profile) == b.bytes(profile),
    ensures
        a == b,
{
    law_frame_round_trip(a, profile, Seq::empty());
    law_frame_round_trip(b, profile, Seq::empty());
}

/// Re-encoding what was decoded from an encoder's bytes gives those bytes.
///
/// Where the front of `s` is the encoding of a frame, the frame that is
/// decoded from `s` encodes to exactly the bytes that were taken.
pub proof fn law_reencoding_is_exact(apdu: ApduView, profile: Profile, rest: Seq<u8>)
    requires
        apdu.valid(profile),
    ensures
        ({
            let s = apdu.bytes(profile) + rest;
            let out = decode_frame_spec(s, profile);
            out is Decoded && out->apdu.bytes(profile) == s.take(out->consumed)
        }),
{
    let frame = apdu.bytes(profile);
    law_frame_round_trip(apdu, profile, rest);
    assert((frame + rest).take(frame.len() as int) =~= frame);
}

/// The objects that were read from canonical bytes are written back as
/// those bytes.
proof fn lemma_objects_write_back(
    layout: Layout,
    sequential: bool,
    profile: Profile,
    s: Seq<u8>,
    base: int,
    m: int,
)
    requires
        0 <= m,
        0 <= base,
        base + objects_offset(layout, sequential, m, profile) <= s.len(),
        forall|i: int|
            0 <= i < m ==> InformationObject::element_is_canonical(
                layout,
                s,
                #[trigger] element_offset(layout, sequential, profile, base, i),
            ),
    ensures
        objects_bytes(objects_at(layout, sequential, m, profile, s, base), layout, sequential, profile)
            == s.subrange(base, base + objects_offset(layout, sequential, m, profile)),
    decreases m,
{
    let objects = objects_at(layout, sequential, m, profile, s, base);
    let all = objects_bytes(objects, layout, sequential, profile);
    if m == 0 {
        assert(all =~= s.subrange(base, base));
    } else {
        let i = m - 1;
        let a = profile.spec_object_address_len() as int;
        let e = layout.spec_element_len() as int;
        let with_address = !sequential || i == 0;
        lemma_element_len(layout);
        lemma_offset_step(layout, sequential, profile, base, i);
        let start = base + objects_offset(layout, sequential, i, profile);
        let end = base + objects_offset(layout, sequential, m, profile);
        let at = element_offset(layout, sequential, profile, base, i);
        assert(objects.drop_last() =~= objects_at(layout, sequential, i, profile, s, base));
        lemma_objects_write_back(layout, sequential, profile, s, base, i);
        let o = objects.last();
        assert(o == object_at(layout, sequential, profile, s, base, i));
        assert(InformationObject::element_is_canonical(layout, s, at));
        lemma_element_write_back(layout, o.address, s, at);
        reveal(object_bytes);
        let ob = object_bytes(o, layout, with_address, profile);
        if with_address {
            lemma_address_write_back(profile, s, start);
            assert(o.address == address_at(profile, s, start));
            assert(ob =~= s.subrange(start, end)) by {
                assert(s.subrange(start, start + a) + s.subrange(at, at + e) =~= s.subrange(
                    start,
                    end,
                ));
            }
        } else {
            assert(ob =~= s.subrange(start, end));
        }
        assert(all == objects_bytes(objects.drop_last(), layout, sequential, profile) + ob);
        assert(s.subrange(base, start) + s.subrange(start, end) =~= s.subrange(base, end));
    }
}

/// A header that was read is written back as the bytes it was read from.
proof fn lemma_header_write_back(s: Seq<u8>, profile: Profile)
    requires
        decode_asdu_spec(s, profile) is Ok,
    ensures
        decode_asdu_spec(s, profile)->Ok_0.header_bytes(profile) == s.subrange(
            0,
            profile.spec_header_len() as int,
        ),
{
    let asdu = decode_asdu_spec(s, profile)->Ok_0;
    let h = asdu.header_bytes(profile);
    let header = profile.spec_header_len() as int;
    let c = profile.spec_cause_len() as int;
    lemma_type_code_round_trip(asdu.type_id, s[0]);
    assert(asdu.count() == s[1] % 128);
    assert(qualifier_byte(asdu.sequential, asdu.count()) == s[1]);
    assert(asdu.cause.spec_byte() == s[2]);
    assert(asdu.cause.spec_bytes() =~= s.subrange(2, 2 + c));
    let ab = common_address_bytes(asdu.common_address, profile);
    assert(ab =~= s.subrange(2 + c, header)) by {
        if header - (2 + c) == 2 {
            lemma_u16_write_back(s[2 + c], s[3 + c]);
            let m = bytes16(u16_le(s[2 + c], s[3 + c]));
            assert(m[0] == s[2 + c] && m[1] == s[3 + c]);
        }
    }
    assert(seq![s[0], s[1]] =~= s.subrange(0, 2));
    assert(s.subrange(0, 2) + s.subrange(2, 2 + c) + s.subrange(2 + c, header) =~= s.subrange(
        0,
        header,
    ));
}

/// Writing back a canonical ASDU gives the bytes it was read from.
///
/// Where a region decodes and is canonical, the ASDU that it decodes to
/// encodes to exactly the region.
pub proof fn law_canonical_asdu_is_written_back(s: Seq<u8>, profile: Profile)
    requires
        decode_asdu_spec(s, profile) is Ok,
        asdu_is_canonical(s, profile),
    ensures
        decode_asdu_spec(s, profile)->Ok_0.bytes(profile) == s,
{
    let asdu = decode_asdu_spec(s, profile)->Ok_0;
    let header = profile.spec_header_len() as int;
    lemma_header_write_back(s, profile);
    match asdu.body {
        BodyView::Raw { count, bytes } => {
            assert(s.subrange(0, header) + s.skip(header) =~= s);
        },
        BodyView::Objects(objects) => {
            let layout = asdu.type_id.spec_layout()->0;
            let n = (s[1] % 128) as int;
            assert(s.len() == header + objects_offset(layout, asdu.sequential, n, profile));
            lemma_objects_write_back(layout, asdu.sequential, profile, s, header, n);
            assert(s.subrange(0, header) + s.subrange(header, s.len() as int) =~= s);
        },
    }
}

/// Writing back a canonical frame gives the bytes it was read from.
///
/// Where the front of `s` decodes to a frame and is canonical, the frame
/// encodes to exactly the bytes that were taken. A frame that is not
/// canonical decodes as well; the bits that decoding does not keep are
/// then clear in what is written back.
pub proof fn law_canonical_frame_is_written_back(s: Seq<u8>, profile: Profile)
    requires
        decode_frame_spec(s, profile) is Decoded,
        frame_is_canonical(s, profile),
    ensures
        decode_frame_spec(s, profile)->apdu.bytes(profile) == s.take(
            decode_frame_spec(s, profile)->consumed,
        ),
{
    let apdu = decode_frame_spec(s, profile)->apdu;
    let n = decode_frame_spec(s, profile)->consumed;
    lemma_control_write_back(s[2], s[3], s[4], s[5]);
    assert(apdu.apci.control_field() =~= s.subrange(2, 6));
    assert(seq![START_BYTE, s[1]] =~= s.subrange(0, 2));
    match apdu.asdu {
        Some(asdu) => {
            let region = s.subrange(6, n);
            law_canonical_asdu_is_written_back(region, profile);
            if region.len() <= MAX_ASDU_LEN {
                law_decoded_asdu_is_valid(region, profile);
            }
            assert(apdu.length(profile) == s[1]);
            assert(s.subrange(0, 2) + s.subrange(2, 6) + s.subrange(6, n) =~= s.take(n));
        },
        None => {
            assert(s.subrange(0, 2) + s.subrange(2, 6) =~= s.take(6));
            assert(apdu.bytes(profile) =~= s.take(6));
        },
    }
}

} // verus!
