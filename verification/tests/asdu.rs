use iec104_codec::apci::{Apci, UFunction};
use iec104_codec::asdu::{decode_asdu, Asdu, AsduBody, Cause};
use iec104_codec::error::{AsduError, FrameError};
use iec104_codec::frame::{decode_frame, encode_frame, Apdu, DecodeOutcome};
use iec104_codec::object::InformationObject;
use iec104_codec::payload::Payload;
use iec104_codec::primitive::Quality;
use iec104_codec::profile::{CauseWidth, CommonAddressWidth, ObjectAddressWidth, Profile};
use iec104_codec::time::{Cp24, Timestamp};
use iec104_codec::type_id::{Category, TypeId};

fn good() -> Quality {
    Quality { overflow: false, blocked: false, substituted: false, not_topical: false, invalid: false }
}

fn float(address: u32, value: f32, quality: Quality) -> InformationObject {
    InformationObject {
        address,
        payload: Payload::Float { bits: value.to_bits(), quality },
        timestamp: Timestamp::Untagged,
    }
}

fn point(address: u32, value: bool) -> InformationObject {
    InformationObject {
        address,
        payload: Payload::SinglePoint { value, quality: good() },
        timestamp: Timestamp::Untagged,
    }
}

fn information(asdu: Asdu) -> Apdu {
    Apdu { apci: Apci::Information { send_seq: 0, recv_seq: 0 }, asdu: Some(asdu) }
}

#[test]
fn sequential_addressing_sends_one_address() {
    let profile = Profile::standard();
    let bytes = [
        0x0D, 0x82, 0x14, 0x00, 0x01, 0x00, // M_ME_NC_1, sequential, 2 objects
        0x10, 0x00, 0x00, // the first address
        0x00, 0x00, 0x80, 0x3F, 0x00, // 1.0
        0x00, 0x00, 0x20, 0xC0, 0x80, // -2.5, invalid
    ];
    let asdu = decode_asdu(&bytes, &profile).unwrap();
    assert_eq!(asdu.type_id, TypeId::M_ME_NC_1);
    assert!(asdu.sequential);
    assert_eq!(asdu.object_count(), 2);
    assert_eq!(asdu.cause, Cause { test: false, negative: false, code: 20, originator: Some(0) });
    assert_eq!(asdu.common_address, 1);
    assert_eq!(
        asdu.body,
        AsduBody::Objects(vec![
            float(16, 1.0, good()),
            float(17, -2.5, Quality { invalid: true, ..good() }),
        ])
    );
    // One address of 3 bytes and 2 elements of 5 bytes behind a header of 6.
    assert_eq!(bytes.len() - profile.header_len(), 3 + 2 * 5);
    assert_eq!(asdu.encoded_len(&profile), bytes.len());
    assert_eq!(asdu.encode(&profile), Some(bytes.to_vec()));
}

#[test]
fn sequential_addresses_count_up_from_the_first() {
    let profile = Profile::standard();
    let mut bytes = vec![0x01, 0x80 + 100, 0x03, 0x00, 0x01, 0x00, 0xFE, 0xFF, 0xFF];
    for i in 0..100u32 {
        bytes.push((i % 2) as u8);
    }
    let asdu = decode_asdu(&bytes, &profile).unwrap();
    match &asdu.body {
        AsduBody::Objects(objects) => {
            assert_eq!(objects.len(), 100);
            for (i, o) in objects.iter().enumerate() {
                assert_eq!(o.address, 0xFFFFFE + i as u32);
                assert_eq!(
                    o.payload,
                    Payload::SinglePoint { value: i % 2 == 1, quality: good() }
                );
            }
        },
        _ => panic!("no objects"),
    }
    assert_eq!(asdu.encode(&profile), Some(bytes));
}

#[test]
fn individual_addressing_sends_every_address() {
    let profile = Profile::standard();
    let bytes = [
        0x0D, 0x02, 0x14, 0x00, 0x01, 0x00, // M_ME_NC_1, 2 objects
        0x10, 0x00, 0x00, 0x00, 0x00, 0x80, 0x3F, 0x00, // address 16: 1.0
        0x03, 0x02, 0x01, 0x00, 0x00, 0x20, 0xC0, 0x80, // address 0x010203: -2.5, invalid
    ];
    let asdu = decode_asdu(&bytes, &profile).unwrap();
    assert!(!asdu.sequential);
    assert_eq!(
        asdu.body,
        AsduBody::Objects(vec![
            float(16, 1.0, good()),
            float(0x010203, -2.5, Quality { invalid: true, ..good() }),
        ])
    );
    assert_eq!(bytes.len() - profile.header_len(), 2 * (3 + 5));
    assert_eq!(asdu.encode(&profile), Some(bytes.to_vec()));
}

#[test]
fn header_shorter_than_the_profile_asks_is_truncated() {
    let profile = Profile::standard();
    let bytes = [0x01, 0x01, 0x03, 0x00, 0x01, 0x00, 0x01, 0x00, 0x00, 0x01];
    assert!(decode_asdu(&bytes, &profile).is_ok());
    for n in 0..6 {
        assert_eq!(decode_asdu(&bytes[..n], &profile), Err(AsduError::Truncated));
    }
    // With one-byte fields the same six bytes are a whole ASDU.
    let narrow = Profile::new(1, 1, 1).unwrap();
    assert_eq!(narrow.header_len(), 4);
    assert!(decode_asdu(&[0x01, 0x01, 0x03, 0x01, 0x07, 0x01], &narrow).is_ok());
    assert_eq!(decode_asdu(&[0x01, 0x01, 0x03], &narrow), Err(AsduError::Truncated));
}

#[test]
fn zero_objects_is_an_error() {
    let profile = Profile::standard();
    assert_eq!(
        decode_asdu(&[0x01, 0x00, 0x03, 0x00, 0x01, 0x00], &profile),
        Err(AsduError::ZeroObjects)
    );
    assert_eq!(
        decode_asdu(&[0x01, 0x80, 0x03, 0x00, 0x01, 0x00, 0x01, 0x00, 0x00, 0x01], &profile),
        Err(AsduError::ZeroObjects)
    );
    assert_eq!(
        decode_frame(
            &[0x68, 0x0A, 0x00, 0x00, 0x00, 0x00, 0x01, 0x00, 0x03, 0x00, 0x01, 0x00],
            &profile
        ),
        DecodeOutcome::Malformed(FrameError::Asdu(AsduError::ZeroObjects))
    );
}

#[test]
fn surplus_and_shortfall_are_truncated() {
    let profile = Profile::standard();
    let two = [
        0x01, 0x02, 0x03, 0x00, 0x01, 0x00, 0x01, 0x00, 0x00, 0x01, 0x02, 0x00, 0x00, 0x00,
    ];
    assert!(decode_asdu(&two, &profile).is_ok());
    assert_eq!(decode_asdu(&two[..13], &profile), Err(AsduError::Truncated));
    assert_eq!(decode_asdu(&two[..10], &profile), Err(AsduError::Truncated));
    let mut more = two.to_vec();
    more.push(0x00);
    assert_eq!(decode_asdu(&more, &profile), Err(AsduError::Truncated));
}

#[test]
fn unknown_type_keeps_its_bytes() {
    let profile = Profile::standard();
    let bytes = [
        0x68, 0x0F, 0x02, 0x00, 0x04, 0x00, // I-frame
        0x05, 0x81, 0x47, 0x09, 0x02, 0x01, // type 5, sequential, 1 object, test, cause 7
        0x01, 0x00, 0x00, 0xAA, 0xBB,
    ];
    let expected = Apdu {
        apci: Apci::Information { send_seq: 1, recv_seq: 2 },
        asdu: Some(Asdu {
            type_id: TypeId::Unknown(5),
            sequential: true,
            cause: Cause { test: true, negative: false, code: 7, originator: Some(9) },
            common_address: 0x0102,
            body: AsduBody::Raw { count: 1, bytes: vec![0x01, 0x00, 0x00, 0xAA, 0xBB] },
        }),
    };
    assert_eq!(
        decode_frame(&bytes, &profile),
        DecodeOutcome::Decoded { apdu: expected.clone(), consumed: 17 }
    );
    assert_eq!(encode_frame(&expected, &profile), Some(bytes.to_vec()));
    let asdu = expected.asdu.unwrap();
    assert_eq!(asdu.category(), None);
    assert_eq!(asdu.object_count(), 1);
    assert_eq!(asdu.objects_of(Category::SinglePoint), Err(AsduError::TypeMismatch));
}

#[test]
fn unknown_type_may_announce_no_object_and_hold_no_byte() {
    let profile = Profile::standard();
    let bytes = [0x68, 0x0A, 0x00, 0x00, 0x00, 0x00, 0xC8, 0x00, 0x8A, 0x00, 0x01, 0x00];
    let expected = Apdu {
        apci: Apci::Information { send_seq: 0, recv_seq: 0 },
        asdu: Some(Asdu {
            type_id: TypeId::Unknown(200),
            sequential: false,
            cause: Cause { test: false, negative: true, code: 10, originator: Some(0) },
            common_address: 1,
            body: AsduBody::Raw { count: 0, bytes: vec![] },
        }),
    };
    assert_eq!(
        decode_frame(&bytes, &profile),
        DecodeOutcome::Decoded { apdu: expected, consumed: 12 }
    );
}

#[test]
fn unknown_type_without_a_whole_header_is_truncated() {
    assert_eq!(
        decode_frame(&[0x68, 0x05, 0x00, 0x00, 0x00, 0x00, 0x2C], &Profile::standard()),
        DecodeOutcome::Malformed(FrameError::Asdu(AsduError::Truncated))
    );
}

#[test]
fn narrow_profile_round_trip() {
    let profile = Profile::new(1, 1, 1).unwrap();
    assert_eq!(
        profile,
        Profile {
            cause_width: CauseWidth::One,
            common_address_width: CommonAddressWidth::One,
            object_address_width: ObjectAddressWidth::One,
        }
    );
    let apdu = information(Asdu {
        type_id: TypeId::M_SP_NA_1,
        sequential: false,
        cause: Cause { test: false, negative: false, code: 3, originator: None },
        common_address: 7,
        body: AsduBody::Objects(vec![point(10, true), point(11, false)]),
    });
    let bytes = vec![
        0x68, 0x0C, 0x00, 0x00, 0x00, 0x00, 0x01, 0x02, 0x03, 0x07, 0x0A, 0x01, 0x0B, 0x00,
    ];
    assert_eq!(encode_frame(&apdu, &profile), Some(bytes.clone()));
    assert_eq!(decode_frame(&bytes, &profile), DecodeOutcome::Decoded { apdu, consumed: 14 });
}

#[test]
fn two_byte_object_addresses() {
    let profile = Profile::new(2, 2, 2).unwrap();
    let bytes = [0x01, 0x01, 0x03, 0x00, 0x01, 0x00, 0x34, 0x12, 0x01];
    let asdu = decode_asdu(&bytes, &profile).unwrap();
    assert_eq!(asdu.body, AsduBody::Objects(vec![point(0x1234, true)]));
    assert_eq!(asdu.encode(&profile), Some(bytes.to_vec()));
}

#[test]
fn profiles_outside_the_protocol_are_refused() {
    assert_eq!(Profile::new(0, 1, 1), None);
    assert_eq!(Profile::new(3, 1, 1), None);
    assert_eq!(Profile::new(1, 0, 1), None);
    assert_eq!(Profile::new(1, 3, 1), None);
    assert_eq!(Profile::new(1, 1, 0), None);
    assert_eq!(Profile::new(1, 1, 4), None);
    assert_eq!(Profile::new(2, 2, 3), Some(Profile::standard()));
    assert_eq!(Profile::default(), Profile::standard());
    let p = Profile::new(1, 2, 3).unwrap();
    assert_eq!((p.cause_len(), p.common_address_len(), p.object_address_len()), (1, 2, 3));
    assert_eq!(p.header_len(), 5);
    assert_eq!(p.object_address_bound(), 0x100_0000);
    assert_eq!(p.common_address_bound(), 0x1_0000);
}

#[test]
fn frames_that_cannot_be_written_are_refused() {
    let profile = Profile::standard();
    let base = Asdu {
        type_id: TypeId::M_SP_NA_1,
        sequential: false,
        cause: Cause { test: false, negative: false, code: 3, originator: Some(0) },
        common_address: 1,
        body: AsduBody::Objects(vec![point(1, true)]),
    };
    assert!(base.is_valid(&profile));
    assert!(encode_frame(&information(base.clone()), &profile).is_some());

    // A sequence number of more than 15 bits.
    let wide = Apdu { apci: Apci::Supervisory { recv_seq: 0x8000 }, asdu: None };
    assert_eq!(encode_frame(&wide, &profile), None);
    let wide = Apdu { apci: Apci::Information { send_seq: 0x8000, recv_seq: 0 }, asdu: None };
    assert_eq!(encode_frame(&wide, &profile), None);
    // An ASDU in a frame that is no information frame.
    let misplaced = Apdu { apci: Apci::Supervisory { recv_seq: 0 }, asdu: Some(base.clone()) };
    assert_eq!(encode_frame(&misplaced, &profile), None);
    let misplaced = Apdu {
        apci: Apci::Unnumbered { function: UFunction::StopDtAct },
        asdu: Some(base.clone()),
    };
    assert_eq!(encode_frame(&misplaced, &profile), None);
    // No object.
    let empty = Asdu { body: AsduBody::Objects(vec![]), ..base.clone() };
    assert_eq!(empty.encode(&profile), None);
    // A payload of another category than the type's.
    let other = Asdu { type_id: TypeId::M_DP_NA_1, ..base.clone() };
    assert_eq!(other.encode(&profile), None);
    // A time tag that the type does not carry, and one that is missing.
    let tagged = InformationObject {
        timestamp: Timestamp::Short(Cp24 { millis: 0, minute: 0, invalid: false }),
        ..point(1, true)
    };
    let with_tag = Asdu { body: AsduBody::Objects(vec![tagged]), ..base.clone() };
    assert_eq!(with_tag.encode(&profile), None);
    let without_tag = Asdu { type_id: TypeId::M_SP_TA_1, ..base.clone() };
    assert_eq!(without_tag.encode(&profile), None);
    let right_tag = Asdu { type_id: TypeId::M_SP_TA_1, ..with_tag.clone() };
    assert!(right_tag.encode(&profile).is_some());
    // A minute beyond 6 bits.
    let late = InformationObject {
        timestamp: Timestamp::Short(Cp24 { millis: 0, minute: 64, invalid: false }),
        ..point(1, true)
    };
    let late = Asdu { type_id: TypeId::M_SP_TA_1, body: AsduBody::Objects(vec![late]), ..base.clone() };
    assert_eq!(late.encode(&profile), None);
    // A point with the overflow flag.
    let overflow = InformationObject {
        payload: Payload::SinglePoint { value: true, quality: Quality { overflow: true, ..good() } },
        ..point(1, true)
    };
    let overflow = Asdu { body: AsduBody::Objects(vec![overflow]), ..base.clone() };
    assert_eq!(overflow.encode(&profile), None);
    // A cause beyond 6 bits, a missing originator, an originator too many.
    let cause = Asdu { cause: Cause { code: 64, ..base.cause }, ..base.clone() };
    assert_eq!(cause.encode(&profile), None);
    let cause = Asdu { cause: Cause { originator: None, ..base.cause }, ..base.clone() };
    assert_eq!(cause.encode(&profile), None);
    assert_eq!(base.encode(&Profile::new(1, 2, 3).unwrap()), None);
    // Addresses beyond their width.
    let far = Asdu { body: AsduBody::Objects(vec![point(0x100_0000, true)]), ..base.clone() };
    assert_eq!(far.encode(&profile), None);
    let far = Asdu { common_address: 0x100, ..base.clone() };
    assert_eq!(far.encode(&Profile::new(2, 1, 3).unwrap()), None);
    // Sequential addressing with addresses that do not follow each other.
    let gap = Asdu {
        sequential: true,
        body: AsduBody::Objects(vec![point(1, true), point(3, true)]),
        ..base.clone()
    };
    assert_eq!(gap.encode(&profile), None);
    let run = Asdu {
        sequential: true,
        body: AsduBody::Objects(vec![point(1, true), point(2, true)]),
        ..base.clone()
    };
    assert!(run.encode(&profile).is_some());
    // More objects than the qualifier can announce, or than fit a frame.
    let many = Asdu {
        sequential: true,
        body: AsduBody::Objects((0..128).map(|i| point(i, true)).collect()),
        ..base.clone()
    };
    assert_eq!(many.encode(&profile), None);
    let long = Asdu {
        body: AsduBody::Objects((0..61).map(|i| point(i, true)).collect()),
        ..base.clone()
    };
    assert_eq!(long.encode(&profile), None);
    let fits = Asdu {
        body: AsduBody::Objects((0..60).map(|i| point(i, true)).collect()),
        ..base.clone()
    };
    assert_eq!(fits.encoded_len(&profile), 246);
    assert!(fits.encode(&profile).is_some());
    // An unknown type under a known byte, raw bytes under a known type, and
    // objects under an unknown type.
    let raw = Asdu {
        type_id: TypeId::Unknown(1),
        body: AsduBody::Raw { count: 1, bytes: vec![] },
        ..base.clone()
    };
    assert_eq!(raw.encode(&profile), None);
    let raw = Asdu { body: AsduBody::Raw { count: 1, bytes: vec![] }, ..base.clone() };
    assert_eq!(raw.encode(&profile), None);
    let objects = Asdu { type_id: TypeId::Unknown(5), ..base.clone() };
    assert_eq!(objects.encode(&profile), None);
    let raw = Asdu {
        type_id: TypeId::Unknown(5),
        body: AsduBody::Raw { count: 128, bytes: vec![] },
        ..base.clone()
    };
    assert_eq!(raw.encode(&profile), None);
    let raw = Asdu {
        type_id: TypeId::Unknown(5),
        body: AsduBody::Raw { count: 127, bytes: vec![0; 243] },
        ..base.clone()
    };
    assert_eq!(raw.encode(&profile).map(|b| b.len()), Some(249));
    let raw = Asdu {
        type_id: TypeId::Unknown(5),
        body: AsduBody::Raw { count: 127, bytes: vec![0; 244] },
        ..base
    };
    assert_eq!(raw.encode(&profile), None);
}

#[test]
fn accessor_answers_by_category() {
    let profile = Profile::standard();
    let bytes = [
        0x01, 0x02, 0x03, 0x00, 0x01, 0x00, 0x01, 0x00, 0x00, 0x01, 0x02, 0x00, 0x00, 0x10,
    ];
    let asdu = decode_asdu(&bytes, &profile).unwrap();
    assert_eq!(asdu.category(), Some(Category::SinglePoint));
    let points = asdu.objects_of(Category::SinglePoint).unwrap();
    assert_eq!(points.len(), 2);
    assert_eq!(points[0], point(1, true));
    assert_eq!(
        points[1].payload,
        Payload::SinglePoint { value: false, quality: Quality { blocked: true, ..good() } }
    );
    assert_eq!(asdu.objects_of(Category::DoublePoint), Err(AsduError::TypeMismatch));
    assert_eq!(asdu.objects_of(Category::Float), Err(AsduError::TypeMismatch));
}

#[test]
fn accessor_leaves_out_payloads_of_other_categories() {
    let mixed = Asdu {
        type_id: TypeId::M_SP_NA_1,
        sequential: false,
        cause: Cause { test: false, negative: false, code: 3, originator: Some(0) },
        common_address: 1,
        body: AsduBody::Objects(vec![point(1, true), float(2, 1.0, good()), point(3, false)]),
    };
    assert_eq!(
        mixed.objects_of(Category::SinglePoint),
        Ok(vec![point(1, true), point(3, false)])
    );
    assert_eq!(mixed.objects_of(Category::Float), Err(AsduError::TypeMismatch));
    let raw = Asdu { body: AsduBody::Raw { count: 2, bytes: vec![1, 2] }, ..mixed };
    assert_eq!(raw.objects_of(Category::SinglePoint), Ok(vec![]));
}
