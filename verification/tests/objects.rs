use iec104_codec::asdu::{decode_asdu, Asdu, AsduBody, Cause};
use iec104_codec::error::AsduError;
use iec104_codec::object::InformationObject;
use iec104_codec::payload::Payload;
use iec104_codec::primitive::{CommandQualifier, DoubleState, Quality};
use iec104_codec::profile::Profile;
use iec104_codec::time::{Cp24, Cp56, TimeClass, Timestamp};
use iec104_codec::type_id::{Category, Layout, TypeId};

fn good() -> Quality {
    Quality { overflow: false, blocked: false, substituted: false, not_topical: false, invalid: false }
}

fn cause(code: u8) -> Cause {
    Cause { test: false, negative: false, code, originator: Some(0) }
}

/// One object of `type_id` at address 0x030201 under the standard profile,
/// and the bytes of its element.
fn check(type_id: TypeId, payload: Payload, timestamp: Timestamp, element: &[u8]) {
    let profile = Profile::standard();
    let asdu = Asdu {
        type_id,
        sequential: false,
        cause: cause(3),
        common_address: 0x0102,
        body: AsduBody::Objects(vec![InformationObject { address: 0x030201, payload, timestamp }]),
    };
    let mut bytes = vec![type_id.code(), 0x01, 0x03, 0x00, 0x02, 0x01, 0x01, 0x02, 0x03];
    bytes.extend_from_slice(element);
    assert_eq!(asdu.encode(&profile), Some(bytes.clone()));
    assert_eq!(decode_asdu(&bytes, &profile), Ok(asdu.clone()));
    assert_eq!(asdu.encoded_len(&profile), bytes.len());
    let layout = type_id.layout().unwrap();
    assert_eq!(layout.element_len(), element.len());
    assert_eq!(layout.category, payload.category());
    assert_eq!(layout.time, timestamp.class());
    // One byte less, or one more, is not this ASDU.
    assert_eq!(decode_asdu(&bytes[..bytes.len() - 1], &profile), Err(AsduError::Truncated));
    bytes.push(0);
    assert_eq!(decode_asdu(&bytes, &profile), Err(AsduError::Truncated));
}

fn short_tag() -> (Timestamp, [u8; 3]) {
    (Timestamp::Short(Cp24 { millis: 59999, minute: 30, invalid: true }), [0x5F, 0xEA, 0x9E])
}

fn long_tag() -> (Timestamp, [u8; 7]) {
    (
        Timestamp::Long(Cp56 {
            millis: 0x1234,
            minute: 59,
            invalid: false,
            hour: 23,
            summer_time: true,
            day: 31,
            weekday: 7,
            month: 12,
            year: 99,
        }),
        [0x34, 0x12, 0x3B, 0x97, 0xFF, 0x0C, 0x63],
    )
}

fn with_tag(value: &[u8], tag: &[u8]) -> Vec<u8> {
    let mut v = value.to_vec();
    v.extend_from_slice(tag);
    v
}

#[test]
fn single_point_layouts() {
    let on_blocked = Payload::SinglePoint { value: true, quality: Quality { blocked: true, ..good() } };
    check(TypeId::M_SP_NA_1, on_blocked, Timestamp::Untagged, &[0x11]);
    let (t, tb) = short_tag();
    check(TypeId::M_SP_TA_1, on_blocked, t, &with_tag(&[0x11], &tb));
    let (t, tb) = long_tag();
    check(TypeId::M_SP_TB_1, on_blocked, t, &with_tag(&[0x11], &tb));
    let off_invalid =
        Payload::SinglePoint { value: false, quality: Quality { invalid: true, ..good() } };
    check(TypeId::M_SP_NA_1, off_invalid, Timestamp::Untagged, &[0x80]);
}

#[test]
fn double_point_layouts() {
    let states = [
        (DoubleState::Indeterminate0, 0u8),
        (DoubleState::Off, 1),
        (DoubleState::On, 2),
        (DoubleState::Indeterminate1, 3),
    ];
    for (state, bits) in states {
        let p = Payload::DoublePoint {
            state,
            quality: Quality { substituted: true, not_topical: true, ..good() },
        };
        check(TypeId::M_DP_NA_1, p, Timestamp::Untagged, &[0x60 + bits]);
        let (t, tb) = short_tag();
        check(TypeId::M_DP_TA_1, p, t, &with_tag(&[0x60 + bits], &tb));
        let (t, tb) = long_tag();
        check(TypeId::M_DP_TB_1, p, t, &with_tag(&[0x60 + bits], &tb));
    }
}

#[test]
fn normalized_value_layouts() {
    let p = Payload::Normalized { value: -32768, quality: Quality { overflow: true, ..good() } };
    check(TypeId::M_ME_NA_1, p, Timestamp::Untagged, &[0x00, 0x80, 0x01]);
    let (t, tb) = short_tag();
    check(TypeId::M_ME_TA_1, p, t, &with_tag(&[0x00, 0x80, 0x01], &tb));
    let (t, tb) = long_tag();
    check(TypeId::M_ME_TD_1, p, t, &with_tag(&[0x00, 0x80, 0x01], &tb));
    let bare = Payload::Normalized { value: 16384, quality: good() };
    check(TypeId::M_ME_ND_1, bare, Timestamp::Untagged, &[0x00, 0x40]);
}

#[test]
fn normalized_value_stands_for_a_fraction_of_32768() {
    let bytes = [0x09, 0x01, 0x03, 0x00, 0x01, 0x00, 0x01, 0x00, 0x00, 0x00, 0xC0, 0x00];
    let asdu = decode_asdu(&bytes, &Profile::standard()).unwrap();
    let objects = asdu.objects_of(Category::Normalized).unwrap();
    match objects[0].payload {
        Payload::Normalized { value, .. } => {
            assert_eq!(value, -16384);
            assert_eq!(value as f64 / 32768.0, -0.5);
        },
        _ => panic!("not a normalized value"),
    }
}

#[test]
fn scaled_value_layouts() {
    let p = Payload::Scaled { value: -300, quality: Quality { overflow: true, ..good() } };
    check(TypeId::M_ME_NB_1, p, Timestamp::Untagged, &[0xD4, 0xFE, 0x01]);
    let (t, tb) = short_tag();
    check(TypeId::M_ME_TB_1, p, t, &with_tag(&[0xD4, 0xFE, 0x01], &tb));
    let (t, tb) = long_tag();
    check(TypeId::M_ME_TE_1, p, t, &with_tag(&[0xD4, 0xFE, 0x01], &tb));
    let max = Payload::Scaled { value: 32767, quality: good() };
    check(TypeId::M_ME_NB_1, max, Timestamp::Untagged, &[0xFF, 0x7F, 0x00]);
}

#[test]
fn float_value_layouts() {
    let p = Payload::Float { bits: (-2.5f32).to_bits(), quality: Quality { invalid: true, ..good() } };
    check(TypeId::M_ME_NC_1, p, Timestamp::Untagged, &[0x00, 0x00, 0x20, 0xC0, 0x80]);
    let (t, tb) = short_tag();
    check(TypeId::M_ME_TC_1, p, t, &with_tag(&[0x00, 0x00, 0x20, 0xC0, 0x80], &tb));
    let (t, tb) = long_tag();
    check(TypeId::M_ME_TF_1, p, t, &with_tag(&[0x00, 0x00, 0x20, 0xC0, 0x80], &tb));
    let one = Payload::Float { bits: 1.0f32.to_bits(), quality: good() };
    check(TypeId::M_ME_NC_1, one, Timestamp::Untagged, &[0x00, 0x00, 0x80, 0x3F, 0x00]);
}

#[test]
fn integrated_total_layouts() {
    let p = Payload::IntegratedTotal {
        counter: -2,
        sequence: 5,
        carry: true,
        adjusted: false,
        invalid: true,
    };
    check(TypeId::M_IT_NA_1, p, Timestamp::Untagged, &[0xFE, 0xFF, 0xFF, 0xFF, 0xA5]);
    let (t, tb) = short_tag();
    check(TypeId::M_IT_TA_1, p, t, &with_tag(&[0xFE, 0xFF, 0xFF, 0xFF, 0xA5], &tb));
    let (t, tb) = long_tag();
    check(TypeId::M_IT_TB_1, p, t, &with_tag(&[0xFE, 0xFF, 0xFF, 0xFF, 0xA5], &tb));
    let q = Payload::IntegratedTotal {
        counter: i32::MIN,
        sequence: 31,
        carry: false,
        adjusted: true,
        invalid: false,
    };
    check(TypeId::M_IT_NA_1, q, Timestamp::Untagged, &[0x00, 0x00, 0x00, 0x80, 0x5F]);
}

#[test]
fn command_layouts() {
    let single = Payload::SingleCommand {
        value: true,
        qualifier: CommandQualifier { select: true, code: 1 },
    };
    check(TypeId::C_SC_NA_1, single, Timestamp::Untagged, &[0x83]);
    let (t, tb) = short_tag();
    check(TypeId::C_SC_TA_1, single, t, &with_tag(&[0x83], &tb));
    let double = Payload::DoubleCommand {
        state: DoubleState::On,
        qualifier: CommandQualifier { select: false, code: 3 },
    };
    check(TypeId::C_DC_NA_1, double, Timestamp::Untagged, &[0x0E]);
    let (t, tb) = short_tag();
    check(TypeId::C_DC_TA_1, double, t, &with_tag(&[0x0E], &tb));
    let widest = Payload::SingleCommand {
        value: false,
        qualifier: CommandQualifier { select: false, code: 63 },
    };
    check(TypeId::C_SC_NA_1, widest, Timestamp::Untagged, &[0x7E]);
    let widest = Payload::DoubleCommand {
        state: DoubleState::Indeterminate1,
        qualifier: CommandQualifier { select: true, code: 31 },
    };
    check(TypeId::C_DC_NA_1, widest, Timestamp::Untagged, &[0xFF]);
}

#[test]
fn setpoint_layouts() {
    let q = CommandQualifier { select: true, code: 5 };
    let (t, tb) = short_tag();
    let normalized = Payload::SetpointNormalized { value: 1000, qualifier: q };
    check(TypeId::C_SE_NA_1, normalized, Timestamp::Untagged, &[0xE8, 0x03, 0x85]);
    check(TypeId::C_SE_TA_1, normalized, t, &with_tag(&[0xE8, 0x03, 0x85], &tb));
    let scaled = Payload::SetpointScaled { value: -1, qualifier: q };
    check(TypeId::C_SE_NB_1, scaled, Timestamp::Untagged, &[0xFF, 0xFF, 0x85]);
    check(TypeId::C_SE_TB_1, scaled, t, &with_tag(&[0xFF, 0xFF, 0x85], &tb));
    let float = Payload::SetpointFloat { bits: 0.5f32.to_bits(), qualifier: q };
    check(TypeId::C_SE_NC_1, float, Timestamp::Untagged, &[0x00, 0x00, 0x00, 0x3F, 0x85]);
    check(TypeId::C_SE_TC_1, float, t, &with_tag(&[0x00, 0x00, 0x00, 0x3F, 0x85], &tb));
    let widest =
        Payload::SetpointScaled { value: 0, qualifier: CommandQualifier { select: false, code: 127 } };
    check(TypeId::C_SE_NB_1, widest, Timestamp::Untagged, &[0x00, 0x00, 0x7F]);
}

#[test]
fn bitstring_command_layouts() {
    let p = Payload::Bitstring32Command { bits: 0xDEADBEEF };
    check(TypeId::C_BO_NA_1, p, Timestamp::Untagged, &[0xEF, 0xBE, 0xAD, 0xDE]);
    let (t, tb) = short_tag();
    check(TypeId::C_BO_TA_1, p, t, &with_tag(&[0xEF, 0xBE, 0xAD, 0xDE], &tb));
}

#[test]
fn one_byte_layouts() {
    check(TypeId::C_IC_NA_1, Payload::Interrogation { qualifier: 20 }, Timestamp::Untagged, &[20]);
    check(
        TypeId::C_CI_NA_1,
        Payload::CounterInterrogation { qualifier: 5 },
        Timestamp::Untagged,
        &[5],
    );
    check(TypeId::C_RP_NA_1, Payload::ResetProcess { qualifier: 1 }, Timestamp::Untagged, &[1]);
    check(TypeId::M_EI_NA_1, Payload::EndOfInit { cause: 0x82 }, Timestamp::Untagged, &[0x82]);
}

#[test]
fn type_codes_and_rows() {
    let known: [(TypeId, u8); 35] = [
        (TypeId::M_SP_NA_1, 1),
        (TypeId::M_SP_TA_1, 2),
        (TypeId::M_DP_NA_1, 3),
        (TypeId::M_DP_TA_1, 4),
        (TypeId::M_ME_NA_1, 9),
        (TypeId::M_ME_TA_1, 10),
        (TypeId::M_ME_NB_1, 11),
        (TypeId::M_ME_TB_1, 12),
        (TypeId::M_ME_NC_1, 13),
        (TypeId::M_ME_TC_1, 14),
        (TypeId::M_IT_NA_1, 15),
        (TypeId::M_IT_TA_1, 16),
        (TypeId::M_ME_ND_1, 21),
        (TypeId::M_SP_TB_1, 30),
        (TypeId::M_DP_TB_1, 31),
        (TypeId::M_ME_TD_1, 34),
        (TypeId::M_ME_TE_1, 35),
        (TypeId::M_ME_TF_1, 36),
        (TypeId::M_IT_TB_1, 37),
        (TypeId::C_SC_NA_1, 45),
        (TypeId::C_DC_NA_1, 46),
        (TypeId::C_SE_NA_1, 48),
        (TypeId::C_SE_NB_1, 49),
        (TypeId::C_SE_NC_1, 50),
        (TypeId::C_BO_NA_1, 51),
        (TypeId::C_SC_TA_1, 58),
        (TypeId::C_DC_TA_1, 59),
        (TypeId::C_SE_TA_1, 61),
        (TypeId::C_SE_TB_1, 62),
        (TypeId::C_SE_TC_1, 63),
        (TypeId::C_BO_TA_1, 64),
        (TypeId::M_EI_NA_1, 70),
        (TypeId::C_IC_NA_1, 100),
        (TypeId::C_CI_NA_1, 101),
        (TypeId::C_RP_NA_1, 105),
    ];
    let mut seen = 0;
    for b in 0u16..256 {
        let b = b as u8;
        let t = TypeId::from_code(b);
        assert_eq!(t.code(), b);
        assert!(t.valid());
        match known.iter().find(|(_, code)| *code == b) {
            Some((expected, _)) => {
                assert_eq!(t, *expected);
                assert!(t.layout().is_some());
                seen += 1;
            },
            None => {
                assert_eq!(t, TypeId::Unknown(b));
                assert_eq!(t.layout(), None);
            },
        }
    }
    assert_eq!(seen, 35);
    assert!(!TypeId::Unknown(1).valid());
    assert!(TypeId::Unknown(5).valid());
    assert_eq!(
        TypeId::M_ME_ND_1.layout(),
        Some(Layout { category: Category::Normalized, quality: false, time: TimeClass::Untagged })
    );
    assert_eq!(
        TypeId::M_IT_TB_1.layout(),
        Some(Layout { category: Category::IntegratedTotal, quality: true, time: TimeClass::Long })
    );
}

#[test]
fn quality_bytes() {
    let all = Quality {
        overflow: true,
        blocked: true,
        substituted: true,
        not_topical: true,
        invalid: true,
    };
    assert_eq!(all.byte(), 0xF1);
    assert_eq!(good().byte(), 0x00);
    assert_eq!(Quality::from_byte(0xFF), all);
    assert_eq!(Quality::from_byte(0x0E), good());
    assert_eq!(Quality::from_byte(0x20), Quality { substituted: true, ..good() });
    assert_eq!(Quality::from_high_bits(0xFF), Quality { overflow: false, ..all });
    assert_eq!(Quality::good(), good());
    assert!(good().is_good());
    assert!(!all.is_good());
}

#[test]
fn bits_that_a_layout_does_not_use_are_dropped() {
    // A single point with the three reserved bits set, and a short time
    // tag with its reserved bit set.
    let bytes = [
        0x02, 0x01, 0x03, 0x00, 0x01, 0x00, 0x01, 0x00, 0x00, 0x1F, 0x10, 0x27, 0x7F,
    ];
    let asdu = decode_asdu(&bytes, &Profile::standard()).unwrap();
    assert_eq!(
        asdu.body,
        AsduBody::Objects(vec![InformationObject {
            address: 1,
            payload: Payload::SinglePoint {
                value: true,
                quality: Quality { blocked: true, ..good() },
            },
            timestamp: Timestamp::Short(Cp24 { millis: 10000, minute: 63, invalid: false }),
        }])
    );
    // Written back, the bits that were dropped are clear.
    assert_eq!(
        asdu.encode(&Profile::standard()),
        Some(vec![0x02, 0x01, 0x03, 0x00, 0x01, 0x00, 0x01, 0x00, 0x00, 0x11, 0x10, 0x27, 0x3F])
    );
}
