use iec104_codec::apci::Apci;
use iec104_codec::asdu::{read_common_address, write_common_address, Cause};
use iec104_codec::object::{read_address, write_address, InformationObject};
use iec104_codec::payload::Payload;
use iec104_codec::primitive::{
    append_bytes, read_i16, read_i32, read_u16, read_u32, write_i16, write_i32, write_u16,
    write_u32, CommandQualifier, DoubleState,
};
use iec104_codec::profile::Profile;
use iec104_codec::time::{Cp24, Cp56, TimeClass, Timestamp};
use iec104_codec::type_id::{Category, Layout};

#[test]
fn integers_are_little_endian() {
    let buf = [0xAA, 0x34, 0x12, 0xFF, 0xFF, 0xFF, 0x7F, 0x00, 0x80];
    assert_eq!(read_u16(&buf, 1), 0x1234);
    assert_eq!(read_i16(&buf, 1), 0x1234);
    assert_eq!(read_i16(&buf, 3), -1);
    assert_eq!(read_i16(&buf, 7), -32768);
    assert_eq!(read_u32(&buf, 3), 0x7FFF_FFFF);
    assert_eq!(read_i32(&buf, 3), i32::MAX);
    assert_eq!(read_u32(&buf, 5), 0x8000_7FFF);
    assert_eq!(read_i32(&buf, 5), 0x8000_7FFFu32 as i32);

    let mut out = vec![0xEE];
    write_u16(0x1234, &mut out);
    write_i16(-2, &mut out);
    write_u32(0x0102_0304, &mut out);
    write_i32(i32::MIN, &mut out);
    write_i32(-1, &mut out);
    assert_eq!(
        out,
        vec![
            0xEE, 0x34, 0x12, 0xFE, 0xFF, 0x04, 0x03, 0x02, 0x01, 0x00, 0x00, 0x00, 0x80, 0xFF,
            0xFF, 0xFF, 0xFF
        ]
    );
    append_bytes(&mut out, &[1, 2, 3]);
    assert_eq!(&out[17..], &[1, 2, 3]);
}

#[test]
fn every_16_bit_value_comes_back() {
    for v in i16::MIN..=i16::MAX {
        let mut out = Vec::new();
        write_i16(v, &mut out);
        assert_eq!(out, v.to_le_bytes().to_vec());
        assert_eq!(read_i16(&out, 0), v);
    }
}

#[test]
fn control_fields() {
    assert_eq!(
        Apci::from_control(0x58, 0x02, 0xFE, 0xFF),
        Some(Apci::Information { send_seq: 300, recv_seq: 32767 })
    );
    // Bit 0 of the third byte is not part of the receive sequence number.
    assert_eq!(
        Apci::from_control(0x00, 0x00, 0x07, 0x00),
        Some(Apci::Information { send_seq: 0, recv_seq: 3 })
    );
    // The high bits of a supervisory frame's first two bytes are not looked at.
    assert_eq!(
        Apci::from_control(0xFD, 0xFF, 0x06, 0x00),
        Some(Apci::Supervisory { recv_seq: 3 })
    );
    assert_eq!(Apci::from_control(0xFF, 0x00, 0x00, 0x00), None);
    assert_eq!(Apci::from_control(0x03, 0x00, 0x00, 0x00), None);
    assert!(Apci::Information { send_seq: 32767, recv_seq: 32767 }.valid());
    assert!(!Apci::Information { send_seq: 32767, recv_seq: 32768 }.valid());
    assert!(!Apci::Supervisory { recv_seq: 65535 }.valid());
    assert!(Apci::Information { send_seq: 0, recv_seq: 0 }.is_information());
    assert!(!Apci::Supervisory { recv_seq: 0 }.is_information());
    let mut out = Vec::new();
    Apci::Information { send_seq: 129, recv_seq: 1 }.write_control(&mut out);
    assert_eq!(out, vec![0x02, 0x01, 0x02, 0x00]);
}

#[test]
fn time_tags() {
    let short = Cp24 { millis: 59999, minute: 30, invalid: true };
    let mut out = Vec::new();
    short.write(&mut out);
    assert_eq!(out, vec![0x5F, 0xEA, 0x9E]);
    assert_eq!(Cp24::read(&out, 0), short);
    assert!(short.valid());
    assert!(!Cp24 { minute: 64, ..short }.valid());

    let long = Cp56 {
        millis: 1,
        minute: 2,
        invalid: false,
        hour: 3,
        summer_time: false,
        day: 4,
        weekday: 5,
        month: 6,
        year: 7,
    };
    let mut out = vec![0xAA];
    long.write(&mut out);
    assert_eq!(out, vec![0xAA, 0x01, 0x00, 0x02, 0x03, 0xA4, 0x06, 0x07]);
    assert_eq!(Cp56::read(&out, 1), long);
    assert!(long.valid());
    assert!(!Cp56 { hour: 32, ..long }.valid());
    assert!(!Cp56 { day: 32, ..long }.valid());
    assert!(!Cp56 { weekday: 8, ..long }.valid());
    assert!(!Cp56 { month: 16, ..long }.valid());
    assert!(!Cp56 { year: 128, ..long }.valid());
    assert!(!Cp56 { minute: 64, ..long }.valid());

    assert_eq!(Timestamp::read(TimeClass::Untagged, &out, 0), Timestamp::Untagged);
    assert_eq!(Timestamp::read(TimeClass::Long, &out, 1), Timestamp::Long(long));
    assert_eq!(
        Timestamp::read(TimeClass::Short, &out, 1),
        Timestamp::Short(Cp24 { millis: 1, minute: 2, invalid: false })
    );
    assert_eq!(Timestamp::Long(long).class(), TimeClass::Long);
    assert_eq!((TimeClass::Untagged.len(), TimeClass::Short.len(), TimeClass::Long.len()), (0, 3, 7));
    let mut out = Vec::new();
    Timestamp::Untagged.write(&mut out);
    assert!(out.is_empty());
    assert!(Timestamp::Untagged.valid());
}

#[test]
fn cause_of_transmission() {
    let wide = Profile::standard();
    let narrow = Profile::new(1, 2, 3).unwrap();
    // Bit 7 is the negative flag, bit 6 the test flag.
    assert_eq!(
        Cause::read(&wide, &[0x87, 0x2A], 0),
        Cause { test: false, negative: true, code: 7, originator: Some(0x2A) }
    );
    assert_eq!(
        Cause::read(&narrow, &[0x47, 0x2A], 0),
        Cause { test: true, negative: false, code: 7, originator: None }
    );
    let mut out = Vec::new();
    Cause { test: true, negative: true, code: 47, originator: Some(9) }.write(&mut out);
    Cause { test: false, negative: false, code: 1, originator: None }.write(&mut out);
    assert_eq!(out, vec![0xEF, 0x09, 0x01]);
    assert!(Cause { test: false, negative: false, code: 63, originator: Some(0) }.valid(wide));
    assert!(!Cause { test: false, negative: false, code: 64, originator: Some(0) }.valid(wide));
    assert!(!Cause { test: false, negative: false, code: 1, originator: Some(0) }.valid(narrow));
}

#[test]
fn addresses() {
    let one = Profile::new(1, 1, 1).unwrap();
    let two = Profile::new(1, 2, 2).unwrap();
    let three = Profile::standard();
    let buf = [0x01, 0x02, 0x03, 0x04];
    assert_eq!(read_address(&one, &buf, 1), 0x02);
    assert_eq!(read_address(&two, &buf, 1), 0x0302);
    assert_eq!(read_address(&three, &buf, 1), 0x040302);
    assert_eq!(read_common_address(&one, &buf, 2), 0x03);
    assert_eq!(read_common_address(&two, &buf, 2), 0x0403);
    let mut out = Vec::new();
    write_address(0xFF, &one, &mut out);
    write_address(0xABCD, &two, &mut out);
    write_address(0x123456, &three, &mut out);
    write_common_address(0x7F, &one, &mut out);
    write_common_address(0xFFFE, &two, &mut out);
    assert_eq!(out, vec![0xFF, 0xCD, 0xAB, 0x56, 0x34, 0x12, 0x7F, 0xFE, 0xFF]);
}

#[test]
fn elements() {
    let layout = Layout { category: Category::DoubleCommand, quality: false, time: TimeClass::Short };
    assert_eq!(layout.value_len(), 1);
    assert_eq!(layout.element_len(), 4);
    let o = InformationObject::read_element(layout, 77, &[0x00, 0xFD, 0x10, 0x27, 0x05], 1);
    let expected = InformationObject {
        address: 77,
        payload: Payload::DoubleCommand {
            state: DoubleState::Off,
            qualifier: CommandQualifier { select: true, code: 31 },
        },
        timestamp: Timestamp::Short(Cp24 { millis: 10000, minute: 5, invalid: false }),
    };
    assert_eq!(o, expected);
    assert!(o.fits(layout));
    assert!(!o.fits(Layout { time: TimeClass::Long, ..layout }));
    assert!(!o.fits(Layout { category: Category::SingleCommand, ..layout }));
    let mut out = Vec::new();
    o.write_element(layout, &mut out);
    assert_eq!(out, vec![0xFD, 0x10, 0x27, 0x05]);
    assert_eq!(
        Payload::read(Category::Float, false, &[0x00, 0x00, 0x80, 0x3F], 0),
        Payload::Float {
            bits: 1.0f32.to_bits(),
            quality: iec104_codec::primitive::Quality::good(),
        }
    );
    assert!(!Payload::DoubleCommand {
        state: DoubleState::Off,
        qualifier: CommandQualifier { select: false, code: 32 }
    }
    .valid(false));
    assert!(!Payload::SingleCommand { value: true, qualifier: CommandQualifier { select: false, code: 64 } }
        .valid(false));
    assert!(!Payload::SetpointScaled { value: 0, qualifier: CommandQualifier { select: false, code: 128 } }
        .valid(false));
    assert!(!Payload::IntegratedTotal {
        counter: 0,
        sequence: 32,
        carry: false,
        adjusted: false,
        invalid: false
    }
    .valid(true));
    assert_eq!(DoubleState::from_low_bits(0xFE), DoubleState::On);
    assert_eq!(DoubleState::Indeterminate1.value(), 3);
    for c in [Category::Normalized, Category::Scaled] {
        assert_eq!((c.value_len(true), c.value_len(false)), (3, 2));
    }
    assert_eq!((Category::Float.value_len(true), Category::Float.value_len(false)), (5, 4));
}
