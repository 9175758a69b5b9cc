use iec104_codec::asdu::AsduBody;
use iec104_codec::frame::{decode_frame, encode_frame, DecodeOutcome};
use iec104_codec::profile::Profile;
use iec104_codec::type_id::TypeId;

/// A small deterministic generator, so that the same frames are tried on
/// every run.
struct Lcg(u64);

impl Lcg {
    fn next(&mut self) -> u8 {
        self.0 = self.0.wrapping_mul(6364136223846793005).wrapping_add(1442695040888963407);
        (self.0 >> 33) as u8
    }
}

fn profiles() -> Vec<Profile> {
    let mut all = Vec::new();
    for cause in 1..=2 {
        for common in 1..=2 {
            for object in 1..=3 {
                all.push(Profile::new(cause, common, object).unwrap());
            }
        }
    }
    all
}

/// An information frame of type `code` with `count` objects, whose header
/// fields and object bytes are drawn from `rng`.
fn random_frame(rng: &mut Lcg, profile: &Profile, code: u8, sequential: bool, count: u8) -> Vec<u8> {
    let layout = TypeId::from_code(code).layout();
    let body_len = match layout {
        Some(layout) => {
            if sequential {
                profile.object_address_len() + count as usize * layout.element_len()
            } else {
                count as usize * (profile.object_address_len() + layout.element_len())
            }
        },
        None => (rng.next() % 32) as usize,
    };
    let asdu_len = profile.header_len() + body_len;
    let mut frame = vec![0x68, (4 + asdu_len) as u8, rng.next() & 0xFE, rng.next(), rng.next(), rng.next()];
    frame.push(code);
    frame.push(count + if sequential { 0x80 } else { 0 });
    for _ in 2..asdu_len {
        frame.push(rng.next());
    }
    frame
}

#[test]
fn decoded_frames_encode_and_decode_to_themselves() {
    let mut rng = Lcg(104);
    let mut tried = 0;
    for profile in profiles() {
        for code in 0u16..256 {
            for sequential in [false, true] {
                for count in [1u8, 2, 7] {
                    let frame = random_frame(&mut rng, &profile, code as u8, sequential, count);
                    let (apdu, consumed) = match decode_frame(&frame, &profile) {
                        DecodeOutcome::Decoded { apdu, consumed } => (apdu, consumed),
                        other => panic!("type {}: {:?}", code, other),
                    };
                    assert_eq!(consumed, frame.len());
                    assert_eq!(consumed, frame[1] as usize + 2);
                    assert!(apdu.is_valid(&profile));
                    let asdu = apdu.asdu.as_ref().unwrap();
                    assert_eq!(asdu.type_id.code(), code as u8);
                    assert_eq!(asdu.object_count(), count as usize);
                    assert_eq!(asdu.encoded_len(&profile), frame.len() - 6);
                    match &asdu.body {
                        AsduBody::Objects(objects) => {
                            assert_eq!(objects.len(), count as usize);
                            if sequential {
                                for (i, o) in objects.iter().enumerate() {
                                    assert_eq!(o.address, objects[0].address + i as u32);
                                }
                            }
                        },
                        AsduBody::Raw { bytes, .. } => {
                            assert_eq!(&bytes[..], &frame[6 + profile.header_len()..]);
                        },
                    }
                    let again = encode_frame(&apdu, &profile).unwrap();
                    assert_eq!(again.len(), frame.len());
                    assert_eq!(
                        decode_frame(&again, &profile),
                        DecodeOutcome::Decoded { apdu: apdu.clone(), consumed }
                    );
                    // What the encoder wrote is what it writes again.
                    let (second, _) = match decode_frame(&again, &profile) {
                        DecodeOutcome::Decoded { apdu, consumed } => (apdu, consumed),
                        other => panic!("{:?}", other),
                    };
                    assert_eq!(encode_frame(&second, &profile), Some(again.clone()));
                    // Every strict prefix is incomplete.
                    for k in 0..again.len() {
                        assert_eq!(decode_frame(&again[..k], &profile), DecodeOutcome::Incomplete);
                    }
                    // Bytes behind the frame change nothing.
                    let mut longer = again.clone();
                    longer.extend_from_slice(&[rng.next(), rng.next(), rng.next()]);
                    assert_eq!(
                        decode_frame(&longer, &profile),
                        DecodeOutcome::Decoded { apdu, consumed }
                    );
                    tried += 1;
                }
            }
        }
    }
    assert_eq!(tried, 12 * 256 * 2 * 3);
}

#[test]
fn arbitrary_bytes_never_decode_beyond_their_length() {
    let mut rng = Lcg(60870);
    let profile = Profile::standard();
    for _ in 0..20000 {
        let len = (rng.next() % 40) as usize;
        let mut bytes: Vec<u8> = (0..len).map(|_| rng.next()).collect();
        if len > 0 && rng.next() % 4 != 0 {
            bytes[0] = 0x68;
        }
        if len > 1 && rng.next() % 2 == 0 {
            bytes[1] = 4 + rng.next() % 30;
        }
        match decode_frame(&bytes, &profile) {
            DecodeOutcome::Decoded { apdu, consumed } => {
                assert!(consumed <= bytes.len());
                assert_eq!(consumed, bytes[1] as usize + 2);
                assert!(apdu.is_valid(&profile));
                for k in 0..consumed {
                    assert_eq!(decode_frame(&bytes[..k], &profile), DecodeOutcome::Incomplete);
                }
            },
            DecodeOutcome::Incomplete => {
                assert!(bytes.len() < 2 || bytes.len() < bytes[1] as usize + 2);
            },
            DecodeOutcome::Malformed(_) => {},
        }
    }
}
