use ct3d::volume::{IVec3, Vec3Bits, Volume};
use ct3d::codec::{decode, parse_payload, payload_bytes};
use ct3d::float_bits::{f32_bits_to_u24, order_key, u24_to_f32_bits, F32_ONE_BITS, F32_ZERO_BITS};
use ct3d::textio::{assemble_volume, format_res_line, serialize_bytes, split_header, text_to_IVec3};

fn small_volume() -> Volume {
    // 2 x 3 x 4 cells, half-extents 0.75 on each axis.
    let radii = Vec3Bits {
        x: 0.75f32.to_bits(),
        y: 0.75f32.to_bits(),
        z: 0.75f32.to_bits(),
    };
    let res = IVec3 { x: 2, y: 3, z: 4 };
    let mut v = Volume::new(radii, res);
    let mut counter: f32 = 0.0;
    for z in 0..4 {
        for y in 0..3 {
            for x in 0..2 {
                v.set(IVec3 { x, y, z }, counter.to_bits());
                counter += 0.03125;
            }
        }
    }
    v
}

#[test]
fn constants_match_float_bits() {
    assert_eq!(F32_ONE_BITS, 1.0f32.to_bits());
    assert_eq!(F32_ZERO_BITS, 0.0f32.to_bits());
}

#[test]
fn integer_float_bits_match_hardware_casts() {
    for n in [0u32, 1, 2, 3, 7, 100, 128, 255, 4096, 16777215, 16777216] {
        assert_eq!(u24_to_f32_bits(n), (n as f32).to_bits(), "bits of {}", n);
        assert_eq!(f32_bits_to_u24((n as f32).to_bits()), Some(n));
    }
}

#[test]
fn non_integer_bits_are_rejected() {
    assert_eq!(f32_bits_to_u24(0.5f32.to_bits()), None);
    assert_eq!(f32_bits_to_u24(128.5f32.to_bits()), None);
    assert_eq!(f32_bits_to_u24((-3.0f32).to_bits()), None);
    assert_eq!(f32_bits_to_u24(f32::NAN.to_bits()), None);
    // 2^24 is the last exactly-stored count; 2^25 decodes but is out of range.
    assert_eq!(f32_bits_to_u24(33554432.0f32.to_bits()), None);
}

#[test]
fn order_key_follows_float_order() {
    let samples = [-10.0f32, -0.75, -0.25, 0.0, 0.25, 0.5, 1.0, 100.0];
    for a in samples {
        for b in samples {
            assert_eq!(
                order_key(a.to_bits()) < order_key(b.to_bits()),
                a < b,
                "order of {} and {}",
                a,
                b
            );
        }
    }
}

#[test]
fn volume_indexing_is_row_major_x_fastest() {
    let v = small_volume();
    // idx = z*resX*resY + y*resX + x, with the fill order used above.
    assert_eq!(v.get(IVec3 { x: 0, y: 0, z: 0 }), 0.0f32.to_bits());
    assert_eq!(v.get(IVec3 { x: 1, y: 0, z: 0 }), 0.03125f32.to_bits());
    assert_eq!(v.get(IVec3 { x: 0, y: 1, z: 0 }), 0.0625f32.to_bits());
    assert_eq!(v.get(IVec3 { x: 0, y: 0, z: 1 }), (6.0 * 0.03125f32).to_bits());
    assert_eq!(v.data.len(), 24);
}

#[test]
fn new_volume_is_zero_filled() {
    let v = Volume::new(
        Vec3Bits { x: 1.0f32.to_bits(), y: 1.0f32.to_bits(), z: 1.0f32.to_bits() },
        IVec3 { x: 3, y: 3, z: 3 },
    );
    assert_eq!(v.data.len(), 27);
    assert!(v.data.iter().all(|b| *b == 0.0f32.to_bits()));
}

#[test]
fn encode_layout_matches_wire_format() {
    let v = small_volume();
    let wire = v.encode();
    assert_eq!(wire.len(), 7 + 24);
    assert_eq!(wire[0], 1.0f32.to_bits());
    assert_eq!(wire[1], 0.75f32.to_bits());
    assert_eq!(wire[2], 0.75f32.to_bits());
    assert_eq!(wire[3], 0.75f32.to_bits());
    assert_eq!(wire[4], 2.0f32.to_bits());
    assert_eq!(wire[5], 3.0f32.to_bits());
    assert_eq!(wire[6], 4.0f32.to_bits());
    assert_eq!(&wire[7..], &v.data[..]);
}

#[test]
fn decode_inverts_encode() {
    let v = small_volume();
    let wire = v.encode();
    let back = decode(&wire).expect("decode of a valid encoding");
    assert_eq!(back.radii, v.radii);
    assert_eq!(back.res, v.res);
    assert_eq!(back.data, v.data);
}

#[test]
fn decode_rejects_malformed_buffers() {
    let v = small_volume();
    let wire = v.encode();
    // Too short.
    assert!(decode(&wire[..5].to_vec()).is_none());
    // Disabled flag.
    let mut disabled = wire.clone();
    disabled[0] = 0.0f32.to_bits();
    assert!(decode(&disabled).is_none());
    // Density length not matching the resolution product.
    let mut truncated = wire.clone();
    truncated.pop();
    assert!(decode(&truncated).is_none());
    // Fractional resolution.
    let mut frac = wire.clone();
    frac[4] = 2.5f32.to_bits();
    assert!(decode(&frac).is_none());
}

#[test]
fn payload_bytes_are_native_endian_floats() {
    let v = small_volume();
    let bytes = payload_bytes(&v.data);
    assert_eq!(bytes.len(), 4 * v.data.len());
    let mut expected: Vec<u8> = Vec::new();
    for w in v.data.iter() {
        expected.extend_from_slice(&f32::from_bits(*w).to_ne_bytes());
    }
    assert_eq!(bytes, expected);
}

#[test]
fn parse_payload_roundtrips_and_checks_width() {
    let v = small_volume();
    let bytes = payload_bytes(&v.data);
    let words = parse_payload(&bytes).expect("whole number of samples");
    assert_eq!(words, v.data);
    let mut odd = bytes.clone();
    odd.push(0);
    assert!(parse_payload(&odd).is_err());
}

#[test]
fn text_to_ivec3_accepts_three_numbers() {
    let r = text_to_IVec3(&b"128 128 128".to_vec()).expect("three numbers");
    assert_eq!(r, IVec3 { x: 128, y: 128, z: 128 });
    let r = text_to_IVec3(&b" 12\t13  14 \n".to_vec()).expect("extra whitespace is fine");
    assert_eq!(r, IVec3 { x: 12, y: 13, z: 14 });
}

#[test]
fn text_to_ivec3_rejects_malformed_lines() {
    assert!(text_to_IVec3(&b"".to_vec()).is_err());
    assert!(text_to_IVec3(&b"1 2".to_vec()).is_err());
    assert!(text_to_IVec3(&b"1 2 3 4".to_vec()).is_err());
    assert!(text_to_IVec3(&b"a b c".to_vec()).is_err());
    assert!(text_to_IVec3(&b"1 2 c".to_vec()).is_err());
    assert!(text_to_IVec3(&b"1 2 99999999999".to_vec()).is_err());
    assert!(text_to_IVec3(&b"-1 2 3".to_vec()).is_err());
}

#[test]
fn format_res_line_is_plain_decimal() {
    assert_eq!(format_res_line(IVec3 { x: 128, y: 7, z: 40 }), b"128 7 40".to_vec());
    assert_eq!(format_res_line(IVec3 { x: 0, y: 1, z: 10 }), b"0 1 10".to_vec());
}

#[test]
fn split_header_takes_first_two_lines() {
    let parts = split_header(&b"a b\nc d\npayload\nwith newline".to_vec()).expect("two lines");
    assert_eq!(parts.0, b"a b".to_vec());
    assert_eq!(parts.1, b"c d".to_vec());
    assert_eq!(parts.2, b"payload\nwith newline".to_vec());
    assert!(split_header(&b"only one line\n".to_vec()).is_none());
    assert!(split_header(&b"no newline at all".to_vec()).is_none());
}

#[test]
fn serialize_then_deserialize_reproduces_volume() {
    // The same steps the application takes around the library: float
    // header text formatted and parsed with the standard library, all
    // framing and payload work done by verified code.
    let v = small_volume();
    let rx = f32::from_bits(v.radii.x);
    let ry = f32::from_bits(v.radii.y);
    let rz = f32::from_bits(v.radii.z);
    let radii_line = format!("{} {} {}", rx, ry, rz).into_bytes();
    let file = serialize_bytes(&v, &radii_line);

    let parts = split_header(&file).expect("two header lines");
    let line1 = String::from_utf8(parts.0).expect("ascii header");
    let floats: Vec<f32> = line1
        .split_whitespace()
        .map(|t| t.parse::<f32>().expect("float token"))
        .collect();
    assert_eq!(floats.len(), 3);
    let radii = Vec3Bits {
        x: floats[0].to_bits(),
        y: floats[1].to_bits(),
        z: floats[2].to_bits(),
    };
    let back = assemble_volume(radii, &parts.1, &parts.2).expect("valid file");
    assert_eq!(back.radii, v.radii);
    assert_eq!(back.res, v.res);
    assert_eq!(back.data, v.data);
}

#[test]
fn assemble_volume_rejects_bad_pieces() {
    let v = small_volume();
    let payload = payload_bytes(&v.data);
    let radii = v.radii;
    // Count not matching the payload.
    assert!(assemble_volume(radii, &b"2 3 5".to_vec(), &payload).is_err());
    // Zero count.
    assert!(assemble_volume(radii, &b"0 3 4".to_vec(), &payload).is_err());
    // Count beyond the exactly-encodable range.
    assert!(assemble_volume(radii, &b"2 3 16777217".to_vec(), &payload).is_err());
    // Payload not a whole number of samples.
    let mut odd = payload.clone();
    odd.push(0);
    assert!(assemble_volume(radii, &b"2 3 4".to_vec(), &odd).is_err());
    // Good pieces still pass.
    assert!(assemble_volume(radii, &b"2 3 4".to_vec(), &payload).is_ok());
}

#[test]
fn serialize_bytes_exact_layout() {
    let mut v = Volume::new(
        Vec3Bits { x: 0.5f32.to_bits(), y: 0.5f32.to_bits(), z: 0.5f32.to_bits() },
        IVec3 { x: 1, y: 1, z: 1 },
    );
    v.set(IVec3 { x: 0, y: 0, z: 0 }, 1.0f32.to_bits());
    let file = serialize_bytes(&v, &b"0.5 0.5 0.5".to_vec());
    let mut expected = b"0.5 0.5 0.5\n1 1 1\n".to_vec();
    expected.extend_from_slice(&1.0f32.to_ne_bytes());
    assert_eq!(file, expected);
}

#[test]
fn normalize_range_finds_extremes() {
    let v = small_volume();
    let (mn, mx) = v.normalize_range().expect("non-constant volume");
    assert_eq!(mn, 0.0f32.to_bits());
    assert_eq!(mx, (23.0 * 0.03125f32).to_bits());
}

#[test]
fn normalize_range_guards_constant_volumes() {
    let mut v = Volume::new(
        Vec3Bits { x: 1.0f32.to_bits(), y: 1.0f32.to_bits(), z: 1.0f32.to_bits() },
        IVec3 { x: 2, y: 2, z: 2 },
    );
    assert!(v.normalize_range().is_none());
    // One differing sample is enough to lift the guard.
    v.set(IVec3 { x: 1, y: 1, z: 1 }, 0.5f32.to_bits());
    let (mn, mx) = v.normalize_range().expect("two distinct values");
    assert_eq!(mn, 0.0f32.to_bits());
    assert_eq!(mx, 0.5f32.to_bits());
}

#[test]
fn normalize_range_orders_negative_values() {
    let mut v = Volume::new(
        Vec3Bits { x: 1.0f32.to_bits(), y: 1.0f32.to_bits(), z: 1.0f32.to_bits() },
        IVec3 { x: 2, y: 1, z: 1 },
    );
    v.set(IVec3 { x: 0, y: 0, z: 0 }, (-2.5f32).to_bits());
    v.set(IVec3 { x: 1, y: 0, z: 0 }, (-7.25f32).to_bits());
    let (mn, mx) = v.normalize_range().expect("distinct values");
    assert_eq!(mn, (-7.25f32).to_bits());
    assert_eq!(mx, (-2.5f32).to_bits());
}
