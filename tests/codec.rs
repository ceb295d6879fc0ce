use vehicle_location::codec::{encode, Location};

fn pair_of(bytes: Vec<u8>) -> (f32, f32) {
    let loc = Location::from_bytes(bytes).expect("eight bytes decode");
    (f32::from_bits(loc.get_lng()), f32::from_bits(loc.get_lat()))
}

#[test]
fn encode_is_little_endian_longitude_first() {
    let bytes = encode(12.5f32.to_bits(), 45.25f32.to_bits());
    let mut expected = 12.5f32.to_le_bytes().to_vec();
    expected.extend_from_slice(&45.25f32.to_le_bytes());
    assert_eq!(bytes, expected);
    assert_eq!(encode(0x0403_0201, 0x0807_0605), vec![1, 2, 3, 4, 5, 6, 7, 8]);
}

#[test]
fn finite_pairs_round_trip() {
    for (lng, lat) in [(12.5f32, 45.25f32), (-180.0, -90.0), (0.0, -0.0), (f32::MIN_POSITIVE, f32::MAX)] {
        let (a, b) = pair_of(encode(lng.to_bits(), lat.to_bits()));
        assert_eq!(a.to_bits(), lng.to_bits());
        assert_eq!(b.to_bits(), lat.to_bits());
    }
}

#[test]
fn non_finite_values_keep_their_bits() {
    let nan = f32::from_bits(0x7fc0_1234);
    for (lng, lat) in [(nan, f32::INFINITY), (f32::NEG_INFINITY, f32::NAN)] {
        let (a, b) = pair_of(encode(lng.to_bits(), lat.to_bits()));
        assert_eq!(a.to_bits(), lng.to_bits());
        assert_eq!(b.to_bits(), lat.to_bits());
    }
}

#[test]
fn short_input_is_malformed() {
    for len in 0..8usize {
        let err = Location::from_bytes(vec![7u8; len]).unwrap_err();
        assert_eq!(err.message, "Malformed data");
    }
}

#[test]
fn trailing_bytes_are_ignored() {
    let mut bytes = encode(1.5f32.to_bits(), 2.5f32.to_bits());
    bytes.extend_from_slice(&[9, 9, 9]);
    assert_eq!(pair_of(bytes), (1.5, 2.5));
}

#[test]
fn set_lng_keeps_encoding_consistent() {
    let mut loc = Location::new(1.0f32.to_bits(), 2.0f32.to_bits());
    loc.set_lng(3.5f32.to_bits());
    assert_eq!(f32::from_bits(loc.get_lng()), 3.5);
    assert_eq!(pair_of(loc.as_bytes().clone()), (3.5, 2.0));
}

#[test]
fn set_lat_keeps_encoding_consistent() {
    let mut loc = Location::new(1.0f32.to_bits(), 2.0f32.to_bits());
    loc.set_lat((-7.25f32).to_bits());
    assert_eq!(f32::from_bits(loc.get_lat()), -7.25);
    assert_eq!(pair_of(loc.as_bytes().clone()), (1.0, -7.25));
}
