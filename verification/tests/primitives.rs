//! The primitive readers, against hand-assembled wire bytes.

use gob::errors::Error;
use gob::Deserializer;

/// Encodes an unsigned variable-length integer the canonical way.
fn uv(u: u64) -> Vec<u8> {
    if u < 128 {
        return vec![u as u8];
    }
    let mut b: Vec<u8> = u.to_be_bytes().to_vec();
    while b.len() > 1 && b[0] == 0 {
        b.remove(0);
    }
    let mut out = vec![(256 - b.len()) as u8];
    out.extend_from_slice(&b);
    out
}

/// Encodes a signed variable-length integer the canonical way.
fn vi(i: i64) -> Vec<u8> {
    let x = if i < 0 { (((!i) as u64) << 1) | 1 } else { (i as u64) << 1 };
    uv(x)
}

#[test]
fn u64_single_byte() {
    let mut de = Deserializer::new(vec![0x07]);
    assert_eq!(de.read_u64(), Ok(7));
}

#[test]
fn u64_one_following_byte() {
    // lead -1: one big-endian byte follows
    let mut de = Deserializer::new(vec![0xff, 0x96]);
    assert_eq!(de.read_u64(), Ok(150));
}

#[test]
fn u64_two_following_bytes() {
    // lead -2: two big-endian bytes follow
    let mut de = Deserializer::new(vec![0xfe, 0x01, 0x2c]);
    assert_eq!(de.read_u64(), Ok(300));
}

#[test]
fn u64_max() {
    let mut de = Deserializer::new(uv(u64::MAX));
    assert_eq!(de.read_u64(), Ok(u64::MAX));
}

#[test]
fn u64_empty_input_is_eof() {
    let mut de = Deserializer::new(vec![]);
    assert_eq!(de.read_u64(), Err(Error::UnexpectedEof));
}

#[test]
fn u64_nine_bytes_is_out_of_range() {
    // lead -9 claims nine following bytes
    let mut de = Deserializer::new(vec![0xf7, 1, 2, 3, 4, 5, 6, 7, 8, 9]);
    assert_eq!(de.read_u64(), Err(Error::NumOutOfRange));
}

#[test]
fn u64_truncated_is_eof() {
    let mut de = Deserializer::new(vec![0xfe, 0x01]);
    assert_eq!(de.read_u64(), Err(Error::UnexpectedEof));
}

#[test]
fn uvarint_round_trip_samples() {
    let samples: &[u64] = &[
        0,
        1,
        127,
        128,
        255,
        256,
        300,
        0xffff,
        0x10000,
        0xffff_ffff,
        0x1_0000_0000,
        u64::MAX - 1,
        u64::MAX,
    ];
    for &u in samples {
        let mut de = Deserializer::new(uv(u));
        assert_eq!(de.read_u64(), Ok(u));
    }
}

#[test]
fn varint_round_trip_samples() {
    let samples: &[i64] = &[0, -1, 1, 63, -64, 64, -65, 255, -256, i64::MAX, i64::MIN];
    for &i in samples {
        let mut de = Deserializer::new(vi(i));
        assert_eq!(de.read_i64(), Ok(i));
    }
}

#[test]
fn varint_sign_convention() {
    // the low bit of the carrier marks a bit-complemented value
    let mut de = Deserializer::new(vec![0x01]);
    assert_eq!(de.read_i64(), Ok(-1));
    let mut de = Deserializer::new(vec![0x02]);
    assert_eq!(de.read_i64(), Ok(1));
}

#[test]
fn bool_zero_and_nonzero() {
    let mut de = Deserializer::new(vec![0x00, 0x01, 0x02]);
    assert_eq!(de.read_bool(), Ok(false));
    assert_eq!(de.read_bool(), Ok(true));
    assert_eq!(de.read_bool(), Ok(true));
}

#[test]
fn f64_bits_of_pi() {
    let bits: u64 = 0x400921FB54442D18;
    let mut de = Deserializer::new(uv(bits.swap_bytes()));
    assert_eq!(de.read_f64_bits(), Ok(bits));
    assert_eq!(f64::from_bits(bits), 3.141592653589793);
}

#[test]
fn f64_round_trip_samples() {
    let samples: &[f64] = &[
        0.0,
        -0.0,
        1.0,
        -1.5,
        3.141592653589793,
        f64::MAX,
        f64::MIN_POSITIVE,
        f64::NAN,
        f64::INFINITY,
        f64::NEG_INFINITY,
    ];
    for &f in samples {
        let bits = f.to_bits();
        let mut de = Deserializer::new(uv(bits.swap_bytes()));
        assert_eq!(de.read_f64_bits(), Ok(bits));
    }
}

#[test]
fn f64_one_compresses_short() {
    // 1.0 stores byte-reversed, so only two carrier bytes are needed
    let bits = 1.0f64.to_bits();
    let enc = uv(bits.swap_bytes());
    assert_eq!(enc, vec![0xfe, 0xf0, 0x3f]);
    let mut de = Deserializer::new(enc);
    assert_eq!(de.read_f64_bits(), Ok(bits));
}

#[test]
fn bytes_length_prefixed() {
    let mut input = uv(3);
    input.extend_from_slice(b"abc");
    let mut de = Deserializer::new(input);
    assert_eq!(de.read_bytes(), Ok(b"abc".to_vec()));
}

#[test]
fn bytes_truncated_is_eof() {
    let mut input = uv(5);
    input.extend_from_slice(b"ab");
    let mut de = Deserializer::new(input);
    assert_eq!(de.read_bytes(), Err(Error::UnexpectedEof));
}

#[test]
fn type_id_reads_signed() {
    let mut de = Deserializer::new(vi(-65));
    assert_eq!(de.read_type_id(), Ok(-65));
}

#[test]
fn usize_and_isize_agree_with_the_wide_reads() {
    let mut de = Deserializer::new(uv(300));
    assert_eq!(de.read_usize(), Ok(300));
    let mut de = Deserializer::new(vi(-300));
    assert_eq!(de.read_isize(), Ok(-300));
}
