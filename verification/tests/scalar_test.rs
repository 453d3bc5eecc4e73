use cfb::scalar::{
    i32_bits, i32_of_bits, i64_bits, i64_of_bits, u16_from_le, u16_to_le, u32_from_le, u32_to_le,
    u64_from_le, u64_to_le, Scalar,
};

#[test]
fn test_scalar() {
    assert_eq!(true, bool::from_le(true.to_le()));
    assert_eq!(false, bool::from_le(false.to_le()));
    assert_eq!(1u8, u8::from_le(1u8.to_le()));
    assert_eq!(1u16, u16::from_le(1u16.to_le()));
    assert_eq!(
        1f32,
        f32::from_bits(<u32 as Scalar>::from_le(Scalar::to_le(1f32.to_bits())))
    );

    assert_eq!(1u8, 1u8.to_le());

    assert_eq!(1u16, 1u16.to_le());
    assert_eq!(1u32, 1u32.to_le());
}

#[test]
fn scalars_are_written_low_byte_first() {
    assert_eq!(vec![0x34, 0x12], Scalar::as_bytes(&0x1234u16));
    assert_eq!(vec![0x78, 0x56, 0x34, 0x12], Scalar::as_bytes(&0x1234_5678u32));
    assert_eq!(
        vec![0xef, 0xcd, 0xab, 0x89, 0x67, 0x45, 0x23, 0x01],
        Scalar::as_bytes(&0x0123_4567_89ab_cdefu64)
    );
    assert_eq!(vec![0xff], Scalar::as_bytes(&-1i8));
    assert_eq!(vec![0xfe, 0xff], Scalar::as_bytes(&-2i16));
    assert_eq!(vec![0xfc, 0xff, 0xff, 0xff], Scalar::as_bytes(&-4i32));
    assert_eq!(vec![0xff; 8], Scalar::as_bytes(&-1i64));
    assert_eq!(vec![1], Scalar::as_bytes(&true));
    assert_eq!(vec![0], Scalar::as_bytes(&false));
    assert_eq!(vec![7], Scalar::as_bytes(&7u8));
}

#[test]
fn scalars_agree_with_the_standard_encoding() {
    for v in [0u32, 1, 255, 256, 65535, 65536, 0x7fff_ffff, 0x8000_0000, u32::MAX] {
        assert_eq!(v.to_le_bytes().to_vec(), u32_to_le(v));
        assert_eq!(v, u32_from_le(&v.to_le_bytes()));
    }
    for v in [0u16, 1, 255, 256, 0x7fff, 0x8000, u16::MAX] {
        assert_eq!(v.to_le_bytes().to_vec(), u16_to_le(v));
        assert_eq!(v, u16_from_le(&v.to_le_bytes()));
    }
    for v in [0u64, 1, u32::MAX as u64, (u32::MAX as u64) + 1, u64::MAX, 0x8000_0000_0000_0000] {
        assert_eq!(v.to_le_bytes().to_vec(), u64_to_le(v));
        assert_eq!(v, u64_from_le(&v.to_le_bytes()));
    }
    for v in [0i32, 1, -1, i32::MIN, i32::MAX, -123456] {
        assert_eq!(v as u32, i32_bits(v));
        assert_eq!(v, i32_of_bits(v as u32));
        assert_eq!(v.to_le_bytes().to_vec(), Scalar::as_bytes(&v));
    }
    for v in [0i64, 1, -1, i64::MIN, i64::MAX, -1234567890123] {
        assert_eq!(v as u64, i64_bits(v));
        assert_eq!(v, i64_of_bits(v as u64));
        assert_eq!(v.to_le_bytes().to_vec(), Scalar::as_bytes(&v));
    }
}

#[test]
fn reading_what_was_written_gives_the_value_back() {
    for v in [i8::MIN, -1, 0, 1, i8::MAX] {
        assert_eq!(v, <i8 as Scalar>::from_bytes(&Scalar::as_bytes(&v)));
    }
    for v in [i16::MIN, -1, 0, 1, i16::MAX] {
        assert_eq!(v, <i16 as Scalar>::from_bytes(&Scalar::as_bytes(&v)));
    }
    for v in [u16::MIN, 1, 0x1234, u16::MAX] {
        assert_eq!(v, <u16 as Scalar>::from_bytes(&Scalar::as_bytes(&v)));
    }
    for v in [i32::MIN, -1, 0, 1, i32::MAX] {
        assert_eq!(v, <i32 as Scalar>::from_bytes(&Scalar::as_bytes(&v)));
    }
    for v in [u32::MIN, 1, 0x1234_5678, u32::MAX] {
        assert_eq!(v, <u32 as Scalar>::from_bytes(&Scalar::as_bytes(&v)));
    }
    for v in [i64::MIN, -1, 0, 1, i64::MAX] {
        assert_eq!(v, <i64 as Scalar>::from_bytes(&Scalar::as_bytes(&v)));
    }
    for v in [u64::MIN, 1, 0x0123_4567_89ab_cdef, u64::MAX] {
        assert_eq!(v, <u64 as Scalar>::from_bytes(&Scalar::as_bytes(&v)));
    }
    for v in [true, false] {
        assert_eq!(v, <bool as Scalar>::from_bytes(&Scalar::as_bytes(&v)));
    }
    for v in [0.5f64, -3.25, 1e300] {
        let bits = <u64 as Scalar>::from_bytes(&Scalar::as_bytes(&v.to_bits()));
        assert_eq!(v, f64::from_bits(bits));
    }
    assert_eq!(7u8, <u8 as Scalar>::from_bytes(&[7, 9]));
    assert!(<bool as Scalar>::from_bytes(&[2]));
}
