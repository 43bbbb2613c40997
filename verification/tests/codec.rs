use neutron_star::abi::{
    parse_descriptor, WireType, ABI_ARRAY_BIT, ABI_VALUE_I16, ABI_VALUE_I32, ABI_VALUE_I64,
    ABI_VALUE_I8, ABI_VALUE_U16, ABI_VALUE_U32, ABI_VALUE_U64, ABI_VALUE_U8,
};
use neutron_star::address::{
    decode_address, decode_array_address, encode_address, encode_array_address, NeutronAddress,
};
use neutron_star::codec::{
    decode_array_i16, decode_array_u32, decode_i16, decode_i32, decode_i64, decode_i8, decode_u16,
    decode_u32, decode_u64, decode_u8, encode_array_i16, encode_array_u32, encode_array_u8,
    encode_i16, encode_i32, encode_i64, encode_i8, encode_u16, encode_u32, encode_u64, encode_u8,
};
use neutron_star::error::{
    check_descriptor, check_frame_size, classify_status, RecoverableError, SystemError, HOST_ERROR_THRESHOLD,
};
use neutron_star::wire::{decode_word, encode_word, signed_from_word, word_from_signed};

#[test]
fn u32_is_little_endian() {
    assert_eq!(encode_u32(0x0102_0304), vec![4u8, 3, 2, 1]);
    assert_eq!(decode_u32(&[4u8, 3, 2, 1]), 0x0102_0304);
}

#[test]
fn unsigned_encodings_are_exact() {
    assert_eq!(encode_u8(0xAB), vec![0xABu8]);
    assert_eq!(encode_u16(0x1234), vec![0x34u8, 0x12]);
    assert_eq!(encode_u32(7), vec![7u8, 0, 0, 0]);
    assert_eq!(
        encode_u64(0x0102_0304_0506_0708),
        vec![8u8, 7, 6, 5, 4, 3, 2, 1]
    );
    assert_eq!(encode_u64(u64::MAX), vec![0xFFu8; 8]);
}

#[test]
fn signed_encodings_are_twos_complement() {
    assert_eq!(encode_i8(-1), vec![0xFFu8]);
    assert_eq!(encode_i8(i8::MIN), vec![0x80u8]);
    assert_eq!(encode_i16(-2), vec![0xFEu8, 0xFF]);
    assert_eq!(encode_i32(-1), vec![0xFFu8, 0xFF, 0xFF, 0xFF]);
    assert_eq!(encode_i32(i32::MIN), vec![0u8, 0, 0, 0x80]);
    assert_eq!(encode_i64(-1), vec![0xFFu8; 8]);
    assert_eq!(encode_i64(i64::MIN), vec![0u8, 0, 0, 0, 0, 0, 0, 0x80]);
    assert_eq!(encode_i64(5), vec![5u8, 0, 0, 0, 0, 0, 0, 0]);
}

#[test]
fn encodings_agree_with_std() {
    for v in [0u32, 1, 255, 256, 65_535, 65_536, 0xDEAD_BEEF, u32::MAX] {
        assert_eq!(encode_u32(v), v.to_le_bytes().to_vec());
        assert_eq!(decode_u32(&v.to_le_bytes()), v);
    }
    for v in [i64::MIN, -1_000_000_007, -1, 0, 1, 42, i64::MAX] {
        assert_eq!(encode_i64(v), v.to_le_bytes().to_vec());
        assert_eq!(decode_i64(&v.to_le_bytes()), v);
    }
    for v in [i16::MIN, -300, -1, 0, 1, 300, i16::MAX] {
        assert_eq!(encode_i16(v), v.to_le_bytes().to_vec());
        assert_eq!(decode_i16(&v.to_le_bytes()), v);
    }
}

#[test]
fn every_byte_value_round_trips() {
    for v in 0..=255u8 {
        assert_eq!(decode_u8(&encode_u8(v)), v);
        let s = v as i8;
        assert_eq!(decode_i8(&encode_i8(s)), s);
    }
}

#[test]
fn scalar_round_trips_at_the_edges() {
    for v in [0u16, 1, 0x00FF, 0x0100, u16::MAX] {
        assert_eq!(decode_u16(&encode_u16(v)), v);
    }
    for v in [0u64, 1, u32::MAX as u64, u32::MAX as u64 + 1, u64::MAX] {
        assert_eq!(decode_u64(&encode_u64(v)), v);
    }
    for v in [i32::MIN, -1, 0, 1, i32::MAX] {
        assert_eq!(decode_i32(&encode_i32(v)), v);
    }
}

#[test]
fn words_of_any_width() {
    assert_eq!(encode_word(0x0102_03, 3), vec![3u8, 2, 1]);
    assert_eq!(encode_word(0x1234, 1), vec![0x34u8]);
    assert_eq!(encode_word(9, 0), Vec::<u8>::new());
    assert_eq!(decode_word(&[3u8, 2, 1]), 0x0102_03);
    assert_eq!(decode_word(&[]), 0);
}

#[test]
fn signed_words() {
    assert_eq!(word_from_signed(WireType::I8, -1), 0xFF);
    assert_eq!(word_from_signed(WireType::I16, -1), 0xFFFF);
    assert_eq!(word_from_signed(WireType::I32, -2), 0xFFFF_FFFE);
    assert_eq!(word_from_signed(WireType::I64, i64::MIN), 0x8000_0000_0000_0000);
    assert_eq!(word_from_signed(WireType::I32, 17), 17);
    assert_eq!(signed_from_word(WireType::I8, 0x80), -128);
    assert_eq!(signed_from_word(WireType::I8, 0x7F), 127);
    assert_eq!(signed_from_word(WireType::I16, 0xFFFF), -1);
    assert_eq!(signed_from_word(WireType::I32, 0x8000_0000), i32::MIN as i64);
    assert_eq!(signed_from_word(WireType::I64, u64::MAX), -1);
}

#[test]
fn arrays_are_plain_concatenation() {
    assert_eq!(
        encode_array_u32(&[1, 2, 3, 4]),
        vec![1u8, 0, 0, 0, 2, 0, 0, 0, 3, 0, 0, 0, 4, 0, 0, 0]
    );
    assert_eq!(encode_array_i16(&[-1, 2]), vec![0xFFu8, 0xFF, 2, 0]);
    assert_eq!(encode_array_u8(&[9, 8, 7]), vec![9u8, 8, 7]);
    assert_eq!(encode_array_u32(&[]), Vec::<u8>::new());
}

#[test]
fn arrays_decode_element_by_element() {
    let mut out = [0u32; 4];
    decode_array_u32(&[1u8, 0, 0, 0, 2, 0, 0, 0, 3, 0, 0, 0, 4, 0, 0, 0], &mut out);
    assert_eq!(out, [1, 2, 3, 4]);
    let mut signed = [0i16; 3];
    decode_array_i16(&encode_array_i16(&[i16::MIN, -1, i16::MAX]), &mut signed);
    assert_eq!(signed, [i16::MIN, -1, i16::MAX]);
    let mut none: [u32; 0] = [];
    decode_array_u32(&[], &mut none);
}

#[test]
fn address_is_version_then_data() {
    let mut data = [0u8; 20];
    for (i, b) in data.iter_mut().enumerate() {
        *b = 100 + i as u8;
    }
    let address = NeutronAddress { version: 0x0A0B_0C0D, data };
    let bytes = encode_address(&address);
    assert_eq!(bytes.len(), 24);
    assert_eq!(&bytes[..4], &[0x0Du8, 0x0C, 0x0B, 0x0A]);
    assert_eq!(&bytes[4..], &data);
    assert_eq!(decode_address(&bytes), address);
}

#[test]
fn address_arrays_round_trip() {
    let a = NeutronAddress { version: 1, data: [1u8; 20] };
    let b = NeutronAddress { version: 2, data: [2u8; 20] };
    let bytes = encode_array_address(&[a, b]);
    assert_eq!(bytes.len(), 48);
    assert_eq!(&bytes[..24], encode_address(&a).as_slice());
    assert_eq!(&bytes[24..], encode_address(&b).as_slice());
    let mut out = [NeutronAddress::default(); 2];
    decode_array_address(&bytes, &mut out);
    assert_eq!(out, [a, b]);
}

#[test]
fn default_address_is_all_zero() {
    let address = NeutronAddress::default();
    assert_eq!(address.version, 0);
    assert_eq!(address.data, [0u8; 20]);
}

#[test]
fn descriptor_table_is_bit_exact() {
    assert_eq!(ABI_VALUE_U8, 0b0000);
    assert_eq!(ABI_VALUE_U32, 0b0001);
    assert_eq!(ABI_VALUE_U16, 0b0010);
    assert_eq!(ABI_VALUE_U64, 0b0011);
    assert_eq!(ABI_VALUE_I8, 0b0100);
    assert_eq!(ABI_VALUE_I32, 0b0101);
    assert_eq!(ABI_VALUE_I16, 0b0110);
    assert_eq!(ABI_VALUE_I64, 0b0111);
    assert_eq!(ABI_ARRAY_BIT, 0b1000);
}

#[test]
fn descriptors_of_the_types() {
    let all = [
        (WireType::U8, 1usize, false, ABI_VALUE_U8),
        (WireType::U16, 2, false, ABI_VALUE_U16),
        (WireType::U32, 4, false, ABI_VALUE_U32),
        (WireType::U64, 8, false, ABI_VALUE_U64),
        (WireType::I8, 1, true, ABI_VALUE_I8),
        (WireType::I16, 2, true, ABI_VALUE_I16),
        (WireType::I32, 4, true, ABI_VALUE_I32),
        (WireType::I64, 8, true, ABI_VALUE_I64),
    ];
    for (t, width, signed, descriptor) in all {
        assert_eq!(t.width(), width);
        assert_eq!(t.signed(), signed);
        assert_eq!(t.descriptor(), descriptor);
        assert_eq!(t.array_descriptor(), descriptor | 0b1000);
        assert_eq!(descriptor & 0b0100 != 0, signed);
        assert_eq!(descriptor & 0b1111_0000, 0);
        assert_eq!(parse_descriptor(descriptor), Some((t, false)));
        assert_eq!(parse_descriptor(descriptor + ABI_ARRAY_BIT), Some((t, true)));
    }
}

#[test]
fn reserved_descriptor_bits_are_refused() {
    assert_eq!(parse_descriptor(16), None);
    assert_eq!(parse_descriptor(0x40), None);
    assert_eq!(parse_descriptor(0xFF), None);
    assert_eq!(parse_descriptor(u32::MAX), None);
}

#[test]
fn status_below_the_threshold_is_success() {
    assert_eq!(classify_status(0), Ok(0));
    assert_eq!(classify_status(24), Ok(24));
    assert_eq!(classify_status(0x7FFF_FFFF), Ok(0x7FFF_FFFF));
}

#[test]
fn status_at_or_above_the_threshold_is_failure() {
    assert_eq!(HOST_ERROR_THRESHOLD, 0x8000_0000);
    assert_eq!(
        classify_status(0x8000_0000),
        Err(SystemError::Generic(0x8000_0000))
    );
    assert_eq!(
        classify_status(0x8000_0001),
        Err(SystemError::Generic(0x8000_0001))
    );
    assert_eq!(classify_status(u32::MAX), Err(SystemError::Generic(u32::MAX)));
}

#[test]
fn frame_size_must_be_exact() {
    assert_eq!(check_frame_size(4, 4), Ok(()));
    assert_eq!(check_frame_size(0, 0), Ok(()));
    assert_eq!(check_frame_size(5, 4), Err(RecoverableError::StackItemTooLarge));
    assert_eq!(check_frame_size(3, 4), Err(RecoverableError::StackItemTooSmall));
    assert_eq!(check_frame_size(0, 1), Err(RecoverableError::StackItemTooSmall));
}

#[test]
fn peek_status_is_judged_before_anything_is_taken() {
    assert_eq!(check_descriptor(1, 1), Ok(()));
    assert_eq!(check_descriptor(0, 0), Ok(()));
    assert_eq!(check_descriptor(2, 1), Err(RecoverableError::TypeMismatch));
    assert_eq!(check_descriptor(9, 1), Err(RecoverableError::TypeMismatch));
    assert_eq!(check_descriptor(0x8000_0000, 1), Err(RecoverableError::ItemDoesntExist));
    assert_eq!(
        check_descriptor(0x8000_0002, 0x8000_0002),
        Err(RecoverableError::ItemDoesntExist)
    );
}
