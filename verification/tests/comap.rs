use neutron_star::abi::{ABI_ARRAY_BIT, ABI_VALUE_I8, ABI_VALUE_U32};
use neutron_star::address::NeutronAddress;
use neutron_star::error::RecoverableError;
use neutron_star::host::{
    Host, MapSide, HOST_ERR_BAD_OPERAND, HOST_ERR_EMPTY_STACK, HOST_ERR_MISSING_KEY, HOST_OK,
};
use neutron_star::syscalls::{
    pop_costack_u32, push_costack, push_costack_u32, read_comap_fixed_array_i16,
    read_comap_fixed_array_i32, read_comap_fixed_array_i64, read_comap_fixed_array_i8,
    read_comap_fixed_array_u16, read_comap_fixed_array_u32, read_comap_fixed_array_u64,
    read_comap_fixed_array_u8, read_comap_i16, read_comap_i32, read_comap_i64, read_comap_i8,
    read_comap_u16, read_comap_u32, read_comap_u64, read_comap_u8, read_entry,
    read_result_comap_fixed_array_i16, read_result_comap_fixed_array_i32,
    read_result_comap_fixed_array_i64, read_result_comap_fixed_array_i8,
    read_result_comap_fixed_array_u16, read_result_comap_fixed_array_u32,
    read_result_comap_fixed_array_u64, read_result_comap_fixed_array_u8, read_result_comap_i16,
    read_result_comap_i32, read_result_comap_i64, read_result_comap_i8, read_result_comap_u16,
    read_result_comap_u32, read_result_comap_u64, read_result_comap_u8, write_comap_address,
    write_comap_array_i16, write_comap_array_i32, write_comap_array_i64, write_comap_array_i8,
    write_comap_array_u16, write_comap_array_u32, write_comap_array_u64, write_comap_array_u8,
    write_comap_i16, write_comap_i32, write_comap_i64, write_comap_i8, write_comap_u16,
    write_comap_u32, write_comap_u64, write_comap_u8, write_input_entry,
    write_result_comap_array_i16, write_result_comap_array_i32, write_result_comap_array_i64,
    write_result_comap_array_i8, write_result_comap_array_u16, write_result_comap_array_u32,
    write_result_comap_array_u64, write_result_comap_array_u8, write_result_comap_i16,
    write_result_comap_i32, write_result_comap_i64, write_result_comap_i8,
    write_result_comap_u16, write_result_comap_u32, write_result_comap_u64,
    write_result_comap_u8, write_result_entry,
};

#[test]
fn write_stores_key_tag_and_wire_bytes() {
    let mut host = Host::new();
    write_comap_u32(&mut host, "x", 7);
    assert!(host.costack.is_empty());
    assert_eq!(host.input_map.len(), 1);
    assert_eq!(host.input_map[0].key, b"x".to_vec());
    assert_eq!(host.input_map[0].descriptor, ABI_VALUE_U32);
    assert_eq!(host.input_map[0].value, vec![7u8, 0, 0, 0]);
    assert!(host.result_map.is_empty());
}

#[test]
fn write_then_read_same_type() {
    let mut host = Host::new();
    write_comap_u32(&mut host, "x", 7);
    assert_eq!(read_comap_u32(&mut host, "x"), Ok(7));
}

#[test]
fn read_of_other_type_is_a_type_mismatch() {
    let mut host = Host::new();
    write_comap_u32(&mut host, "x", 7);
    assert_eq!(read_comap_u16(&mut host, "x"), Err(RecoverableError::TypeMismatch));
    assert_eq!(read_comap_i32(&mut host, "x"), Err(RecoverableError::TypeMismatch));
    assert_eq!(read_comap_u64(&mut host, "x"), Err(RecoverableError::TypeMismatch));
}

#[test]
fn mismatched_read_leaves_the_entry_intact() {
    let mut host = Host::new();
    push_costack_u32(&mut host, 99);
    write_comap_u32(&mut host, "x", 7);
    assert_eq!(read_comap_u16(&mut host, "x"), Err(RecoverableError::TypeMismatch));
    assert_eq!(host.costack, vec![vec![99u8, 0, 0, 0]]);
    assert_eq!(host.input_map.len(), 1);
    assert_eq!(read_comap_u32(&mut host, "x"), Ok(7));
    assert_eq!(read_comap_u32(&mut host, "x"), Ok(7));
    assert_eq!(host.costack, vec![vec![99u8, 0, 0, 0]]);
    assert_eq!(pop_costack_u32(&mut host), Ok(99));
}

#[test]
fn missing_key_does_not_exist() {
    let mut host = Host::new();
    assert_eq!(read_comap_u32(&mut host, "x"), Err(RecoverableError::ItemDoesntExist));
    write_comap_u32(&mut host, "x", 7);
    assert_eq!(read_comap_u32(&mut host, "y"), Err(RecoverableError::ItemDoesntExist));
    assert_eq!(read_comap_u32(&mut host, ""), Err(RecoverableError::ItemDoesntExist));
    assert!(host.costack.is_empty());
}

#[test]
fn input_and_result_maps_are_apart() {
    let mut host = Host::new();
    write_comap_u32(&mut host, "x", 7);
    assert_eq!(
        read_result_comap_u32(&mut host, "x"),
        Err(RecoverableError::ItemDoesntExist)
    );
    write_result_comap_u32(&mut host, "x", 8);
    assert_eq!(read_comap_u32(&mut host, "x"), Ok(7));
    assert_eq!(read_result_comap_u32(&mut host, "x"), Ok(8));
    assert_eq!(host.input_map.len(), 1);
    assert_eq!(host.result_map.len(), 1);
}

#[test]
fn later_write_under_a_key_is_the_one_read() {
    let mut host = Host::new();
    write_comap_u32(&mut host, "x", 7);
    write_comap_u32(&mut host, "x", 8);
    assert_eq!(read_comap_u32(&mut host, "x"), Ok(8));
    write_comap_u16(&mut host, "x", 9);
    assert_eq!(read_comap_u32(&mut host, "x"), Err(RecoverableError::TypeMismatch));
    assert_eq!(read_comap_u16(&mut host, "x"), Ok(9));
}

#[test]
fn scalars_of_every_type_through_the_input_map() {
    let mut host = Host::new();
    write_comap_u8(&mut host, "a", 200);
    write_comap_u16(&mut host, "b", 60_000);
    write_comap_u32(&mut host, "c", 4_000_000_000);
    write_comap_u64(&mut host, "d", u64::MAX);
    write_comap_i8(&mut host, "e", -100);
    write_comap_i16(&mut host, "f", -30_000);
    write_comap_i32(&mut host, "g", i32::MIN);
    write_comap_i64(&mut host, "h", i64::MIN);
    assert_eq!(read_comap_u8(&mut host, "a"), Ok(200));
    assert_eq!(read_comap_u16(&mut host, "b"), Ok(60_000));
    assert_eq!(read_comap_u32(&mut host, "c"), Ok(4_000_000_000));
    assert_eq!(read_comap_u64(&mut host, "d"), Ok(u64::MAX));
    assert_eq!(read_comap_i8(&mut host, "e"), Ok(-100));
    assert_eq!(read_comap_i16(&mut host, "f"), Ok(-30_000));
    assert_eq!(read_comap_i32(&mut host, "g"), Ok(i32::MIN));
    assert_eq!(read_comap_i64(&mut host, "h"), Ok(i64::MIN));
    assert_eq!(read_comap_i8(&mut host, "a"), Err(RecoverableError::TypeMismatch));
    assert_eq!(read_comap_u8(&mut host, "e"), Err(RecoverableError::TypeMismatch));
    assert!(host.costack.is_empty());
}

#[test]
fn scalars_of_every_type_through_the_result_map() {
    let mut host = Host::new();
    write_result_comap_u8(&mut host, "a", 200);
    write_result_comap_u16(&mut host, "b", 60_000);
    write_result_comap_u32(&mut host, "c", 4_000_000_000);
    write_result_comap_u64(&mut host, "d", u64::MAX);
    write_result_comap_i8(&mut host, "e", -100);
    write_result_comap_i16(&mut host, "f", -30_000);
    write_result_comap_i32(&mut host, "g", i32::MIN);
    write_result_comap_i64(&mut host, "h", i64::MIN);
    assert_eq!(read_result_comap_u8(&mut host, "a"), Ok(200));
    assert_eq!(read_result_comap_u16(&mut host, "b"), Ok(60_000));
    assert_eq!(read_result_comap_u32(&mut host, "c"), Ok(4_000_000_000));
    assert_eq!(read_result_comap_u64(&mut host, "d"), Ok(u64::MAX));
    assert_eq!(read_result_comap_i8(&mut host, "e"), Ok(-100));
    assert_eq!(read_result_comap_i16(&mut host, "f"), Ok(-30_000));
    assert_eq!(read_result_comap_i32(&mut host, "g"), Ok(i32::MIN));
    assert_eq!(read_result_comap_i64(&mut host, "h"), Ok(i64::MIN));
    assert_eq!(
        read_result_comap_u16(&mut host, "c"),
        Err(RecoverableError::TypeMismatch)
    );
    assert!(host.input_map.is_empty());
}

#[test]
fn array_write_sets_the_array_bit() {
    let mut host = Host::new();
    write_comap_array_u32(&mut host, "v", &[1, 2]);
    assert_eq!(host.input_map[0].descriptor, ABI_VALUE_U32 + ABI_ARRAY_BIT);
    assert_eq!(host.input_map[0].value, vec![1u8, 0, 0, 0, 2, 0, 0, 0]);
}

#[test]
fn array_write_then_read() {
    let mut host = Host::new();
    write_comap_array_u32(&mut host, "v", &[1, 2, 3, 4]);
    let mut out = [0u32; 4];
    assert_eq!(read_comap_fixed_array_u32(&mut host, "v", &mut out), Ok(()));
    assert_eq!(out, [1, 2, 3, 4]);
    assert!(host.costack.is_empty());
}

#[test]
fn array_read_with_wrong_count_fails_and_leaves_the_entry() {
    let mut host = Host::new();
    write_comap_array_u32(&mut host, "v", &[1, 2, 3, 4]);
    let mut short = [9u32; 3];
    assert_eq!(
        read_comap_fixed_array_u32(&mut host, "v", &mut short),
        Err(RecoverableError::StackItemTooLarge)
    );
    assert_eq!(short, [9, 9, 9]);
    let mut long = [9u32; 5];
    assert_eq!(
        read_comap_fixed_array_u32(&mut host, "v", &mut long),
        Err(RecoverableError::StackItemTooSmall)
    );
    assert!(host.costack.is_empty());
    let mut out = [0u32; 4];
    assert_eq!(read_comap_fixed_array_u32(&mut host, "v", &mut out), Ok(()));
    assert_eq!(out, [1, 2, 3, 4]);
}

#[test]
fn scalar_and_array_tags_do_not_match() {
    let mut host = Host::new();
    write_comap_u32(&mut host, "s", 1);
    write_comap_array_u32(&mut host, "v", &[1]);
    let mut out = [0u32; 1];
    assert_eq!(
        read_comap_fixed_array_u32(&mut host, "s", &mut out),
        Err(RecoverableError::TypeMismatch)
    );
    assert_eq!(read_comap_u32(&mut host, "v"), Err(RecoverableError::TypeMismatch));
    let mut other = [0u16; 2];
    assert_eq!(
        read_comap_fixed_array_u16(&mut host, "v", &mut other),
        Err(RecoverableError::TypeMismatch)
    );
    assert_eq!(
        read_comap_fixed_array_u32(&mut host, "w", &mut out),
        Err(RecoverableError::ItemDoesntExist)
    );
}

#[test]
fn arrays_of_every_type_through_the_input_map() {
    let mut host = Host::new();
    write_comap_array_u8(&mut host, "a", &[1, 255]);
    write_comap_array_u16(&mut host, "b", &[1, u16::MAX]);
    write_comap_array_u64(&mut host, "d", &[1, u64::MAX]);
    write_comap_array_i8(&mut host, "e", &[-1, i8::MIN]);
    write_comap_array_i16(&mut host, "f", &[-1, i16::MIN]);
    write_comap_array_i32(&mut host, "g", &[-1, i32::MIN]);
    write_comap_array_i64(&mut host, "h", &[-1, i64::MIN]);
    let mut a = [0u8; 2];
    assert_eq!(read_comap_fixed_array_u8(&mut host, "a", &mut a), Ok(()));
    assert_eq!(a, [1, 255]);
    let mut b = [0u16; 2];
    assert_eq!(read_comap_fixed_array_u16(&mut host, "b", &mut b), Ok(()));
    assert_eq!(b, [1, u16::MAX]);
    let mut d = [0u64; 2];
    assert_eq!(read_comap_fixed_array_u64(&mut host, "d", &mut d), Ok(()));
    assert_eq!(d, [1, u64::MAX]);
    let mut e = [0i8; 2];
    assert_eq!(read_comap_fixed_array_i8(&mut host, "e", &mut e), Ok(()));
    assert_eq!(e, [-1, i8::MIN]);
    let mut f = [0i16; 2];
    assert_eq!(read_comap_fixed_array_i16(&mut host, "f", &mut f), Ok(()));
    assert_eq!(f, [-1, i16::MIN]);
    let mut g = [0i32; 2];
    assert_eq!(read_comap_fixed_array_i32(&mut host, "g", &mut g), Ok(()));
    assert_eq!(g, [-1, i32::MIN]);
    let mut h = [0i64; 2];
    assert_eq!(read_comap_fixed_array_i64(&mut host, "h", &mut h), Ok(()));
    assert_eq!(h, [-1, i64::MIN]);
}

#[test]
fn arrays_of_every_type_through_the_result_map() {
    let mut host = Host::new();
    write_result_comap_array_u8(&mut host, "a", &[1, 255]);
    write_result_comap_array_u16(&mut host, "b", &[1, u16::MAX]);
    write_result_comap_array_u32(&mut host, "c", &[1, u32::MAX]);
    write_result_comap_array_u64(&mut host, "d", &[1, u64::MAX]);
    write_result_comap_array_i8(&mut host, "e", &[-1, i8::MIN]);
    write_result_comap_array_i16(&mut host, "f", &[-1, i16::MIN]);
    write_result_comap_array_i32(&mut host, "g", &[-1, i32::MIN]);
    write_result_comap_array_i64(&mut host, "h", &[-1, i64::MIN]);
    let mut a = [0u8; 2];
    assert_eq!(read_result_comap_fixed_array_u8(&mut host, "a", &mut a), Ok(()));
    assert_eq!(a, [1, 255]);
    let mut b = [0u16; 2];
    assert_eq!(read_result_comap_fixed_array_u16(&mut host, "b", &mut b), Ok(()));
    assert_eq!(b, [1, u16::MAX]);
    let mut c = [0u32; 2];
    assert_eq!(read_result_comap_fixed_array_u32(&mut host, "c", &mut c), Ok(()));
    assert_eq!(c, [1, u32::MAX]);
    let mut d = [0u64; 2];
    assert_eq!(read_result_comap_fixed_array_u64(&mut host, "d", &mut d), Ok(()));
    assert_eq!(d, [1, u64::MAX]);
    let mut e = [0i8; 2];
    assert_eq!(read_result_comap_fixed_array_i8(&mut host, "e", &mut e), Ok(()));
    assert_eq!(e, [-1, i8::MIN]);
    let mut f = [0i16; 2];
    assert_eq!(read_result_comap_fixed_array_i16(&mut host, "f", &mut f), Ok(()));
    assert_eq!(f, [-1, i16::MIN]);
    let mut g = [0i32; 2];
    assert_eq!(read_result_comap_fixed_array_i32(&mut host, "g", &mut g), Ok(()));
    assert_eq!(g, [-1, i32::MIN]);
    let mut h = [0i64; 2];
    assert_eq!(read_result_comap_fixed_array_i64(&mut host, "h", &mut h), Ok(()));
    assert_eq!(h, [-1, i64::MIN]);
    let mut wrong = [0u32; 2];
    assert_eq!(
        read_comap_fixed_array_u32(&mut host, "c", &mut wrong),
        Err(RecoverableError::ItemDoesntExist)
    );
}

#[test]
fn address_travels_under_the_signed_byte_tag() {
    let mut host = Host::new();
    let address = NeutronAddress { version: 3, data: [7; 20] };
    write_comap_address(&mut host, "owner", address);
    assert_eq!(host.input_map[0].key, b"owner".to_vec());
    assert_eq!(host.input_map[0].descriptor, ABI_VALUE_I8);
    assert_eq!(host.input_map[0].value.len(), 24);
    assert_eq!(&host.input_map[0].value[..4], &[3u8, 0, 0, 0]);
    assert_eq!(
        read_entry(&mut host, MapSide::Input, b"owner", ABI_VALUE_I8, 24)
            .map(|bytes| neutron_star::address::decode_address(&bytes)),
        Ok(address)
    );
}

#[test]
fn raw_entries_are_checked_for_tag_then_size() {
    let mut host = Host::new();
    write_input_entry(&mut host, b"k", 5, &[1, 2, 3]);
    write_result_entry(&mut host, b"k", 6, &[4]);
    assert_eq!(
        read_entry(&mut host, MapSide::Input, b"k", 5, 3),
        Ok(vec![1u8, 2, 3])
    );
    assert_eq!(
        read_entry(&mut host, MapSide::Input, b"k", 6, 3),
        Err(RecoverableError::TypeMismatch)
    );
    assert_eq!(
        read_entry(&mut host, MapSide::Input, b"k", 6, 1),
        Err(RecoverableError::TypeMismatch)
    );
    assert_eq!(
        read_entry(&mut host, MapSide::Input, b"k", 5, 2),
        Err(RecoverableError::StackItemTooLarge)
    );
    assert_eq!(
        read_entry(&mut host, MapSide::Input, b"k", 5, 4),
        Err(RecoverableError::StackItemTooSmall)
    );
    assert_eq!(read_entry(&mut host, MapSide::Result, b"k", 6, 1), Ok(vec![4u8]));
    assert!(host.costack.is_empty());
}

#[test]
fn host_peek_keeps_the_entry_and_copies_the_value() {
    let mut host = Host::new();
    write_comap_u32(&mut host, "x", 7);
    push_costack(&mut host, b"x");
    assert_eq!(host.peek_comap(MapSide::Input), ABI_VALUE_U32);
    assert_eq!(host.costack, vec![vec![7u8, 0, 0, 0]]);
    assert_eq!(host.input_map.len(), 1);
}

#[test]
fn host_peek_failures_change_nothing() {
    let mut host = Host::new();
    assert_eq!(host.peek_comap(MapSide::Input), HOST_ERR_EMPTY_STACK);
    push_costack(&mut host, b"x");
    assert_eq!(host.peek_comap(MapSide::Input), HOST_ERR_MISSING_KEY);
    assert_eq!(host.peek_comap(MapSide::Result), HOST_ERR_MISSING_KEY);
    assert_eq!(host.costack, vec![b"x".to_vec()]);
}

#[test]
fn host_commit_needs_two_frames_and_a_one_byte_tag() {
    let mut host = Host::new();
    assert_eq!(host.commit_comap(MapSide::Input, 1), HOST_ERR_BAD_OPERAND);
    push_costack(&mut host, b"k");
    assert_eq!(host.commit_comap(MapSide::Input, 1), HOST_ERR_BAD_OPERAND);
    push_costack(&mut host, b"v");
    assert_eq!(host.commit_comap(MapSide::Input, 0x100), HOST_ERR_BAD_OPERAND);
    assert_eq!(host.costack.len(), 2);
    assert_eq!(host.commit_comap(MapSide::Result, 0xFF), HOST_OK);
    assert!(host.costack.is_empty());
    assert_eq!(host.result_map[0].key, b"k".to_vec());
    assert_eq!(host.result_map[0].value, b"v".to_vec());
    assert_eq!(host.result_map[0].descriptor, 0xFF);
}
