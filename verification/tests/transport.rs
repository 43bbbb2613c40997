use neutron_star::address::NeutronAddress;
use neutron_star::error::{RecoverableError, SystemError};
use neutron_star::host::{Host, HOST_ERR_EMPTY_STACK, HOST_ERR_UNKNOWN_CALL};
use neutron_star::syscalls::{
    _system_call, discard_costack, get_self_address, pop_costack_address,
    pop_costack_fixed, pop_costack_fixed_array_address, pop_costack_fixed_array_i16,
    pop_costack_fixed_array_i32, pop_costack_fixed_array_i64, pop_costack_fixed_array_i8,
    pop_costack_fixed_array_u16, pop_costack_fixed_array_u32, pop_costack_fixed_array_u64,
    pop_costack_fixed_array_u8, pop_costack_i16, pop_costack_i32, pop_costack_i64, pop_costack_i8,
    pop_costack_u16, pop_costack_u32, pop_costack_u64, pop_costack_u8, pop_exact, push_costack,
    push_costack_address, push_costack_array_address, push_costack_array_i16,
    push_costack_array_i32, push_costack_array_i64, push_costack_array_i8, push_costack_array_u16,
    push_costack_array_u32, push_costack_array_u64, push_costack_array_u8, push_costack_i16,
    push_costack_i32, push_costack_i64, push_costack_i8, push_costack_u16, push_costack_u32,
    push_costack_u64, push_costack_u8,
};

#[test]
fn fresh_host_is_empty() {
    let host = Host::new();
    assert!(host.costack.is_empty());
    assert!(host.input_map.is_empty());
    assert!(host.result_map.is_empty());
    assert!(host.storage.is_empty());
    assert!(host.log.is_empty());
    assert_eq!(host.committed, 0);
    assert!(host.reverts.is_empty());
}

#[test]
fn push_appends_one_frame() {
    let mut host = Host::new();
    push_costack(&mut host, &[1, 2, 3]);
    push_costack(&mut host, &[]);
    assert_eq!(host.costack, vec![vec![1u8, 2, 3], vec![]]);
}

#[test]
fn pop_returns_true_length_and_bytes() {
    let mut host = Host::new();
    push_costack(&mut host, &[9, 8, 7]);
    let mut buffer = [0u8; 3];
    assert_eq!(pop_costack_fixed(&mut host, &mut buffer), Ok(3));
    assert_eq!(buffer, [9, 8, 7]);
    assert!(host.costack.is_empty());
}

#[test]
fn pop_into_short_buffer_reports_true_length() {
    let mut host = Host::new();
    push_costack(&mut host, &[1, 2, 3, 4, 5]);
    let mut buffer = [0u8; 2];
    assert_eq!(pop_costack_fixed(&mut host, &mut buffer), Ok(5));
    assert_eq!(buffer, [1, 2]);
    assert!(host.costack.is_empty());
}

#[test]
fn pop_into_long_buffer_keeps_the_rest() {
    let mut host = Host::new();
    push_costack(&mut host, &[1, 2]);
    let mut buffer = [7u8; 4];
    assert_eq!(pop_costack_fixed(&mut host, &mut buffer), Ok(2));
    assert_eq!(buffer, [1, 2, 7, 7]);
}

#[test]
fn pop_from_empty_is_a_host_failure() {
    let mut host = Host::new();
    let mut buffer = [5u8; 2];
    assert_eq!(
        pop_costack_fixed(&mut host, &mut buffer),
        Err(SystemError::Generic(HOST_ERR_EMPTY_STACK))
    );
    assert_eq!(buffer, [5, 5]);
}

#[test]
fn discard_drops_the_top_frame() {
    let mut host = Host::new();
    push_costack(&mut host, &[1]);
    push_costack(&mut host, &[2]);
    discard_costack(&mut host);
    assert_eq!(host.costack, vec![vec![1u8]]);
    discard_costack(&mut host);
    discard_costack(&mut host);
    assert!(host.costack.is_empty());
}

#[test]
fn last_in_first_out() {
    let mut host = Host::new();
    push_costack(&mut host, b"A");
    push_costack(&mut host, b"B");
    let mut buffer = [0u8; 1];
    assert_eq!(pop_costack_fixed(&mut host, &mut buffer), Ok(1));
    assert_eq!(&buffer, b"B");
    assert_eq!(pop_costack_fixed(&mut host, &mut buffer), Ok(1));
    assert_eq!(&buffer, b"A");
    assert!(host.costack.is_empty());
}

#[test]
fn typed_last_in_first_out() {
    let mut host = Host::new();
    push_costack_u32(&mut host, 1);
    push_costack_u32(&mut host, 2);
    assert_eq!(pop_costack_u32(&mut host), Ok(2));
    assert_eq!(pop_costack_u32(&mut host), Ok(1));
    assert_eq!(pop_costack_u32(&mut host), Err(RecoverableError::ItemDoesntExist));
}

#[test]
fn typed_push_writes_little_endian_frames() {
    let mut host = Host::new();
    push_costack_u16(&mut host, 0x0102);
    push_costack_i32(&mut host, -2);
    push_costack_u64(&mut host, 1);
    assert_eq!(
        host.costack,
        vec![
            vec![2u8, 1],
            vec![0xFE, 0xFF, 0xFF, 0xFF],
            vec![1, 0, 0, 0, 0, 0, 0, 0]
        ]
    );
}

#[test]
fn round_trip_u8() {
    let mut host = Host::new();
    for v in [0u8, 1, 127, 128, 255] {
        push_costack_u8(&mut host, v);
        assert_eq!(pop_costack_u8(&mut host), Ok(v));
        assert!(host.costack.is_empty());
    }
}

#[test]
fn round_trip_u16() {
    let mut host = Host::new();
    for v in [0u16, 1, 255, 256, u16::MAX] {
        push_costack_u16(&mut host, v);
        assert_eq!(pop_costack_u16(&mut host), Ok(v));
    }
}

#[test]
fn round_trip_u32() {
    let mut host = Host::new();
    for v in [0u32, 7, 0xDEAD_BEEF, u32::MAX] {
        push_costack_u32(&mut host, v);
        assert_eq!(pop_costack_u32(&mut host), Ok(v));
    }
}

#[test]
fn round_trip_u64() {
    let mut host = Host::new();
    for v in [0u64, 1, 0x0123_4567_89AB_CDEF, u64::MAX] {
        push_costack_u64(&mut host, v);
        assert_eq!(pop_costack_u64(&mut host), Ok(v));
    }
}

#[test]
fn round_trip_i8() {
    let mut host = Host::new();
    for v in [i8::MIN, -1, 0, 1, i8::MAX] {
        push_costack_i8(&mut host, v);
        assert_eq!(pop_costack_i8(&mut host), Ok(v));
    }
}

#[test]
fn round_trip_i16() {
    let mut host = Host::new();
    for v in [i16::MIN, -1, 0, 1, i16::MAX] {
        push_costack_i16(&mut host, v);
        assert_eq!(pop_costack_i16(&mut host), Ok(v));
    }
}

#[test]
fn round_trip_i32() {
    let mut host = Host::new();
    for v in [i32::MIN, -1, 0, 1, i32::MAX] {
        push_costack_i32(&mut host, v);
        assert_eq!(pop_costack_i32(&mut host), Ok(v));
    }
}

#[test]
fn round_trip_i64() {
    let mut host = Host::new();
    for v in [i64::MIN, -1, 0, 1, i64::MAX] {
        push_costack_i64(&mut host, v);
        assert_eq!(pop_costack_i64(&mut host), Ok(v));
    }
}

#[test]
fn round_trip_address() {
    let mut host = Host::new();
    let address = NeutronAddress { version: 2, data: [0xAB; 20] };
    push_costack_address(&mut host, &address);
    assert_eq!(host.costack[0].len(), 24);
    assert_eq!(pop_costack_address(&mut host), Ok(address));
    assert!(host.costack.is_empty());
}

#[test]
fn round_trip_leaves_what_lay_below() {
    let mut host = Host::new();
    push_costack(&mut host, b"below");
    push_costack_i64(&mut host, -5);
    assert_eq!(pop_costack_i64(&mut host), Ok(-5));
    assert_eq!(host.costack, vec![b"below".to_vec()]);
}

#[test]
fn larger_frame_is_too_large() {
    let mut host = Host::new();
    push_costack_u32(&mut host, 0x0102_0304);
    assert_eq!(pop_costack_u16(&mut host), Err(RecoverableError::StackItemTooLarge));
    assert!(host.costack.is_empty());
    push_costack_u16(&mut host, 1);
    assert_eq!(pop_costack_u8(&mut host), Err(RecoverableError::StackItemTooLarge));
    push_costack(&mut host, &[0u8; 25]);
    assert_eq!(pop_costack_address(&mut host), Err(RecoverableError::StackItemTooLarge));
}

#[test]
fn smaller_frame_is_too_small() {
    let mut host = Host::new();
    push_costack_u16(&mut host, 0x0102);
    assert_eq!(pop_costack_u32(&mut host), Err(RecoverableError::StackItemTooSmall));
    assert!(host.costack.is_empty());
    push_costack(&mut host, &[]);
    assert_eq!(pop_costack_u8(&mut host), Err(RecoverableError::StackItemTooSmall));
    push_costack_u32(&mut host, 1);
    assert_eq!(pop_costack_i64(&mut host), Err(RecoverableError::StackItemTooSmall));
    push_costack(&mut host, &[0u8; 23]);
    assert_eq!(pop_costack_address(&mut host), Err(RecoverableError::StackItemTooSmall));
}

#[test]
fn empty_channel_has_no_item() {
    let mut host = Host::new();
    assert_eq!(pop_costack_u8(&mut host), Err(RecoverableError::ItemDoesntExist));
    assert_eq!(pop_costack_i64(&mut host), Err(RecoverableError::ItemDoesntExist));
    assert_eq!(pop_costack_address(&mut host), Err(RecoverableError::ItemDoesntExist));
    let mut out = [0u32; 2];
    assert_eq!(
        pop_costack_fixed_array_u32(&mut host, &mut out),
        Err(RecoverableError::ItemDoesntExist)
    );
}

#[test]
fn same_width_other_sign_reinterprets_the_bits() {
    let mut host = Host::new();
    push_costack_i8(&mut host, -1);
    assert_eq!(pop_costack_u8(&mut host), Ok(255));
    push_costack_u32(&mut host, 0xFFFF_FFFE);
    assert_eq!(pop_costack_i32(&mut host), Ok(-2));
}

#[test]
fn pop_exact_takes_only_the_exact_size() {
    let mut host = Host::new();
    push_costack(&mut host, &[1, 2, 3]);
    assert_eq!(pop_exact(&mut host, 3), Ok(vec![1u8, 2, 3]));
    push_costack(&mut host, &[1, 2, 3]);
    assert_eq!(pop_exact(&mut host, 2), Err(RecoverableError::StackItemTooLarge));
    push_costack(&mut host, &[1, 2, 3]);
    assert_eq!(pop_exact(&mut host, 4), Err(RecoverableError::StackItemTooSmall));
    assert_eq!(pop_exact(&mut host, 0), Err(RecoverableError::ItemDoesntExist));
}

#[test]
fn array_round_trip_u32() {
    let mut host = Host::new();
    push_costack_array_u32(&mut host, &[1, 2, 3, 4]);
    assert_eq!(host.costack[0].len(), 16);
    let mut out = [0u32; 4];
    assert_eq!(pop_costack_fixed_array_u32(&mut host, &mut out), Ok(()));
    assert_eq!(out, [1, 2, 3, 4]);
    assert!(host.costack.is_empty());
}

#[test]
fn array_into_shorter_buffer_fails() {
    let mut host = Host::new();
    push_costack_array_u32(&mut host, &[1, 2, 3, 4]);
    let mut out = [9u32; 3];
    assert_eq!(
        pop_costack_fixed_array_u32(&mut host, &mut out),
        Err(RecoverableError::StackItemTooLarge)
    );
    assert_eq!(out, [9, 9, 9]);
}

#[test]
fn array_into_longer_buffer_fails() {
    let mut host = Host::new();
    push_costack_array_u32(&mut host, &[1, 2, 3, 4]);
    let mut out = [9u32; 5];
    assert_eq!(
        pop_costack_fixed_array_u32(&mut host, &mut out),
        Err(RecoverableError::StackItemTooSmall)
    );
    assert_eq!(out, [9; 5]);
}

#[test]
fn array_round_trips_of_every_type() {
    let mut host = Host::new();

    push_costack_array_u8(&mut host, &[0, 1, 255]);
    let mut a = [0u8; 3];
    assert_eq!(pop_costack_fixed_array_u8(&mut host, &mut a), Ok(()));
    assert_eq!(a, [0, 1, 255]);

    push_costack_array_u16(&mut host, &[0, 256, u16::MAX]);
    let mut b = [0u16; 3];
    assert_eq!(pop_costack_fixed_array_u16(&mut host, &mut b), Ok(()));
    assert_eq!(b, [0, 256, u16::MAX]);

    push_costack_array_u64(&mut host, &[u64::MAX, 1]);
    let mut c = [0u64; 2];
    assert_eq!(pop_costack_fixed_array_u64(&mut host, &mut c), Ok(()));
    assert_eq!(c, [u64::MAX, 1]);

    push_costack_array_i8(&mut host, &[i8::MIN, -1, i8::MAX]);
    let mut d = [0i8; 3];
    assert_eq!(pop_costack_fixed_array_i8(&mut host, &mut d), Ok(()));
    assert_eq!(d, [i8::MIN, -1, i8::MAX]);

    push_costack_array_i16(&mut host, &[i16::MIN, -1, i16::MAX]);
    let mut e = [0i16; 3];
    assert_eq!(pop_costack_fixed_array_i16(&mut host, &mut e), Ok(()));
    assert_eq!(e, [i16::MIN, -1, i16::MAX]);

    push_costack_array_i32(&mut host, &[i32::MIN, -1, i32::MAX]);
    let mut f = [0i32; 3];
    assert_eq!(pop_costack_fixed_array_i32(&mut host, &mut f), Ok(()));
    assert_eq!(f, [i32::MIN, -1, i32::MAX]);

    push_costack_array_i64(&mut host, &[i64::MIN, -1, i64::MAX]);
    let mut g = [0i64; 3];
    assert_eq!(pop_costack_fixed_array_i64(&mut host, &mut g), Ok(()));
    assert_eq!(g, [i64::MIN, -1, i64::MAX]);

    assert!(host.costack.is_empty());
}

#[test]
fn address_array_round_trip() {
    let mut host = Host::new();
    let a = NeutronAddress { version: 1, data: [3; 20] };
    let b = NeutronAddress { version: 0xFFFF_FFFF, data: [4; 20] };
    push_costack_array_address(&mut host, &[a, b]);
    assert_eq!(host.costack[0].len(), 48);
    let mut out = [NeutronAddress::default(); 2];
    assert_eq!(pop_costack_fixed_array_address(&mut host, &mut out), Ok(()));
    assert_eq!(out, [a, b]);

    push_costack_array_address(&mut host, &[a, b]);
    let mut short = [NeutronAddress::default(); 1];
    assert_eq!(
        pop_costack_fixed_array_address(&mut host, &mut short),
        Err(RecoverableError::StackItemTooLarge)
    );
}

#[test]
fn empty_array_is_an_empty_frame() {
    let mut host = Host::new();
    push_costack_array_u32(&mut host, &[]);
    assert_eq!(host.costack, vec![Vec::<u8>::new()]);
    let mut out: [u32; 0] = [];
    assert_eq!(pop_costack_fixed_array_u32(&mut host, &mut out), Ok(()));
}

#[test]
fn array_of_other_width_with_same_byte_count_is_reread() {
    let mut host = Host::new();
    push_costack_array_u16(&mut host, &[0x0201, 0x0403]);
    let mut out = [0u32; 1];
    assert_eq!(pop_costack_fixed_array_u32(&mut host, &mut out), Ok(()));
    assert_eq!(out, [0x0403_0201]);
}

#[test]
fn unknown_call_is_a_generic_error() {
    let mut host = Host::new();
    push_costack(&mut host, &[1]);
    assert_eq!(
        _system_call(&mut host, 99, 1),
        Err(SystemError::Generic(HOST_ERR_UNKNOWN_CALL))
    );
    assert_eq!(
        _system_call(&mut host, 4, 5),
        Err(SystemError::Generic(HOST_ERR_UNKNOWN_CALL))
    );
    assert_eq!(
        _system_call(&mut host, 1, 0),
        Err(SystemError::Generic(HOST_ERR_UNKNOWN_CALL))
    );
    assert_eq!(host.costack, vec![vec![1u8]]);
}

#[test]
fn self_address_is_the_zero_address() {
    assert_eq!(get_self_address(), NeutronAddress { version: 0, data: [0; 20] });
}
