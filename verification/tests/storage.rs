use neutron_star::error::SystemError;
use neutron_star::host::{
    Host, HOST_ERR_BAD_OPERAND, HOST_ERR_MISSING_KEY, HOST_OK, STORAGE_EXISTS, STORAGE_LOAD,
    STORAGE_STORE,
};
use neutron_star::storage::{load_state, load_state_fixed, store_state, GlobalStorageFunctions};
use neutron_star::syscalls::{_system_call, push_costack};

#[test]
fn storage_functions_have_their_numbers() {
    assert_eq!(GlobalStorageFunctions::Available.number(), 0);
    assert_eq!(GlobalStorageFunctions::StoreState.number(), 1);
    assert_eq!(GlobalStorageFunctions::LoadState.number(), 2);
    assert_eq!(GlobalStorageFunctions::KeyExists.number(), 3);
    assert_eq!(
        GlobalStorageFunctions::from_number(0),
        Some(GlobalStorageFunctions::Available)
    );
    assert_eq!(
        GlobalStorageFunctions::from_number(1),
        Some(GlobalStorageFunctions::StoreState)
    );
    assert_eq!(
        GlobalStorageFunctions::from_number(2),
        Some(GlobalStorageFunctions::LoadState)
    );
    assert_eq!(
        GlobalStorageFunctions::from_number(3),
        Some(GlobalStorageFunctions::KeyExists)
    );
    assert_eq!(GlobalStorageFunctions::from_number(4), None);
    assert_eq!((STORAGE_STORE, STORAGE_LOAD, STORAGE_EXISTS), (1, 2, 3));
}

#[test]
fn store_then_load() {
    let mut host = Host::new();
    push_costack(&mut host, b"below");
    assert_eq!(store_state(&mut host, b"k", b"value"), Ok(()));
    assert_eq!(host.storage.len(), 1);
    assert_eq!(host.storage[0].key, b"k".to_vec());
    assert_eq!(host.storage[0].value, b"value".to_vec());
    assert_eq!(load_state(&mut host, b"k"), Ok(b"value".to_vec()));
    assert_eq!(host.costack, vec![b"below".to_vec()]);
}

#[test]
fn load_of_missing_key_fails_and_cleans_up() {
    let mut host = Host::new();
    push_costack(&mut host, b"below");
    assert_eq!(
        load_state(&mut host, b"k"),
        Err(SystemError::Generic(HOST_ERR_MISSING_KEY))
    );
    let mut buffer = [1u8; 4];
    assert_eq!(
        load_state_fixed(&mut host, b"k", &mut buffer),
        Err(SystemError::Generic(HOST_ERR_MISSING_KEY))
    );
    assert_eq!(buffer, [1; 4]);
    assert_eq!(host.costack, vec![b"below".to_vec()]);
}

#[test]
fn load_fixed_reports_the_true_length() {
    let mut host = Host::new();
    assert_eq!(store_state(&mut host, b"k", &[1, 2, 3, 4, 5]), Ok(()));
    let mut exact = [0u8; 5];
    assert_eq!(load_state_fixed(&mut host, b"k", &mut exact), Ok(5));
    assert_eq!(exact, [1, 2, 3, 4, 5]);
    let mut short = [0u8; 2];
    assert_eq!(load_state_fixed(&mut host, b"k", &mut short), Ok(5));
    assert_eq!(short, [1, 2]);
    let mut long = [9u8; 7];
    assert_eq!(load_state_fixed(&mut host, b"k", &mut long), Ok(5));
    assert_eq!(long, [1, 2, 3, 4, 5, 9, 9]);
    assert!(host.costack.is_empty());
}

#[test]
fn later_store_under_a_key_is_the_one_loaded() {
    let mut host = Host::new();
    assert_eq!(store_state(&mut host, b"k", b"one"), Ok(()));
    assert_eq!(store_state(&mut host, b"other", b"x"), Ok(()));
    assert_eq!(store_state(&mut host, b"k", b"two"), Ok(()));
    assert_eq!(load_state(&mut host, b"k"), Ok(b"two".to_vec()));
    assert_eq!(load_state(&mut host, b"other"), Ok(b"x".to_vec()));
}

#[test]
fn exists_call_counts_zero_or_one() {
    let mut host = Host::new();
    assert_eq!(store_state(&mut host, b"k", b"v"), Ok(()));
    push_costack(&mut host, b"k");
    assert_eq!(_system_call(&mut host, 1, 3), Ok(1));
    push_costack(&mut host, b"nope");
    assert_eq!(_system_call(&mut host, 1, 3), Ok(0));
    assert!(host.costack.is_empty());
}

#[test]
fn storage_calls_without_operands_fail_atomically() {
    let mut host = Host::new();
    assert_eq!(host.system_call(1, 1), HOST_ERR_BAD_OPERAND);
    assert_eq!(host.system_call(1, 2), HOST_ERR_BAD_OPERAND);
    assert_eq!(host.system_call(1, 3), HOST_ERR_BAD_OPERAND);
    push_costack(&mut host, b"only");
    assert_eq!(host.system_call(1, 1), HOST_ERR_BAD_OPERAND);
    assert_eq!(
        _system_call(&mut host, 1, 1),
        Err(SystemError::Generic(HOST_ERR_BAD_OPERAND))
    );
    assert_eq!(host.costack, vec![b"only".to_vec()]);
    assert!(host.storage.is_empty());
    push_costack(&mut host, b"key");
    assert_eq!(host.system_call(1, 1), HOST_OK);
    assert_eq!(host.storage[0].key, b"key".to_vec());
    assert_eq!(host.storage[0].value, b"only".to_vec());
}

#[test]
fn load_of_an_empty_value() {
    let mut host = Host::new();
    assert_eq!(store_state(&mut host, b"k", b""), Ok(()));
    assert_eq!(load_state(&mut host, b"k"), Ok(Vec::new()));
    assert!(host.costack.is_empty());
}
