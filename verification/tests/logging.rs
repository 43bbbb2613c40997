use neutron_star::host::{
    Host, HOST_ERR_BAD_OPERAND, LOG_DEBUG, LOG_ERROR, LOG_INFO, LOG_WARNING,
};
use neutron_star::logging::{
    log_debug, log_debug_from_costack, log_error, log_error_from_costack, log_from_costack,
    log_info, log_info_from_costack, log_message, log_warning, log_warning_from_costack,
    LoggingFunctions,
};
use neutron_star::syscalls::push_costack;
use neutron_star::testing::{Printer, _print, MAX_PARTS};

#[test]
fn levels_have_their_function_numbers() {
    assert_eq!(LoggingFunctions::LogDebug.number(), 1);
    assert_eq!(LoggingFunctions::LogInfo.number(), 2);
    assert_eq!(LoggingFunctions::LogWarning.number(), 3);
    assert_eq!(LoggingFunctions::LogError.number(), 4);
    assert_eq!(LoggingFunctions::from_number(0), None);
    assert_eq!(LoggingFunctions::from_number(1), Some(LoggingFunctions::LogDebug));
    assert_eq!(LoggingFunctions::from_number(2), Some(LoggingFunctions::LogInfo));
    assert_eq!(LoggingFunctions::from_number(3), Some(LoggingFunctions::LogWarning));
    assert_eq!(LoggingFunctions::from_number(4), Some(LoggingFunctions::LogError));
    assert_eq!(LoggingFunctions::from_number(5), None);
}

#[test]
fn each_level_reaches_the_sink() {
    let mut host = Host::new();
    log_debug(&mut host, "d");
    log_info(&mut host, "i");
    log_warning(&mut host, "w");
    log_error(&mut host, "e");
    assert_eq!(host.log.len(), 4);
    assert_eq!((host.log[0].level, host.log[0].message.as_slice()), (LOG_DEBUG, &b"d"[..]));
    assert_eq!((host.log[1].level, host.log[1].message.as_slice()), (LOG_INFO, &b"i"[..]));
    assert_eq!((host.log[2].level, host.log[2].message.as_slice()), (LOG_WARNING, &b"w"[..]));
    assert_eq!((host.log[3].level, host.log[3].message.as_slice()), (LOG_ERROR, &b"e"[..]));
    assert!(host.costack.is_empty());
}

#[test]
fn logging_leaves_the_channel_below_alone() {
    let mut host = Host::new();
    push_costack(&mut host, b"below");
    log_info(&mut host, "hello");
    assert_eq!(host.costack, vec![b"below".to_vec()]);
    assert_eq!(host.log[0].message, b"hello".to_vec());
    log_message(&mut host, LoggingFunctions::LogError, &[0xFF, 0x00]);
    assert_eq!(host.log[1].level, LOG_ERROR);
    assert_eq!(host.log[1].message, vec![0xFFu8, 0x00]);
}

#[test]
fn fragments_from_the_channel_are_joined_in_push_order() {
    let mut host = Host::new();
    push_costack(&mut host, b"below");
    push_costack(&mut host, b"a");
    push_costack(&mut host, b"b");
    push_costack(&mut host, b"c");
    log_info_from_costack(&mut host, 3);
    assert_eq!(host.log.len(), 1);
    assert_eq!(host.log[0].level, LOG_INFO);
    assert_eq!(host.log[0].message, b"abc".to_vec());
    assert_eq!(host.costack, vec![b"below".to_vec()]);
}

#[test]
fn from_costack_at_each_level() {
    let mut host = Host::new();
    push_costack(&mut host, b"1");
    log_debug_from_costack(&mut host, 1);
    push_costack(&mut host, b"2");
    push_costack(&mut host, b"3");
    log_warning_from_costack(&mut host, 2);
    log_error_from_costack(&mut host, 0);
    log_from_costack(&mut host, LoggingFunctions::LogInfo, 0);
    assert_eq!(host.log.len(), 4);
    assert_eq!((host.log[0].level, host.log[0].message.as_slice()), (LOG_DEBUG, &b"1"[..]));
    assert_eq!((host.log[1].level, host.log[1].message.as_slice()), (LOG_WARNING, &b"23"[..]));
    assert_eq!((host.log[2].level, host.log[2].message.as_slice()), (LOG_ERROR, &b""[..]));
    assert_eq!((host.log[3].level, host.log[3].message.as_slice()), (LOG_INFO, &b""[..]));
    assert!(host.costack.is_empty());
}

#[test]
fn host_log_call_refuses_bad_operands() {
    let mut host = Host::new();
    assert_eq!(host.system_call(4, 2), HOST_ERR_BAD_OPERAND);
    push_costack(&mut host, b"ab");
    assert_eq!(host.system_call(4, 2), HOST_ERR_BAD_OPERAND);
    push_costack(&mut host, &[2]);
    assert_eq!(host.system_call(4, 2), HOST_ERR_BAD_OPERAND);
    assert_eq!(host.costack, vec![b"ab".to_vec(), vec![2u8]]);
    assert!(host.log.is_empty());
}

#[test]
fn printer_joins_fragments_in_order() {
    let mut host = Host::new();
    let mut p = Printer::default();
    p.write_str(&mut host, "a");
    p.write_str(&mut host, "b");
    p.write_str(&mut host, "c");
    assert_eq!(p.pending(), 3);
    assert_eq!(
        host.costack,
        vec![b"a".to_vec(), b"b".to_vec(), b"c".to_vec()]
    );
    assert!(host.log.is_empty());
    p.flush(&mut host);
    assert_eq!(p.pending(), 0);
    assert_eq!(host.log.len(), 1);
    assert_eq!(host.log[0].level, LOG_INFO);
    assert_eq!(host.log[0].message, b"abc".to_vec());
    assert!(host.costack.is_empty());
}

#[test]
fn printer_flushes_once_on_the_way_to_256_fragments() {
    let mut host = Host::new();
    let mut p = Printer::default();
    let mut first = Vec::new();
    for i in 0..255u32 {
        let fragment = format!("{},", i);
        p.write_str(&mut host, &fragment);
        first.extend_from_slice(fragment.as_bytes());
    }
    assert_eq!(p.pending(), MAX_PARTS);
    assert!(host.log.is_empty());
    assert_eq!(host.costack.len(), 255);
    p.write_str(&mut host, "last");
    assert_eq!(host.log.len(), 1);
    assert_eq!(host.log[0].message, first);
    assert_eq!(p.pending(), 1);
    assert_eq!(host.costack, vec![b"last".to_vec()]);
    p.flush(&mut host);
    assert_eq!(host.log.len(), 2);
    assert_eq!(host.log[1].message, b"last".to_vec());
    assert!(host.costack.is_empty());
}

#[test]
fn printer_takes_bytes_too() {
    let mut host = Host::new();
    let mut p = Printer::default();
    p.write_bytes(&mut host, &[1, 2]);
    p.write_bytes(&mut host, &[]);
    p.write_bytes(&mut host, &[3]);
    p.flush(&mut host);
    assert_eq!(host.log[0].message, vec![1u8, 2, 3]);
}

#[test]
fn print_is_one_message() {
    let mut host = Host::new();
    push_costack(&mut host, b"below");
    _print(&mut host, &["a", "b", "c"]);
    assert_eq!(host.log.len(), 1);
    assert_eq!(host.log[0].level, LOG_INFO);
    assert_eq!(host.log[0].message, b"abc".to_vec());
    assert_eq!(host.costack, vec![b"below".to_vec()]);
}

#[test]
fn print_of_nothing_is_an_empty_message() {
    let mut host = Host::new();
    _print(&mut host, &[]);
    assert_eq!(host.log.len(), 1);
    assert_eq!(host.log[0].message, Vec::<u8>::new());
}

#[test]
fn print_of_255_fragments_is_one_message() {
    let mut host = Host::new();
    let fragments = vec!["x"; 255];
    _print(&mut host, &fragments);
    assert_eq!(host.log.len(), 1);
    assert_eq!(host.log[0].message, vec![b'x'; 255]);
}

#[test]
fn print_of_256_fragments_is_two_messages() {
    let mut host = Host::new();
    let mut fragments = vec!["x"; 255];
    fragments.push("y");
    _print(&mut host, &fragments);
    assert_eq!(host.log.len(), 2);
    assert_eq!(host.log[0].message, vec![b'x'; 255]);
    assert_eq!(host.log[1].message, b"y".to_vec());
    assert!(host.costack.is_empty());
}

#[test]
fn print_of_511_fragments_is_three_messages() {
    let mut host = Host::new();
    let fragments = vec!["z"; 511];
    _print(&mut host, &fragments);
    assert_eq!(host.log.len(), 3);
    assert_eq!(host.log[0].message.len(), 255);
    assert_eq!(host.log[1].message.len(), 255);
    assert_eq!(host.log[2].message.len(), 1);
}

#[test]
fn finish_flushes_only_what_is_pending() {
    let mut host = Host::new();
    let p = Printer::default();
    p.finish(&mut host);
    assert!(host.log.is_empty());
    let mut q = Printer::default();
    q.write_str(&mut host, "left");
    q.write_str(&mut host, "over");
    q.finish(&mut host);
    assert_eq!(host.log.len(), 1);
    assert_eq!(host.log[0].message, b"leftover".to_vec());
    assert!(host.costack.is_empty());
}

#[test]
fn printer_counts_parts() {
    let mut p = Printer::default();
    assert!(!p.must_flush());
    for _ in 0..255 {
        p.count_part();
    }
    assert!(p.must_flush());
    assert_eq!(p.take_parts(), 255);
    assert_eq!(p.pending(), 0);
    assert!(!p.must_flush());
}
