use adbr_server::ids::LocalIdAllocator;
use adbr_server::message::{AdbMessage, ADB_MESSAGE_SIZE, CNXN_CODE, OKAY_CODE, WRTE_CODE};
use adbr_server::tinfo::AdbTransactionInfo;

#[test]
fn checksum_of_empty_payload_is_zero() {
    let msg = AdbMessage::new(CNXN_CODE, 1, 2, Vec::new());
    assert_eq!(msg.checksum(), 0);
}

#[test]
fn checksum_is_sum_of_bytes() {
    let msg = AdbMessage::new(WRTE_CODE, 1, 2, vec![1, 2, 3, 250, 255]);
    assert_eq!(msg.checksum(), 1 + 2 + 3 + 250 + 255);
}

#[test]
fn new_message_inverts_command_into_magic() {
    let msg = AdbMessage::new(OKAY_CODE, 0, 0, Vec::new());
    assert_eq!(msg.magic(), OKAY_CODE ^ 0xFFFFFFFF);
}

#[test]
fn pack_message_is_little_endian_header() {
    let msg = AdbMessage::new(0x04030201, 0x08070605, 0x0C0B0A09, vec![0x10, 0x20]);
    let packed = msg.pack_message();
    assert_eq!(packed.len(), ADB_MESSAGE_SIZE);
    assert_eq!(&packed[0..4], &[0x01, 0x02, 0x03, 0x04]);
    assert_eq!(&packed[4..8], &[0x05, 0x06, 0x07, 0x08]);
    assert_eq!(&packed[8..12], &[0x09, 0x0A, 0x0B, 0x0C]);
    assert_eq!(&packed[12..16], &[0x02, 0x00, 0x00, 0x00]);
    assert_eq!(&packed[16..20], &[0x30, 0x00, 0x00, 0x00]);
    assert_eq!(&packed[20..24], &[0xFE, 0xFD, 0xFC, 0xFB]);
}

#[test]
fn pack_then_unpack_recovers_the_header() {
    let data = vec![7u8, 8, 9, 10, 11];
    let msg = AdbMessage::new(CNXN_CODE, 0x01000000, 0x00100000, data.clone());
    let packed = msg.pack_message();
    let (command, arg0, arg1, data_len, checksum) =
        AdbMessage::unpack_message(&packed).expect("a 24-byte header must unpack");
    assert_eq!(command, CNXN_CODE);
    assert_eq!(arg0, 0x01000000);
    assert_eq!(arg1, 0x00100000);
    assert_eq!(data_len, data.len() as u32);
    assert_eq!(checksum, 7 + 8 + 9 + 10 + 11);
    assert_eq!(msg.magic(), CNXN_CODE ^ 0xFFFFFFFF);
}

#[test]
fn unpack_rejects_short_buffers() {
    let short = vec![0u8; 23];
    assert!(AdbMessage::unpack_message(&short).is_err());
}

#[test]
fn set_data_replaces_the_payload() {
    let mut msg = AdbMessage::new(WRTE_CODE, 1, 2, Vec::new());
    msg.set_data(vec![1, 2, 3]);
    assert_eq!(msg.data().as_slice(), &[1, 2, 3]);
    assert_eq!(msg.checksum(), 6);
}

#[test]
fn args_match_requires_local_id_and_learned_remote() {
    let tinfo = AdbTransactionInfo::new(10, 20);
    assert!(tinfo.args_match(20, 10));
    assert!(!tinfo.args_match(21, 10));
    assert!(!tinfo.args_match(20, 11));
    assert!(!tinfo.args_match(20, 20));
}

#[test]
fn args_match_accepts_any_remote_before_it_is_learned() {
    let tinfo = AdbTransactionInfo::new(10, 0);
    assert!(tinfo.args_match(999, 10));
    assert!(tinfo.args_match(0, 10));
    assert!(!tinfo.args_match(999, 11));
}

#[test]
fn set_receive_packet_id_updates_the_remote() {
    let mut tinfo = AdbTransactionInfo::new(10, 0);
    tinfo.set_receive_packet_id(33);
    assert_eq!(tinfo.sent_packet_id(), 10);
    assert_eq!(tinfo.receive_packet_id(), 33);
}

#[test]
fn local_ids_count_up_from_one_and_are_never_zero() {
    let mut alloc = LocalIdAllocator::new();
    let first = alloc.next_id();
    let second = alloc.next_id();
    let third = alloc.next_id();
    assert_eq!(first, 1);
    assert_eq!(second, 2);
    assert_eq!(third, 3);
    assert!(first != 0 && second != 0 && third != 0);
    assert!(second > first && third > second);
}
