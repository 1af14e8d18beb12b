use adbr_server::auth::sign_token;
use adbr_server::connection::{AdbDeviceConnection, build_cnxn_banner, build_cnxn_message};
use adbr_server::message::{AdbMessage, ADB_SERVER_VERSION, CLSE_CODE, CNXN_CODE, MAX_ADB_DATA,
    OKAY_CODE, OPEN_CODE, WRTE_CODE};
use adbr_server::reverse::{HostConnectOutcome, HostReadEvent, RelayAction, ReverseSetupState,
    ReverseStepAction, relay_read_action, reverse_connect_step};
use adbr_server::tinfo::AdbTransactionInfo;
use adbr_server::transport::ScriptedTransport;
use rand::SeedableRng;
use rsa::pkcs8::EncodePrivateKey;
use rsa::{Pkcs1v15Sign, RsaPrivateKey};

fn wire_packet(command: u32, arg0: u32, arg1: u32, data: &[u8]) -> Vec<u8> {
    let msg = AdbMessage::new(command, arg0, arg1, data.to_vec());
    let mut bytes = msg.pack_message();
    bytes.extend_from_slice(data);
    bytes
}

fn connection_with_script(script: Vec<u8>) -> AdbDeviceConnection<ScriptedTransport> {
    let transport = ScriptedTransport::new(script, true);
    AdbDeviceConnection::new(String::new(), Vec::new(), transport)
}

#[test]
fn cnxn_banner_is_host_prefix_hostname_and_nul() {
    let banner = build_cnxn_banner("myhost");
    assert_eq!(banner, b"host::myhost\0".to_vec());
}

#[test]
fn cnxn_message_carries_version_limit_and_banner() {
    let msg = build_cnxn_message("myhost");
    assert_eq!(msg.command(), CNXN_CODE);
    assert_eq!(msg.arg0(), ADB_SERVER_VERSION);
    assert_eq!(msg.arg1(), MAX_ADB_DATA);
    assert_eq!(msg.data().as_slice(), b"host::myhost\0");
}

#[test]
fn send_cnxn_writes_header_then_banner() {
    let mut conn = connection_with_script(Vec::new());
    conn.send_cnxn_command("myhost", None).expect("writes always succeed in memory");
    let written = conn.transport_ref().written();
    assert_eq!(written.len(), 2);
    let expected = build_cnxn_message("myhost");
    assert_eq!(written[0], expected.pack_message());
    assert_eq!(written[1], b"host::myhost\0".to_vec());
}

#[test]
fn open_allocates_fresh_local_ids() {
    let mut conn = connection_with_script(Vec::new());
    let first = conn.send_open_command("shell:ls\0", None).expect("write succeeds");
    let second = conn.send_open_command("sync:", None).expect("write succeeds");
    assert_eq!(first.sent_packet_id(), 1);
    assert_eq!(first.receive_packet_id(), 0);
    assert_eq!(second.sent_packet_id(), 2);
}

#[test]
fn read_expected_parks_packets_for_other_streams() {
    // First a packet for a different stream, then the one awaited.
    let mut script = Vec::new();
    script.extend_from_slice(&wire_packet(WRTE_CODE, 9, 42, b"other"));
    script.extend_from_slice(&wire_packet(OKAY_CODE, 5, 1, b""));
    let mut conn = connection_with_script(script);
    let tinfo = AdbTransactionInfo::new(1, 0);
    let msg = conn
        .read_expected_packet(&[OKAY_CODE], None, &tinfo, 8, 100)
        .expect("the awaited OKAY arrives second");
    assert_eq!(msg.command(), OKAY_CODE);
    assert_eq!(msg.arg0(), 5);
    assert_eq!(msg.arg1(), 1);
    // The other stream's packet was parked and can be fetched by its owner.
    let other = AdbTransactionInfo::new(42, 9);
    let parked = conn
        .read_expected_packet(&[WRTE_CODE], None, &other, 1, 100)
        .expect("the parked packet is served from the store");
    assert_eq!(parked.data().as_slice(), b"other");
}

#[test]
fn read_expected_times_out_when_nothing_matches() {
    let mut conn = connection_with_script(Vec::new());
    let tinfo = AdbTransactionInfo::new(1, 0);
    let err = conn.read_expected_packet(&[OKAY_CODE], None, &tinfo, 3, 100);
    assert!(matches!(err, Err(adbr_server::errors::AdbConnectionError::Timeout)));
}

#[test]
fn checksum_mismatch_is_a_protocol_violation() {
    // A WRTE whose header announces checksum 0 but whose payload sums to 3.
    let msg = AdbMessage::new(WRTE_CODE, 5, 1, Vec::new());
    let mut bytes = msg.pack_message();
    bytes[12] = 3; // data length 3
    bytes.extend_from_slice(&[1u8, 1, 1]);
    let mut conn = connection_with_script(bytes);
    let tinfo = AdbTransactionInfo::new(1, 0);
    let err = conn.read_expected_packet(&[], None, &tinfo, 2, 100);
    assert!(err.is_err());
    assert!(!matches!(err, Err(adbr_server::errors::AdbConnectionError::Timeout)));
}

fn dent(name: &[u8]) -> Vec<u8> {
    let mut d = b"DENT".to_vec();
    d.extend_from_slice(&0u32.to_le_bytes()); // mode
    d.extend_from_slice(&0u32.to_le_bytes()); // size
    d.extend_from_slice(&0u32.to_le_bytes()); // mtime
    d.extend_from_slice(&(name.len() as u32).to_le_bytes());
    d.extend_from_slice(name);
    d
}

#[test]
fn sync_list_forwards_each_dent_then_done_and_returns() {
    // Script: OKAY for the sync OPEN, OKAY for the LIST request, then one
    // WRTE carrying DENT("a") DENT("bb") DONE, then silence.
    let mut payload = dent(b"a");
    payload.extend_from_slice(&dent(b"bb"));
    payload.extend_from_slice(b"DONE");
    let mut script = Vec::new();
    script.extend_from_slice(&wire_packet(OKAY_CODE, 5, 1, b""));
    script.extend_from_slice(&wire_packet(OKAY_CODE, 5, 1, b""));
    script.extend_from_slice(&wire_packet(WRTE_CODE, 5, 1, &payload));
    let mut conn = connection_with_script(script);
    let tinfo = conn.initialize_sync_mode(4, 100).expect("the device acknowledges sync:");
    assert_eq!(tinfo.sent_packet_id(), 1);
    assert_eq!(tinfo.receive_packet_id(), 5);
    let records = conn.handle_list_command(&tinfo, "/data", 6, 100).expect("listing completes");
    assert_eq!(records.len(), 3);
    assert_eq!(records[0], dent(b"a"));
    assert_eq!(records[1], dent(b"bb"));
    assert_eq!(records[2], b"DONE".to_vec());
}

#[test]
fn sync_list_surfaces_a_device_fail() {
    let mut payload = b"FAIL".to_vec();
    payload.extend_from_slice(b"no such dir");
    let mut script = Vec::new();
    script.extend_from_slice(&wire_packet(OKAY_CODE, 5, 1, b""));
    script.extend_from_slice(&wire_packet(OKAY_CODE, 5, 1, b""));
    script.extend_from_slice(&wire_packet(WRTE_CODE, 5, 1, &payload));
    let mut conn = connection_with_script(script);
    let tinfo = conn.initialize_sync_mode(4, 100).expect("sync opens");
    let err = conn.handle_list_command(&tinfo, "/nope", 6, 100);
    match err {
        Err(adbr_server::errors::AdbConnectionError::SyncError(m)) => {
            assert!(m.contains("no such dir"));
        },
        other => panic!("expected a sync error, got {:?}", other.is_ok()),
    }
}

#[test]
fn sync_stat_echoes_the_devices_stat_record() {
    let mut stat_reply = b"STAT".to_vec();
    stat_reply.extend_from_slice(&0o100644u32.to_le_bytes());
    stat_reply.extend_from_slice(&1234u32.to_le_bytes());
    stat_reply.extend_from_slice(&99u32.to_le_bytes());
    let mut script = Vec::new();
    script.extend_from_slice(&wire_packet(OKAY_CODE, 5, 1, b""));
    script.extend_from_slice(&wire_packet(OKAY_CODE, 5, 1, b""));
    script.extend_from_slice(&wire_packet(WRTE_CODE, 5, 1, &stat_reply));
    let mut conn = connection_with_script(script);
    let tinfo = conn.initialize_sync_mode(4, 100).expect("sync opens");
    let reply = conn.handle_stat_command(&tinfo, "/data", 6, 100).expect("stat succeeds");
    assert_eq!(reply, stat_reply);
}

#[test]
fn sync_send_rechunks_the_client_buffer() {
    // 100000 payload bytes need two WRTE chunks (64 KiB + remainder).
    let mut script = Vec::new();
    script.extend_from_slice(&wire_packet(OKAY_CODE, 5, 1, b"")); // open
    script.extend_from_slice(&wire_packet(OKAY_CODE, 5, 1, b"")); // init
    script.extend_from_slice(&wire_packet(OKAY_CODE, 5, 1, b"")); // chunk 1
    script.extend_from_slice(&wire_packet(OKAY_CODE, 5, 1, b"")); // chunk 2
    let mut conn = connection_with_script(script);
    let tinfo = conn.initialize_sync_mode(4, 100).expect("sync opens");
    let mut buffer: Vec<u8> = Vec::new();
    adbr_server::sync::append_data_chunk(&mut buffer, &vec![7u8; 99992]);
    adbr_server::sync::append_done(&mut buffer, 1700000000);
    assert_eq!(buffer.len(), 100008);
    conn.handle_send_command(&tinfo, "/data/f", 0o644, &buffer, 8, 100).expect("send completes");
    let written = conn.transport_ref().written();
    // OPEN hdr+data, WRTE init hdr+data, WRTE chunk1 hdr+data, WRTE chunk2 hdr+data.
    assert_eq!(written.len(), 8);
    assert_eq!(written[5].len(), 65536);
    assert_eq!(written[7].len(), 100008 - 65536);
}

#[test]
fn signed_tokens_verify_under_the_public_key() {
    let mut rng = rand::rngs::StdRng::seed_from_u64(7);
    let key = RsaPrivateKey::new(&mut rng, 512).expect("key generation");
    let pem = key.to_pkcs8_pem(rsa::pkcs8::LineEnding::LF).expect("encodes");
    let token = [0x58u8; 20];
    let signature = sign_token(pem.as_str(), &token).expect("signing succeeds");
    assert_ne!(signature.as_slice(), token.as_slice());
    let mut digest_info = vec![
        0x30, 0x21, 0x30, 0x09, 0x06, 0x05, 0x2b, 0x0e, 0x03, 0x02, 0x1a, 0x05, 0x00, 0x04,
        0x14,
    ];
    digest_info.extend_from_slice(&token);
    key.to_public_key()
        .verify(Pkcs1v15Sign::new_unprefixed(), &digest_info, &signature)
        .expect("the signature verifies");
}

#[test]
fn sign_token_rejects_a_bad_key() {
    assert!(sign_token("not a pem", &[1, 2, 3]).is_err());
}

#[test]
fn reverse_refusal_reports_once_then_success_starts_relay_once() {
    let mut state = ReverseSetupState { reported: false, relay_started: false };
    let first = reverse_connect_step(&mut state, &HostConnectOutcome::Refused);
    assert!(matches!(first, ReverseStepAction::RetryAfterDelay { report_ready: true }));
    assert!(!state.relay_started);
    let second = reverse_connect_step(&mut state, &HostConnectOutcome::Connected);
    assert!(matches!(second, ReverseStepAction::StartRelay { report_success: false }));
    assert!(state.relay_started);
}

#[test]
fn reverse_hard_failure_reports_only_while_result_is_owed() {
    let mut fresh = ReverseSetupState { reported: false, relay_started: false };
    let abort = reverse_connect_step(&mut fresh, &HostConnectOutcome::Failed("x".to_string()));
    assert!(matches!(abort, ReverseStepAction::Abort { report_failure: true }));

    let mut late = ReverseSetupState { reported: true, relay_started: false };
    let retry = reverse_connect_step(&mut late, &HostConnectOutcome::Failed("x".to_string()));
    assert!(matches!(retry, ReverseStepAction::RetryAfterDelay { report_ready: false }));
}

#[test]
fn relay_reconnects_on_eof_and_disconnects_only() {
    assert!(matches!(relay_read_action(&HostReadEvent::Data), RelayAction::ForwardToDevice));
    assert!(matches!(relay_read_action(&HostReadEvent::Eof), RelayAction::Reconnect));
    assert!(matches!(relay_read_action(&HostReadEvent::Disconnected), RelayAction::Reconnect));
    assert!(matches!(relay_read_action(&HostReadEvent::TimedOut), RelayAction::Skip));
    assert!(matches!(relay_read_action(&HostReadEvent::OtherError), RelayAction::Skip));
}

#[test]
fn reverse_setup_runs_the_full_exchange() {
    let mut script = Vec::new();
    script.extend_from_slice(&wire_packet(OKAY_CODE, 5, 1, b""));
    script.extend_from_slice(&wire_packet(WRTE_CODE, 5, 1, &4242u32.to_le_bytes()));
    script.extend_from_slice(&wire_packet(CLSE_CODE, 5, 1, b""));
    let mut conn = connection_with_script(script);
    let info = adbr_server::forward_info::AdbPortReverseInfo::new(
        adbr_server::forward::ForwardType::Tcp(4242),
        adbr_server::forward::ForwardType::Tcp(9000),
    );
    conn.reverse_setup(&info, 6, 100).expect("the exchange completes");
    let written = conn.transport_ref().written();
    // The OPEN payload names the reverse command.
    assert_eq!(written[1], b"reverse:forward:tcp:4242;tcp:9000".to_vec());
}

#[test]
fn reverse_accepts_the_open_with_or_without_trailing_nul() {
    // The device omits the trailing NUL of the host spec here.
    let mut script = Vec::new();
    script.extend_from_slice(&wire_packet(OPEN_CODE, 77, 0, b"tcp:9000"));
    let mut conn = connection_with_script(script);
    let info = adbr_server::forward_info::AdbPortReverseInfo::new(
        adbr_server::forward::ForwardType::Tcp(4242),
        adbr_server::forward::ForwardType::Tcp(9000),
    );
    let tinfo = conn.initialize_reverse_connection(&info, 4, 100).expect("the OPEN matches");
    assert_eq!(tinfo.receive_packet_id(), 77);
    assert!(tinfo.sent_packet_id() != 0);
}

#[test]
fn shell_command_drains_until_close() {
    let mut script = Vec::new();
    script.extend_from_slice(&wire_packet(OKAY_CODE, 5, 1, b""));
    script.extend_from_slice(&wire_packet(WRTE_CODE, 5, 1, b"hi\n"));
    script.extend_from_slice(&wire_packet(CLSE_CODE, 5, 1, b""));
    let mut conn = connection_with_script(script);
    let out = conn.adb_shell_command("shell:echo hi\0", 6, 100).expect("the shell completes");
    assert_eq!(out, b"hi\n".to_vec());
}

#[test]
fn port_forward_rejection_is_reported() {
    let mut script = Vec::new();
    script.extend_from_slice(&wire_packet(CLSE_CODE, 5, 1, b""));
    let mut conn = connection_with_script(script);
    let info = adbr_server::forward_info::AdbPortForwardInfo::new(
        adbr_server::forward::ForwardType::Tcp(6000),
        adbr_server::forward::ForwardType::Tcp(5555),
    );
    let err = conn.handle_port_forward_incoming_message(b"ping", &info, 4, 100);
    assert!(matches!(
        err,
        Err(adbr_server::errors::AdbConnectionError::PortForwardSetupFailed(_))
    ));
}

#[test]
fn port_forward_relays_request_and_response() {
    let mut script = Vec::new();
    script.extend_from_slice(&wire_packet(OKAY_CODE, 5, 1, b""));
    script.extend_from_slice(&wire_packet(WRTE_CODE, 5, 1, b"pong"));
    script.extend_from_slice(&wire_packet(CLSE_CODE, 5, 1, b""));
    let mut conn = connection_with_script(script);
    let info = adbr_server::forward_info::AdbPortForwardInfo::new(
        adbr_server::forward::ForwardType::Tcp(6000),
        adbr_server::forward::ForwardType::Tcp(5555),
    );
    let reply = conn.handle_port_forward_incoming_message(b"ping", &info, 6, 100).expect("relayed");
    assert_eq!(reply, b"pong".to_vec());
    let written = conn.transport_ref().written();
    assert_eq!(written[1], b"tcp:5555\0".to_vec());
    assert_eq!(written[3], b"ping".to_vec());
}

#[test]
fn remount_returns_the_devices_reply_text() {
    let mut script = Vec::new();
    script.extend_from_slice(&wire_packet(OKAY_CODE, 5, 1, b""));
    script.extend_from_slice(&wire_packet(WRTE_CODE, 5, 1, b"remount succeeded"));
    let mut conn = connection_with_script(script);
    let reply = conn.adb_remount(6, 100).expect("the exchange completes");
    assert_eq!(reply, "remount succeeded");
    let written = conn.transport_ref().written();
    assert_eq!(written[1], b"remount:".to_vec());
}

#[test]
fn host_name_wrapper_answers() {
    // The machine's name cannot be pinned down; the call must simply work.
    let name = adbr_server::connection::host_name();
    if let Some(n) = name {
        assert!(!n.is_empty());
    }
}

#[test]
fn reboot_sends_only_the_open() {
    let mut conn = connection_with_script(Vec::new());
    conn.adb_reboot("reboot:bootloader", 100).expect("the open is written");
    let written = conn.transport_ref().written();
    assert_eq!(written.len(), 2);
    assert_eq!(written[1], b"reboot:bootloader".to_vec());
}

#[test]
fn sync_quit_tolerates_a_silent_close() {
    let mut script = Vec::new();
    script.extend_from_slice(&wire_packet(OKAY_CODE, 5, 1, b"")); // open
    script.extend_from_slice(&wire_packet(OKAY_CODE, 5, 1, b"")); // quit ack
    let mut conn = connection_with_script(script);
    let tinfo = conn.initialize_sync_mode(4, 100).expect("sync opens");
    conn.handle_quit_command(&tinfo, 4, 100).expect("a missing CLSE is tolerated");
}

fn connection_with_script_and_key(script: Vec<u8>) -> AdbDeviceConnection<ScriptedTransport> {
    let mut rng = rand::rngs::StdRng::seed_from_u64(11);
    let key = RsaPrivateKey::new(&mut rng, 512).expect("key generation");
    let pem = key.to_pkcs8_pem(rsa::pkcs8::LineEnding::LF).expect("encodes");
    let transport = ScriptedTransport::new(script, true);
    AdbDeviceConnection::new(pem.to_string(), b"PUBKEY".to_vec(), transport)
}

#[test]
fn connect_succeeds_when_the_device_already_trusts_us() {
    // The device answers the CNXN greeting with an OPEN: no auth needed.
    let script = wire_packet(OPEN_CODE, 1, 0, b"");
    let mut conn = connection_with_script_and_key(script);
    conn.adb_connect("host1", 4, 100).expect("the device trusts this host");
}

#[test]
fn auth_challenge_is_answered_with_a_signature() {
    let token = [0x58u8; 20];
    let mut script = Vec::new();
    script.extend_from_slice(&wire_packet(adbr_server::message::AUTH_CODE, 1, 0, &token));
    script.extend_from_slice(&wire_packet(CNXN_CODE, ADB_SERVER_VERSION, MAX_ADB_DATA, b"device::x\0"));
    let mut conn = connection_with_script_and_key(script);
    conn.adb_connect("host1", 4, 100).expect("the signed token is accepted");
    let written = conn.transport_ref().written();
    // CNXN header+banner, then the AUTH(SIGNATURE) header+signature.
    assert_eq!(written.len(), 4);
    let (cmd, arg0, arg1, sig_len, _checksum) =
        AdbMessage::unpack_message(&written[2]).expect("a header");
    assert_eq!(cmd, adbr_server::message::AUTH_CODE);
    assert_eq!(arg0, 2); // AUTH type: signature
    assert_eq!(arg1, 0);
    assert_eq!(written[3].len(), sig_len as usize);
    assert_ne!(written[3].as_slice(), token.as_slice());
}

#[test]
fn auth_falls_back_to_the_public_key() {
    let token = [0x59u8; 20];
    let mut script = Vec::new();
    script.extend_from_slice(&wire_packet(adbr_server::message::AUTH_CODE, 1, 0, &token));
    // The device challenges again instead of connecting: the public key goes out.
    script.extend_from_slice(&wire_packet(adbr_server::message::AUTH_CODE, 1, 0, &token));
    script.extend_from_slice(&wire_packet(CNXN_CODE, ADB_SERVER_VERSION, MAX_ADB_DATA, b"device::x\0"));
    let mut conn = connection_with_script_and_key(script);
    conn.adb_connect("host1", 4, 100).expect("the public key round completes");
    let written = conn.transport_ref().written();
    // CNXN, AUTH(SIGNATURE), AUTH(RSAPUB): three messages, each header+payload.
    assert_eq!(written.len(), 6);
    let (cmd, arg0, _, _, _) = AdbMessage::unpack_message(&written[4]).expect("a header");
    assert_eq!(cmd, adbr_server::message::AUTH_CODE);
    assert_eq!(arg0, 3); // AUTH type: RSA public key
    assert_eq!(written[5], b"PUBKEY".to_vec());
}
