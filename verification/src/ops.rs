use vstd::prelude::*;
use crate::chars::bytes_to_string;
use crate::connection::{AdbDeviceConnection, StreamEvent, spec_drained_data, spec_drain_acks};
use crate::errors::AdbConnectionError;
use crate::forward::{fwd_kind, fwd_num, fwd_name, spec_print_forward_pair};
use crate::forward_info::AdbPortForwardInfo;
use crate::ids::spec_next_id;
use crate::message::{MAX_ADB_DATA, OKAY_CODE, CLSE_CODE, OPEN_CODE, WRTE_CODE, spec_message_chunks};
use crate::responses::{ensure_null_terminated, spec_null_terminated};
use crate::tinfo::AdbTransactionInfo;
use crate::transport::Transport;
use vstd::string::StringExecFns;
use vstd::string::StringSliceAdditionalSpecFns;

verus! {

/// The timeout for an ordinary one-shot shell command, in milliseconds.
pub const SHELL_COMMAND_TIMEOUT_MS: u64 = 15000;

/// The timeout for a bug report, which takes much longer.
pub const BUGREPORT_TIMEOUT_MS: u64 = 100000;

impl<T: Transport> AdbDeviceConnection<T> {
    /// Runs one request/response exchange over a fresh stream: OPEN the
    /// command, learn the remote id from the OKAY, take the WRTE reply,
    /// close the stream, and return the reply as text.  On success
    /// exactly the OPEN and the CLSE went out, exactly an OKAY and a
    /// WRTE were delivered, and the text is the WRTE's payload.
    fn run_simple_command(&mut self, command: &str, attempts: u64, data_timeout_ms: u64) -> (r:
        Result<String, AdbConnectionError>)
        requires
            old(self).wf(),
        ensures
            final(self).wf(),
            r matches Ok(text) ==> ({
                let n = old(self).spec_delivered().len() as int;
                let d = final(self).spec_delivered();
                &&& old(self).spec_delivered().is_prefix_of(d)
                &&& d.len() == n + 2
                &&& d[n].spec_command() == OKAY_CODE
                &&& d[n + 1].spec_command() == WRTE_CODE
                &&& vstd::utf8::encode_utf8(text@) == d[n + 1].spec_data()
                &&& final(self).spec_sent() == old(self).spec_sent() + spec_message_chunks(
                    OPEN_CODE,
                    spec_next_id(old(self).spec_last_id()),
                    0,
                    command.spec_bytes(),
                ) + spec_message_chunks(
                    CLSE_CODE,
                    spec_next_id(old(self).spec_last_id()),
                    d[n].spec_arg0(),
                    Seq::<u8>::empty(),
                )
            }),
    {
        let mut tinfo = match self.send_open_command(command, Some(data_timeout_ms)) {
            Ok(t) => t,
            Err(err) => {
                return Err(err);
            },
        };
        let okay = match self.read_okay_response(&tinfo, attempts, data_timeout_ms) {
            Ok(m) => m,
            Err(err) => {
                return Err(err);
            },
        };
        tinfo.set_receive_packet_id(okay.arg0());
        let reply = match self.read_wrte_response(&tinfo, attempts, data_timeout_ms) {
            Ok(m) => m,
            Err(err) => {
                return Err(err);
            },
        };
        match self.send_clse_command(&tinfo, Some(data_timeout_ms)) {
            Ok(()) => {
            },
            Err(err) => {
                return Err(err);
            },
        }
        proof {
            assert(old(self).spec_delivered().is_prefix_of(self.spec_delivered())) by {
                assert(self.spec_delivered().subrange(
                    0,
                    old(self).spec_delivered().len() as int,
                ) =~= old(self).spec_delivered());
            }
            assert(self.spec_sent() =~= old(self).spec_sent() + spec_message_chunks(
                OPEN_CODE,
                spec_next_id(old(self).spec_last_id()),
                0,
                command.spec_bytes(),
            ) + spec_message_chunks(
                CLSE_CODE,
                spec_next_id(old(self).spec_last_id()),
                self.spec_delivered()[old(self).spec_delivered().len() as int].spec_arg0(),
                Seq::<u8>::empty(),
            ));
        }
        match bytes_to_string(reply.into_data()) {
            Some(s) => Ok(s),
            None => Err(AdbConnectionError::UnexpectedError(
                "Reply is not valid UTF-8".to_owned(),
            )),
        }
    }

    /// Remounts the device's partitions writable.  On success exactly the `remount:` OPEN and a
    /// CLSE went out, the device answered OKAY then WRTE, and the text
    /// is that WRTE's payload.
    pub fn adb_remount(&mut self, attempts: u64, data_timeout_ms: u64) -> (r: Result<
        String,
        AdbConnectionError,
    >)
        requires
            old(self).wf(),
        ensures
            final(self).wf(),
            r matches Ok(text) ==> ({
                let n = old(self).spec_delivered().len() as int;
                let d = final(self).spec_delivered();
                &&& old(self).spec_delivered().is_prefix_of(d)
                &&& d.len() == n + 2
                &&& d[n].spec_command() == OKAY_CODE
                &&& d[n + 1].spec_command() == WRTE_CODE
                &&& vstd::utf8::encode_utf8(text@) == d[n + 1].spec_data()
                &&& final(self).spec_sent() == old(self).spec_sent() + spec_message_chunks(
                    OPEN_CODE,
                    spec_next_id(old(self).spec_last_id()),
                    0,
                    "remount:".spec_bytes(),
                ) + spec_message_chunks(
                    CLSE_CODE,
                    spec_next_id(old(self).spec_last_id()),
                    d[n].spec_arg0(),
                    Seq::<u8>::empty(),
                )
            }),
    {
        self.run_simple_command("remount:", attempts, data_timeout_ms)
    }

    /// Restarts the device's daemon with root privileges.  On success exactly the `root:` OPEN and a
    /// CLSE went out, the device answered OKAY then WRTE, and the text
    /// is that WRTE's payload.
    pub fn adb_root(&mut self, attempts: u64, data_timeout_ms: u64) -> (r: Result<
        String,
        AdbConnectionError,
    >)
        requires
            old(self).wf(),
        ensures
            final(self).wf(),
            r matches Ok(text) ==> ({
                let n = old(self).spec_delivered().len() as int;
                let d = final(self).spec_delivered();
                &&& old(self).spec_delivered().is_prefix_of(d)
                &&& d.len() == n + 2
                &&& d[n].spec_command() == OKAY_CODE
                &&& d[n + 1].spec_command() == WRTE_CODE
                &&& vstd::utf8::encode_utf8(text@) == d[n + 1].spec_data()
                &&& final(self).spec_sent() == old(self).spec_sent() + spec_message_chunks(
                    OPEN_CODE,
                    spec_next_id(old(self).spec_last_id()),
                    0,
                    "root:".spec_bytes(),
                ) + spec_message_chunks(
                    CLSE_CODE,
                    spec_next_id(old(self).spec_last_id()),
                    d[n].spec_arg0(),
                    Seq::<u8>::empty(),
                )
            }),
    {
        self.run_simple_command("root:", attempts, data_timeout_ms)
    }

    /// Restarts the device's daemon without root privileges.  On success exactly the `unroot:` OPEN and a
    /// CLSE went out, the device answered OKAY then WRTE, and the text
    /// is that WRTE's payload.
    pub fn adb_unroot(&mut self, attempts: u64, data_timeout_ms: u64) -> (r: Result<
        String,
        AdbConnectionError,
    >)
        requires
            old(self).wf(),
        ensures
            final(self).wf(),
            r matches Ok(text) ==> ({
                let n = old(self).spec_delivered().len() as int;
                let d = final(self).spec_delivered();
                &&& old(self).spec_delivered().is_prefix_of(d)
                &&& d.len() == n + 2
                &&& d[n].spec_command() == OKAY_CODE
                &&& d[n + 1].spec_command() == WRTE_CODE
                &&& vstd::utf8::encode_utf8(text@) == d[n + 1].spec_data()
                &&& final(self).spec_sent() == old(self).spec_sent() + spec_message_chunks(
                    OPEN_CODE,
                    spec_next_id(old(self).spec_last_id()),
                    0,
                    "unroot:".spec_bytes(),
                ) + spec_message_chunks(
                    CLSE_CODE,
                    spec_next_id(old(self).spec_last_id()),
                    d[n].spec_arg0(),
                    Seq::<u8>::empty(),
                )
            }),
    {
        self.run_simple_command("unroot:", attempts, data_timeout_ms)
    }

    /// Enables dm-verity on the device.  On success exactly the `enable-verity:` OPEN and a
    /// CLSE went out, the device answered OKAY then WRTE, and the text
    /// is that WRTE's payload.
    pub fn adb_enable_verity(&mut self, attempts: u64, data_timeout_ms: u64) -> (r: Result<
        String,
        AdbConnectionError,
    >)
        requires
            old(self).wf(),
        ensures
            final(self).wf(),
            r matches Ok(text) ==> ({
                let n = old(self).spec_delivered().len() as int;
                let d = final(self).spec_delivered();
                &&& old(self).spec_delivered().is_prefix_of(d)
                &&& d.len() == n + 2
                &&& d[n].spec_command() == OKAY_CODE
                &&& d[n + 1].spec_command() == WRTE_CODE
                &&& vstd::utf8::encode_utf8(text@) == d[n + 1].spec_data()
                &&& final(self).spec_sent() == old(self).spec_sent() + spec_message_chunks(
                    OPEN_CODE,
                    spec_next_id(old(self).spec_last_id()),
                    0,
                    "enable-verity:".spec_bytes(),
                ) + spec_message_chunks(
                    CLSE_CODE,
                    spec_next_id(old(self).spec_last_id()),
                    d[n].spec_arg0(),
                    Seq::<u8>::empty(),
                )
            }),
    {
        self.run_simple_command("enable-verity:", attempts, data_timeout_ms)
    }

    /// Disables dm-verity on the device.  On success exactly the `disable-verity:` OPEN and a
    /// CLSE went out, the device answered OKAY then WRTE, and the text
    /// is that WRTE's payload.
    pub fn adb_disable_verity(&mut self, attempts: u64, data_timeout_ms: u64) -> (r: Result<
        String,
        AdbConnectionError,
    >)
        requires
            old(self).wf(),
        ensures
            final(self).wf(),
            r matches Ok(text) ==> ({
                let n = old(self).spec_delivered().len() as int;
                let d = final(self).spec_delivered();
                &&& old(self).spec_delivered().is_prefix_of(d)
                &&& d.len() == n + 2
                &&& d[n].spec_command() == OKAY_CODE
                &&& d[n + 1].spec_command() == WRTE_CODE
                &&& vstd::utf8::encode_utf8(text@) == d[n + 1].spec_data()
                &&& final(self).spec_sent() == old(self).spec_sent() + spec_message_chunks(
                    OPEN_CODE,
                    spec_next_id(old(self).spec_last_id()),
                    0,
                    "disable-verity:".spec_bytes(),
                ) + spec_message_chunks(
                    CLSE_CODE,
                    spec_next_id(old(self).spec_last_id()),
                    d[n].spec_arg0(),
                    Seq::<u8>::empty(),
                )
            }),
    {
        self.run_simple_command("disable-verity:", attempts, data_timeout_ms)
    }

    /// Sends a reboot request — exactly one OPEN carrying the reboot
    /// command; the device acknowledges by going away.
    pub fn adb_reboot(&mut self, reboot_command: &str, data_timeout_ms: u64) -> (r: Result<
        (),
        AdbConnectionError,
    >)
        requires
            old(self).wf(),
        ensures
            final(self).wf(),
            r is Ok ==> final(self).spec_sent() == old(self).spec_sent() + spec_message_chunks(
                OPEN_CODE,
                spec_next_id(old(self).spec_last_id()),
                0,
                reboot_command.spec_bytes(),
            ),
            r matches Err(e) ==> (e matches AdbConnectionError::UnexpectedError(m) && m@
                == "Failed to reboot device. Please check the connection and try again."@),
    {
        match self.send_open_command(reboot_command, Some(data_timeout_ms)) {
            Ok(_) => Ok(()),
            Err(_) => Err(AdbConnectionError::UnexpectedError(
                "Failed to reboot device. Please check the connection and try again.".to_owned(),
            )),
        }
    }

    /// Runs one shell command to completion: OPEN it, learn the remote
    /// id, and drain the device's output until the stream closes or goes
    /// quiet.  On success the returned bytes are exactly the payloads
    /// the stream delivered, in order, and exactly the OPEN and one
    /// OKAY per delivered WRTE went out.  The caller writes the bytes
    /// to its client.
    pub fn adb_shell_command(&mut self, command: &str, attempts: u64, data_timeout_ms: u64)
        -> (r: Result<Vec<u8>, AdbConnectionError>)
        requires
            old(self).wf(),
        ensures
            final(self).wf(),
            r matches Ok(v) ==> ({
                let n = old(self).spec_delivered().len() as int;
                let d = final(self).spec_delivered();
                &&& old(self).spec_delivered().is_prefix_of(d)
                &&& d.len() >= n + 1
                &&& d[n].spec_command() == OKAY_CODE
                &&& v@ == spec_drained_data(d.skip(n + 1))
                &&& final(self).spec_sent() == old(self).spec_sent() + spec_message_chunks(
                    OPEN_CODE,
                    spec_next_id(old(self).spec_last_id()),
                    0,
                    command.spec_bytes(),
                ) + spec_drain_acks(
                    d.skip(n + 1),
                    spec_next_id(old(self).spec_last_id()),
                    d[n].spec_arg0(),
                )
            }),
    {
        let mut tinfo = match self.send_open_command(command, Some(data_timeout_ms)) {
            Ok(t) => t,
            Err(err) => {
                return Err(err);
            },
        };
        let expected: [u32; 1] = [OKAY_CODE];
        let okay = match self.read_expected_packet(
            expected.as_slice(),
            None,
            &tinfo,
            attempts,
            data_timeout_ms,
        ) {
            Ok(m) => m,
            Err(err) => {
                return Err(err);
            },
        };
        proof {
            assert(expected@[0] == OKAY_CODE);
        }
        tinfo.set_receive_packet_id(okay.arg0());
        let ghost base = self.spec_delivered();
        let r = self.read_all_response(&tinfo, attempts, data_timeout_ms);
        proof {
            if r is Ok {
                let n = old(self).spec_delivered().len() as int;
                assert(base == old(self).spec_delivered().push(okay));
                assert(self.spec_delivered().skip(base.len() as int)
                    =~= self.spec_delivered().skip(n + 1));
                assert(self.spec_delivered()[n] == okay) by {
                    assert(self.spec_delivered().subrange(0, base.len() as int)[n] == base[n]);
                }
                assert(old(self).spec_delivered().is_prefix_of(self.spec_delivered())) by {
                    assert(self.spec_delivered().subrange(
                        0,
                        old(self).spec_delivered().len() as int,
                    ) =~= old(self).spec_delivered());
                }
                assert(self.spec_sent() =~= old(self).spec_sent() + spec_message_chunks(
                    OPEN_CODE,
                    spec_next_id(old(self).spec_last_id()),
                    0,
                    command.spec_bytes(),
                ) + spec_drain_acks(
                    self.spec_delivered().skip(n + 1),
                    spec_next_id(old(self).spec_last_id()),
                    self.spec_delivered()[n].spec_arg0(),
                ));
            }
        }
        r
    }

    /// Opens an interactive shell session and learns its stream
    /// identity; the runtime then relays between the client socket and
    /// `read_stream_step`/`send_wrte_command` on this identity.
    pub fn open_shell_session_start(&mut self, command: &str, attempts: u64, data_timeout_ms: u64)
        -> (r: Result<AdbTransactionInfo, AdbConnectionError>)
        requires
            old(self).wf(),
        ensures
            final(self).wf(),
            r matches Ok(t) ==> ({
                let n = old(self).spec_delivered().len() as int;
                let d = final(self).spec_delivered();
                &&& t.local() == spec_next_id(old(self).spec_last_id())
                &&& t.local() != 0
                &&& d.len() == n + 1
                &&& old(self).spec_delivered().is_prefix_of(d)
                &&& d[n].spec_command() == OKAY_CODE
                &&& t.remote() == d[n].spec_arg0()
                &&& final(self).spec_sent() == old(self).spec_sent() + spec_message_chunks(
                    OPEN_CODE,
                    t.local(),
                    0,
                    command.spec_bytes(),
                )
            }),
    {
        let mut tinfo = match self.send_open_command(command, Some(data_timeout_ms)) {
            Ok(t) => t,
            Err(err) => {
                return Err(err);
            },
        };
        let expected: [u32; 1] = [OKAY_CODE];
        let okay = match self.read_expected_packet(
            expected.as_slice(),
            None,
            &tinfo,
            attempts,
            data_timeout_ms,
        ) {
            Ok(m) => m,
            Err(err) => {
                return Err(err);
            },
        };
        proof {
            assert(expected@[0] == OKAY_CODE);
            assert(old(self).spec_delivered().is_prefix_of(self.spec_delivered())) by {
                assert(self.spec_delivered().subrange(
                    0,
                    old(self).spec_delivered().len() as int,
                ) =~= old(self).spec_delivered());
            }
        }
        tinfo.set_receive_packet_id(okay.arg0());
        Ok(tinfo)
    }

    /// Serves one accepted port-forward client: opens a device stream to
    /// the remote endpoint (a CLSE instead of the OKAY means the device
    /// rejected the forward and is the only source of that error), sends
    /// the client's first bytes as one WRTE, and drains the device's
    /// response for the client, acknowledging each WRTE.
    pub fn handle_port_forward_incoming_message(
        &mut self,
        buffer: &[u8],
        adb_port_forward_info: &AdbPortForwardInfo,
        attempts: u64,
        data_timeout_ms: u64,
    ) -> (r: Result<Vec<u8>, AdbConnectionError>)
        requires
            old(self).wf(),
            buffer@.len() <= MAX_ADB_DATA,
        ensures
            final(self).wf(),
            r matches Err(AdbConnectionError::PortForwardSetupFailed(m)) ==> ({
                let n = old(self).spec_delivered().len() as int;
                let d = final(self).spec_delivered();
                &&& d.len() == n + 1
                &&& d[n].spec_command() == CLSE_CODE
                &&& m@ == "Port forwarding rejected by device "@ + spec_print_forward_pair(
                    adb_port_forward_info.spec_local(),
                    adb_port_forward_info.spec_remote(),
                )
            }),
            r matches Ok(v) ==> ({
                let n = old(self).spec_delivered().len() as int;
                let d = final(self).spec_delivered();
                let local = spec_next_id(old(self).spec_last_id());
                &&& old(self).spec_delivered().is_prefix_of(d)
                &&& d.len() >= n + 1
                &&& d[n].spec_command() == OKAY_CODE
                &&& v@ == spec_drained_data(d.skip(n + 1))
                &&& final(self).spec_sent() == old(self).spec_sent() + spec_message_chunks(
                    OPEN_CODE,
                    local,
                    0,
                    vstd::utf8::encode_utf8(
                        spec_null_terminated(
                            crate::forward::spec_print_forward_type(
                                fwd_kind(adb_port_forward_info.spec_remote()),
                                fwd_num(adb_port_forward_info.spec_remote()),
                                fwd_name(adb_port_forward_info.spec_remote()),
                            ),
                        ),
                    ),
                ) + spec_message_chunks(WRTE_CODE, local, d[n].spec_arg0(), buffer@)
                    + spec_drain_acks(d.skip(n + 1), local, d[n].spec_arg0())
            }),
    {
        let remote_info = ensure_null_terminated(adb_port_forward_info.remote_with_type());
        let mut adb_open_command_info = match self.send_open_command(
            remote_info.as_str(),
            Some(data_timeout_ms),
        ) {
            Ok(t) => t,
            Err(err) => {
                return Err(err);
            },
        };
        let expected: [u32; 2] = [OKAY_CODE, CLSE_CODE];
        let adb_response = match self.read_expected_packet(
            expected.as_slice(),
            None,
            &adb_open_command_info,
            attempts,
            data_timeout_ms,
        ) {
            Ok(m) => m,
            Err(err) => {
                return Err(err);
            },
        };
        proof {
            assert(expected@[0] == OKAY_CODE && expected@[1] == CLSE_CODE);
            assert(adb_response.spec_command() == OKAY_CODE || adb_response.spec_command()
                == CLSE_CODE) by {
                let k = choose|k: int|
                    0 <= k < expected@.len() && expected@[k] == adb_response.spec_command();
            }
        }
        if adb_response.command() == CLSE_CODE {
            let mut m = "Port forwarding rejected by device ".to_owned();
            m.append(adb_port_forward_info.to_string().as_str());
            return Err(AdbConnectionError::PortForwardSetupFailed(m));
        }
        adb_open_command_info.set_receive_packet_id(adb_response.arg0());
        match self.send_wrte_command(&adb_open_command_info, buffer, Some(data_timeout_ms)) {
            Ok(()) => {
            },
            Err(err) => {
                return Err(err);
            },
        }
        let ghost base = self.spec_delivered();
        let r = self.read_all_response(&adb_open_command_info, attempts, data_timeout_ms);
        proof {
            if r is Ok {
                let n = old(self).spec_delivered().len() as int;
                assert(base == old(self).spec_delivered().push(adb_response));
                assert(self.spec_delivered().skip(base.len() as int)
                    =~= self.spec_delivered().skip(n + 1));
                assert(self.spec_delivered()[n] == adb_response) by {
                    assert(self.spec_delivered().subrange(0, base.len() as int)[n] == base[n]);
                }
                assert(old(self).spec_delivered().is_prefix_of(self.spec_delivered())) by {
                    assert(self.spec_delivered().subrange(
                        0,
                        old(self).spec_delivered().len() as int,
                    ) =~= old(self).spec_delivered());
                }
                assert(self.spec_sent() =~= old(self).spec_sent() + spec_message_chunks(
                    OPEN_CODE,
                    spec_next_id(old(self).spec_last_id()),
                    0,
                    vstd::utf8::encode_utf8(
                        spec_null_terminated(
                            crate::forward::spec_print_forward_type(
                                fwd_kind(adb_port_forward_info.spec_remote()),
                                fwd_num(adb_port_forward_info.spec_remote()),
                                fwd_name(adb_port_forward_info.spec_remote()),
                            ),
                        ),
                    ),
                ) + spec_message_chunks(
                    WRTE_CODE,
                    spec_next_id(old(self).spec_last_id()),
                    self.spec_delivered()[n].spec_arg0(),
                    buffer@,
                ) + spec_drain_acks(
                    self.spec_delivered().skip(n + 1),
                    spec_next_id(old(self).spec_last_id()),
                    self.spec_delivered()[n].spec_arg0(),
                ));
            }
        }
        r
    }
}

/// Whether the exact command bytes ask for an interactive shell: a bare
/// `shell:` with or without a trailing NUL.
pub open spec fn spec_is_interactive_shell(cmd: Seq<char>) -> bool {
    cmd == "shell:"@ || cmd == "shell:\u{0}"@
}

/// Recognizes the interactive-shell forms of a shell command.
pub fn is_interactive_shell(command: &str) -> (r: bool)
    ensures
        r == spec_is_interactive_shell(command@),
{
    let v = crate::chars::chars_of(command);
    let a = crate::chars::chars_of("shell:");
    let b = crate::chars::chars_of("shell:\u{0}");
    crate::chars::chars_eq(&v, &a) || crate::chars::chars_eq(&v, &b)
}

/// The timeout for a one-shot shell command: bug reports get the long
/// budget, everything else the ordinary one.
pub fn get_command_timeout(command: &str) -> (r: u64)
    ensures
        ({
            let p = "shell:bugreportz"@;
            if command@.len() >= p.len() && command@.subrange(0, p.len() as int) == p {
                r == BUGREPORT_TIMEOUT_MS
            } else {
                r == SHELL_COMMAND_TIMEOUT_MS
            }
        }),
{
    let v = crate::chars::chars_of(command);
    let p = crate::chars::chars_of("shell:bugreportz");
    if v.len() >= p.len() {
        let head = crate::chars::subvec(&v, 0, p.len());
        if crate::chars::chars_eq(&head, &p) {
            return BUGREPORT_TIMEOUT_MS;
        }
    }
    SHELL_COMMAND_TIMEOUT_MS
}

} // verus!
