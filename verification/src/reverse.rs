use vstd::prelude::*;
use crate::connection::AdbDeviceConnection;
use crate::forward::{fwd_kind, fwd_num, fwd_name, spec_print_forward_type};
use crate::ids::spec_next_id;
use crate::io::spec_data_matches;
use crate::errors::AdbConnectionError;
use crate::forward_info::AdbPortReverseInfo;
use crate::message::{OPEN_CODE, OKAY_CODE, WRTE_CODE, CLSE_CODE, spec_message_chunks};
use crate::responses::{ensure_null_terminated, spec_null_terminated};
use crate::tinfo::AdbTransactionInfo;
use crate::transport::Transport;
use vstd::string::StringExecFns;

verus! {

/// How the attempt to connect to the host-side endpoint went, as the
/// runtime reports it.
pub enum HostConnectOutcome {
    Connected,
    Refused,
    Failed(String),
}

/// The connector's progress: whether the one-shot setup result has been
/// reported to the requesting client yet, and whether the relay task
/// has been started.
pub struct ReverseSetupState {
    pub reported: bool,
    pub relay_started: bool,
}

/// What the connect loop does next.
pub enum ReverseStepAction {
    /// Start the relay over the fresh host connection; report setup
    /// success first if it has not been reported yet.
    StartRelay { report_success: bool },
    /// The host is not listening yet: report success now (deferred
    /// readiness) if not yet reported, sleep, and try again.
    RetryAfterDelay { report_ready: bool },
    /// A hard connect failure: report it and stop, unless the result
    /// went out already, in which case keep retrying.
    Abort { report_failure: bool },
}

/// The reverse connector transition: a connection starts the relay, a
/// refusal defers (reporting readiness the first time) and retries, and
/// a hard failure aborts with a report only while the result is still
/// owed; each path reports at most once over the whole run.
pub open spec fn spec_reverse_connect_step(state: ReverseSetupState, outcome: HostConnectOutcome)
    -> (ReverseSetupState, ReverseStepAction) {
    match outcome {
        HostConnectOutcome::Connected => (
            ReverseSetupState { reported: true, relay_started: true },
            ReverseStepAction::StartRelay { report_success: !state.reported },
        ),
        HostConnectOutcome::Refused => (
            ReverseSetupState { reported: true, relay_started: state.relay_started },
            ReverseStepAction::RetryAfterDelay { report_ready: !state.reported },
        ),
        HostConnectOutcome::Failed(_) => if state.reported {
            (state, ReverseStepAction::RetryAfterDelay { report_ready: false })
        } else {
            (
                ReverseSetupState { reported: true, relay_started: state.relay_started },
                ReverseStepAction::Abort { report_failure: true },
            )
        },
    }
}

/// Advances the reverse connector by one host-connect attempt.
pub fn reverse_connect_step(state: &mut ReverseSetupState, outcome: &HostConnectOutcome) -> (r:
    ReverseStepAction)
    ensures
        (*final(state), r) == spec_reverse_connect_step(*old(state), *outcome),
{
    match outcome {
        HostConnectOutcome::Connected => {
            let report = !state.reported;
            state.reported = true;
            state.relay_started = true;
            ReverseStepAction::StartRelay { report_success: report }
        },
        HostConnectOutcome::Refused => {
            let report = !state.reported;
            state.reported = true;
            ReverseStepAction::RetryAfterDelay { report_ready: report }
        },
        HostConnectOutcome::Failed(_) => {
            if state.reported {
                ReverseStepAction::RetryAfterDelay { report_ready: false }
            } else {
                state.reported = true;
                ReverseStepAction::Abort { report_failure: true }
            }
        },
    }
}

/// Reverse reconnect law: starting fresh, a refused host connection
/// reports readiness exactly once and starts no relay, and the
/// following successful connection starts the relay exactly once
/// without reporting again — one report and one relay start in all.
pub proof fn lemma_reverse_reconnect()
    ensures
        ({
            let s0 = ReverseSetupState { reported: false, relay_started: false };
            let (s1, a1) = spec_reverse_connect_step(s0, HostConnectOutcome::Refused);
            let (s2, a2) = spec_reverse_connect_step(s1, HostConnectOutcome::Connected);
            &&& a1 == ReverseStepAction::RetryAfterDelay { report_ready: true }
            &&& !s1.relay_started
            &&& a2 == ReverseStepAction::StartRelay { report_success: false }
            &&& s2.relay_started
            &&& s2.reported
        }),
{
}

/// How a failed read from the host socket is handled in the relay.
pub enum HostReadEvent {
    Data,
    Eof,
    Disconnected,
    TimedOut,
    OtherError,
}

/// What the relay does with one host-read outcome.
pub enum RelayAction {
    ForwardToDevice,
    Reconnect,
    Skip,
}

/// The relay's host-read rule: data moves to the device; an EOF or a
/// classic disconnect reconnects to the host; a timeout or any other
/// error skips to the device side of the loop.
pub open spec fn spec_relay_read_action(event: HostReadEvent) -> RelayAction {
    match event {
        HostReadEvent::Data => RelayAction::ForwardToDevice,
        HostReadEvent::Eof => RelayAction::Reconnect,
        HostReadEvent::Disconnected => RelayAction::Reconnect,
        HostReadEvent::TimedOut => RelayAction::Skip,
        HostReadEvent::OtherError => RelayAction::Skip,
    }
}

/// Decides the relay's next move from one host-read outcome.
pub fn relay_read_action(event: &HostReadEvent) -> (r: RelayAction)
    ensures
        r == spec_relay_read_action(*event),
{
    match event {
        HostReadEvent::Data => RelayAction::ForwardToDevice,
        HostReadEvent::Eof => RelayAction::Reconnect,
        HostReadEvent::Disconnected => RelayAction::Reconnect,
        HostReadEvent::TimedOut => RelayAction::Skip,
        HostReadEvent::OtherError => RelayAction::Skip,
    }
}

impl<T: Transport> AdbDeviceConnection<T> {
    /// Performs the reverse setup exchange on the device:
    /// `reverse:forward:<device>;<host>` over a fresh stream, then OKAY,
    /// the WRTE (acknowledged), and the CLSE (acknowledged).  Only after
    /// this does the runtime connect to the host-side endpoint.
    pub fn reverse_setup(
        &mut self,
        adb_port_reverse_info: &AdbPortReverseInfo,
        attempts: u64,
        data_timeout_ms: u64,
    ) -> (r: Result<(), AdbConnectionError>)
        requires
            old(self).wf(),
        ensures
            final(self).wf(),
            r is Ok ==> ({
                let n = old(self).spec_delivered().len() as int;
                let d = final(self).spec_delivered();
                let local = spec_next_id(old(self).spec_last_id());
                let command_chars = "reverse:forward:"@ + spec_print_forward_type(
                    fwd_kind(adb_port_reverse_info.spec_device()),
                    fwd_num(adb_port_reverse_info.spec_device()),
                    fwd_name(adb_port_reverse_info.spec_device()),
                ) + ";"@ + spec_print_forward_type(
                    fwd_kind(adb_port_reverse_info.spec_host()),
                    fwd_num(adb_port_reverse_info.spec_host()),
                    fwd_name(adb_port_reverse_info.spec_host()),
                );
                &&& old(self).spec_delivered().is_prefix_of(d)
                &&& (d.len() == n + 2 || d.len() == n + 3)
                &&& d[n].spec_command() == OKAY_CODE
                &&& d[n + 1].spec_command() == WRTE_CODE
                &&& (d.len() == n + 3 ==> d[n + 2].spec_command() == CLSE_CODE)
                &&& final(self).spec_sent() == old(self).spec_sent() + spec_message_chunks(
                    OPEN_CODE,
                    local,
                    0,
                    vstd::utf8::encode_utf8(command_chars),
                ) + spec_message_chunks(
                    OKAY_CODE,
                    local,
                    d[n].spec_arg0(),
                    Seq::<u8>::empty(),
                ) + spec_message_chunks(
                    OKAY_CODE,
                    local,
                    d[n].spec_arg0(),
                    Seq::<u8>::empty(),
                )
            }),
    {
        let mut reverse_command = "reverse:forward:".to_owned();
        reverse_command.append(adb_port_reverse_info.device_with_type().as_str());
        reverse_command.append(";");
        reverse_command.append(adb_port_reverse_info.host_with_type().as_str());
        let mut transaction_info = match self.send_open_command(
            reverse_command.as_str(),
            Some(data_timeout_ms),
        ) {
            Ok(t) => t,
            Err(err) => {
                return Err(err);
            },
        };
        let okay = match self.read_okay_response(&transaction_info, attempts, data_timeout_ms) {
            Ok(m) => m,
            Err(err) => {
                return Err(err);
            },
        };
        transaction_info.set_receive_packet_id(okay.arg0());
        match self.read_wrte_response(&transaction_info, attempts, data_timeout_ms) {
            Ok(_) => {
            },
            Err(err) => {
                return Err(err);
            },
        }
        match self.send_okay_command(&transaction_info, Some(data_timeout_ms)) {
            Ok(()) => {
            },
            Err(err) => {
                return Err(err);
            },
        }
        match self.read_clse_response(&transaction_info, attempts, data_timeout_ms) {
            Ok(()) => {
            },
            Err(err) => {
                return Err(err);
            },
        }
        let r = self.send_okay_command(&transaction_info, Some(data_timeout_ms));
        proof {
            if r is Ok {
                assert(old(self).spec_delivered().is_prefix_of(self.spec_delivered())) by {
                    assert(self.spec_delivered().subrange(
                        0,
                        old(self).spec_delivered().len() as int,
                    ) =~= old(self).spec_delivered());
                }
            }
        }
        r
    }

    /// Waits for the device to open a reverse stream towards this host's
    /// endpoint (the expected OPEN payload is the host spec, with the
    /// trailing NUL tolerated missing), allocates a local id for it and
    /// acknowledges, handing the new stream identity to the relay.
    pub fn initialize_reverse_connection(
        &mut self,
        adb_port_reverse_info: &AdbPortReverseInfo,
        attempts: u64,
        data_timeout_ms: u64,
    ) -> (r: Result<AdbTransactionInfo, AdbConnectionError>)
        requires
            old(self).wf(),
        ensures
            final(self).wf(),
            r matches Ok(t) ==> ({
                let n = old(self).spec_delivered().len() as int;
                let d = final(self).spec_delivered();
                &&& t.local() == spec_next_id(old(self).spec_last_id())
                &&& t.local() != 0
                &&& old(self).spec_delivered().is_prefix_of(d)
                &&& d.len() == n + 1
                &&& d[n].spec_command() == OPEN_CODE
                &&& spec_data_matches(
                    Some(
                        vstd::utf8::encode_utf8(
                            spec_null_terminated(
                                spec_print_forward_type(
                                    fwd_kind(adb_port_reverse_info.spec_host()),
                                    fwd_num(adb_port_reverse_info.spec_host()),
                                    fwd_name(adb_port_reverse_info.spec_host()),
                                ),
                            ),
                        ),
                    ),
                    d[n].spec_data(),
                )
                &&& t.remote() == d[n].spec_arg0()
                &&& final(self).spec_sent() == old(self).spec_sent() + spec_message_chunks(
                    OKAY_CODE,
                    t.local(),
                    t.remote(),
                    Seq::<u8>::empty(),
                )
            }),
    {
        let expected_payload = ensure_null_terminated(adb_port_reverse_info.host_with_type());
        let eb = expected_payload.as_str().as_bytes();
        let expected_bytes = vstd::slice::slice_to_vec(eb);
        let open_transaction_info = AdbTransactionInfo::new(0, 0);
        let expected: [u32; 1] = [OPEN_CODE];
        let open_response = match self.read_expected_packet(
            expected.as_slice(),
            Some(&expected_bytes),
            &open_transaction_info,
            attempts,
            data_timeout_ms,
        ) {
            Ok(m) => m,
            Err(err) => {
                return Err(err);
            },
        };
        proof {
            assert(expected@[0] == OPEN_CODE);
            assert(old(self).spec_delivered().is_prefix_of(self.spec_delivered())) by {
                assert(self.spec_delivered().subrange(
                    0,
                    old(self).spec_delivered().len() as int,
                ) =~= old(self).spec_delivered());
            }
        }
        let local_id = self.get_last_packet_id();
        let transaction_info = AdbTransactionInfo::new(local_id, open_response.arg0());
        match self.send_okay_command(&transaction_info, Some(data_timeout_ms)) {
            Ok(()) => Ok(transaction_info),
            Err(err) => Err(err),
        }
    }
}

} // verus!
