use vstd::prelude::*;
use crate::errors::{AdbConnectionError, AdbIoError, map_io_error};
use crate::ids::{LocalIdAllocator, spec_next_id};
use crate::io::{AdbDeviceIo, spec_data_matches};
use crate::message::{AdbMessage, MAX_ADB_DATA, ADB_SERVER_VERSION, CNXN_CODE, OKAY_CODE,
    OPEN_CODE, WRTE_CODE, CLSE_CODE, spec_pack, spec_message_chunks, spec_header_describes,
    spec_u32_from_le};
use crate::tinfo::AdbTransactionInfo;
use crate::transport::Transport;
use vstd::string::StringSliceAdditionalSpecFns;

verus! {

broadcast use vstd::string::group_string_axioms;

/// The CNXN banner: the fixed `host::` prefix, the host's name, and a
/// terminating NUL.
pub open spec fn spec_cnxn_banner(host_bytes: Seq<u8>) -> Seq<u8> {
    "host::".spec_bytes() + host_bytes + seq![0u8]
}

/// Builds the CNXN banner for a host name.
pub fn build_cnxn_banner(host_name: &str) -> (r: Vec<u8>)
    ensures
        r@ == spec_cnxn_banner(host_name.spec_bytes()),
{
    proof {
        reveal_strlit("host::");
        assert(vstd::string::is_ascii("host::")) by {
            assert forall|i: int| 0 <= i < "host::"@.len() implies '\0' <= #[trigger] "host::"@[i]
                <= '\u{7f}' by {
                if i == 0 {
                    assert("host::"@[0] == 'h');
                } else if i == 1 {
                    assert("host::"@[1] == 'o');
                } else if i == 2 {
                    assert("host::"@[2] == 's');
                } else if i == 3 {
                    assert("host::"@[3] == 't');
                } else {
                    assert("host::"@[i] == ':');
                }
            }
        }
        assert("host::".spec_bytes().len() == 6);
    }
    let mut v = vstd::slice::slice_to_vec("host::".as_bytes());
    let mut hb = vstd::slice::slice_to_vec(host_name.as_bytes());
    v.append(&mut hb);
    v.push(0);
    proof {
        assert(v@ =~= spec_cnxn_banner(host_name.spec_bytes()));
    }
    v
}

/// Builds the CNXN greeting: protocol version, the 1 MiB payload limit,
/// and the `host::<hostname>\0` banner as payload.
pub fn build_cnxn_message(host_name: &str) -> (r: AdbMessage)
    requires
        host_name.spec_bytes().len() + 7 <= MAX_ADB_DATA,
    ensures
        r.wf(),
        r.spec_command() == CNXN_CODE,
        r.spec_arg0() == ADB_SERVER_VERSION,
        r.spec_arg1() == MAX_ADB_DATA,
        r.spec_data() == spec_cnxn_banner(host_name.spec_bytes()),
{
    proof {
        reveal_strlit("host::");
        assert(vstd::string::is_ascii("host::")) by {
            assert forall|i: int| 0 <= i < "host::"@.len() implies '\0' <= #[trigger] "host::"@[i]
                <= '\u{7f}' by {
                if i == 0 {
                    assert("host::"@[0] == 'h');
                } else if i == 1 {
                    assert("host::"@[1] == 'o');
                } else if i == 2 {
                    assert("host::"@[2] == 's');
                } else if i == 3 {
                    assert("host::"@[3] == 't');
                } else {
                    assert("host::"@[i] == ':');
                }
            }
        }
        assert("host::".spec_bytes().len() == 6);
    }
    let banner = build_cnxn_banner(host_name);
    AdbMessage::new(CNXN_CODE, ADB_SERVER_VERSION, MAX_ADB_DATA, banner)
}

/// Relies on `hostname::get` for the machine's host name, converted to
/// text; the result depends on the machine, so nothing is promised of
/// its content.
#[verifier::external_body]
pub fn host_name() -> (r: Option<String>)
{
    match hostname::get() {
        Ok(os) => os.into_string().ok(),
        Err(_) => None,
    }
}

/// The error kinds the plain exchange operations produce: the mapped
/// transport taxonomy, never a forward-, reverse- or sync-level error.
pub open spec fn spec_exchange_error(e: AdbConnectionError) -> bool {
    ||| e is Timeout
    ||| e is DeviceNotAvailable
    ||| e is ConnectionCloseError
    ||| e is CommunicationError
    ||| e is UnexpectedError
}

/// The payloads of delivered messages, one entry per message, in order.
pub open spec fn spec_payloads(ms: Seq<AdbMessage>) -> Seq<Seq<u8>>
    decreases ms.len(),
{
    if ms.len() == 0 {
        Seq::empty()
    } else {
        spec_payloads(ms.drop_last()).push(ms.last().spec_data())
    }
}

/// The payload bytes a drained stream hands its caller: the data of
/// every delivered message except a closing CLSE's.
pub open spec fn spec_drained_data(ms: Seq<AdbMessage>) -> Seq<u8>
    decreases ms.len(),
{
    if ms.len() == 0 {
        Seq::empty()
    } else {
        spec_drained_data(ms.drop_last()) + (if ms.last().spec_command() == CLSE_CODE {
            Seq::<u8>::empty()
        } else {
            ms.last().spec_data()
        })
    }
}

/// The acknowledgements a drain sends back: one empty OKAY per WRTE
/// delivered, in order.
pub open spec fn spec_drain_acks(ms: Seq<AdbMessage>, local: u32, remote: u32) -> Seq<Seq<u8>>
    decreases ms.len(),
{
    if ms.len() == 0 {
        Seq::empty()
    } else {
        spec_drain_acks(ms.drop_last(), local, remote) + (if ms.last().spec_command()
            == WRTE_CODE {
            spec_message_chunks(OKAY_CODE, local, remote, Seq::<u8>::empty())
        } else {
            Seq::<Seq<u8>>::empty()
        })
    }
}

/// One authenticated USB link to a device: the serialized I/O below it,
/// the local stream-id allocator, and the key material used to answer
/// authentication challenges.
pub struct AdbDeviceConnection<T: Transport> {
    adb_io_manager: AdbDeviceIo<T>,
    last_local_packet_id: LocalIdAllocator,
    private_key_pem: String,
    public_key: Vec<u8>,
}

impl<T: Transport> AdbDeviceConnection<T> {
    pub closed spec fn spec_last_id(&self) -> u32 {
        self.last_local_packet_id.spec_last()
    }

    pub closed spec fn spec_private_key(&self) -> Seq<char> {
        self.private_key_pem@
    }

    pub closed spec fn spec_public_key(&self) -> Seq<u8> {
        self.public_key@
    }

    pub closed spec fn wf(&self) -> bool {
        self.adb_io_manager.wf()
    }

    /// Every chunk this connection handed to its transport, in order.
    pub closed spec fn spec_sent(&self) -> Seq<Seq<u8>> {
        self.adb_io_manager.spec_sent()
    }

    /// Every chunk the transport returned, in order.
    pub closed spec fn spec_received(&self) -> Seq<Seq<u8>> {
        self.adb_io_manager.spec_received()
    }

    /// Every whole message read off the wire, in order.
    pub closed spec fn spec_wire(&self) -> Seq<AdbMessage> {
        self.adb_io_manager.spec_wire()
    }

    /// The packet store's parked queues, as the I/O layer models them.
    pub closed spec fn spec_store(&self) -> Seq<((u32, u32), Seq<(u32, Seq<u8>)>)> {
        self.adb_io_manager.store()
    }

    /// Every matched message delivered to this connection's callers.
    pub closed spec fn spec_delivered(&self) -> Seq<AdbMessage> {
        self.adb_io_manager.spec_delivered()
    }

    /// A new connection over a transport, with the key material read for
    /// it (the private key in PKCS#8 PEM form, the public key as the
    /// bytes sent to the device verbatim).
    pub fn new(private_key_pem: String, public_key: Vec<u8>, transport: T) -> (r: Self)
        ensures
            r.wf(),
            r.spec_last_id() == 0,
            r.spec_private_key() == private_key_pem@,
            r.spec_public_key() == public_key@,
            r.spec_sent() == Seq::<Seq<u8>>::empty(),
            r.spec_received() == Seq::<Seq<u8>>::empty(),
            r.spec_delivered() == Seq::<AdbMessage>::empty(),
    {
        AdbDeviceConnection {
            adb_io_manager: AdbDeviceIo::new(transport),
            last_local_packet_id: LocalIdAllocator::new(),
            private_key_pem,
            public_key,
        }
    }


    /// The private key PEM this connection authenticates with.
    pub fn private_key_pem_string(&self) -> (r: String)
        ensures
            r@ == self.spec_private_key(),
    {
        self.private_key_pem.clone()
    }

    /// The public key bytes this connection offers for acceptance.
    pub fn public_key_bytes(&self) -> (r: Vec<u8>)
        ensures
            r@ == self.spec_public_key(),
    {
        let mut v: Vec<u8> = Vec::new();
        let mut i: usize = 0;
        while i < self.public_key.len()
            invariant
                0 <= i <= self.public_key@.len(),
                v@ == self.spec_public_key().take(i as int),
            decreases self.public_key@.len() - i,
        {
            v.push(self.public_key[i]);
            proof {
                assert(v@ =~= self.spec_public_key().take(i as int + 1));
            }
            i = i + 1;
        }
        proof {
            assert(self.spec_public_key().take(self.spec_public_key().len() as int)
                =~= self.spec_public_key());
        }
        v
    }



    /// The transport this connection runs over.
    pub fn transport_ref(&self) -> &T {
        self.adb_io_manager.transport_ref()
    }

    /// Claims the device's ADB interface.
    pub fn acquire_device(&mut self, device_type: crate::enums::InterfaceType) -> (r: Result<
        (),
        AdbConnectionError,
    >)
        requires
            old(self).wf(),
        ensures
            final(self).wf(),
            final(self).spec_sent() == old(self).spec_sent(),
            final(self).spec_received() == old(self).spec_received(),
            final(self).spec_delivered() == old(self).spec_delivered(),
            final(self).spec_last_id() == old(self).spec_last_id(),
            r matches Err(e) ==> e is DeviceNotAvailable,
    {
        match self.adb_io_manager.acquire_device(device_type) {
            Ok(()) => Ok(()),
            Err(err) => Err(map_io_error(err)),
        }
    }

    /// Reads the next message straight off the wire, bypassing the
    /// packet store; the authentication exchange uses this, since no
    /// stream exists yet.  A successful message parses exactly the
    /// chunks the transport handed back, checksum-verified.
    pub fn read_raw_message(&mut self, data_timeout_ms: u64) -> (r: Result<
        AdbMessage,
        AdbIoError,
    >)
        requires
            old(self).wf(),
        ensures
            final(self).wf(),
            final(self).spec_sent() == old(self).spec_sent(),
            final(self).spec_delivered() == old(self).spec_delivered(),
            old(self).spec_received().is_prefix_of(final(self).spec_received()),
            r matches Ok(m) ==> ({
                let n = old(self).spec_received().len() as int;
                let rcv = final(self).spec_received();
                &&& m.wf()
                &&& (rcv.len() == n + 1 || rcv.len() == n + 2)
                &&& spec_header_describes(rcv[n], m)
                &&& rcv.len() == n + 1 ==> m.spec_data().len() == 0
                &&& rcv.len() == n + 2 ==> rcv[n + 1] == m.spec_data()
            }),
    {
        self.adb_io_manager.read_adb_message_last_message(data_timeout_ms)
    }

    /// Allocates the next local stream id: counting up, never 0,
    /// wrapping from the largest u32 back to 1.
    pub fn get_last_packet_id(&mut self) -> (r: u32)
        ensures
            r == spec_next_id(old(self).spec_last_id()),
            r != 0,
            final(self).spec_last_id() == r,
            final(self).wf() == old(self).wf(),
            final(self).spec_private_key() == old(self).spec_private_key(),
            final(self).spec_public_key() == old(self).spec_public_key(),
            final(self).spec_sent() == old(self).spec_sent(),
            final(self).spec_received() == old(self).spec_received(),
            final(self).spec_delivered() == old(self).spec_delivered(),
    {
        self.last_local_packet_id.next_id()
    }

    /// Checks that the device link is still standing; whatever the
    /// transport reports, a failure surfaces as the device being gone.
    pub fn verify_connection_status(&mut self) -> (r: Result<(), AdbConnectionError>)
        requires
            old(self).wf(),
        ensures
            final(self).wf(),
            r matches Err(e) ==> e is DeviceNotAvailable,
    {
        match self.adb_io_manager.verify_connection_status() {
            Ok(()) => Ok(()),
            Err(err) => Err(AdbConnectionError::DeviceNotAvailable(err.message())),
        }
    }

    /// Releases the device; a vanished device already counts as
    /// released, so any reported failure is of the unexpected kind.
    pub fn close(&mut self) -> (r: Result<(), AdbConnectionError>)
        requires
            old(self).wf(),
        ensures
            final(self).wf(),
            r matches Err(e) ==> e is UnexpectedError,
    {
        match self.adb_io_manager.release_device() {
            Ok(()) => Ok(()),
            Err(err) => Err(map_io_error(err)),
        }
    }

    /// Sends one message over the transport: on success exactly its wire
    /// chunks joined the send transcript.
    pub fn send_adb_message(&mut self, adb_message: &AdbMessage, operation_timeout_ms: Option<
        u64,
    >) -> (r: Result<(), AdbConnectionError>)
        requires
            old(self).wf(),
            adb_message.wf(),
        ensures
            final(self).wf(),
            final(self).spec_last_id() == old(self).spec_last_id(),
            final(self).spec_received() == old(self).spec_received(),
            final(self).spec_delivered() == old(self).spec_delivered(),
            r matches Err(e) ==> spec_exchange_error(e),
            r is Ok ==> final(self).spec_sent() == old(self).spec_sent() + spec_message_chunks(
                adb_message.spec_command(),
                adb_message.spec_arg0(),
                adb_message.spec_arg1(),
                adb_message.spec_data(),
            ),
            r is Err ==> final(self).spec_sent() == old(self).spec_sent() || final(self).spec_sent()
                == old(self).spec_sent().push(spec_pack(*adb_message)),
    {
        match self.adb_io_manager.write_bytes(adb_message, operation_timeout_ms) {
            Ok(()) => Ok(()),
            Err(err) => Err(map_io_error(err)),
        }
    }

    /// Sends the CNXN greeting carrying this host's banner: on success
    /// exactly the CNXN header and the banner payload went out.
    pub fn send_cnxn_command(&mut self, host_name: &str, operation_timeout_ms: Option<u64>)
        -> (r: Result<(), AdbConnectionError>)
        requires
            old(self).wf(),
        ensures
            final(self).wf(),
            final(self).spec_received() == old(self).spec_received(),
            final(self).spec_delivered() == old(self).spec_delivered(),
            old(self).spec_sent().is_prefix_of(final(self).spec_sent()),
            host_name.spec_bytes().len() + 7 > MAX_ADB_DATA ==> r is Err,
            r matches Err(e) ==> spec_exchange_error(e),
            r is Ok ==> final(self).spec_sent() == old(self).spec_sent() + spec_message_chunks(
                CNXN_CODE,
                ADB_SERVER_VERSION,
                MAX_ADB_DATA,
                spec_cnxn_banner(host_name.spec_bytes()),
            ),
    {
        let host_bytes = host_name.as_bytes();
        if host_bytes.len() > (MAX_ADB_DATA - 7) as usize {
            return Err(AdbConnectionError::UnexpectedError(
                "Host name too long for a CNXN banner".to_owned(),
            ));
        }
        let connect_message = build_cnxn_message(host_name);
        self.send_adb_message(&connect_message, operation_timeout_ms)
    }

    /// Opens a new stream: allocates a fresh local id and sends
    /// `OPEN(local_id, 0, command)`; the remote id stays 0 until the
    /// device's OKAY names it.  On success exactly that OPEN packet's
    /// chunks went out.
    pub fn send_open_command(&mut self, command: &str, operation_timeout_ms: Option<u64>) -> (r:
        Result<AdbTransactionInfo, AdbConnectionError>)
        requires
            old(self).wf(),
        ensures
            final(self).wf(),
            final(self).spec_received() == old(self).spec_received(),
            final(self).spec_delivered() == old(self).spec_delivered(),
            old(self).spec_sent().is_prefix_of(final(self).spec_sent()),
            command.spec_bytes().len() > MAX_ADB_DATA ==> r is Err,
            r matches Err(e) ==> spec_exchange_error(e),
            r matches Ok(t) ==> {
                &&& t.local() == spec_next_id(old(self).spec_last_id())
                &&& t.local() != 0
                &&& t.remote() == 0
                &&& final(self).spec_last_id() == t.local()
                &&& final(self).spec_sent() == old(self).spec_sent() + spec_message_chunks(
                    OPEN_CODE,
                    t.local(),
                    0,
                    command.spec_bytes(),
                )
            },
    {
        let command_bytes = command.as_bytes();
        if command_bytes.len() > MAX_ADB_DATA as usize {
            return Err(AdbConnectionError::CommunicationError(
                "Stream command too long".to_owned(),
            ));
        }
        let last_packet_id = self.get_last_packet_id();
        let transaction_info = AdbTransactionInfo::new(last_packet_id, 0);
        let payload = vstd::slice::slice_to_vec(command.as_bytes());
        let open_message = AdbMessage::new(OPEN_CODE, last_packet_id, 0, payload);
        match self.send_adb_message(&open_message, operation_timeout_ms) {
            Ok(()) => Ok(transaction_info),
            Err(err) => Err(err),
        }
    }

    /// Acknowledges the stream: `OKAY(local, remote)` with no payload.
    pub fn send_okay_command(
        &mut self,
        adb_transaction_info: &AdbTransactionInfo,
        operation_timeout_ms: Option<u64>,
    ) -> (r: Result<(), AdbConnectionError>)
        requires
            old(self).wf(),
        ensures
            final(self).wf(),
            final(self).spec_last_id() == old(self).spec_last_id(),
            final(self).spec_received() == old(self).spec_received(),
            final(self).spec_delivered() == old(self).spec_delivered(),
            old(self).spec_sent().is_prefix_of(final(self).spec_sent()),
            r matches Err(e) ==> spec_exchange_error(e),
            r is Ok ==> final(self).spec_sent() == old(self).spec_sent() + spec_message_chunks(
                OKAY_CODE,
                adb_transaction_info.local(),
                adb_transaction_info.remote(),
                Seq::<u8>::empty(),
            ),
    {
        let adb_message = AdbMessage::new(
            OKAY_CODE,
            adb_transaction_info.sent_packet_id(),
            adb_transaction_info.receive_packet_id(),
            Vec::new(),
        );
        self.send_adb_message(&adb_message, operation_timeout_ms)
    }

    /// Closes the stream: `CLSE(local, remote)` with no payload.
    pub fn send_clse_command(
        &mut self,
        adb_transaction_info: &AdbTransactionInfo,
        operation_timeout_ms: Option<u64>,
    ) -> (r: Result<(), AdbConnectionError>)
        requires
            old(self).wf(),
        ensures
            final(self).wf(),
            final(self).spec_last_id() == old(self).spec_last_id(),
            final(self).spec_received() == old(self).spec_received(),
            final(self).spec_delivered() == old(self).spec_delivered(),
            old(self).spec_sent().is_prefix_of(final(self).spec_sent()),
            r matches Err(e) ==> spec_exchange_error(e),
            r is Ok ==> final(self).spec_sent() == old(self).spec_sent() + spec_message_chunks(
                CLSE_CODE,
                adb_transaction_info.local(),
                adb_transaction_info.remote(),
                Seq::<u8>::empty(),
            ),
    {
        let adb_message = AdbMessage::new(
            CLSE_CODE,
            adb_transaction_info.sent_packet_id(),
            adb_transaction_info.receive_packet_id(),
            Vec::new(),
        );
        self.send_adb_message(&adb_message, operation_timeout_ms)
    }

    /// Sends stream payload: `WRTE(local, remote, data)`.
    pub fn send_wrte_command(
        &mut self,
        adb_transaction_info: &AdbTransactionInfo,
        wrte_data: &[u8],
        operation_timeout_ms: Option<u64>,
    ) -> (r: Result<(), AdbConnectionError>)
        requires
            old(self).wf(),
            wrte_data@.len() <= MAX_ADB_DATA,
        ensures
            final(self).wf(),
            final(self).spec_last_id() == old(self).spec_last_id(),
            final(self).spec_received() == old(self).spec_received(),
            final(self).spec_delivered() == old(self).spec_delivered(),
            old(self).spec_sent().is_prefix_of(final(self).spec_sent()),
            r matches Err(e) ==> spec_exchange_error(e),
            r is Ok ==> final(self).spec_sent() == old(self).spec_sent() + spec_message_chunks(
                WRTE_CODE,
                adb_transaction_info.local(),
                adb_transaction_info.remote(),
                wrte_data@,
            ),
    {
        let adb_message = AdbMessage::new(
            WRTE_CODE,
            adb_transaction_info.sent_packet_id(),
            adb_transaction_info.receive_packet_id(),
            vstd::slice::slice_to_vec(wrte_data),
        );
        self.send_adb_message(&adb_message, operation_timeout_ms)
    }

    /// Waits for a packet of this stream whose command is among
    /// `expected_responses` and whose payload meets `excepted_data`;
    /// anything else that arrives meanwhile is parked for its own
    /// stream, and no wire message is dropped.  Each wire attempt
    /// spends one unit of `attempts`.  A delivered message joins the
    /// delivery transcript; a delivered CLSE leaves no packet parked
    /// for its stream.
    pub fn read_expected_packet(
        &mut self,
        expected_responses: &[u32],
        excepted_data: Option<&Vec<u8>>,
        adb_info: &AdbTransactionInfo,
        attempts: u64,
        data_timeout_ms: u64,
    ) -> (r: Result<AdbMessage, AdbConnectionError>)
        requires
            old(self).wf(),
        ensures
            final(self).wf(),
            final(self).spec_last_id() == old(self).spec_last_id(),
            final(self).spec_sent() == old(self).spec_sent(),
            r is Err ==> final(self).spec_delivered() == old(self).spec_delivered(),
            r matches Err(e) ==> spec_exchange_error(e),
            old(self).spec_wire().is_prefix_of(final(self).spec_wire()),
            r is Err ==> forall|k: int|
                old(self).spec_wire().len() <= k < final(self).spec_wire().len()
                    ==> crate::io::spec_parked(
                    final(self).spec_store(),
                    #[trigger] final(self).spec_wire()[k],
                ),
            r matches Ok(m) ==> {
                &&& m.wf()
                &&& adb_info.spec_args_match(m.spec_arg0(), m.spec_arg1())
                &&& (expected_responses@.len() == 0 || expected_responses@.contains(
                    m.spec_command(),
                ))
                &&& spec_data_matches(
                    match excepted_data {
                        Some(e) => Some(e@),
                        None => None,
                    },
                    m.spec_data(),
                )
                &&& final(self).spec_delivered() == old(self).spec_delivered().push(m)
                &&& m.spec_command() == CLSE_CODE ==> crate::store::index_of_key(
                    final(self).spec_store(),
                    m.spec_arg0(),
                    m.spec_arg1(),
                    0,
                ) == final(self).spec_store().len()
                &&& forall|k: int|
                    old(self).spec_wire().len() <= k < final(self).spec_wire().len()
                        ==> crate::io::spec_routed(
                        final(self).spec_store(),
                        #[trigger] final(self).spec_wire()[k],
                        m,
                    )
            },
    {
        match self.adb_io_manager.read_adb_message_with_packet_store(
            expected_responses,
            excepted_data,
            adb_info,
            attempts,
            data_timeout_ms,
        ) {
            Ok(m) => Ok(m),
            Err(err) => Err(map_io_error(err)),
        }
    }

    /// Waits for this stream's OKAY.
    pub fn read_okay_response(
        &mut self,
        adb_transaction_info: &AdbTransactionInfo,
        attempts: u64,
        data_timeout_ms: u64,
    ) -> (r: Result<AdbMessage, AdbConnectionError>)
        requires
            old(self).wf(),
        ensures
            final(self).wf(),
            final(self).spec_last_id() == old(self).spec_last_id(),
            final(self).spec_sent() == old(self).spec_sent(),
            r is Err ==> final(self).spec_delivered() == old(self).spec_delivered(),
            r matches Err(e) ==> spec_exchange_error(e),
            r matches Ok(m) ==> m.wf() && m.spec_command() == OKAY_CODE
                && adb_transaction_info.spec_args_match(m.spec_arg0(), m.spec_arg1())
                && final(self).spec_delivered() == old(self).spec_delivered().push(m),
    {
        let expected: [u32; 1] = [OKAY_CODE];
        let r = self.read_expected_packet(
            expected.as_slice(),
            None,
            adb_transaction_info,
            attempts,
            data_timeout_ms,
        );
        proof {
            if r is Ok {
                let m = r->Ok_0;
                assert(expected@.contains(m.spec_command()));
                assert(expected@[0] == OKAY_CODE);
            }
        }
        r
    }

    /// Waits for this stream's WRTE.
    pub fn read_wrte_response(
        &mut self,
        adb_transaction_info: &AdbTransactionInfo,
        attempts: u64,
        data_timeout_ms: u64,
    ) -> (r: Result<AdbMessage, AdbConnectionError>)
        requires
            old(self).wf(),
        ensures
            final(self).wf(),
            final(self).spec_last_id() == old(self).spec_last_id(),
            final(self).spec_sent() == old(self).spec_sent(),
            r is Err ==> final(self).spec_delivered() == old(self).spec_delivered(),
            r matches Err(e) ==> spec_exchange_error(e),
            r matches Ok(m) ==> m.wf() && m.spec_command() == WRTE_CODE
                && adb_transaction_info.spec_args_match(m.spec_arg0(), m.spec_arg1())
                && final(self).spec_delivered() == old(self).spec_delivered().push(m),
    {
        let expected: [u32; 1] = [WRTE_CODE];
        let r = self.read_expected_packet(
            expected.as_slice(),
            None,
            adb_transaction_info,
            attempts,
            data_timeout_ms,
        );
        proof {
            if r is Ok {
                let m = r->Ok_0;
                assert(expected@.contains(m.spec_command()));
                assert(expected@[0] == WRTE_CODE);
            }
        }
        r
    }

    /// Waits for this stream's CLSE; a timeout counts as closed, since a
    /// device may close silently.
    pub fn read_clse_response(
        &mut self,
        adb_transaction_info: &AdbTransactionInfo,
        attempts: u64,
        data_timeout_ms: u64,
    ) -> (r: Result<(), AdbConnectionError>)
        requires
            old(self).wf(),
        ensures
            final(self).wf(),
            final(self).spec_last_id() == old(self).spec_last_id(),
            final(self).spec_sent() == old(self).spec_sent(),
            !(r matches Err(AdbConnectionError::Timeout)),
            r matches Err(e) ==> spec_exchange_error(e),
            final(self).spec_delivered() == old(self).spec_delivered() || ({
                let d = final(self).spec_delivered();
                &&& d.len() == old(self).spec_delivered().len() + 1
                &&& d == old(self).spec_delivered().push(d.last())
                &&& d.last().spec_command() == CLSE_CODE
                &&& adb_transaction_info.spec_args_match(
                    d.last().spec_arg0(),
                    d.last().spec_arg1(),
                )
            }),
    {
        let expected: [u32; 1] = [CLSE_CODE];
        match self.read_expected_packet(
            expected.as_slice(),
            None,
            adb_transaction_info,
            attempts,
            data_timeout_ms,
        ) {
            Ok(_) => Ok(()),
            Err(AdbConnectionError::Timeout) => Ok(()),
            Err(err) => Err(err),
        }
    }

    /// Drains the stream into one buffer: collects every payload until a
    /// CLSE or a quiet wire ends it, acknowledging each WRTE before
    /// taking its data.  On success the buffer is exactly the payloads
    /// of the messages delivered during the call, in order (a closing
    /// CLSE contributes nothing), and exactly one OKAY per delivered
    /// WRTE went out.
    pub fn read_all_response(
        &mut self,
        adb_transaction_info: &AdbTransactionInfo,
        attempts: u64,
        data_timeout_ms: u64,
    ) -> (r: Result<Vec<u8>, AdbConnectionError>)
        requires
            old(self).wf(),
        ensures
            final(self).wf(),
            final(self).spec_last_id() == old(self).spec_last_id(),
            old(self).spec_sent().is_prefix_of(final(self).spec_sent()),
            old(self).spec_delivered().is_prefix_of(final(self).spec_delivered()),
            r matches Err(e) ==> spec_exchange_error(e),
            r matches Ok(v) ==> ({
                let seg = final(self).spec_delivered().skip(
                    old(self).spec_delivered().len() as int,
                );
                &&& v@ == spec_drained_data(seg)
                &&& final(self).spec_sent() == old(self).spec_sent() + spec_drain_acks(
                    seg,
                    adb_transaction_info.local(),
                    adb_transaction_info.remote(),
                )
                &&& forall|i: int|
                    0 <= i < seg.len() ==> adb_transaction_info.spec_args_match(
                        #[trigger] seg[i].spec_arg0(),
                        seg[i].spec_arg1(),
                    )
            }),
    {
        let ghost n = old(self).spec_delivered().len() as int;
        let mut response: Vec<u8> = Vec::new();
        let mut tries: u64 = attempts;
        proof {
            assert(self.spec_delivered().skip(n) =~= Seq::<AdbMessage>::empty());
            assert(self.spec_sent() =~= old(self).spec_sent() + spec_drain_acks(
                self.spec_delivered().skip(n),
                adb_transaction_info.local(),
                adb_transaction_info.remote(),
            ));
        }
        loop
            invariant
                self.wf(),
                n == old(self).spec_delivered().len() as int,
                self.spec_last_id() == old(self).spec_last_id(),
                old(self).spec_delivered().is_prefix_of(self.spec_delivered()),
                response@ == spec_drained_data(self.spec_delivered().skip(n)),
                self.spec_sent() == old(self).spec_sent() + spec_drain_acks(
                    self.spec_delivered().skip(n),
                    adb_transaction_info.local(),
                    adb_transaction_info.remote(),
                ),
                forall|i: int|
                    0 <= i < self.spec_delivered().skip(n).len()
                        ==> adb_transaction_info.spec_args_match(
                        #[trigger] self.spec_delivered().skip(n)[i].spec_arg0(),
                        self.spec_delivered().skip(n)[i].spec_arg1(),
                    ),
            decreases tries,
        {
            proof {
                assert(old(self).spec_sent().is_prefix_of(self.spec_sent())) by {
                    assert(self.spec_sent().subrange(0, old(self).spec_sent().len() as int)
                        =~= old(self).spec_sent());
                }
            }
            if tries == 0 {
                return Ok(response);
            }
            tries = tries - 1;
            let ghost seg_before = self.spec_delivered().skip(n);
            let ghost sent_before = self.spec_sent();
            match self.read_stream_step(adb_transaction_info, 1, data_timeout_ms) {
                Ok(StreamEvent::Data(mut d)) => {
                    proof {
                        let seg = self.spec_delivered().skip(n);
                        assert(seg =~= seg_before.push(self.spec_delivered().last()));
                        assert(seg.drop_last() =~= seg_before);
                        assert(self.spec_sent() =~= old(self).spec_sent() + spec_drain_acks(
                            seg,
                            adb_transaction_info.local(),
                            adb_transaction_info.remote(),
                        ));
                    }
                    response.append(&mut d);
                    proof {
                        assert(response@ =~= spec_drained_data(self.spec_delivered().skip(n)));
                    }
                },
                Ok(StreamEvent::Closed) => {
                    proof {
                        let seg = self.spec_delivered().skip(n);
                        assert(seg =~= seg_before.push(self.spec_delivered().last()));
                        assert(seg.drop_last() =~= seg_before);
                        assert(response@ =~= spec_drained_data(seg));
                        assert(self.spec_sent() =~= old(self).spec_sent() + spec_drain_acks(
                            seg,
                            adb_transaction_info.local(),
                            adb_transaction_info.remote(),
                        ));
                        assert(old(self).spec_sent().is_prefix_of(self.spec_sent())) by {
                            assert(self.spec_sent().subrange(
                                0,
                                old(self).spec_sent().len() as int,
                            ) =~= old(self).spec_sent());
                        }
                    }
                    return Ok(response);
                },
                Ok(StreamEvent::Quiet) => {
                    return Ok(response);
                },
                Err(err) => {
                    proof {
                        crate::io::lemma_prefix_trans(
                            old(self).spec_sent(),
                            sent_before,
                            self.spec_sent(),
                        );
                        crate::io::lemma_prefix_trans(
                            old(self).spec_delivered(),
                            old(self).spec_delivered() + seg_before,
                            self.spec_delivered(),
                        );
                    }
                    return Err(err);
                },
            }
        }
    }

    /// One step of draining a stream: the next payload, or the stream's
    /// end (CLSE), or a quiet wire (timeout).  The event reflects the
    /// message delivered — its payload for data, CLSE for the close —
    /// and a WRTE is acknowledged with one OKAY before its payload is
    /// handed out.
    pub fn read_stream_step(
        &mut self,
        adb_transaction_info: &AdbTransactionInfo,
        attempts: u64,
        data_timeout_ms: u64,
    ) -> (r: Result<StreamEvent, AdbConnectionError>)
        requires
            old(self).wf(),
        ensures
            final(self).wf(),
            final(self).spec_last_id() == old(self).spec_last_id(),
            old(self).spec_sent().is_prefix_of(final(self).spec_sent()),
            old(self).spec_delivered().is_prefix_of(final(self).spec_delivered()),
            final(self).spec_delivered().len() <= old(self).spec_delivered().len() + 1,
            r matches Err(e) ==> spec_exchange_error(e),
            r matches Ok(StreamEvent::Data(d)) ==> ({
                let dl = final(self).spec_delivered();
                &&& d@.len() <= MAX_ADB_DATA
                &&& dl == old(self).spec_delivered().push(dl.last())
                &&& dl.last().spec_data() == d@
                &&& dl.last().spec_command() != CLSE_CODE
                &&& adb_transaction_info.spec_args_match(
                    dl.last().spec_arg0(),
                    dl.last().spec_arg1(),
                )
                &&& dl.last().spec_command() == WRTE_CODE ==> final(self).spec_sent() == old(
                    self,
                ).spec_sent() + spec_message_chunks(
                    OKAY_CODE,
                    adb_transaction_info.local(),
                    adb_transaction_info.remote(),
                    Seq::<u8>::empty(),
                )
                &&& dl.last().spec_command() != WRTE_CODE ==> final(self).spec_sent() == old(
                    self,
                ).spec_sent()
            }),
            r matches Ok(StreamEvent::Closed) ==> ({
                let dl = final(self).spec_delivered();
                &&& dl == old(self).spec_delivered().push(dl.last())
                &&& dl.last().spec_command() == CLSE_CODE
                &&& adb_transaction_info.spec_args_match(
                    dl.last().spec_arg0(),
                    dl.last().spec_arg1(),
                )
                &&& final(self).spec_sent() == old(self).spec_sent()
            }),
            r matches Ok(StreamEvent::Quiet) ==> final(self).spec_delivered() == old(
                self,
            ).spec_delivered() && final(self).spec_sent() == old(self).spec_sent(),
    {
        match self.read_expected_packet(
            &[],
            None,
            adb_transaction_info,
            attempts,
            data_timeout_ms,
        ) {
            Ok(msg) => {
                proof {
                    assert(old(self).spec_delivered().is_prefix_of(self.spec_delivered())) by {
                        assert(self.spec_delivered().subrange(
                            0,
                            old(self).spec_delivered().len() as int,
                        ) =~= old(self).spec_delivered());
                    }
                }
                if msg.command() == CLSE_CODE {
                    return Ok(StreamEvent::Closed);
                }
                if msg.command() == WRTE_CODE {
                    match self.send_okay_command(adb_transaction_info, Some(data_timeout_ms)) {
                        Ok(()) => {
                        },
                        Err(err) => {
                            return Err(err);
                        },
                    }
                }
                Ok(StreamEvent::Data(msg.into_data()))
            },
            Err(AdbConnectionError::Timeout) => Ok(StreamEvent::Quiet),
            Err(err) => Err(err),
        }
    }
}

/// What one drain step of a stream produced.
pub enum StreamEvent {
    Data(Vec<u8>),
    Closed,
    Quiet,
}

} // verus!
