use vstd::prelude::*;
use crate::enums::InterfaceType;
use crate::errors::{AdbIoError, TransportError, map_transport_error};
use crate::message::{AdbMessage, ADB_MESSAGE_SIZE, MAX_ADB_DATA, CLSE_CODE, spec_checksum,
    spec_pack, spec_message_chunks, spec_header_describes, spec_u32_from_le};
use crate::store::{AdbPacketStore, index_of_key, lemma_clear_removes_key, store_has_packet,
    lemma_put_has, lemma_put_preserves, lemma_get_preserves, lemma_clear_preserves};
use crate::tinfo::AdbTransactionInfo;
use crate::transport::Transport;

verus! {

/// How long a header read waits: very short, so that "no packet right
/// now" surfaces as a fast timeout instead of a long block.
pub const ADB_HEADER_TIMEOUT_MS: u64 = 50;

/// Whether a payload satisfies an expectation: no expectation accepts
/// anything; an expected payload accepts itself exactly, and, when it
/// ends in NUL, also itself without that NUL, since some device daemons
/// omit the terminator.
pub open spec fn spec_data_matches(expected: Option<Seq<u8>>, data: Seq<u8>) -> bool {
    match expected {
        None => true,
        Some(e) => data == e || (e.len() > 0 && e.last() == 0 && data == e.drop_last()),
    }
}

/// Checks a payload against an expectation.
pub fn data_matches(expected: Option<&Vec<u8>>, data: &Vec<u8>) -> (r: bool)
    ensures
        r == spec_data_matches(
            match expected {
                Some(e) => Some(e@),
                None => None,
            },
            data@,
        ),
{
    match expected {
        None => true,
        Some(e) => {
            if bytes_eq_range(data, e, e.len()) && data.len() == e.len() {
                proof {
                    assert(data@ =~= data@.take(e@.len() as int));
                    assert(e@ =~= e@.take(e@.len() as int));
                }
                return true;
            }
            if e.len() > 0 && e[e.len() - 1] == 0 && data.len() == e.len() - 1 && bytes_eq_range(
                data,
                e,
                e.len() - 1,
            ) {
                proof {
                    assert(data@ =~= e@.drop_last());
                }
                return true;
            }
            proof {
                if data@ == e@ {
                    assert(data@.len() == e@.len());
                    assert(data@.take(e@.len() as int) =~= e@.take(e@.len() as int));
                }
                if e@.len() > 0 && e@.last() == 0 && data@ == e@.drop_last() {
                    assert(data@.len() == e@.len() - 1);
                    assert(data@.take(e@.len() - 1) =~= e@.take(e@.len() - 1));
                }
            }
            false
        },
    }
}

/// Whether the first `n` bytes of `a` and `b` agree (both must be at
/// least that long).
fn bytes_eq_range(a: &Vec<u8>, b: &Vec<u8>, n: usize) -> (r: bool)
    ensures
        r == (a@.len() >= n && b@.len() >= n && a@.take(n as int) == b@.take(n as int)),
{
    if a.len() < n || b.len() < n {
        return false;
    }
    let mut i: usize = 0;
    while i < n
        invariant
            0 <= i <= n,
            a@.len() >= n,
            b@.len() >= n,
            forall|j: int| 0 <= j < i ==> a@[j] == b@[j],
        decreases n - i,
    {
        if a[i] != b[i] {
            proof {
                assert(a@.take(n as int)[i as int] != b@.take(n as int)[i as int]);
            }
            return false;
        }
        i = i + 1;
    }
    proof {
        assert(a@.take(n as int) =~= b@.take(n as int));
    }
    true
}

/// Whether `expected` names `cmd`, an empty expectation accepting any.
pub fn cmds_accept(expected: &[u32], cmd: u32) -> (r: bool)
    ensures
        r == (expected@.len() == 0 || expected@.contains(cmd)),
{
    if expected.len() == 0 {
        return true;
    }
    let mut i: usize = 0;
    while i < expected.len()
        invariant
            0 <= i <= expected@.len(),
            forall|j: int| 0 <= j < i ==> expected@[j] != cmd,
        decreases expected@.len() - i,
    {
        if expected[i] == cmd {
            return true;
        }
        i = i + 1;
    }
    false
}

/// A prefix stays a prefix through a longer extension.
pub proof fn lemma_prefix_trans<A>(a: Seq<A>, b: Seq<A>, c: Seq<A>)
    requires
        a.is_prefix_of(b),
        b.is_prefix_of(c),
    ensures
        a.is_prefix_of(c),
{
    assert forall|i: int| 0 <= i < a.len() implies c.subrange(0, a.len() as int)[i] == a[i] by {
        assert(b.subrange(0, a.len() as int)[i] == a[i]);
        assert(c.subrange(0, b.len() as int)[i] == b[i]);
    }
    assert(c.subrange(0, a.len() as int) =~= a);
}

/// The release rule: a clean release counts, and so does a connection
/// error (the device is gone anyway); any other failure is unexpected
/// and carries the transport's message.
pub fn release_outcome(result: Result<(), TransportError>) -> (r: Result<(), AdbIoError>)
    ensures
        match result {
            Ok(_) => r is Ok,
            Err(TransportError::ConnectionError(_)) => r is Ok,
            Err(TransportError::Timeout) => (r matches Err(AdbIoError::UnexpectedError(m)) && m@
                == Seq::<char>::empty()),
            Err(TransportError::Disconnected) => (r matches Err(AdbIoError::UnexpectedError(m))
                && m@ == Seq::<char>::empty()),
            Err(TransportError::DeviceNotFound) => (r matches Err(
                AdbIoError::UnexpectedError(m),
            ) && m@ == Seq::<char>::empty()),
            Err(TransportError::Unauthorized(msg)) => (r matches Err(
                AdbIoError::UnexpectedError(m),
            ) && m@ == msg@),
            Err(TransportError::CommunicationError(msg)) => (r matches Err(
                AdbIoError::UnexpectedError(m),
            ) && m@ == msg@),
            Err(TransportError::UnexpectedError(msg)) => (r matches Err(
                AdbIoError::UnexpectedError(m),
            ) && m@ == msg@),
        },
{
    match result {
        Ok(()) => Ok(()),
        Err(TransportError::ConnectionError(_)) => Ok(()),
        Err(err) => Err(AdbIoError::UnexpectedError(err.message())),
    }
}

/// Whether a message's contents sit parked in the store under its own
/// `(arg0, arg1)` stream key.
pub open spec fn spec_parked(
    store: Seq<((u32, u32), Seq<(u32, Seq<u8>)>)>,
    w: AdbMessage,
) -> bool {
    store_has_packet(store, w.spec_arg0(), w.spec_arg1(), w.spec_command(), w.spec_data())
}

/// Where a wire message may end up when `m` is the delivered match: it is
/// `m` itself (same command, ids and payload), or it belongs to the
/// stream a delivered CLSE just closed (its queue is discarded), or it
/// sits parked in the store.  No other fate exists: no packet is dropped.
pub open spec fn spec_routed(
    store: Seq<((u32, u32), Seq<(u32, Seq<u8>)>)>,
    w: AdbMessage,
    m: AdbMessage,
) -> bool {
    ||| (w.spec_arg0() == m.spec_arg0() && w.spec_arg1() == m.spec_arg1() && w.spec_command()
        == m.spec_command() && w.spec_data() == m.spec_data())
    ||| (m.spec_command() == CLSE_CODE && w.spec_arg0() == m.spec_arg0() && w.spec_arg1()
        == m.spec_arg1())
    ||| spec_parked(store, w)
}

/// Serializes all access to one device's transport and pairs each header
/// read with its payload read; packets that are not for the caller at
/// hand are parked in the packet store.  Four ghost transcripts record
/// the traffic: every chunk handed to the transport (`spec_sent`), every
/// chunk the transport returned (`spec_received`), every whole message
/// parsed off the wire (`spec_wire`), and every matched message handed
/// to a caller (`spec_delivered`); the contracts of the exchange
/// functions are stated over them.
pub struct AdbDeviceIo<T: Transport> {
    transport: T,
    packet_store: AdbPacketStore,
    sent: Ghost<Seq<Seq<u8>>>,
    received: Ghost<Seq<Seq<u8>>>,
    wire: Ghost<Seq<AdbMessage>>,
    delivered: Ghost<Seq<AdbMessage>>,
}

impl<T: Transport> AdbDeviceIo<T> {
    pub closed spec fn store(&self) -> Seq<((u32, u32), Seq<(u32, Seq<u8>)>)> {
        self.packet_store.view()
    }

    pub closed spec fn wf(&self) -> bool {
        self.packet_store.wf()
    }

    /// Every chunk handed to the transport, in order.
    pub closed spec fn spec_sent(&self) -> Seq<Seq<u8>> {
        self.sent@
    }

    /// Every chunk the transport returned, in order.
    pub closed spec fn spec_received(&self) -> Seq<Seq<u8>> {
        self.received@
    }

    /// Every whole message read off the wire, in order.
    pub closed spec fn spec_wire(&self) -> Seq<AdbMessage> {
        self.wire@
    }

    /// Every matched message handed to a caller, in order.
    pub closed spec fn spec_delivered(&self) -> Seq<AdbMessage> {
        self.delivered@
    }

    pub fn new(transport: T) -> (r: Self)
        ensures
            r.wf(),
            r.store() == Seq::<((u32, u32), Seq<(u32, Seq<u8>)>)>::empty(),
            r.spec_sent() == Seq::<Seq<u8>>::empty(),
            r.spec_received() == Seq::<Seq<u8>>::empty(),
            r.spec_wire() == Seq::<AdbMessage>::empty(),
            r.spec_delivered() == Seq::<AdbMessage>::empty(),
    {
        AdbDeviceIo {
            transport,
            packet_store: AdbPacketStore::new(),
            sent: Ghost(Seq::empty()),
            received: Ghost(Seq::empty()),
            wire: Ghost(Seq::empty()),
            delivered: Ghost(Seq::empty()),
        }
    }


    /// The transport under this I/O layer.
    pub fn transport_ref(&self) -> &T {
        &self.transport
    }

    pub fn acquire_device(&mut self, device_type: InterfaceType) -> (r: Result<(), AdbIoError>)
        requires
            old(self).wf(),
        ensures
            final(self).wf(),
            final(self).store() == old(self).store(),
            final(self).spec_sent() == old(self).spec_sent(),
            final(self).spec_received() == old(self).spec_received(),
            final(self).spec_delivered() == old(self).spec_delivered(),
            r matches Err(e) ==> e is DeviceConnectionError,
            final(self).spec_wire() == old(self).spec_wire(),
    {
        match self.transport.acquire_device(device_type) {
            Ok(()) => Ok(()),
            Err(err) => Err(AdbIoError::DeviceConnectionError(err.message())),
        }
    }

    /// Releases the device; `release_outcome` fixes how each transport
    /// result is reported.
    pub fn release_device(&mut self) -> (r: Result<(), AdbIoError>)
        requires
            old(self).wf(),
        ensures
            final(self).wf(),
            final(self).store() == old(self).store(),
            final(self).spec_sent() == old(self).spec_sent(),
            final(self).spec_received() == old(self).spec_received(),
            final(self).spec_wire() == old(self).spec_wire(),
            final(self).spec_delivered() == old(self).spec_delivered(),
            r matches Err(e) ==> e is UnexpectedError,
    {
        release_outcome(self.transport.release_device())
    }

    pub fn verify_connection_status(&mut self) -> (r: Result<(), AdbIoError>)
        requires
            old(self).wf(),
        ensures
            final(self).wf(),
            final(self).store() == old(self).store(),
            final(self).spec_sent() == old(self).spec_sent(),
            final(self).spec_received() == old(self).spec_received(),
            final(self).spec_wire() == old(self).spec_wire(),
            final(self).spec_delivered() == old(self).spec_delivered(),
            r matches Err(e) ==> e is DeviceConnectionError,
    {
        match self.transport.verify_connection_status() {
            Ok(()) => Ok(()),
            Err(err) => Err(AdbIoError::DeviceConnectionError(err.message())),
        }
    }

    /// Sends one message: the packed 24-byte header, then, separately,
    /// the payload if there is one (the USB stack's packet alignment
    /// wants them in distinct writes).  On success exactly the message's
    /// wire chunks were handed to the transport, in order.
    pub fn write_bytes(&mut self, adb_message: &AdbMessage, transport_timeout_ms: Option<u64>)
        -> (r: Result<(), AdbIoError>)
        requires
            old(self).wf(),
            adb_message.wf(),
        ensures
            final(self).wf(),
            final(self).store() == old(self).store(),
            final(self).spec_received() == old(self).spec_received(),
            final(self).spec_wire() == old(self).spec_wire(),
            final(self).spec_delivered() == old(self).spec_delivered(),
            r is Ok ==> final(self).spec_sent() == old(self).spec_sent() + spec_message_chunks(
                adb_message.spec_command(),
                adb_message.spec_arg0(),
                adb_message.spec_arg1(),
                adb_message.spec_data(),
            ),
            r is Err ==> final(self).spec_sent() == old(self).spec_sent() || final(self).spec_sent()
                == old(self).spec_sent().push(spec_pack(*adb_message)),
    {
        let packed_message = adb_message.pack_message();
        match self.transport.bulk_write(packed_message.as_slice(), transport_timeout_ms) {
            Ok(_) => {
                proof {
                    self.sent@ = self.sent@.push(packed_message@);
                }
            },
            Err(err) => {
                return Err(map_transport_error(err));
            },
        }
        if adb_message.data().len() > 0 {
            match self.transport.bulk_write(adb_message.data().as_slice(), transport_timeout_ms) {
                Ok(_) => {
                    proof {
                        self.sent@ = self.sent@.push(adb_message.spec_data());
                        assert(self.spec_sent() =~= old(self).spec_sent() + spec_message_chunks(
                            adb_message.spec_command(),
                            adb_message.spec_arg0(),
                            adb_message.spec_arg1(),
                            adb_message.spec_data(),
                        ));
                    }
                },
                Err(err) => {
                    return Err(map_transport_error(err));
                },
            }
        } else {
            proof {
                assert(self.spec_sent() =~= old(self).spec_sent() + spec_message_chunks(
                    adb_message.spec_command(),
                    adb_message.spec_arg0(),
                    adb_message.spec_arg1(),
                    adb_message.spec_data(),
                ));
            }
        }
        Ok(())
    }

    /// Reads one message straight off the wire: the header under the
    /// short header timeout, then the payload under the caller's timeout,
    /// with the payload checksum verified against the header.  A
    /// successful message is exactly what the transport handed back: its
    /// fields parse the 24-byte header chunk, its payload (when the
    /// header announces one) is the following chunk, checksum-verified.
    pub fn read_adb_message_last_message(&mut self, data_timeout_ms: u64) -> (r: Result<
        AdbMessage,
        AdbIoError,
    >)
        requires
            old(self).wf(),
        ensures
            final(self).wf(),
            final(self).store() == old(self).store(),
            final(self).spec_sent() == old(self).spec_sent(),
            final(self).spec_delivered() == old(self).spec_delivered(),
            old(self).spec_received().is_prefix_of(final(self).spec_received()),
            r is Err ==> final(self).spec_wire() == old(self).spec_wire(),
            r matches Ok(m) ==> ({
                let n = old(self).spec_received().len() as int;
                let rcv = final(self).spec_received();
                &&& m.wf()
                &&& final(self).spec_wire() == old(self).spec_wire().push(m)
                &&& (rcv.len() == n + 1 || rcv.len() == n + 2)
                &&& spec_header_describes(rcv[n], m)
                &&& rcv.len() == n + 1 ==> m.spec_data().len() == 0
                &&& rcv.len() == n + 2 ==> rcv[n + 1] == m.spec_data() && spec_checksum(
                    m.spec_data(),
                ) == spec_u32_from_le(rcv[n][16], rcv[n][17], rcv[n][18], rcv[n][19])
            }),
    {
        let (header_msg, data_length, data_checksum) = match self.read_message_header(
            ADB_HEADER_TIMEOUT_MS,
        ) {
            Ok(t) => t,
            Err(e) => {
                return Err(e);
            },
        };
        if data_length == 0 {
            proof {
                self.wire@ = self.wire@.push(header_msg);
            }
            return Ok(header_msg);
        }
        let ghost mid_received = self.spec_received();
        let r = self.read_message_data(header_msg, data_length, data_checksum, data_timeout_ms);
        proof {
            assert(old(self).spec_received().is_prefix_of(mid_received)) by {
                assert(mid_received.subrange(0, old(self).spec_received().len() as int)
                    =~= old(self).spec_received());
            }
            lemma_prefix_trans(
                old(self).spec_received(),
                mid_received,
                self.spec_received(),
            );
            if r is Ok {
                self.wire@ = self.wire@.push(r->Ok_0);
            }
        }
        r
    }

    /// Reads and parses one 24-byte header.  On success the returned
    /// fields are exactly the little-endian fields of the 24 bytes the
    /// transport handed back, which the receive transcript records.
    fn read_message_header(&mut self, timeout_ms: u64) -> (r: Result<
        (AdbMessage, u32, u32),
        AdbIoError,
    >)
        requires
            old(self).wf(),
        ensures
            final(self).wf(),
            final(self).store() == old(self).store(),
            final(self).spec_sent() == old(self).spec_sent(),
            final(self).spec_delivered() == old(self).spec_delivered(),
            final(self).spec_wire() == old(self).spec_wire(),
            old(self).spec_received().is_prefix_of(final(self).spec_received()),
            r is Err ==> final(self).spec_received() == old(self).spec_received(),
            r matches Ok((m, len, checksum)) ==> ({
                let h = final(self).spec_received().last();
                &&& m.wf()
                &&& m.spec_data().len() == 0
                &&& final(self).spec_received() == old(self).spec_received().push(h)
                &&& h.len() == 24
                &&& m.spec_command() == spec_u32_from_le(h[0], h[1], h[2], h[3])
                &&& m.spec_arg0() == spec_u32_from_le(h[4], h[5], h[6], h[7])
                &&& m.spec_arg1() == spec_u32_from_le(h[8], h[9], h[10], h[11])
                &&& len == spec_u32_from_le(h[12], h[13], h[14], h[15])
                &&& checksum == spec_u32_from_le(h[16], h[17], h[18], h[19])
            }),
    {
        let bytes_response = match self.transport.bulk_read(ADB_MESSAGE_SIZE, timeout_ms) {
            Ok(b) => b,
            Err(err) => {
                return Err(map_transport_error(err));
            },
        };
        proof {
            self.received@ = self.received@.push(bytes_response@);
            assert(old(self).spec_received().is_prefix_of(self.spec_received())) by {
                assert(self.spec_received().subrange(0, old(self).spec_received().len() as int)
                    =~= old(self).spec_received());
            }
        }
        match AdbMessage::unpack_message(&bytes_response) {
            Ok((command, arg0, arg1, data_length, data_checksum)) => {
                let header_msg = AdbMessage::new(command, arg0, arg1, Vec::new());
                Ok((header_msg, data_length, data_checksum))
            },
            Err(err) => Err(AdbIoError::ParseError(err.message())),
        }
    }

    /// Reads the payload announced by a header and verifies its checksum;
    /// a mismatch, like a length beyond the protocol's 1 MiB bound, is a
    /// protocol violation.  On success the payload is exactly the chunk
    /// the transport handed back, recorded in the receive transcript.
    fn read_message_data(
        &mut self,
        header_msg: AdbMessage,
        data_length: u32,
        data_checksum: u32,
        timeout_ms: u64,
    ) -> (r: Result<AdbMessage, AdbIoError>)
        requires
            old(self).wf(),
            header_msg.wf(),
        ensures
            final(self).wf(),
            final(self).store() == old(self).store(),
            final(self).spec_sent() == old(self).spec_sent(),
            final(self).spec_delivered() == old(self).spec_delivered(),
            final(self).spec_wire() == old(self).spec_wire(),
            old(self).spec_received().is_prefix_of(final(self).spec_received()),
            r matches Ok(m) ==> {
                &&& m.wf()
                &&& m.spec_command() == header_msg.spec_command()
                &&& m.spec_arg0() == header_msg.spec_arg0()
                &&& m.spec_arg1() == header_msg.spec_arg1()
                &&& m.spec_data().len() == data_length
                &&& spec_checksum(m.spec_data()) == data_checksum
                &&& final(self).spec_received() == old(self).spec_received().push(m.spec_data())
            },
    {
        if data_length > MAX_ADB_DATA {
            return Err(AdbIoError::UnexpectedError(
                "Announced payload exceeds the protocol limit".to_owned(),
            ));
        }
        let message_data = match self.transport.bulk_read(data_length as usize, timeout_ms) {
            Ok(b) => b,
            Err(err) => {
                return Err(map_transport_error(err));
            },
        };
        proof {
            self.received@ = self.received@.push(message_data@);
            assert(old(self).spec_received().is_prefix_of(self.spec_received())) by {
                assert(self.spec_received().subrange(0, old(self).spec_received().len() as int)
                    =~= old(self).spec_received());
            }
        }
        let mut msg = header_msg;
        msg.set_data(message_data);
        if msg.checksum() != data_checksum {
            return Err(AdbIoError::UnexpectedError("Checksum mismatch".to_owned()));
        }
        Ok(msg)
    }

    /// Looks for a packet that belongs to `adb_info`, has an expected
    /// command and an expected payload: first in the packet store, then
    /// on the wire.  Each wire attempt spends one unit of `attempts`;
    /// running out is a timeout.  A delivered message joins the delivery
    /// transcript and, when it is a CLSE, leaves no packet parked for
    /// its stream.  Every message read off the wire during the call is
    /// accounted for: it is the delivered match, or it is discarded with
    /// the stream a delivered CLSE closed, or it sits parked in the
    /// store — none is dropped.
    pub fn read_adb_message_with_packet_store(
        &mut self,
        expected_cmds: &[u32],
        expected_data: Option<&Vec<u8>>,
        adb_info: &AdbTransactionInfo,
        attempts: u64,
        data_timeout_ms: u64,
    ) -> (r: Result<AdbMessage, AdbIoError>)
        requires
            old(self).wf(),
        ensures
            final(self).wf(),
            final(self).spec_sent() == old(self).spec_sent(),
            old(self).spec_received().is_prefix_of(final(self).spec_received()),
            old(self).spec_wire().is_prefix_of(final(self).spec_wire()),
            r is Err ==> final(self).spec_delivered() == old(self).spec_delivered(),
            r is Err ==> forall|k: int|
                old(self).spec_wire().len() <= k < final(self).spec_wire().len()
                    ==> spec_parked(final(self).store(), #[trigger] final(self).spec_wire()[k]),
            r matches Ok(m) ==> {
                &&& m.wf()
                &&& adb_info.spec_args_match(m.spec_arg0(), m.spec_arg1())
                &&& (expected_cmds@.len() == 0 || expected_cmds@.contains(m.spec_command()))
                &&& spec_data_matches(
                    match expected_data {
                        Some(e) => Some(e@),
                        None => None,
                    },
                    m.spec_data(),
                )
                &&& final(self).spec_delivered() == old(self).spec_delivered().push(m)
                &&& m.spec_command() == CLSE_CODE ==> index_of_key(
                    final(self).store(),
                    m.spec_arg0(),
                    m.spec_arg1(),
                    0,
                ) == final(self).store().len()
                &&& forall|k: int|
                    old(self).spec_wire().len() <= k < final(self).spec_wire().len()
                        ==> spec_routed(
                        final(self).store(),
                        #[trigger] final(self).spec_wire()[k],
                        m,
                    )
            },
    {
        let ghost n0 = old(self).spec_wire().len() as int;
        let mut tries: u64 = attempts;
        loop
            invariant
                self.wf(),
                n0 == old(self).spec_wire().len() as int,
                self.spec_sent() == old(self).spec_sent(),
                self.spec_delivered() == old(self).spec_delivered(),
                old(self).spec_received().is_prefix_of(self.spec_received()),
                old(self).spec_wire().is_prefix_of(self.spec_wire()),
                forall|k: int|
                    n0 <= k < self.spec_wire().len() ==> spec_parked(
                        self.store(),
                        #[trigger] self.spec_wire()[k],
                    ),
            decreases tries,
        {
            let ghost wire_snap = self.spec_wire();
            let ghost store_snap = self.store();
            match self.packet_store.get_packet(
                adb_info.receive_packet_id(),
                adb_info.sent_packet_id(),
                expected_cmds,
            ) {
                Some((cmd, arg0, arg1, data)) => {
                    let data_len_ok = data.len() <= MAX_ADB_DATA as usize;
                    let accept = data_len_ok && cmds_accept(expected_cmds, cmd) && data_matches(
                        expected_data,
                        &data,
                    ) && adb_info.args_match(arg0, arg1);
                    let ghost popped_store = self.store();
                    proof {
                        // After the pop, every wire message of this call is
                        // still parked, unless its contents are exactly the
                        // popped packet's.
                        assert forall|k: int|
                            n0 <= k < wire_snap.len() implies spec_parked(
                            popped_store,
                            #[trigger] wire_snap[k],
                        ) || (wire_snap[k].spec_arg0() == arg0 && wire_snap[k].spec_arg1()
                            == arg1 && wire_snap[k].spec_command() == cmd && wire_snap[
                        k].spec_data() == data@) by {
                            let w = wire_snap[k];
                            assert(spec_parked(store_snap, w));
                            if !(w.spec_arg0() == arg0 && w.spec_arg1() == arg1
                                && w.spec_command() == cmd && w.spec_data() == data@) {
                                lemma_get_preserves(
                                    store_snap,
                                    adb_info.remote(),
                                    adb_info.local(),
                                    expected_cmds@,
                                    w.spec_arg0(),
                                    w.spec_arg1(),
                                    w.spec_command(),
                                    w.spec_data(),
                                );
                            }
                        }
                    }
                    if accept {
                        if cmd == CLSE_CODE {
                            self.packet_store.clear_packet(arg0, arg1);
                            proof {
                                lemma_clear_removes_key(popped_store, arg0, arg1);
                            }
                        }
                        let msg = AdbMessage::new(cmd, arg0, arg1, data);
                        proof {
                            self.delivered@ = self.delivered@.push(msg);
                            assert forall|k: int|
                                n0 <= k < self.spec_wire().len() implies spec_routed(
                                self.store(),
                                #[trigger] self.spec_wire()[k],
                                msg,
                            ) by {
                                assert(self.spec_wire() == wire_snap);
                                let w = wire_snap[k];
                                if !(w.spec_arg0() == arg0 && w.spec_arg1() == arg1
                                    && w.spec_command() == cmd && w.spec_data() == data@) {
                                    assert(spec_parked(popped_store, w));
                                    if cmd == CLSE_CODE {
                                        if !(w.spec_arg0() == arg0 && w.spec_arg1() == arg1) {
                                            lemma_clear_preserves(
                                                popped_store,
                                                arg0,
                                                arg1,
                                                w.spec_arg0(),
                                                w.spec_arg1(),
                                                w.spec_command(),
                                                w.spec_data(),
                                            );
                                        }
                                    }
                                }
                            }
                        }
                        return Ok(msg);
                    } else {
                        self.packet_store.put_packet(arg0, arg1, cmd, data);
                        proof {
                            assert forall|k: int|
                                n0 <= k < self.spec_wire().len() implies spec_parked(
                                self.store(),
                                #[trigger] self.spec_wire()[k],
                            ) by {
                                assert(self.spec_wire() == wire_snap);
                                let w = wire_snap[k];
                                if w.spec_arg0() == arg0 && w.spec_arg1() == arg1
                                    && w.spec_command() == cmd && w.spec_data() == data@ {
                                    lemma_put_has(popped_store, arg0, arg1, cmd, data@);
                                } else {
                                    lemma_put_preserves(
                                        popped_store,
                                        arg0,
                                        arg1,
                                        cmd,
                                        data@,
                                        w.spec_arg0(),
                                        w.spec_arg1(),
                                        w.spec_command(),
                                        w.spec_data(),
                                    );
                                }
                            }
                        }
                    }
                },
                None => {
                },
            }
            if tries == 0 {
                return Err(AdbIoError::TimeoutError);
            }
            tries = tries - 1;
            let ghost recvd_before = self.spec_received();
            let ghost wire_before = self.spec_wire();
            let ghost store_before = self.store();
            let adb_message = match self.read_adb_message_last_message(data_timeout_ms) {
                Ok(m) => {
                    proof {
                        lemma_prefix_trans(
                            old(self).spec_received(),
                            recvd_before,
                            self.spec_received(),
                        );
                        assert(old(self).spec_wire().is_prefix_of(self.spec_wire())) by {
                            assert(self.spec_wire().subrange(
                                0,
                                old(self).spec_wire().len() as int,
                            ) =~= old(self).spec_wire());
                        }
                    }
                    m
                },
                Err(AdbIoError::TimeoutError) => {
                    proof {
                        lemma_prefix_trans(
                            old(self).spec_received(),
                            recvd_before,
                            self.spec_received(),
                        );
                    }
                    continue;
                },
                Err(err) => {
                    proof {
                        lemma_prefix_trans(
                            old(self).spec_received(),
                            recvd_before,
                            self.spec_received(),
                        );
                    }
                    return Err(err);
                },
            };
            let ghost wire_now = self.spec_wire();
            if !adb_info.args_match(adb_message.arg0(), adb_message.arg1()) {
                let arg0 = adb_message.arg0();
                let arg1 = adb_message.arg1();
                let cmd = adb_message.command();
                let ghost wmsg = adb_message;
                self.packet_store.put_packet(arg0, arg1, cmd, adb_message.into_data());
                proof {
                    assert forall|k: int|
                        n0 <= k < self.spec_wire().len() implies spec_parked(
                        self.store(),
                        #[trigger] self.spec_wire()[k],
                    ) by {
                        assert(self.spec_wire() == wire_now);
                        let w = wire_now[k];
                        if k == wire_now.len() - 1 {
                            assert(w == wmsg);
                            lemma_put_has(
                                store_before,
                                wmsg.spec_arg0(),
                                wmsg.spec_arg1(),
                                wmsg.spec_command(),
                                wmsg.spec_data(),
                            );
                        } else {
                            assert(w == wire_before[k]);
                            assert(spec_parked(store_before, w));
                            lemma_put_preserves(
                                store_before,
                                wmsg.spec_arg0(),
                                wmsg.spec_arg1(),
                                wmsg.spec_command(),
                                wmsg.spec_data(),
                                w.spec_arg0(),
                                w.spec_arg1(),
                                w.spec_command(),
                                w.spec_data(),
                            );
                        }
                    }
                }
            } else if cmds_accept(expected_cmds, adb_message.command()) && data_matches(
                expected_data,
                adb_message.data(),
            ) {
                if adb_message.command() == CLSE_CODE {
                    self.packet_store.clear_packet(adb_message.arg0(), adb_message.arg1());
                    proof {
                        lemma_clear_removes_key(
                            store_before,
                            adb_message.spec_arg0(),
                            adb_message.spec_arg1(),
                        );
                    }
                }
                proof {
                    self.delivered@ = self.delivered@.push(adb_message);
                    assert forall|k: int|
                        n0 <= k < self.spec_wire().len() implies spec_routed(
                        self.store(),
                        #[trigger] self.spec_wire()[k],
                        adb_message,
                    ) by {
                        assert(self.spec_wire() == wire_now);
                        let w = wire_now[k];
                        if k == wire_now.len() - 1 {
                            assert(w == adb_message);
                        } else {
                            assert(w == wire_before[k]);
                            assert(spec_parked(store_before, w));
                            if adb_message.spec_command() == CLSE_CODE {
                                if !(w.spec_arg0() == adb_message.spec_arg0() && w.spec_arg1()
                                    == adb_message.spec_arg1()) {
                                    lemma_clear_preserves(
                                        store_before,
                                        adb_message.spec_arg0(),
                                        adb_message.spec_arg1(),
                                        w.spec_arg0(),
                                        w.spec_arg1(),
                                        w.spec_command(),
                                        w.spec_data(),
                                    );
                                }
                            }
                        }
                    }
                }
                return Ok(adb_message);
            } else {
                let arg0 = adb_message.arg0();
                let arg1 = adb_message.arg1();
                let cmd = adb_message.command();
                let ghost wmsg = adb_message;
                self.packet_store.put_packet(arg0, arg1, cmd, adb_message.into_data());
                proof {
                    assert forall|k: int|
                        n0 <= k < self.spec_wire().len() implies spec_parked(
                        self.store(),
                        #[trigger] self.spec_wire()[k],
                    ) by {
                        assert(self.spec_wire() == wire_now);
                        let w = wire_now[k];
                        if k == wire_now.len() - 1 {
                            assert(w == wmsg);
                            lemma_put_has(
                                store_before,
                                wmsg.spec_arg0(),
                                wmsg.spec_arg1(),
                                wmsg.spec_command(),
                                wmsg.spec_data(),
                            );
                        } else {
                            assert(w == wire_before[k]);
                            assert(spec_parked(store_before, w));
                            lemma_put_preserves(
                                store_before,
                                wmsg.spec_arg0(),
                                wmsg.spec_arg1(),
                                wmsg.spec_command(),
                                wmsg.spec_data(),
                                w.spec_arg0(),
                                w.spec_arg1(),
                                w.spec_command(),
                                w.spec_data(),
                            );
                        }
                    }
                }
            }
        }
    }
}

} // verus!
