use vstd::prelude::*;
use vstd::assert_seqs_equal;
use crate::chars::{chars_of, chars_to_string, subvec, bytes_to_string_lossy};
use crate::connection::{AdbDeviceConnection, spec_drain_acks, spec_payloads};
use crate::decimal::{dec_chars, parse_dec, spec_digits, spec_parse_dec};
use crate::errors::AdbConnectionError;
use crate::message::AdbMessage;
use crate::forward::{first_index_of, find_char};
use crate::ids::spec_next_id;
use crate::message::{MAX_ADB_DATA, OKAY_CODE, WRTE_CODE, CLSE_CODE, OPEN_CODE, spec_u32_le,
    push_u32_le, read_u32_le, spec_u32_from_le, spec_message_chunks};
use crate::tinfo::AdbTransactionInfo;
use crate::transport::Transport;
use vstd::string::StringSliceAdditionalSpecFns;

verus! {

/// The sync sub-protocol chunks file payloads to 64 KiB per WRTE.
pub const SYNC_MAX_CHUNK_SIZE: usize = 64 * 1024;

/// The wire chunks that carry a buffer to the device: consecutive
/// 64 KiB slices in order, each as one WRTE header-and-payload pair.
pub open spec fn spec_chunked_wrte_sends(buffer: Seq<u8>, local: u32, remote: u32) -> Seq<
    Seq<u8>,
>
    decreases buffer.len(),
{
    if buffer.len() == 0 {
        Seq::empty()
    } else if buffer.len() <= 65536 {
        spec_message_chunks(WRTE_CODE, local, remote, buffer)
    } else {
        spec_message_chunks(WRTE_CODE, local, remote, buffer.take(65536))
            + spec_chunked_wrte_sends(buffer.skip(65536), local, remote)
    }
}

// The 4-byte ASCII tags of the sync sub-protocol.

pub open spec fn tag_stat() -> Seq<u8> {
    seq![0x53u8, 0x54u8, 0x41u8, 0x54u8]
}

pub open spec fn tag_list() -> Seq<u8> {
    seq![0x4Cu8, 0x49u8, 0x53u8, 0x54u8]
}

pub open spec fn tag_send() -> Seq<u8> {
    seq![0x53u8, 0x45u8, 0x4Eu8, 0x44u8]
}

pub open spec fn tag_recv() -> Seq<u8> {
    seq![0x52u8, 0x45u8, 0x43u8, 0x56u8]
}

pub open spec fn tag_data() -> Seq<u8> {
    seq![0x44u8, 0x41u8, 0x54u8, 0x41u8]
}

pub open spec fn tag_done() -> Seq<u8> {
    seq![0x44u8, 0x4Fu8, 0x4Eu8, 0x45u8]
}

pub open spec fn tag_dent() -> Seq<u8> {
    seq![0x44u8, 0x45u8, 0x4Eu8, 0x54u8]
}

pub open spec fn tag_fail() -> Seq<u8> {
    seq![0x46u8, 0x41u8, 0x49u8, 0x4Cu8]
}

pub open spec fn tag_quit() -> Seq<u8> {
    seq![0x51u8, 0x55u8, 0x49u8, 0x54u8]
}

/// The concatenation of a sequence of byte records, in order.
pub open spec fn spec_flatten(rs: Seq<Seq<u8>>) -> Seq<u8>
    decreases rs.len(),
{
    if rs.len() == 0 {
        Seq::empty()
    } else {
        spec_flatten(rs.drop_last()) + rs.last()
    }
}

/// A well-formed listing: complete DENT frames, in order, and the DONE
/// tag as the one final record.
pub open spec fn spec_list_records_ok(rs: Seq<Seq<u8>>) -> bool {
    &&& rs.len() >= 1
    &&& rs.last() == tag_done()
    &&& forall|i: int|
        0 <= i < rs.len() - 1 ==> (#[trigger] rs[i]).len() >= 20 && rs[i].subrange(0, 4)
            == tag_dent() && spec_dent_size(rs[i], 0) == Some(rs[i].len() as int)
}

/// A sync request frame: the 4-byte tag, a little-endian length, and the
/// payload it announces.
pub open spec fn spec_sync_request(tag: Seq<u8>, payload: Seq<u8>) -> Seq<u8> {
    tag + spec_u32_le(payload.len() as u32) + payload
}

fn push_tag_byte(out: &mut Vec<u8>, b0: u8, b1: u8, b2: u8, b3: u8)
    ensures
        final(out)@ == old(out)@ + seq![b0, b1, b2, b3],
{
    out.push(b0);
    out.push(b1);
    out.push(b2);
    out.push(b3);
    proof {
        assert(final(out)@ =~= old(out)@ + seq![b0, b1, b2, b3]);
    }
}

/// A `STAT` request for a path.
pub fn create_stat_command(path: &str) -> (r: Vec<u8>)
    requires
        path.spec_bytes().len() <= 0xFFFFFFFF,
    ensures
        r@ == spec_sync_request(tag_stat(), path.spec_bytes()),
{
    let mut v: Vec<u8> = Vec::new();
    push_tag_byte(&mut v, 0x53, 0x54, 0x41, 0x54);
    let pb = path.as_bytes();
    push_u32_le(&mut v, pb.len() as u32);
    let mut pv = vstd::slice::slice_to_vec(pb);
    v.append(&mut pv);
    proof {
        assert(v@ =~= spec_sync_request(tag_stat(), path.spec_bytes()));
    }
    v
}

/// A `LIST` request for a path.
pub fn create_list_command(path: &str) -> (r: Vec<u8>)
    requires
        path.spec_bytes().len() <= 0xFFFFFFFF,
    ensures
        r@ == spec_sync_request(tag_list(), path.spec_bytes()),
{
    let mut v: Vec<u8> = Vec::new();
    push_tag_byte(&mut v, 0x4C, 0x49, 0x53, 0x54);
    let pb = path.as_bytes();
    push_u32_le(&mut v, pb.len() as u32);
    let mut pv = vstd::slice::slice_to_vec(pb);
    v.append(&mut pv);
    proof {
        assert(v@ =~= spec_sync_request(tag_list(), path.spec_bytes()));
    }
    v
}

/// A `RECV` request for a path.
pub fn create_recv_command(path: &str) -> (r: Vec<u8>)
    requires
        path.spec_bytes().len() <= 0xFFFFFFFF,
    ensures
        r@ == spec_sync_request(tag_recv(), path.spec_bytes()),
{
    let mut v: Vec<u8> = Vec::new();
    push_tag_byte(&mut v, 0x52, 0x45, 0x43, 0x56);
    let pb = path.as_bytes();
    push_u32_le(&mut v, pb.len() as u32);
    let mut pv = vstd::slice::slice_to_vec(pb);
    v.append(&mut pv);
    proof {
        assert(v@ =~= spec_sync_request(tag_recv(), path.spec_bytes()));
    }
    v
}

/// A `QUIT` request: the tag with a zero length and no payload.
pub fn create_quit_command() -> (r: Vec<u8>)
    ensures
        r@ == tag_quit() + seq![0u8, 0u8, 0u8, 0u8],
{
    let mut v: Vec<u8> = Vec::new();
    push_tag_byte(&mut v, 0x51, 0x55, 0x49, 0x54);
    push_tag_byte(&mut v, 0, 0, 0, 0);
    proof {
        assert(v@ =~= tag_quit() + seq![0u8, 0u8, 0u8, 0u8]);
    }
    v
}

/// The `path,mode` payload a `SEND` is initialized with.
pub open spec fn spec_send_file_info(path: Seq<char>, mode: int) -> Seq<char> {
    path + seq![','] + spec_digits(mode)
}

/// A `SEND` initialization for a path and mode, carrying `path,mode`.
pub fn create_init_send_command(path: &str, mode: u32) -> (r: Result<Vec<u8>, AdbConnectionError>)
    ensures
        r matches Ok(v) ==> v@ == spec_sync_request(
            tag_send(),
            vstd::utf8::encode_utf8(spec_send_file_info(path@, mode as int)),
        ),
{
    let mut info = chars_of(path);
    info.push(',');
    let mut digits = dec_chars(mode as u64);
    info.append(&mut digits);
    let info_string = chars_to_string(&info);
    let ib = info_string.as_str().as_bytes();
    if ib.len() > 0xFFFFFFFFusize {
        return Err(AdbConnectionError::SyncError("File information too long".to_owned()));
    }
    let mut v: Vec<u8> = Vec::new();
    push_tag_byte(&mut v, 0x53, 0x45, 0x4E, 0x44);
    push_u32_le(&mut v, ib.len() as u32);
    let mut pv = vstd::slice::slice_to_vec(ib);
    v.append(&mut pv);
    proof {
        assert(info_string@ =~= spec_send_file_info(path@, mode as int));
        assert(v@ =~= spec_sync_request(tag_send(), vstd::utf8::encode_utf8(info_string@)));
    }
    Ok(v)
}

/// Appends one client `DATA` chunk to a send buffer, framed as the
/// device expects it.
pub fn append_data_chunk(buffer: &mut Vec<u8>, data: &Vec<u8>)
    requires
        data@.len() <= 0xFFFFFFFF,
    ensures
        final(buffer)@ == old(buffer)@ + tag_data() + spec_u32_le(data@.len() as u32) + data@,
{
    push_tag_byte(buffer, 0x44, 0x41, 0x54, 0x41);
    push_u32_le(buffer, data.len() as u32);
    let mut dv = vstd::slice::slice_to_vec(data.as_slice());
    buffer.append(&mut dv);
    proof {
        assert(final(buffer)@ =~= old(buffer)@ + tag_data() + spec_u32_le(data@.len() as u32)
            + data@);
    }
}

/// Appends the terminating `DONE <mtime>` to a send buffer.
pub fn append_done(buffer: &mut Vec<u8>, mtime: u32)
    ensures
        final(buffer)@ == old(buffer)@ + tag_done() + spec_u32_le(mtime),
{
    push_tag_byte(buffer, 0x44, 0x4F, 0x4E, 0x45);
    push_u32_le(buffer, mtime);
    proof {
        assert(final(buffer)@ =~= old(buffer)@ + tag_done() + spec_u32_le(mtime));
    }
}

/// Whether `b` starts with `prefix`.
pub open spec fn spec_starts_with(b: Seq<u8>, prefix: Seq<u8>) -> bool {
    b.len() >= prefix.len() && b.subrange(0, prefix.len() as int) == prefix
}

/// Checks a byte prefix.
pub fn starts_with_bytes(b: &Vec<u8>, p0: u8, p1: u8, p2: u8, p3: u8) -> (r: bool)
    ensures
        r == spec_starts_with(b@, seq![p0, p1, p2, p3]),
{
    if b.len() < 4 {
        return false;
    }
    let r = b[0] == p0 && b[1] == p1 && b[2] == p2 && b[3] == p3;
    proof {
        if r {
            assert(b@.subrange(0, 4) =~= seq![p0, p1, p2, p3]);
        } else {
            if b@.subrange(0, 4) == seq![p0, p1, p2, p3] {
                assert(b@[0] == p0 && b@[1] == p1 && b@[2] == p2 && b@[3] == p3);
            }
        }
    }
    r
}

/// What a device's sync WRTE reply means: the expected tag is success, a
/// `FAIL` carries the device's message, anything else is a protocol
/// violation.
pub fn handle_sync_wrte_response(data: &Vec<u8>, e0: u8, e1: u8, e2: u8, e3: u8) -> (r: Result<
    (),
    AdbConnectionError,
>)
    ensures
        r is Ok <==> spec_starts_with(data@, seq![e0, e1, e2, e3]),
        r matches Err(e) ==> e is SyncError,
{
    if starts_with_bytes(data, e0, e1, e2, e3) {
        return Ok(());
    }
    if starts_with_bytes(data, 0x46, 0x41, 0x49, 0x4C) {
        let mut msg_bytes: Vec<u8> = Vec::new();
        let mut i: usize = 4;
        while i < data.len()
            invariant
                4 <= i,
            decreases data@.len() - i,
        {
            msg_bytes.push(data[i]);
            i = i + 1;
        }
        let mut m = "Command failed: ".to_owned();
        m.append(bytes_to_string_lossy(&msg_bytes).as_str());
        return Err(AdbConnectionError::SyncError(m));
    }
    Err(AdbConnectionError::SyncError("Unexpected response".to_owned()))
}

/// The size of the complete DENT frame at `index`, when the buffer holds
/// one: the 16-byte header, the 4-byte name length, and the name.
pub open spec fn spec_dent_size(b: Seq<u8>, index: int) -> Option<int> {
    if b.len() - index < 20 {
        None
    } else {
        let name_len = spec_u32_from_le(
            b[index + 16],
            b[index + 17],
            b[index + 18],
            b[index + 19],
        );
        if b.len() - index < 20 + name_len {
            None
        } else {
            Some(20 + name_len)
        }
    }
}

/// Measures the DENT frame at `index`: its total size when the buffer
/// holds it completely, nothing when more bytes are needed.
pub fn dent_size_at(buffer: &Vec<u8>, index: usize) -> (r: Option<usize>)
    requires
        index <= buffer@.len(),
    ensures
        match r {
            Some(n) => spec_dent_size(buffer@, index as int) == Some(n as int) && index + n
                <= buffer@.len() && n >= 20,
            None => spec_dent_size(buffer@, index as int) is None,
        },
{
    if buffer.len() - index < 20 {
        return None;
    }
    let name_len = read_u32_le(buffer.as_slice(), index + 16);
    let remaining: usize = buffer.len() - index - 20;
    if (name_len as u64) > (remaining as u64) {
        return None;
    }
    Some(20 + name_len as usize)
}

/// One parsed step of framing a LIST reply buffer at `index`.
pub enum ListStep {
    Dent(usize),
    Done,
    Failed,
    NeedMore,
    Unexpected,
}

/// Frames the LIST reply buffer at `index`: a complete DENT gives its
/// size, a DONE tag ends the listing, a FAIL tag carries an error, fewer
/// than four bytes (or an incomplete DENT) ask for more input, and any
/// other tag is a protocol violation.
pub fn list_step_at(buffer: &Vec<u8>, index: usize) -> (r: ListStep)
    requires
        index <= buffer@.len(),
    ensures
        ({
            let b = buffer@;
            let i = index as int;
            &&& (r is NeedMore <==> b.len() - i < 4 || (b.subrange(i, i + 4) == tag_dent()
                && spec_dent_size(b, i) is None))
            &&& (r matches ListStep::Dent(n) ==> b.len() - i >= 4 && b.subrange(i, i + 4)
                == tag_dent() && spec_dent_size(b, i) == Some(n as int))
            &&& (b.len() - i >= 4 && b.subrange(i, i + 4) == tag_dent() && spec_dent_size(b, i)
                is Some ==> r is Dent)
            &&& (r is Done <==> b.len() - i >= 4 && b.subrange(i, i + 4) == tag_done())
            &&& (r is Failed <==> b.len() - i >= 4 && b.subrange(i, i + 4) == tag_fail())
            &&& (r matches ListStep::Dent(n) ==> n >= 20 && i + n <= b.len())
        }),
{
    if buffer.len() - index < 4 {
        return ListStep::NeedMore;
    }
    let b0 = buffer[index];
    let b1 = buffer[index + 1];
    let b2 = buffer[index + 2];
    let b3 = buffer[index + 3];
    proof {
        let tag = buffer@.subrange(index as int, index as int + 4);
        assert(tag.len() == 4 && tag[0] == b0 && tag[1] == b1 && tag[2] == b2 && tag[3] == b3);
        if b0 == 0x44 && b1 == 0x45 && b2 == 0x4E && b3 == 0x54 {
            assert(tag =~= tag_dent());
        } else {
            assert(tag != tag_dent()) by {
                if tag == tag_dent() {
                    assert(tag[0] == 0x44 && tag[1] == 0x45 && tag[2] == 0x4E && tag[3]
                        == 0x54);
                }
            }
        }
        if b0 == 0x44 && b1 == 0x4F && b2 == 0x4E && b3 == 0x45 {
            assert(tag =~= tag_done());
        } else {
            assert(tag != tag_done()) by {
                if tag == tag_done() {
                    assert(tag[0] == 0x44 && tag[1] == 0x4F && tag[2] == 0x4E && tag[3]
                        == 0x45);
                }
            }
        }
        if b0 == 0x46 && b1 == 0x41 && b2 == 0x49 && b3 == 0x4C {
            assert(tag =~= tag_fail());
        } else {
            assert(tag != tag_fail()) by {
                if tag == tag_fail() {
                    assert(tag[0] == 0x46 && tag[1] == 0x41 && tag[2] == 0x49 && tag[3]
                        == 0x4C);
                }
            }
        }
    }
    if b0 == 0x44 && b1 == 0x45 && b2 == 0x4E && b3 == 0x54 {
        match dent_size_at(buffer, index) {
            Some(n) => ListStep::Dent(n),
            None => ListStep::NeedMore,
        }
    } else if b0 == 0x44 && b1 == 0x4F && b2 == 0x4E && b3 == 0x45 {
        ListStep::Done
    } else if b0 == 0x46 && b1 == 0x41 && b2 == 0x49 && b3 == 0x4C {
        ListStep::Failed
    } else {
        ListStep::Unexpected
    }
}

/// The tag of a client sync command.
pub enum SyncTagKind {
    Send,
    Data,
    Done,
    Stat,
    Recv,
    List,
    Dent,
    Quit,
    Unknown,
}

/// Reads the 4-byte tag of a client sync command.
pub fn sync_tag_of(cmd: &Vec<u8>) -> (r: SyncTagKind)
    ensures
        cmd@.len() >= 4 ==> {
            &&& (r is Send <==> cmd@.subrange(0, 4) == tag_send())
            &&& (r is Data <==> cmd@.subrange(0, 4) == tag_data())
            &&& (r is Done <==> cmd@.subrange(0, 4) == tag_done())
            &&& (r is Stat <==> cmd@.subrange(0, 4) == tag_stat())
            &&& (r is Recv <==> cmd@.subrange(0, 4) == tag_recv())
            &&& (r is List <==> cmd@.subrange(0, 4) == tag_list())
            &&& (r is Dent <==> cmd@.subrange(0, 4) == tag_dent())
            &&& (r is Quit <==> cmd@.subrange(0, 4) == tag_quit())
        },
        cmd@.len() < 4 ==> r is Unknown,
{
    if starts_with_bytes(cmd, 0x53, 0x45, 0x4E, 0x44) {
        SyncTagKind::Send
    } else if starts_with_bytes(cmd, 0x44, 0x41, 0x54, 0x41) {
        SyncTagKind::Data
    } else if starts_with_bytes(cmd, 0x44, 0x4F, 0x4E, 0x45) {
        SyncTagKind::Done
    } else if starts_with_bytes(cmd, 0x53, 0x54, 0x41, 0x54) {
        SyncTagKind::Stat
    } else if starts_with_bytes(cmd, 0x52, 0x45, 0x43, 0x56) {
        SyncTagKind::Recv
    } else if starts_with_bytes(cmd, 0x4C, 0x49, 0x53, 0x54) {
        SyncTagKind::List
    } else if starts_with_bytes(cmd, 0x44, 0x45, 0x4E, 0x54) {
        SyncTagKind::Dent
    } else if starts_with_bytes(cmd, 0x51, 0x55, 0x49, 0x54) {
        SyncTagKind::Quit
    } else {
        SyncTagKind::Unknown
    }
}

/// Splits a `path,mode` SEND payload at its only comma; any other shape
/// is rejected, as is a mode that is not a u32 decimal.
pub fn parse_send_payload(payload: &str) -> (r: Result<(String, u32), AdbConnectionError>)
    ensures
        r matches Ok((path, mode)) ==> ({
            let ci = first_index_of(payload@, ',', 0);
            &&& ci < payload@.len()
            &&& path@ == payload@.subrange(0, ci)
            &&& spec_parse_dec(payload@.subrange(ci + 1, payload@.len() as int), 0xFFFFFFFF)
                == Some(mode as int)
        }),
        r matches Err(e) ==> e is SyncError,
{
    let v = chars_of(payload);
    let ci = find_char(&v, ',', 0);
    if ci >= v.len() {
        return Err(AdbConnectionError::SyncError("Invalid SEND command format".to_owned()));
    }
    if find_char(&v, ',', ci + 1) < v.len() {
        return Err(AdbConnectionError::SyncError("Invalid SEND command format".to_owned()));
    }
    let path_chars = subvec(&v, 0, ci);
    let mode_chars = subvec(&v, ci + 1, v.len());
    match parse_dec(&mode_chars, 0xFFFFFFFFu64) {
        Some(mode) => Ok((chars_to_string(&path_chars), mode as u32)),
        None => Err(AdbConnectionError::SyncError("Invalid mode format".to_owned())),
    }
}

impl<T: Transport> AdbDeviceConnection<T> {
    /// Enters sync mode: opens the `sync:` stream and learns the remote
    /// id from the device's OKAY.
    pub fn initialize_sync_mode(&mut self, attempts: u64, data_timeout_ms: u64) -> (r: Result<
        AdbTransactionInfo,
        AdbConnectionError,
    >)
        requires
            old(self).wf(),
        ensures
            final(self).wf(),
            r matches Ok(t) ==> ({
                let n = old(self).spec_delivered().len() as int;
                let d = final(self).spec_delivered();
                &&& t.local() == spec_next_id(old(self).spec_last_id())
                &&& t.local() != 0
                &&& old(self).spec_delivered().is_prefix_of(d)
                &&& d.len() == n + 1
                &&& d[n].spec_command() == OKAY_CODE
                &&& t.remote() == d[n].spec_arg0()
                &&& final(self).spec_sent() == old(self).spec_sent() + spec_message_chunks(
                    OPEN_CODE,
                    t.local(),
                    0,
                    "sync:".spec_bytes(),
                )
            }),
    {
        let mut tinfo = match self.send_open_command("sync:", None) {
            Ok(t) => t,
            Err(err) => {
                return Err(err);
            },
        };
        let okay = match self.read_okay_response(&tinfo, attempts, data_timeout_ms) {
            Ok(m) => m,
            Err(err) => {
                return Err(err);
            },
        };
        proof {
            assert(old(self).spec_delivered().is_prefix_of(self.spec_delivered())) by {
                assert(self.spec_delivered().subrange(
                    0,
                    old(self).spec_delivered().len() as int,
                ) =~= old(self).spec_delivered());
            }
        }
        tinfo.set_receive_packet_id(okay.arg0());
        Ok(tinfo)
    }

    /// Serves a client `STAT`: forwards it over the stream, checks that
    /// the device's reply is a STAT record (a FAIL is surfaced as a sync
    /// error), acknowledges it, and hands back, whole, the reply payload
    /// the device's WRTE delivered, for the client socket.
    pub fn handle_stat_command(
        &mut self,
        tinfo: &AdbTransactionInfo,
        path: &str,
        attempts: u64,
        data_timeout_ms: u64,
    ) -> (r: Result<Vec<u8>, AdbConnectionError>)
        requires
            old(self).wf(),
        ensures
            final(self).wf(),
            r matches Ok(reply) ==> ({
                let n = old(self).spec_delivered().len() as int;
                let d = final(self).spec_delivered();
                &&& spec_starts_with(reply@, tag_stat())
                &&& old(self).spec_delivered().is_prefix_of(d)
                &&& d.len() == n + 2
                &&& d[n].spec_command() == OKAY_CODE
                &&& d[n + 1].spec_command() == WRTE_CODE
                &&& reply@ == d[n + 1].spec_data()
                &&& final(self).spec_sent() == old(self).spec_sent() + spec_message_chunks(
                    WRTE_CODE,
                    tinfo.local(),
                    tinfo.remote(),
                    spec_sync_request(tag_stat(), path.spec_bytes()),
                ) + spec_message_chunks(
                    OKAY_CODE,
                    tinfo.local(),
                    tinfo.remote(),
                    Seq::<u8>::empty(),
                )
            }),
    {
        let pb = path.as_bytes();
        if pb.len() > (MAX_ADB_DATA - 8) as usize {
            return Err(AdbConnectionError::SyncError("Path too long".to_owned()));
        }
        let stat_command = create_stat_command(path);
        match self.send_wrte_command(tinfo, stat_command.as_slice(), Some(data_timeout_ms)) {
            Ok(()) => {
            },
            Err(err) => {
                return Err(err);
            },
        }
        match self.read_okay_response(tinfo, attempts, data_timeout_ms) {
            Ok(_) => {
            },
            Err(err) => {
                return Err(err);
            },
        }
        let write_response = match self.read_wrte_response(tinfo, attempts, data_timeout_ms) {
            Ok(m) => m,
            Err(err) => {
                return Err(err);
            },
        };
        let data = write_response.into_data();
        match handle_sync_wrte_response(&data, 0x53, 0x54, 0x41, 0x54) {
            Ok(()) => {
            },
            Err(err) => {
                return Err(err);
            },
        }
        match self.send_okay_command(tinfo, Some(data_timeout_ms)) {
            Ok(()) => {
            },
            Err(err) => {
                return Err(err);
            },
        }
        proof {
            assert(old(self).spec_delivered().is_prefix_of(self.spec_delivered())) by {
                assert(self.spec_delivered().subrange(
                    0,
                    old(self).spec_delivered().len() as int,
                ) =~= old(self).spec_delivered());
            }
            assert(self.spec_sent() =~= old(self).spec_sent() + spec_message_chunks(
                WRTE_CODE,
                tinfo.local(),
                tinfo.remote(),
                spec_sync_request(tag_stat(), path.spec_bytes()),
            ) + spec_message_chunks(
                OKAY_CODE,
                tinfo.local(),
                tinfo.remote(),
                Seq::<u8>::empty(),
            ));
        }
        Ok(data)
    }

    /// Serves a client `RECV`: forwards exactly the RECV frame, takes
    /// the device's OKAY, then collects the file's chunks — the WRTE
    /// payloads, in order, each acknowledged — until a quiet wire ends
    /// the file.
    pub fn handle_recv_command(
        &mut self,
        tinfo: &AdbTransactionInfo,
        path: &str,
        attempts: u64,
        data_timeout_ms: u64,
    ) -> (r: Result<Vec<Vec<u8>>, AdbConnectionError>)
        requires
            old(self).wf(),
        ensures
            final(self).wf(),
            r matches Ok(chunks) ==> ({
                let n = old(self).spec_delivered().len() as int;
                let d = final(self).spec_delivered();
                let seg = d.skip(n + 1);
                &&& old(self).spec_delivered().is_prefix_of(d)
                &&& d.len() >= n + 1
                &&& d[n].spec_command() == OKAY_CODE
                &&& chunks@.map_values(|c: Vec<u8>| c@) == spec_payloads(seg)
                &&& forall|i: int|
                    0 <= i < seg.len() ==> #[trigger] seg[i].spec_command() == WRTE_CODE
                &&& final(self).spec_sent() == old(self).spec_sent() + spec_message_chunks(
                    WRTE_CODE,
                    tinfo.local(),
                    tinfo.remote(),
                    spec_sync_request(tag_recv(), path.spec_bytes()),
                ) + spec_drain_acks(seg, tinfo.local(), tinfo.remote())
            }),
    {
        let pb = path.as_bytes();
        if pb.len() > (MAX_ADB_DATA - 8) as usize {
            return Err(AdbConnectionError::SyncError("Path too long".to_owned()));
        }
        let recv_command = create_recv_command(path);
        match self.send_wrte_command(tinfo, recv_command.as_slice(), Some(data_timeout_ms)) {
            Ok(()) => {
            },
            Err(err) => {
                return Err(err);
            },
        }
        match self.read_okay_response(tinfo, attempts, data_timeout_ms) {
            Ok(_) => {
            },
            Err(err) => {
                return Err(err);
            },
        }
        let ghost base = self.spec_delivered();
        let r = self.recv_file_data(tinfo, attempts, data_timeout_ms);
        proof {
            if r is Ok {
                let n = old(self).spec_delivered().len() as int;
                assert(self.spec_delivered().skip(base.len() as int)
                    =~= self.spec_delivered().skip(n + 1));
                assert(old(self).spec_delivered().is_prefix_of(self.spec_delivered())) by {
                    assert(self.spec_delivered().subrange(0, n) =~= old(
                        self,
                    ).spec_delivered());
                }
                assert(self.spec_delivered()[n] == base[n]) by {
                    assert(self.spec_delivered().subrange(0, base.len() as int)[n] == base[n]);
                }
                assert(self.spec_sent() =~= old(self).spec_sent() + spec_message_chunks(
                    WRTE_CODE,
                    tinfo.local(),
                    tinfo.remote(),
                    spec_sync_request(tag_recv(), path.spec_bytes()),
                ) + spec_drain_acks(
                    self.spec_delivered().skip(n + 1),
                    tinfo.local(),
                    tinfo.remote(),
                ));
            }
        }
        r
    }

    /// Collects a file's chunks until the device goes quiet: on success
    /// the chunks are exactly the payloads of the WRTE packets the
    /// stream delivered, in order, and one OKAY per packet went out.
    pub fn recv_file_data(
        &mut self,
        tinfo: &AdbTransactionInfo,
        attempts: u64,
        data_timeout_ms: u64,
    ) -> (r: Result<Vec<Vec<u8>>, AdbConnectionError>)
        requires
            old(self).wf(),
        ensures
            final(self).wf(),
            old(self).spec_delivered().is_prefix_of(final(self).spec_delivered()),
            r matches Ok(chunks) ==> ({
                let seg = final(self).spec_delivered().skip(
                    old(self).spec_delivered().len() as int,
                );
                &&& chunks@.map_values(|c: Vec<u8>| c@) == spec_payloads(seg)
                &&& forall|i: int|
                    0 <= i < seg.len() ==> #[trigger] seg[i].spec_command() == WRTE_CODE
                &&& final(self).spec_sent() == old(self).spec_sent() + spec_drain_acks(
                    seg,
                    tinfo.local(),
                    tinfo.remote(),
                )
            }),
    {
        let ghost n = old(self).spec_delivered().len() as int;
        let mut chunks: Vec<Vec<u8>> = Vec::new();
        let mut tries: u64 = attempts;
        proof {
            assert(self.spec_delivered().skip(n) =~= Seq::<AdbMessage>::empty());
            assert(chunks@.map_values(|c: Vec<u8>| c@) =~= spec_payloads(
                self.spec_delivered().skip(n),
            ));
            assert(self.spec_sent() =~= old(self).spec_sent() + spec_drain_acks(
                self.spec_delivered().skip(n),
                tinfo.local(),
                tinfo.remote(),
            ));
        }
        loop
            invariant
                self.wf(),
                n == old(self).spec_delivered().len() as int,
                old(self).spec_delivered().is_prefix_of(self.spec_delivered()),
                chunks@.map_values(|c: Vec<u8>| c@) == spec_payloads(
                    self.spec_delivered().skip(n),
                ),
                forall|i: int|
                    0 <= i < self.spec_delivered().skip(n).len() ==> #[trigger] self
                        .spec_delivered().skip(n)[i].spec_command() == WRTE_CODE,
                self.spec_sent() == old(self).spec_sent() + spec_drain_acks(
                    self.spec_delivered().skip(n),
                    tinfo.local(),
                    tinfo.remote(),
                ),
            decreases tries,
        {
            if tries == 0 {
                return Ok(chunks);
            }
            tries = tries - 1;
            let ghost dl_before = self.spec_delivered();
            match self.read_wrte_response(tinfo, 1, data_timeout_ms) {
                Ok(msg) => {
                    proof {
                        let cur = self.spec_delivered();
                        assert(cur.skip(n) =~= dl_before.skip(n).push(msg));
                        assert(cur.skip(n).drop_last() =~= dl_before.skip(n));
                    }
                    chunks.push(msg.into_data());
                    proof {
                        assert(chunks@.map_values(|c: Vec<u8>| c@) =~= spec_payloads(
                            self.spec_delivered().skip(n),
                        ));
                    }
                    match self.send_okay_command(tinfo, Some(data_timeout_ms)) {
                        Ok(()) => {
                        },
                        Err(err) => {
                            return Err(err);
                        },
                    }
                    proof {
                        let cur = self.spec_delivered();
                        assert(cur.skip(n).drop_last() =~= dl_before.skip(n));
                        assert(self.spec_sent() =~= old(self).spec_sent() + spec_drain_acks(
                            cur.skip(n),
                            tinfo.local(),
                            tinfo.remote(),
                        ));
                        assert forall|i: int|
                            0 <= i < cur.skip(n).len() implies #[trigger] cur.skip(
                            n,
                        )[i].spec_command() == WRTE_CODE by {
                            if i < cur.skip(n).len() - 1 {
                                assert(cur.skip(n)[i] == dl_before.skip(n)[i]);
                            } else {
                                assert(cur.skip(n)[i] == msg);
                            }
                        }
                    }
                },
                Err(AdbConnectionError::Timeout) => {
                    return Ok(chunks);
                },
                Err(err) => {
                    return Err(err);
                },
            }
        }
    }

    /// Serves a client `SEND`: forwards the `path,mode` initialization,
    /// then re-chunks the client's accumulated DATA/DONE buffer into
    /// 64 KiB WRTE packets, each acknowledged by the device.  On success
    /// exactly the initialization frame and the buffer's slices went
    /// out, in order.
    pub fn handle_send_command(
        &mut self,
        tinfo: &AdbTransactionInfo,
        path: &str,
        mode: u32,
        file_payload: &Vec<u8>,
        attempts: u64,
        data_timeout_ms: u64,
    ) -> (r: Result<(), AdbConnectionError>)
        requires
            old(self).wf(),
        ensures
            final(self).wf(),
            r is Ok ==> final(self).spec_sent() == old(self).spec_sent() + spec_message_chunks(
                WRTE_CODE,
                tinfo.local(),
                tinfo.remote(),
                spec_sync_request(
                    tag_send(),
                    vstd::utf8::encode_utf8(spec_send_file_info(path@, mode as int)),
                ),
            ) + spec_chunked_wrte_sends(file_payload@, tinfo.local(), tinfo.remote()),
    {
        let init_command = match create_init_send_command(path, mode) {
            Ok(c) => c,
            Err(err) => {
                return Err(err);
            },
        };
        if init_command.len() > MAX_ADB_DATA as usize {
            return Err(AdbConnectionError::SyncError("File information too long".to_owned()));
        }
        match self.send_wrte_command(tinfo, init_command.as_slice(), Some(data_timeout_ms)) {
            Ok(()) => {
            },
            Err(err) => {
                return Err(err);
            },
        }
        match self.read_okay_response(tinfo, attempts, data_timeout_ms) {
            Ok(_) => {
            },
            Err(err) => {
                return Err(err);
            },
        }
        let r = self.send_file_data(tinfo, file_payload, attempts, data_timeout_ms);
        proof {
            if r is Ok {
                assert(self.spec_sent() =~= old(self).spec_sent() + spec_message_chunks(
                    WRTE_CODE,
                    tinfo.local(),
                    tinfo.remote(),
                    spec_sync_request(
                        tag_send(),
                        vstd::utf8::encode_utf8(spec_send_file_info(path@, mode as int)),
                    ),
                ) + spec_chunked_wrte_sends(file_payload@, tinfo.local(), tinfo.remote()));
            }
        }
        r
    }

    /// Re-chunks a buffer into 64 KiB WRTE packets, waiting for the
    /// device's OKAY after each: on success exactly the buffer's
    /// consecutive slices went out, in order, nothing else.
    pub fn send_file_data(
        &mut self,
        tinfo: &AdbTransactionInfo,
        buffer: &Vec<u8>,
        attempts: u64,
        data_timeout_ms: u64,
    ) -> (r: Result<(), AdbConnectionError>)
        requires
            old(self).wf(),
        ensures
            final(self).wf(),
            old(self).spec_delivered().is_prefix_of(final(self).spec_delivered()),
            r is Ok ==> ({
                let seg = final(self).spec_delivered().skip(
                    old(self).spec_delivered().len() as int,
                );
                &&& final(self).spec_sent() == old(self).spec_sent() + spec_chunked_wrte_sends(
                    buffer@,
                    tinfo.local(),
                    tinfo.remote(),
                )
                &&& forall|i: int|
                    0 <= i < seg.len() ==> #[trigger] seg[i].spec_command() == OKAY_CODE
            }),
    {
        let ghost n = old(self).spec_delivered().len() as int;
        let mut offset: usize = 0;
        proof {
            assert(buffer@.skip(0) =~= buffer@);
            assert(self.spec_delivered().skip(n) =~= Seq::<AdbMessage>::empty());
        }
        while offset < buffer.len()
            invariant
                self.wf(),
                n == old(self).spec_delivered().len() as int,
                0 <= offset <= buffer@.len(),
                old(self).spec_delivered().is_prefix_of(self.spec_delivered()),
                self.spec_sent() + spec_chunked_wrte_sends(
                    buffer@.skip(offset as int),
                    tinfo.local(),
                    tinfo.remote(),
                ) == old(self).spec_sent() + spec_chunked_wrte_sends(
                    buffer@,
                    tinfo.local(),
                    tinfo.remote(),
                ),
                forall|i: int|
                    0 <= i < self.spec_delivered().skip(n).len() ==> #[trigger] self
                        .spec_delivered().skip(n)[i].spec_command() == OKAY_CODE,
            decreases buffer@.len() - offset,
        {
            let end = if buffer.len() - offset > SYNC_MAX_CHUNK_SIZE {
                offset + SYNC_MAX_CHUNK_SIZE
            } else {
                buffer.len()
            };
            let chunk = vstd::slice::slice_subrange(buffer.as_slice(), offset, end);
            let ghost rest = buffer@.skip(offset as int);
            let ghost dl_before = self.spec_delivered();
            match self.send_wrte_command(tinfo, chunk, Some(data_timeout_ms)) {
                Ok(()) => {
                },
                Err(err) => {
                    return Err(err);
                },
            }
            match self.read_okay_response(tinfo, attempts, data_timeout_ms) {
                Ok(_) => {
                },
                Err(err) => {
                    return Err(err);
                },
            }
            proof {
                if rest.len() <= 65536 {
                    assert(chunk@ =~= rest);
                    assert(buffer@.skip(end as int) =~= Seq::<u8>::empty());
                } else {
                    assert(chunk@ =~= rest.take(65536));
                    assert(rest.skip(65536) =~= buffer@.skip(end as int));
                }
                let cur = self.spec_delivered();
                assert(cur == dl_before.push(cur.last()));
                assert forall|i: int|
                    0 <= i < cur.skip(n).len() implies #[trigger] cur.skip(n)[i].spec_command()
                    == OKAY_CODE by {
                    if i < cur.skip(n).len() - 1 {
                        assert(cur.skip(n)[i] == dl_before.skip(n)[i]);
                    } else {
                        assert(cur.skip(n)[i] == cur.last());
                    }
                }
                assert(old(self).spec_delivered().is_prefix_of(cur)) by {
                    assert(cur.subrange(0, n) =~= old(self).spec_delivered());
                }
            }
            offset = end;
        }
        proof {
            assert(buffer@.skip(offset as int) =~= Seq::<u8>::empty());
            assert(self.spec_sent() + Seq::<Seq<u8>>::empty() =~= self.spec_sent());
        }
        Ok(())
    }

    /// Serves a client `LIST`: forwards exactly the LIST frame, then
    /// frames the device's WRTE replies into complete DENT records and
    /// returns them in order, the terminating DONE record last.  On
    /// success the records are consecutive complete frames of the
    /// concatenated WRTE payloads, every non-final record a whole DENT,
    /// the final one the DONE tag.  A FAIL from the device is surfaced
    /// as a sync error; after the DONE, arriving data is acknowledged
    /// but no longer framed, and a quiet wire ends the listing without
    /// error.
    pub fn handle_list_command(
        &mut self,
        tinfo: &AdbTransactionInfo,
        device_path: &str,
        attempts: u64,
        data_timeout_ms: u64,
    ) -> (r: Result<Vec<Vec<u8>>, AdbConnectionError>)
        requires
            old(self).wf(),
        ensures
            final(self).wf(),
            r matches Ok(records) ==> ({
                let n = old(self).spec_delivered().len() as int;
                let d = final(self).spec_delivered();
                let seg = d.skip(n + 1);
                let rv = records@.map_values(|rec: Vec<u8>| rec@);
                &&& old(self).spec_delivered().is_prefix_of(d)
                &&& d.len() >= n + 1
                &&& d[n].spec_command() == OKAY_CODE
                &&& forall|i: int|
                    0 <= i < seg.len() ==> #[trigger] seg[i].spec_command() == WRTE_CODE
                &&& spec_list_records_ok(rv)
                &&& spec_flatten(rv).is_prefix_of(spec_flatten(spec_payloads(seg)))
            }),
    {
        let pb = device_path.as_bytes();
        if pb.len() == 0 {
            return Err(AdbConnectionError::SyncError(
                "Cannot list an empty device path".to_owned(),
            ));
        }
        if pb.len() > (MAX_ADB_DATA - 8) as usize {
            return Err(AdbConnectionError::SyncError("Path too long".to_owned()));
        }
        let list_command = create_list_command(device_path);
        match self.send_wrte_command(tinfo, list_command.as_slice(), Some(data_timeout_ms)) {
            Ok(()) => {
            },
            Err(err) => {
                return Err(err);
            },
        }
        match self.read_okay_response(tinfo, attempts, data_timeout_ms) {
            Ok(_) => {
            },
            Err(err) => {
                return Err(err);
            },
        }
        let ghost n = old(self).spec_delivered().len() as int;
        proof {
            assert(old(self).spec_delivered().is_prefix_of(self.spec_delivered())) by {
                assert(self.spec_delivered().subrange(0, n) =~= old(self).spec_delivered());
            }
        }
        let mut records: Vec<Vec<u8>> = Vec::new();
        let mut buffer: Vec<u8> = Vec::new();
        let mut index: usize = 0;
        let mut done_seen = false;
        let mut tries: u64 = attempts;
        proof {
            assert(self.spec_delivered().skip(n + 1) =~= Seq::<AdbMessage>::empty());
            assert(buffer@ =~= spec_flatten(spec_payloads(self.spec_delivered().skip(n + 1))));
            assert(records@.map_values(|rec: Vec<u8>| rec@) =~= Seq::<Seq<u8>>::empty());
            assert(spec_flatten(records@.map_values(|rec: Vec<u8>| rec@)) =~= buffer@.take(
                index as int,
            ));
        }
        loop
            invariant
                self.wf(),
                n == old(self).spec_delivered().len() as int,
                old(self).spec_delivered().is_prefix_of(self.spec_delivered()),
                self.spec_delivered().len() >= n + 1,
                self.spec_delivered()[n].spec_command() == OKAY_CODE,
                forall|i: int|
                    0 <= i < self.spec_delivered().skip(n + 1).len() ==> #[trigger] self
                        .spec_delivered().skip(n + 1)[i].spec_command() == WRTE_CODE,
                index <= buffer@.len(),
                buffer@ == spec_flatten(spec_payloads(self.spec_delivered().skip(n + 1))),
                spec_flatten(records@.map_values(|rec: Vec<u8>| rec@)) == buffer@.take(
                    index as int,
                ),
                !done_seen ==> forall|i: int|
                    0 <= i < records@.len() ==> (#[trigger] records@[i]@).len() >= 20
                        && records@[i]@.subrange(0, 4) == tag_dent() && spec_dent_size(
                        records@[i]@,
                        0,
                    ) == Some(records@[i]@.len() as int),
                done_seen ==> spec_list_records_ok(records@.map_values(|rec: Vec<u8>| rec@)),
            decreases tries,
        {
            if tries == 0 {
                if done_seen {
                    proof {
                        assert(spec_flatten(records@.map_values(|rec: Vec<u8>| rec@))
                            .is_prefix_of(buffer@));
                    }
                    return Ok(records);
                }
                return Err(AdbConnectionError::Timeout);
            }
            tries = tries - 1;
            let ghost dl_before = self.spec_delivered();
            match self.read_wrte_response(tinfo, 1, data_timeout_ms) {
                Ok(msg) => {
                    proof {
                        let cur = self.spec_delivered();
                        assert(cur.skip(n + 1) =~= dl_before.skip(n + 1).push(msg));
                        assert(cur.skip(n + 1).drop_last() =~= dl_before.skip(n + 1));
                        assert(spec_payloads(cur.skip(n + 1)).drop_last() =~= spec_payloads(
                            dl_before.skip(n + 1),
                        ));
                        assert forall|i: int|
                            0 <= i < cur.skip(n + 1).len() implies #[trigger] cur.skip(
                            n + 1,
                        )[i].spec_command() == WRTE_CODE by {
                            if i < cur.skip(n + 1).len() - 1 {
                                assert(cur.skip(n + 1)[i] == dl_before.skip(n + 1)[i]);
                            } else {
                                assert(cur.skip(n + 1)[i] == msg);
                            }
                        }
                    }
                    let ghost buffer_before = buffer@;
                    let mut d = msg.into_data();
                    buffer.append(&mut d);
                    proof {
                        assert(buffer@ =~= spec_flatten(spec_payloads(
                            self.spec_delivered().skip(n + 1),
                        )));
                        assert(buffer@.take(index as int) =~= buffer_before.take(index as int));
                    }
                },
                Err(AdbConnectionError::Timeout) => {
                    if done_seen {
                        proof {
                            assert(spec_flatten(records@.map_values(|rec: Vec<u8>| rec@))
                                .is_prefix_of(buffer@));
                        }
                        return Ok(records);
                    }
                    continue;
                },
                Err(err) => {
                    return Err(err);
                },
            }
            if done_seen {
                // The listing already ended: keep acknowledging until the
                // wire goes quiet, framing nothing further.
                match self.send_okay_command(tinfo, Some(data_timeout_ms)) {
                    Ok(()) => {
                    },
                    Err(err) => {
                        return Err(err);
                    },
                }
                continue;
            }
            loop
                invariant_except_break
                    !done_seen,
                invariant
                    self.wf(),
                    n == old(self).spec_delivered().len() as int,
                    old(self).spec_delivered().is_prefix_of(self.spec_delivered()),
                    self.spec_delivered().len() >= n + 1,
                    self.spec_delivered()[n].spec_command() == OKAY_CODE,
                    forall|i: int|
                        0 <= i < self.spec_delivered().skip(n + 1).len() ==> #[trigger] self
                            .spec_delivered().skip(n + 1)[i].spec_command() == WRTE_CODE,
                    index <= buffer@.len(),
                    buffer@ == spec_flatten(spec_payloads(self.spec_delivered().skip(n + 1))),
                    spec_flatten(records@.map_values(|rec: Vec<u8>| rec@)) == buffer@.take(
                        index as int,
                    ),
                    !done_seen ==> forall|i: int|
                        0 <= i < records@.len() ==> (#[trigger] records@[i]@).len() >= 20
                            && records@[i]@.subrange(0, 4) == tag_dent() && spec_dent_size(
                            records@[i]@,
                            0,
                        ) == Some(records@[i]@.len() as int),
                    done_seen ==> spec_list_records_ok(
                        records@.map_values(|rec: Vec<u8>| rec@),
                    ),
                decreases buffer@.len() - index,
            {
                match list_step_at(&buffer, index) {
                    ListStep::Dent(frame_len) => {
                        let blen = buffer.len();
                        let record = vstd::slice::slice_to_vec(
                            vstd::slice::slice_subrange(
                                buffer.as_slice(),
                                index,
                                index + frame_len,
                            ),
                        );
                        let ghost rec = buffer@.subrange(
                            index as int,
                            index as int + frame_len as int,
                        );
                        let ghost records_before = records@;
                        proof {
                            let rv = records_before.map_values(|r2: Vec<u8>| r2@);
                            assert(rec.subrange(0, 4) =~= buffer@.subrange(
                                index as int,
                                index as int + 4,
                            ));
                            assert(spec_dent_size(rec, 0) == Some(frame_len as int)) by {
                                assert(rec[16] == buffer@[index as int + 16]);
                                assert(rec[17] == buffer@[index as int + 17]);
                                assert(rec[18] == buffer@[index as int + 18]);
                                assert(rec[19] == buffer@[index as int + 19]);
                            }
                            assert(rv.push(rec).drop_last() =~= rv);
                            assert(spec_flatten(rv.push(rec)) =~= buffer@.take(
                                index as int + frame_len as int,
                            ));
                        }
                        records.push(record);
                        proof {
                            assert(records@ == records_before.push(record));
                            assert(record@ == rec);
                            assert_seqs_equal!(
                                records@.map_values(|r2: Vec<u8>| r2@)
                                    == records_before.map_values(|r2: Vec<u8>| r2@).push(rec),
                                i => {
                                    if i < records@.len() - 1 {
                                        assert(records@[i] == records_before[i]);
                                    } else {
                                        assert(records@[i] == record);
                                    }
                                }
                            );
                            assert forall|i: int|
                                0 <= i < records@.len() implies (
                            #[trigger] records@[i]@).len() >= 20 && records@[i]@.subrange(0, 4)
                                == tag_dent() && spec_dent_size(records@[i]@, 0) == Some(
                                records@[i]@.len() as int,
                            ) by {
                                if i < records@.len() - 1 {
                                    assert(records@[i] == records_before[i]);
                                } else {
                                    assert(records@[i]@ == rec);
                                }
                            }
                        }
                        index = index + frame_len;
                    },
                    ListStep::Done => {
                        let blen = buffer.len();
                        let mut done_record: Vec<u8> = Vec::new();
                        push_tag_byte(&mut done_record, 0x44, 0x4F, 0x4E, 0x45);
                        let ghost records_before = records@;
                        proof {
                            let rv = records_before.map_values(|r2: Vec<u8>| r2@);
                            assert(done_record@ =~= tag_done());
                            assert(done_record@ =~= buffer@.subrange(
                                index as int,
                                index as int + 4,
                            ));
                            assert(rv.push(done_record@).drop_last() =~= rv);
                            assert(spec_flatten(rv.push(done_record@)) =~= buffer@.take(
                                index as int + 4,
                            ));
                        }
                        let ghost done_rec = done_record@;
                        records.push(done_record);
                        proof {
                            let rv = records@.map_values(|r2: Vec<u8>| r2@);
                            assert(records@.last()@ == done_rec);
                            assert(done_rec == tag_done());
                            assert_seqs_equal!(
                                rv == records_before.map_values(|r2: Vec<u8>| r2@).push(
                                    tag_done(),
                                ),
                                i => {
                                    if i < records@.len() - 1 {
                                        assert(records@[i] == records_before[i]);
                                    } else {
                                        assert(records@[i]@ == done_rec);
                                    }
                                }
                            );
                            assert(rv.last() == tag_done());
                            assert forall|i: int|
                                0 <= i < rv.len() - 1 implies (#[trigger] rv[i]).len() >= 20
                                && rv[i].subrange(0, 4) == tag_dent() && spec_dent_size(
                                rv[i],
                                0,
                            ) == Some(rv[i].len() as int) by {
                                assert(records@[i] == records_before[i]);
                                assert(rv[i] == records@[i]@);
                            }
                        }
                        index = index + 4;
                        done_seen = true;
                        match self.send_okay_command(tinfo, Some(data_timeout_ms)) {
                            Ok(()) => {
                            },
                            Err(err) => {
                                return Err(err);
                            },
                        }
                        break;
                    },
                    ListStep::Failed => {
                        let blen = buffer.len();
                        let mut msg_bytes: Vec<u8> = Vec::new();
                        let mut i: usize = index + 4;
                        while i < buffer.len()
                            invariant
                                index + 4 <= i,
                            decreases buffer@.len() - i,
                        {
                            msg_bytes.push(buffer[i]);
                            i = i + 1;
                        }
                        let mut m = "Listing failed: ".to_owned();
                        m.append(bytes_to_string_lossy(&msg_bytes).as_str());
                        return Err(AdbConnectionError::SyncError(m));
                    },
                    ListStep::NeedMore => {
                        break;
                    },
                    ListStep::Unexpected => {
                        return Err(AdbConnectionError::SyncError(
                            "Unexpected response".to_owned(),
                        ));
                    },
                }
            }
            if !done_seen {
                match self.send_okay_command(tinfo, Some(data_timeout_ms)) {
                    Ok(()) => {
                    },
                    Err(err) => {
                        return Err(err);
                    },
                }
            }
        }
    }

    /// Serves a client `QUIT`: forwards exactly the QUIT frame, waits
    /// for the device's OKAY and (tolerantly) its CLSE, and leaves sync
    /// mode.
    pub fn handle_quit_command(
        &mut self,
        tinfo: &AdbTransactionInfo,
        attempts: u64,
        data_timeout_ms: u64,
    ) -> (r: Result<(), AdbConnectionError>)
        requires
            old(self).wf(),
        ensures
            final(self).wf(),
            r is Ok ==> ({
                let n = old(self).spec_delivered().len() as int;
                let d = final(self).spec_delivered();
                &&& d.len() >= n + 1
                &&& old(self).spec_delivered().is_prefix_of(d)
                &&& d[n].spec_command() == OKAY_CODE
                &&& final(self).spec_sent() == old(self).spec_sent() + spec_message_chunks(
                    WRTE_CODE,
                    tinfo.local(),
                    tinfo.remote(),
                    tag_quit() + seq![0u8, 0u8, 0u8, 0u8],
                )
            }),
    {
        let quit_command = create_quit_command();
        match self.send_wrte_command(tinfo, quit_command.as_slice(), Some(data_timeout_ms)) {
            Ok(()) => {
            },
            Err(err) => {
                return Err(err);
            },
        }
        match self.read_okay_response(tinfo, attempts, data_timeout_ms) {
            Ok(_) => {
            },
            Err(err) => {
                return Err(err);
            },
        }
        proof {
            assert(old(self).spec_delivered().is_prefix_of(self.spec_delivered())) by {
                assert(self.spec_delivered().subrange(
                    0,
                    old(self).spec_delivered().len() as int,
                ) =~= old(self).spec_delivered());
            }
        }
        let r = self.read_clse_response(tinfo, attempts, data_timeout_ms);
        proof {
            if self.spec_delivered() != old(self).spec_delivered() {
                assert(old(self).spec_delivered().is_prefix_of(self.spec_delivered())) by {
                    assert(self.spec_delivered().subrange(
                        0,
                        old(self).spec_delivered().len() as int,
                    ) =~= old(self).spec_delivered());
                }
            }
        }
        r
    }
}

} // verus!
