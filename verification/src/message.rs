use vstd::prelude::*;
use crate::errors::AdbConnectionError;

verus! {

pub const ADB_MESSAGE_SIZE: usize = 24;

/// Largest payload an ADB packet may carry: 1 MiB.
pub const MAX_ADB_DATA: u32 = 1024 * 1024;

pub const ADB_SERVER_VERSION: u32 = 0x01000000;

pub const CNXN_CODE: u32 = 0x4E584E43;
pub const AUTH_CODE: u32 = 0x48545541;
pub const OPEN_CODE: u32 = 0x4E45504F;
pub const OKAY_CODE: u32 = 0x59414B4F;
pub const WRTE_CODE: u32 = 0x45545257;
pub const CLSE_CODE: u32 = 0x45534C43;

/// The checksum of a payload: the sum of its bytes, each taken as a u32.
pub open spec fn spec_checksum(data: Seq<u8>) -> int
    decreases data.len(),
{
    if data.len() == 0 {
        0
    } else {
        spec_checksum(data.drop_last()) + data.last()
    }
}

/// The checksum is bounded by 255 per byte, so any payload within the
/// 1 MiB limit sums to well under 2^32.
pub proof fn lemma_checksum_bound(data: Seq<u8>)
    ensures
        0 <= spec_checksum(data) <= data.len() * 255,
    decreases data.len(),
{
    if data.len() > 0 {
        lemma_checksum_bound(data.drop_last());
    }
}

/// The four little-endian bytes of a u32.
pub open spec fn spec_u32_le(v: u32) -> Seq<u8> {
    seq![
        (v & 0xFF) as u8,
        ((v >> 8) & 0xFF) as u8,
        ((v >> 16) & 0xFF) as u8,
        ((v >> 24) & 0xFF) as u8,
    ]
}

/// The u32 read from four little-endian bytes.
pub open spec fn spec_u32_from_le(b0: u8, b1: u8, b2: u8, b3: u8) -> u32 {
    (b0 as u32) | ((b1 as u32) << 8) | ((b2 as u32) << 16) | ((b3 as u32) << 24)
}

/// Little-endian encoding and decoding of a u32 invert each other.
pub proof fn lemma_u32_le_roundtrip(v: u32)
    ensures
        spec_u32_from_le(
            spec_u32_le(v)[0],
            spec_u32_le(v)[1],
            spec_u32_le(v)[2],
            spec_u32_le(v)[3],
        ) == v,
{
    assert(((v & 0xFF) as u8 as u32) | (((v >> 8) & 0xFF) as u8 as u32) << 8
        | (((v >> 16) & 0xFF) as u8 as u32) << 16 | (((v >> 24) & 0xFF) as u8 as u32) << 24
        == v) by (bit_vector);
}

/// Appends the four little-endian bytes of `v` to `out`.
pub fn push_u32_le(out: &mut Vec<u8>, v: u32)
    ensures
        final(out)@ == old(out)@ + spec_u32_le(v),
{
    out.push((v & 0xFF) as u8);
    out.push(((v >> 8) & 0xFF) as u8);
    out.push(((v >> 16) & 0xFF) as u8);
    out.push(((v >> 24) & 0xFF) as u8);
    assert(final(out)@ =~= old(out)@ + spec_u32_le(v));
}

/// Reads the little-endian u32 at `offset`.
pub fn read_u32_le(bytes: &[u8], offset: usize) -> (r: u32)
    requires
        offset + 4 <= bytes@.len(),
    ensures
        r == spec_u32_from_le(
            bytes@[offset as int],
            bytes@[offset as int + 1],
            bytes@[offset as int + 2],
            bytes@[offset as int + 3],
        ),
{
    let b0 = bytes[offset];
    let b1 = bytes[offset + 1];
    let b2 = bytes[offset + 2];
    let b3 = bytes[offset + 3];
    (b0 as u32) | ((b1 as u32) << 8) | ((b2 as u32) << 16) | ((b3 as u32) << 24)
}

/// One ADB packet: a fixed header and a payload of at most 1 MiB.
pub struct AdbMessage {
    command: u32,
    magic: u32,
    arg0: u32,
    arg1: u32,
    data: Vec<u8>,
}

/// The 24-byte wire header for a packet with these fields: six
/// little-endian u32 values
/// `command | arg0 | arg1 | data_len | checksum | magic`.
pub open spec fn spec_header_bytes(command: u32, arg0: u32, arg1: u32, data: Seq<u8>) -> Seq<
    u8,
> {
    spec_u32_le(command) + spec_u32_le(arg0) + spec_u32_le(arg1) + spec_u32_le(
        data.len() as u32,
    ) + spec_u32_le(spec_checksum(data) as u32) + spec_u32_le((command ^ 0xFFFFFFFFu32) as u32)
}

/// The chunks a packet occupies on the wire: its header, then, only when
/// there is one, its payload as a second chunk.
pub open spec fn spec_message_chunks(command: u32, arg0: u32, arg1: u32, data: Seq<u8>) -> Seq<
    Seq<u8>,
> {
    if data.len() == 0 {
        seq![spec_header_bytes(command, arg0, arg1, data)]
    } else {
        seq![spec_header_bytes(command, arg0, arg1, data), data]
    }
}

/// The 24-byte wire header of a message.
pub open spec fn spec_pack(m: AdbMessage) -> Seq<u8> {
    spec_header_bytes(m.spec_command(), m.spec_arg0(), m.spec_arg1(), m.spec_data())
}

/// Whether a 24-byte header chunk announces exactly this message: the
/// parsed command and arguments are the message's and the announced
/// length is its payload's.  (The announced checksum is verified only
/// when a payload follows; a zero-length packet's checksum field is
/// never read, like its magic.)
pub open spec fn spec_header_describes(h: Seq<u8>, m: AdbMessage) -> bool {
    &&& h.len() == 24
    &&& m.spec_command() == spec_u32_from_le(h[0], h[1], h[2], h[3])
    &&& m.spec_arg0() == spec_u32_from_le(h[4], h[5], h[6], h[7])
    &&& m.spec_arg1() == spec_u32_from_le(h[8], h[9], h[10], h[11])
    &&& m.spec_data().len() == spec_u32_from_le(h[12], h[13], h[14], h[15])
}

impl AdbMessage {
    pub closed spec fn spec_command(&self) -> u32 {
        self.command
    }

    pub closed spec fn spec_magic(&self) -> u32 {
        self.magic
    }

    pub closed spec fn spec_arg0(&self) -> u32 {
        self.arg0
    }

    pub closed spec fn spec_arg1(&self) -> u32 {
        self.arg1
    }

    pub closed spec fn spec_data(&self) -> Seq<u8> {
        self.data@
    }

    /// A message is well formed when its payload is within the protocol
    /// limit and its magic is the bitwise inversion of its command.
    pub open spec fn wf(&self) -> bool {
        &&& self.spec_data().len() <= MAX_ADB_DATA
        &&& self.spec_magic() == self.spec_command() ^ 0xFFFFFFFFu32
    }

    pub fn new(command: u32, arg0: u32, arg1: u32, data: Vec<u8>) -> (r: Self)
        requires
            data@.len() <= MAX_ADB_DATA,
        ensures
            r.wf(),
            r.spec_command() == command,
            r.spec_arg0() == arg0,
            r.spec_arg1() == arg1,
            r.spec_data() == data@,
            r.spec_magic() == command ^ 0xFFFFFFFFu32,
    {
        let magic = command ^ 0xFFFFFFFFu32;
        AdbMessage { command, magic, arg0, arg1, data }
    }

    pub fn command(&self) -> (r: u32)
        ensures
            r == self.spec_command(),
    {
        self.command
    }

    pub fn magic(&self) -> (r: u32)
        ensures
            r == self.spec_magic(),
    {
        self.magic
    }

    pub fn arg0(&self) -> (r: u32)
        ensures
            r == self.spec_arg0(),
    {
        self.arg0
    }

    pub fn arg1(&self) -> (r: u32)
        ensures
            r == self.spec_arg1(),
    {
        self.arg1
    }

    pub fn data(&self) -> (r: &Vec<u8>)
        ensures
            r@ == self.spec_data(),
    {
        &self.data
    }

    pub fn into_data(self) -> (r: Vec<u8>)
        ensures
            r@ == self.spec_data(),
    {
        self.data
    }

    pub fn set_data(&mut self, data: Vec<u8>)
        requires
            data@.len() <= MAX_ADB_DATA,
        ensures
            final(self).spec_data() == data@,
            final(self).spec_command() == old(self).spec_command(),
            final(self).spec_arg0() == old(self).spec_arg0(),
            final(self).spec_arg1() == old(self).spec_arg1(),
            final(self).spec_magic() == old(self).spec_magic(),
    {
        self.data = data;
    }

    /// The checksum of the payload: the sum of its bytes.  Within the
    /// 1 MiB payload bound the sum always fits in a u32.
    pub fn checksum(&self) -> (r: u32)
        requires
            self.spec_data().len() <= MAX_ADB_DATA,
        ensures
            r == spec_checksum(self.spec_data()),
    {
        proof {
            lemma_checksum_bound(self.spec_data());
        }
        let mut sum: u32 = 0;
        let mut i: usize = 0;
        while i < self.data.len()
            invariant
                i <= self.data@.len(),
                self.spec_data().len() <= MAX_ADB_DATA,
                sum == spec_checksum(self.spec_data().take(i as int)),
                sum <= i * 255,
            decreases self.data@.len() - i,
        {
            proof {
                lemma_checksum_bound(self.spec_data().take(i as int));
                assert(self.spec_data().take(i as int + 1).drop_last()
                    =~= self.spec_data().take(i as int));
            }
            sum = sum + self.data[i] as u32;
            i = i + 1;
        }
        proof {
            assert(self.spec_data().take(self.spec_data().len() as int) =~= self.spec_data());
        }
        sum
    }

    /// Serializes the 24-byte header in wire order.
    pub fn pack_message(&self) -> (r: Vec<u8>)
        requires
            self.wf(),
        ensures
            r@ == spec_pack(*self),
            r@.len() == ADB_MESSAGE_SIZE,
    {
        let mut message: Vec<u8> = Vec::new();
        push_u32_le(&mut message, self.command);
        push_u32_le(&mut message, self.arg0);
        push_u32_le(&mut message, self.arg1);
        push_u32_le(&mut message, self.data.len() as u32);
        push_u32_le(&mut message, self.checksum());
        push_u32_le(&mut message, self.magic);
        assert(message@ =~= spec_pack(*self));
        message
    }

    /// Parses a 24-byte header into `(command, arg0, arg1, data_len,
    /// checksum)`.  A buffer shorter than 24 bytes is rejected; the magic
    /// field is not read back, matching the wire contract where magic is
    /// written on send but not verified on receive.
    pub fn unpack_message(message_bytes: &Vec<u8>) -> (r: Result<
        (u32, u32, u32, u32, u32),
        AdbConnectionError,
    >)
        ensures
            message_bytes@.len() >= ADB_MESSAGE_SIZE <==> r is Ok,
            r matches Ok((command, arg0, arg1, data_len, checksum)) ==> {
                &&& command == spec_u32_from_le(message_bytes@[0], message_bytes@[1], message_bytes@[2], message_bytes@[3])
                &&& arg0 == spec_u32_from_le(message_bytes@[4], message_bytes@[5], message_bytes@[6], message_bytes@[7])
                &&& arg1 == spec_u32_from_le(message_bytes@[8], message_bytes@[9], message_bytes@[10], message_bytes@[11])
                &&& data_len == spec_u32_from_le(message_bytes@[12], message_bytes@[13], message_bytes@[14], message_bytes@[15])
                &&& checksum == spec_u32_from_le(message_bytes@[16], message_bytes@[17], message_bytes@[18], message_bytes@[19])
            },
            r matches Err(e) ==> (e matches AdbConnectionError::CommunicationError(m)
                && m@ == "Buffer is too short to unpack"@),
    {
        if message_bytes.len() < ADB_MESSAGE_SIZE {
            return Err(AdbConnectionError::CommunicationError(
                "Buffer is too short to unpack".to_owned(),
            ));
        }
        let command = read_u32_le(message_bytes.as_slice(), 0);
        let arg0 = read_u32_le(message_bytes.as_slice(), 4);
        let arg1 = read_u32_le(message_bytes.as_slice(), 8);
        let data_length = read_u32_le(message_bytes.as_slice(), 12);
        let data_checksum = read_u32_le(message_bytes.as_slice(), 16);
        Ok((command, arg0, arg1, data_length, data_checksum))
    }
}

/// Framing round trip: unpacking a packed header recovers the command,
/// the arguments, the payload length and the payload checksum, and the
/// packed magic is the bitwise inversion of the command.
pub proof fn lemma_pack_unpack_roundtrip(m: AdbMessage)
    requires
        m.wf(),
    ensures
        ({
            let header = spec_pack(m);
            &&& spec_u32_from_le(header[0], header[1], header[2], header[3]) == m.spec_command()
            &&& spec_u32_from_le(header[4], header[5], header[6], header[7]) == m.spec_arg0()
            &&& spec_u32_from_le(header[8], header[9], header[10], header[11]) == m.spec_arg1()
            &&& spec_u32_from_le(header[12], header[13], header[14], header[15]) == m.spec_data().len()
            &&& spec_u32_from_le(header[16], header[17], header[18], header[19]) == spec_checksum(m.spec_data())
            &&& spec_u32_from_le(header[20], header[21], header[22], header[23]) == (m.spec_command() ^ 0xFFFFFFFFu32)
        }),
{
    lemma_checksum_bound(m.spec_data());
    lemma_u32_le_roundtrip(m.spec_command());
    lemma_u32_le_roundtrip(m.spec_arg0());
    lemma_u32_le_roundtrip(m.spec_arg1());
    lemma_u32_le_roundtrip(m.spec_data().len() as u32);
    lemma_u32_le_roundtrip(spec_checksum(m.spec_data()) as u32);
    lemma_u32_le_roundtrip(m.spec_magic());
}

} // verus!
