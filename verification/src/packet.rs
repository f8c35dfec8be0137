//! The framing of the game connection: length-prefixed big-endian packets
//! from the server and from the client, and the raw command ids that are
//! answered without a registered handler.
use byteorder::{ByteOrder, BE};
use vstd::prelude::*;

verus! {

// ---------------------------------------------------------------------------
// Big-endian integers
// ---------------------------------------------------------------------------

/// The value of big-endian bytes.
pub open spec fn be_value(b: Seq<u8>) -> nat
    decreases b.len(),
{
    if b.len() == 0 {
        0
    } else {
        be_value(b.drop_last()) * 256 + b.last() as nat
    }
}

/// The `k` low bytes of `n`, big-endian.
pub open spec fn be_bytes(n: nat, k: nat) -> Seq<u8>
    decreases k,
{
    if k == 0 {
        Seq::empty()
    } else {
        be_bytes(n / 256, (k - 1) as nat).push((n % 256) as u8)
    }
}

/// The 16-bit two's complement pattern of `v`.
pub open spec fn bits16(v: int) -> nat {
    (if v < 0 {
        v + 65536
    } else {
        v
    }) as nat
}

/// The 32-bit two's complement pattern of `v`.
pub open spec fn bits32(v: int) -> nat {
    (if v < 0 {
        v + 4294967296
    } else {
        v
    }) as nat
}

/// The signed value of a 16-bit pattern.
pub open spec fn signed16(u: nat) -> int {
    if u >= 32768 {
        u - 65536
    } else {
        u as int
    }
}

/// The signed value of a 32-bit pattern.
pub open spec fn signed32(u: nat) -> int {
    if u >= 2147483648 {
        u - 4294967296
    } else {
        u as int
    }
}

/// `s` with `b` written over positions `at..at + b.len()`.
pub open spec fn overwrite(s: Seq<u8>, at: int, b: Seq<u8>) -> Seq<u8> {
    s.subrange(0, at) + b + s.subrange(at + b.len(), s.len() as int)
}

/// `BigEndian::read_u16` on `buf[at..]`: the first two bytes, big-endian.
#[verifier::external_body]
pub(crate) fn read_u16_at(buf: &[u8], at: usize) -> (n: u16)
    requires
        at + 2 <= buf@.len(),
    ensures
        n == be_value(buf@.subrange(at as int, at + 2)),
{
    BE::read_u16(&buf[at..])
}

/// `BigEndian::read_u32` on `buf[at..]`: the first four bytes, big-endian.
#[verifier::external_body]
fn read_u32_at(buf: &[u8], at: usize) -> (n: u32)
    requires
        at + 4 <= buf@.len(),
    ensures
        n == be_value(buf@.subrange(at as int, at + 4)),
{
    BE::read_u32(&buf[at..])
}

/// `BigEndian::read_i16` on `buf[at..]`: the first two bytes as a
/// two's complement value.
#[verifier::external_body]
fn read_i16_at(buf: &[u8], at: usize) -> (n: i16)
    requires
        at + 2 <= buf@.len(),
    ensures
        n == signed16(be_value(buf@.subrange(at as int, at + 2))),
{
    BE::read_i16(&buf[at..])
}

/// `BigEndian::read_i32` on `buf[at..]`: the first four bytes as a
/// two's complement value.
#[verifier::external_body]
fn read_i32_at(buf: &[u8], at: usize) -> (n: i32)
    requires
        at + 4 <= buf@.len(),
    ensures
        n == signed32(be_value(buf@.subrange(at as int, at + 4))),
{
    BE::read_i32(&buf[at..])
}

/// `BigEndian::write_u16` on `buf[at..]`: the two bytes of `n`, big-endian.
#[verifier::external_body]
fn write_u16_at(buf: &mut Vec<u8>, at: usize, n: u16)
    requires
        at + 2 <= old(buf)@.len(),
    ensures
        final(buf)@ == overwrite(old(buf)@, at as int, be_bytes(n as nat, 2)),
{
    BE::write_u16(&mut buf[at..], n)
}

/// `BigEndian::write_u32` on `buf[at..]`: the four bytes of `n`, big-endian.
#[verifier::external_body]
fn write_u32_at(buf: &mut Vec<u8>, at: usize, n: u32)
    requires
        at + 4 <= old(buf)@.len(),
    ensures
        final(buf)@ == overwrite(old(buf)@, at as int, be_bytes(n as nat, 4)),
{
    BE::write_u32(&mut buf[at..], n)
}

/// `BigEndian::write_i16` on `buf[at..]`: the two's complement bytes of `n`.
#[verifier::external_body]
fn write_i16_at(buf: &mut Vec<u8>, at: usize, n: i16)
    requires
        at + 2 <= old(buf)@.len(),
    ensures
        final(buf)@ == overwrite(old(buf)@, at as int, be_bytes(bits16(n as int), 2)),
{
    BE::write_i16(&mut buf[at..], n)
}

/// `BigEndian::write_i32` on `buf[at..]`: the two's complement bytes of `n`.
#[verifier::external_body]
fn write_i32_at(buf: &mut Vec<u8>, at: usize, n: i32)
    requires
        at + 4 <= old(buf)@.len(),
    ensures
        final(buf)@ == overwrite(old(buf)@, at as int, be_bytes(bits32(n as int), 4)),
{
    BE::write_i32(&mut buf[at..], n)
}

/// `256` to the power `k`.
pub open spec fn pow256(k: nat) -> nat
    decreases k,
{
    if k == 0 {
        1
    } else {
        256 * pow256((k - 1) as nat)
    }
}

proof fn lemma_be_roundtrip(n: nat, k: nat)
    requires
        n < pow256(k),
    ensures
        be_value(be_bytes(n, k)) == n,
        be_bytes(n, k).len() == k,
    decreases k,
{
    if k > 0 {
        let p = pow256((k - 1) as nat);
        assert(n / 256 < p) by (nonlinear_arith)
            requires
                n < 256 * p,
        ;
        lemma_be_roundtrip(n / 256, (k - 1) as nat);
        let b = be_bytes(n, k);
        assert(b.drop_last() =~= be_bytes(n / 256, (k - 1) as nat));
    } else {
        assert(n == 0);
    }
}

/// A zero-filled buffer of length `n`.
fn zeroed(n: usize) -> (v: Vec<u8>)
    ensures
        v@ == Seq::new(n as nat, |i: int| 0u8),
{
    let mut v: Vec<u8> = Vec::new();
    let mut i: usize = 0;
    while i < n
        invariant
            i <= n,
            v@ == Seq::new(i as nat, |j: int| 0u8),
        decreases n - i,
    {
        v.push(0);
        i = i + 1;
        assert(v@ =~= Seq::new(i as nat, |j: int| 0u8));
    }
    v
}

/// Copies `data` over `buf[at..]`.
fn copy_at(buf: &mut Vec<u8>, at: usize, data: &[u8])
    requires
        at + data@.len() == old(buf)@.len(),
    ensures
        final(buf)@ == old(buf)@.subrange(0, at as int) + data@,
{
    let ghost head = buf@.subrange(0, at as int);
    let mut i: usize = 0;
    while i < data.len()
        invariant
            i <= data@.len(),
            at + data.len() == buf.len(),
            head == old(buf)@.subrange(0, at as int),
            buf@.subrange(0, at as int) == head,
            forall|j: int| 0 <= j < i ==> buf@[at + j] == data@[j],
        decreases data@.len() - i,
    {
        buf.set(at + i, data[i]);
        assert(buf@.subrange(0, at as int) =~= head);
        i = i + 1;
    }
    assert(buf@ =~= head + data@);
}

// ---------------------------------------------------------------------------
// Packets
// ---------------------------------------------------------------------------

/// Why a packet could not be read.
#[derive(Clone, Copy, Debug, PartialEq, Eq)]
pub enum PacketError {
    /// Fewer bytes than the header: `(header, actual)`.
    LengthLessThanHeader(usize, usize),
    /// The length prefix disagrees with the bytes: `(declared + 4, actual)`.
    LengthMismatch(i64, usize),
}

/// A packet from the server: a 4-byte length of what follows, the command
/// id, the result code, the two tags and the body.
#[derive(Debug)]
pub struct ServerPacket {
    pub cmd_id: i16,
    pub result_code: u16,
    pub up_tag: u8,
    pub down_tag: u8,
    pub data: Vec<u8>,
}

/// A packet from the client: a 4-byte length of what follows, the sequence
/// number, the command id, the tag and the body.
#[derive(Debug)]
pub struct ClientPacket {
    pub sequence: i32,
    pub cmd_id: i16,
    pub up_tag: u8,
    pub data: Vec<u8>,
}

/// The length of a server packet header.
pub const SERVER_PACKET_HEADER: usize = 10;

/// The length of a client packet header.
pub const CLIENT_PACKET_HEADER: usize = 11;

/// The bytes of a server packet with the given fields.
pub open spec fn server_bytes(
    cmd_id: i16,
    result_code: u16,
    up_tag: u8,
    down_tag: u8,
    data: Seq<u8>,
) -> Seq<u8> {
    be_bytes((data.len() + 6) as nat, 4) + be_bytes(bits16(cmd_id as int), 2) + be_bytes(
        result_code as nat,
        2,
    ) + seq![up_tag, down_tag] + data
}

/// The bytes of a client packet with the given fields.
pub open spec fn client_bytes(sequence: i32, cmd_id: i16, up_tag: u8, data: Seq<u8>) -> Seq<u8> {
    be_bytes(bits32((data.len() + 7) as int), 4) + be_bytes(bits32(sequence as int), 4) + be_bytes(
        bits16(cmd_id as int),
        2,
    ) + seq![up_tag] + data
}

/// How a server packet is read from `b`: the header must be there and the
/// length prefix must count exactly the bytes after it.
pub open spec fn server_decode(b: Seq<u8>) -> Result<(i16, u16, u8, u8, Seq<u8>), PacketError> {
    if b.len() < SERVER_PACKET_HEADER {
        Err(PacketError::LengthLessThanHeader(SERVER_PACKET_HEADER, b.len() as usize))
    } else {
        let size = be_value(b.subrange(0, 4));
        if b.len() != size + 4 {
            Err(PacketError::LengthMismatch((size + 4) as i64, b.len() as usize))
        } else {
            Ok(
                (
                    signed16(be_value(b.subrange(4, 6))) as i16,
                    be_value(b.subrange(6, 8)) as u16,
                    b[8],
                    b[9],
                    b.subrange(10, b.len() as int),
                ),
            )
        }
    }
}

/// How a client packet is read from `b`: the header must be there and the
/// (signed) length prefix must count exactly the bytes after it.
pub open spec fn client_decode(b: Seq<u8>) -> Result<(i32, i16, u8, Seq<u8>), PacketError> {
    if b.len() < CLIENT_PACKET_HEADER {
        Err(PacketError::LengthLessThanHeader(CLIENT_PACKET_HEADER, b.len() as usize))
    } else {
        let size = signed32(be_value(b.subrange(0, 4)));
        if b.len() != size + 4 {
            Err(PacketError::LengthMismatch((size + 4) as i64, b.len() as usize))
        } else {
            Ok(
                (
                    signed32(be_value(b.subrange(4, 8))) as i32,
                    signed16(be_value(b.subrange(8, 10))) as i16,
                    b[10],
                    b.subrange(11, b.len() as int),
                ),
            )
        }
    }
}

impl ServerPacket {
    /// The packet's bytes. The length prefix counts the bytes after it.
    pub fn encode(&self) -> (b: Vec<u8>)
        requires
            self.data@.len() + 6 <= u32::MAX,
            self.data@.len() + SERVER_PACKET_HEADER <= usize::MAX,
        ensures
            b@ == server_bytes(self.cmd_id, self.result_code, self.up_tag, self.down_tag, self.data@),
    {
        let total_len = SERVER_PACKET_HEADER + self.data.len();
        proof {
            reveal_with_fuel(pow256, 5);
            lemma_be_roundtrip((self.data@.len() + 6) as nat, 4);
            lemma_be_roundtrip(bits16(self.cmd_id as int), 2);
            lemma_be_roundtrip(self.result_code as nat, 2);
        }
        let mut buffer = zeroed(total_len);
        write_u32_at(&mut buffer, 0, (total_len - 4) as u32);
        write_i16_at(&mut buffer, 4, self.cmd_id);
        write_u16_at(&mut buffer, 6, self.result_code);
        buffer.set(8, self.up_tag);
        buffer.set(9, self.down_tag);
        let ghost before = buffer@;
        copy_at(&mut buffer, SERVER_PACKET_HEADER, self.data.as_slice());
        proof {
            assert(before.subrange(0, 10) =~= be_bytes((self.data@.len() + 6) as nat, 4) + be_bytes(
                bits16(self.cmd_id as int),
                2,
            ) + be_bytes(self.result_code as nat, 2) + seq![self.up_tag, self.down_tag]);
            assert(buffer@ =~= server_bytes(
                self.cmd_id,
                self.result_code,
                self.up_tag,
                self.down_tag,
                self.data@,
            ));
        }
        buffer
    }

    /// Reads a server packet.
    pub fn decode(buffer: &[u8]) -> (r: Result<Self, PacketError>)
        ensures
            match server_decode(buffer@) {
                Ok((cmd_id, result_code, up_tag, down_tag, data)) => r matches Ok(p) && p.cmd_id
                    == cmd_id && p.result_code == result_code && p.up_tag == up_tag && p.down_tag
                    == down_tag && p.data@ == data,
                Err(e) => r == Err::<Self, PacketError>(e),
            },
    {
        if buffer.len() < SERVER_PACKET_HEADER {
            return Err(PacketError::LengthLessThanHeader(SERVER_PACKET_HEADER, buffer.len()));
        }
        let packet_size = read_u32_at(buffer, 0);
        let expected: i64 = packet_size as i64 + 4;
        if (buffer.len() as u64) != (expected as u64) {
            return Err(PacketError::LengthMismatch(expected, buffer.len()));
        }
        let cmd_id = read_i16_at(buffer, 4);
        let result_code = read_u16_at(buffer, 6);
        let up_tag = buffer[8];
        let down_tag = buffer[9];
        let data = buffer_tail(buffer, SERVER_PACKET_HEADER);
        Ok(ServerPacket { cmd_id, result_code, up_tag, down_tag, data })
    }
}

impl ClientPacket {
    /// The packet's bytes. The length prefix counts the bytes after it.
    pub fn encode(&self) -> (b: Vec<u8>)
        requires
            self.data@.len() + 7 <= i32::MAX,
            self.data@.len() + CLIENT_PACKET_HEADER <= usize::MAX,
        ensures
            b@ == client_bytes(self.sequence, self.cmd_id, self.up_tag, self.data@),
    {
        let total_len = CLIENT_PACKET_HEADER + self.data.len();
        proof {
            reveal_with_fuel(pow256, 5);
            lemma_be_roundtrip(bits32((self.data@.len() + 7) as int), 4);
            lemma_be_roundtrip(bits32(self.sequence as int), 4);
            lemma_be_roundtrip(bits16(self.cmd_id as int), 2);
        }
        let mut buffer = zeroed(total_len);
        write_i32_at(&mut buffer, 0, (total_len - 4) as i32);
        write_i32_at(&mut buffer, 4, self.sequence);
        write_i16_at(&mut buffer, 8, self.cmd_id);
        buffer.set(10, self.up_tag);
        let ghost before = buffer@;
        copy_at(&mut buffer, CLIENT_PACKET_HEADER, self.data.as_slice());
        proof {
            assert(before.subrange(0, 11) =~= be_bytes(bits32((self.data@.len() + 7) as int), 4)
                + be_bytes(bits32(self.sequence as int), 4) + be_bytes(bits16(self.cmd_id as int), 2)
                + seq![self.up_tag]);
            assert(buffer@ =~= client_bytes(self.sequence, self.cmd_id, self.up_tag, self.data@));
        }
        buffer
    }

    /// Reads a client packet.
    pub fn decode(buffer: &[u8]) -> (r: Result<Self, PacketError>)
        ensures
            match client_decode(buffer@) {
                Ok((sequence, cmd_id, up_tag, data)) => r matches Ok(p) && p.sequence == sequence
                    && p.cmd_id == cmd_id && p.up_tag == up_tag && p.data@ == data,
                Err(e) => r == Err::<Self, PacketError>(e),
            },
    {
        if buffer.len() < CLIENT_PACKET_HEADER {
            return Err(PacketError::LengthLessThanHeader(CLIENT_PACKET_HEADER, buffer.len()));
        }
        let packet_size = read_i32_at(buffer, 0);
        let expected: i64 = packet_size as i64 + 4;
        if expected < 0 || (buffer.len() as u64) != (expected as u64) {
            return Err(PacketError::LengthMismatch(expected, buffer.len()));
        }
        let sequence = read_i32_at(buffer, 4);
        let cmd_id = read_i16_at(buffer, 8);
        let up_tag = buffer[10];
        let data = buffer_tail(buffer, CLIENT_PACKET_HEADER);
        Ok(ClientPacket { sequence, cmd_id, up_tag, data })
    }
}

/// The bytes of `buffer` from `at` on.
fn buffer_tail(buffer: &[u8], at: usize) -> (v: Vec<u8>)
    requires
        at <= buffer@.len(),
    ensures
        v@ == buffer@.subrange(at as int, buffer@.len() as int),
{
    let mut v: Vec<u8> = Vec::new();
    let mut i: usize = at;
    while i < buffer.len()
        invariant
            at <= i <= buffer@.len(),
            v@ == buffer@.subrange(at as int, i as int),
        decreases buffer@.len() - i,
    {
        v.push(buffer[i]);
        i = i + 1;
        assert(v@ =~= buffer@.subrange(at as int, i as int));
    }
    v
}

/// A server packet reads back as it was written: decoding the bytes of any
/// packet whose length fits the prefix gives its fields.
pub proof fn server_packet_roundtrip(
    cmd_id: i16,
    result_code: u16,
    up_tag: u8,
    down_tag: u8,
    data: Seq<u8>,
)
    requires
        data.len() + 6 <= u32::MAX,
    ensures
        server_decode(server_bytes(cmd_id, result_code, up_tag, down_tag, data)) == Ok::<
            (i16, u16, u8, u8, Seq<u8>),
            PacketError,
        >((cmd_id, result_code, up_tag, down_tag, data)),
{
    reveal_with_fuel(pow256, 5);
    lemma_be_roundtrip((data.len() + 6) as nat, 4);
    lemma_be_roundtrip(bits16(cmd_id as int), 2);
    lemma_be_roundtrip(result_code as nat, 2);
    let b = server_bytes(cmd_id, result_code, up_tag, down_tag, data);
    assert(b.subrange(0, 4) =~= be_bytes((data.len() + 6) as nat, 4));
    assert(b.subrange(4, 6) =~= be_bytes(bits16(cmd_id as int), 2));
    assert(b.subrange(6, 8) =~= be_bytes(result_code as nat, 2));
    assert(b.subrange(10, b.len() as int) =~= data);
    assert(b[8] == up_tag);
    assert(b[9] == down_tag);
}

/// A client packet reads back as it was written: decoding the bytes of any
/// packet whose length fits the prefix gives its fields.
pub proof fn client_packet_roundtrip(sequence: i32, cmd_id: i16, up_tag: u8, data: Seq<u8>)
    requires
        data.len() + 7 <= i32::MAX,
    ensures
        client_decode(client_bytes(sequence, cmd_id, up_tag, data)) == Ok::<
            (i32, i16, u8, Seq<u8>),
            PacketError,
        >((sequence, cmd_id, up_tag, data)),
{
    reveal_with_fuel(pow256, 5);
    lemma_be_roundtrip(bits32((data.len() + 7) as int), 4);
    lemma_be_roundtrip(bits32(sequence as int), 4);
    lemma_be_roundtrip(bits16(cmd_id as int), 2);
    let b = client_bytes(sequence, cmd_id, up_tag, data);
    assert(b.subrange(0, 4) =~= be_bytes(bits32((data.len() + 7) as int), 4));
    assert(b.subrange(4, 8) =~= be_bytes(bits32(sequence as int), 4));
    assert(b.subrange(8, 10) =~= be_bytes(bits16(cmd_id as int), 2));
    assert(b.subrange(11, b.len() as int) =~= data);
    assert(b[10] == up_tag);
}

} // verus!
