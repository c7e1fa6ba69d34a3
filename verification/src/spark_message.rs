//! The message codec: application messages to writable blocks, and
//! notified blocks back to application messages.
//!
//! A block is a 16-byte block header, a 6-byte chunk header, the 7-bit
//! packed payload of the chunk and one trailer byte:
//!
//! ```text
//! [magic:4][direction:2][size:1][reserved:9]
//! [0xF0][sysex id][sequence][checksum][command][sub-command]
//! [packed payload ...][0xF7]
//! ```
//!
//! Magic and direction are big-endian. The checksum is the XOR of the
//! packed payload bytes of the chunk.

use crate::byteorder::{
    be_bytes_u16, be_bytes_u32, be_value_u16, be_value_u32, lemma_be_u16_bytes_roundtrip,
    lemma_be_u16_roundtrip, lemma_be_u32_bytes_roundtrip, lemma_be_u32_roundtrip, u16_from_be,
    u16_to_be, u32_from_be, u32_to_be,
};
use crate::packing::{
    first_group_len, group_mask, lemma_pack7_len, low7, mask_upto, pack7, packed_len, restore,
    unpack7, GROUP_SIZE,
};
use vstd::prelude::*;
use vstd::utf8::{decode_utf8, valid_utf8};

verus! {

/// The magic value at the start of every block.
pub const BLOCK_MAGIC: u32 = 0x01FE_0000;

/// The largest block that is written in one piece.
pub const MAX_BLOCK_SIZE: usize = 0xAD;

/// Length of the block header.
pub const HEADER_SIZE: usize = 0x10;

/// Length of the chunk header.
pub const CHUNK_HDR_SIZE: usize = 0x06;

/// Length of the chunk trailer.
pub const CHUNK_TRAILER_SIZE: usize = 0x01;

/// The most packed payload bytes that one chunk carries.
pub const MAX_CHUNK_SIZE: usize = MAX_BLOCK_SIZE - HEADER_SIZE - CHUNK_HDR_SIZE
    - CHUNK_TRAILER_SIZE;

/// The shortest block: both headers and the trailer.
pub const MIN_BLOCK_SIZE: usize = HEADER_SIZE + CHUNK_HDR_SIZE + CHUNK_TRAILER_SIZE;

/// First byte of every chunk.
pub const CHUNK_START: u8 = 0xF0;

/// The vendor id in every chunk header.
pub const SYSEX_ID: u8 = 0x01;

/// Last byte of every chunk.
pub const CHUNK_TRAILER: u8 = 0xF7;

/// Command and sub-command of the reply that carries the amplifier's name.
pub const AMP_NAME_COMMAND: u8 = 0x03;

pub const AMP_NAME_SUB_COMMAND: u8 = 0x11;

/// Which way a block travels.
#[derive(Clone, Copy, Debug, PartialEq, Eq, Structural)]
pub enum Direction {
    ToSpark,
    FromSpark,
}

impl Direction {
    /// The tag that stands for the direction in a block header.
    pub open spec fn spec_tag(self) -> u16 {
        match self {
            Direction::ToSpark => 0x53FE,
            Direction::FromSpark => 0x41FF,
        }
    }

    /// The tag that stands for the direction in a block header.
    pub fn tag(self) -> (t: u16)
        ensures
            t == self.spec_tag(),
    {
        match self {
            Direction::ToSpark => 0x53FE,
            Direction::FromSpark => 0x41FF,
        }
    }
}

/// The 16-byte envelope of a block.
#[derive(Debug)]
pub struct BlockHeader {
    pub magic: u32,
    pub direction: u16,
    pub size: u8,
    pub _reserved: [u8; 9],
}

impl BlockHeader {
    /// The sixteen bytes that the header is written as.
    pub open spec fn spec_bytes(&self) -> Seq<u8> {
        be_bytes_u32(self.magic) + be_bytes_u16(self.direction) + seq![self.size]
            + self._reserved@
    }

    /// The header as it is written.
    pub fn to_bytes(&self) -> (bytes: [u8; 16])
        ensures
            bytes@ == self.spec_bytes(),
    {
        let magic: [u8; 4] = u32_to_be(self.magic);
        let direction: [u8; 2] = u16_to_be(self.direction);
        let mut bytes: [u8; 16] = [0;16];
        bytes[0] = magic[0];
        bytes[1] = magic[1];
        bytes[2] = magic[2];
        bytes[3] = magic[3];
        bytes[4] = direction[0];
        bytes[5] = direction[1];
        bytes[6] = self.size;
        let mut n: usize = 0;
        while n < 9
            invariant
                n <= 9,
                bytes@.subrange(0, 4) == be_bytes_u32(self.magic),
                bytes@.subrange(4, 6) == be_bytes_u16(self.direction),
                bytes@[6] == self.size,
                forall|i: int| 0 <= i < n ==> bytes@[7 + i] == self._reserved@[i],
            decreases 9 - n,
        {
            bytes[7 + n] = self._reserved[n];
            n += 1;
            proof {
                assert(bytes@.subrange(0, 4) =~= be_bytes_u32(self.magic));
                assert(bytes@.subrange(4, 6) =~= be_bytes_u16(self.direction));
            }
        }
        proof {
            assert(bytes@ =~= bytes@.subrange(0, 4) + bytes@.subrange(4, 6) + seq![bytes@[6]]
                + self._reserved@);
        }
        bytes
    }

    /// Reads a header from the first sixteen bytes of `buf`. There is none
    /// exactly when `buf` is shorter than that.
    pub fn read_from_prefix(buf: &[u8]) -> (header: Option<BlockHeader>)
        ensures
            header is Some <==> buf@.len() >= 16,
            header matches Some(h) ==> {
                &&& h.magic == be_value_u32(buf@.subrange(0, 4))
                &&& h.direction == be_value_u16(buf@.subrange(4, 6))
                &&& h.size == buf@[6]
                &&& h._reserved@ == buf@.subrange(7, 16)
                &&& h.spec_bytes() == buf@.subrange(0, 16)
            },
    {
        if buf.len() < HEADER_SIZE {
            return None;
        }
        let magic_bytes: [u8; 4] = [buf[0], buf[1], buf[2], buf[3]];
        let direction_bytes: [u8; 2] = [buf[4], buf[5]];
        let mut reserved: [u8; 9] = [0;9];
        let mut n: usize = 0;
        while n < 9
            invariant
                n <= 9,
                buf@.len() >= 16,
                forall|i: int| 0 <= i < n ==> reserved@[i] == buf@[7 + i],
            decreases 9 - n,
        {
            reserved[n] = buf[7 + n];
            n += 1;
        }
        proof {
            assert(magic_bytes@ =~= buf@.subrange(0, 4));
            assert(direction_bytes@ =~= buf@.subrange(4, 6));
            assert(reserved@ =~= buf@.subrange(7, 16));
            lemma_be_u32_bytes_roundtrip(magic_bytes@);
            lemma_be_u16_bytes_roundtrip(direction_bytes@);
            assert(buf@.subrange(0, 16) =~= magic_bytes@ + direction_bytes@ + seq![buf@[6]]
                + reserved@);
        }
        Some(
            BlockHeader {
                magic: u32_from_be(magic_bytes),
                direction: u16_from_be(direction_bytes),
                size: buf[6],
                _reserved: reserved,
            },
        )
    }
}

/// The 6-byte header of a chunk.
#[derive(Debug)]
pub struct ChunkHeader {
    pub start: u8,
    pub sysex_id: u8,
    pub sequence: u8,
    pub checksum: u8,
    pub command: u8,
    pub sub_command: u8,
}

impl ChunkHeader {
    /// The six bytes that the header is written as.
    pub open spec fn spec_bytes(&self) -> Seq<u8> {
        seq![
            self.start,
            self.sysex_id,
            self.sequence,
            self.checksum,
            self.command,
            self.sub_command,
        ]
    }

    /// The header as it is written.
    pub fn to_bytes(&self) -> (bytes: [u8; 6])
        ensures
            bytes@ == self.spec_bytes(),
    {
        let bytes: [u8; 6] = [
            self.start,
            self.sysex_id,
            self.sequence,
            self.checksum,
            self.command,
            self.sub_command,
        ];
        proof {
            assert(bytes@ =~= self.spec_bytes());
        }
        bytes
    }

    /// Reads a header from the first six bytes of `buf`. There is none
    /// exactly when `buf` is shorter than that.
    pub fn read_from_prefix(buf: &[u8]) -> (header: Option<ChunkHeader>)
        ensures
            header is Some <==> buf@.len() >= 6,
            header matches Some(h) ==> {
                &&& h.start == buf@[0]
                &&& h.sysex_id == buf@[1]
                &&& h.sequence == buf@[2]
                &&& h.checksum == buf@[3]
                &&& h.command == buf@[4]
                &&& h.sub_command == buf@[5]
                &&& h.spec_bytes() == buf@.subrange(0, 6)
            },
    {
        if buf.len() < CHUNK_HDR_SIZE {
            return None;
        }
        let h = ChunkHeader {
            start: buf[0],
            sysex_id: buf[1],
            sequence: buf[2],
            checksum: buf[3],
            command: buf[4],
            sub_command: buf[5],
        };
        proof {
            assert(h.spec_bytes() =~= buf@.subrange(0, 6));
        }
        Some(h)
    }
}

/// What the application asks of the amplifier.
#[derive(Clone, Copy, Debug)]
pub enum AppToSparkMsg {
    /// Ask for the amplifier's name.
    GetAmpName,
    /// Switch to the hardware preset of the given number.
    ///
    /// Command `0x01`, sub-command `0x38` and the payload `[0x00, preset]`
    /// are an assumption about the amplifier: they have not been
    /// confirmed against a device, and are to be checked against a
    /// captured exchange before they are relied on.
    SetHardwarePreset(u8),
}

impl AppToSparkMsg {
    /// Command and sub-command of the message. Those of
    /// `SetHardwarePreset` are assumed, not confirmed.
    pub open spec fn spec_opcode(&self) -> (u8, u8) {
        match self {
            AppToSparkMsg::GetAmpName => (0x02u8, 0x11u8),
            AppToSparkMsg::SetHardwarePreset(_) => (0x01u8, 0x38u8),
        }
    }

    /// The payload of the message before it is packed. That of
    /// `SetHardwarePreset` is assumed, not confirmed.
    pub open spec fn spec_payload(&self) -> Seq<u8> {
        match self {
            AppToSparkMsg::GetAmpName => Seq::<u8>::empty(),
            AppToSparkMsg::SetHardwarePreset(preset) => seq![0x00u8, *preset],
        }
    }

    /// Command and sub-command of the message.
    pub fn opcode(&self) -> (op: (u8, u8))
        ensures
            op == self.spec_opcode(),
    {
        match self {
            AppToSparkMsg::GetAmpName => (0x02, 0x11),
            AppToSparkMsg::SetHardwarePreset(_) => (0x01, 0x38),
        }
    }

    /// The payload of the message before it is packed.
    pub fn encode_payload(&self) -> (buf: Vec<u8>)
        ensures
            buf@ == self.spec_payload(),
    {
        let mut buf: Vec<u8> = Vec::new();
        match self {
            AppToSparkMsg::GetAmpName => {},
            AppToSparkMsg::SetHardwarePreset(preset) => {
                buf.push(0x00);
                buf.push(*preset);
            },
        }
        proof {
            assert(buf@ =~= self.spec_payload());
        }
        buf
    }
}

/// What the amplifier tells the application.
#[derive(Clone, Debug)]
pub enum SparkToAppMsg {
    /// The amplifier's name, with the sequence number of the chunk that
    /// carried it.
    AmpName { sequence: u8, name: String },
}

/// A message from the amplifier, with its text as a sequence of characters.
pub enum SparkToAppMsgView {
    AmpName { sequence: u8, name: Seq<char> },
}

impl View for SparkToAppMsg {
    type V = SparkToAppMsgView;

    open spec fn view(&self) -> SparkToAppMsgView {
        match self {
            SparkToAppMsg::AmpName { sequence, name } => SparkToAppMsgView::AmpName {
                sequence: *sequence,
                name: name@,
            },
        }
    }
}

/// XOR of all bytes of `data`.
pub open spec fn xor_fold(data: Seq<u8>) -> u8
    decreases data.len(),
{
    if data.len() == 0 {
        0u8
    } else {
        xor_fold(data.drop_last()) ^ data.last()
    }
}

/// The bytes of a block header with the given direction and size.
pub open spec fn block_header_bytes(direction: Direction, size: u8) -> Seq<u8> {
    be_bytes_u32(BLOCK_MAGIC) + be_bytes_u16(direction.spec_tag()) + seq![size] + Seq::new(
        9,
        |i: int| 0u8,
    )
}

/// The bytes of a chunk header.
pub open spec fn chunk_header_bytes(
    sequence: u8,
    checksum: u8,
    command: u8,
    sub_command: u8,
) -> Seq<u8> {
    seq![CHUNK_START, SYSEX_ID, sequence, checksum, command, sub_command]
}

/// The block that carries the packed bytes `data` as one chunk.
pub open spec fn block_bytes(
    direction: Direction,
    sequence: u8,
    command: u8,
    sub_command: u8,
    data: Seq<u8>,
) -> Seq<u8> {
    block_header_bytes(direction, (MIN_BLOCK_SIZE + data.len()) as u8) + chunk_header_bytes(
        sequence,
        xor_fold(data),
        command,
        sub_command,
    ) + data + seq![CHUNK_TRAILER]
}

/// The chunks that a packed payload is sent in: as many full chunks of
/// `MAX_CHUNK_SIZE` bytes as it has, then the rest. An empty payload still
/// takes one chunk.
pub open spec fn chunks_of(packed: Seq<u8>) -> Seq<Seq<u8>>
    decreases packed.len(),
{
    if packed.len() <= MAX_CHUNK_SIZE {
        seq![packed]
    } else {
        seq![packed.take(MAX_CHUNK_SIZE as int)] + chunks_of(packed.skip(MAX_CHUNK_SIZE as int))
    }
}

/// Number of chunks that a packed payload of `len` bytes is sent in.
pub open spec fn chunk_count(len: nat) -> nat {
    if len == 0 {
        1
    } else {
        ((len + MAX_CHUNK_SIZE - 1) / (MAX_CHUNK_SIZE as int)) as nat
    }
}

/// The sequence number `n` blocks after `first`, wrapping at 256.
pub open spec fn sequence_after(first: u8, n: int) -> u8 {
    ((first + n) % 256) as u8
}

/// The blocks that a message with the given command, sub-command and
/// unpacked payload is sent as, when the first block gets the sequence
/// number `first_sequence`.
pub open spec fn encoded_blocks(
    command: u8,
    sub_command: u8,
    raw: Seq<u8>,
    first_sequence: u8,
) -> Seq<Seq<u8>> {
    let chunks = chunks_of(pack7(raw));
    Seq::new(
        chunks.len(),
        |i: int|
            block_bytes(
                Direction::ToSpark,
                sequence_after(first_sequence, i),
                command,
                sub_command,
                chunks[i],
            ),
    )
}

/// The blocks that `msg` is sent as, when the first block gets the
/// sequence number `first_sequence`.
pub open spec fn message_blocks(msg: AppToSparkMsg, first_sequence: u8) -> Seq<Seq<u8>> {
    encoded_blocks(msg.spec_opcode().0, msg.spec_opcode().1, msg.spec_payload(), first_sequence)
}

/// The blocks as sequences of bytes.
pub open spec fn block_seqs(blocks: Seq<Vec<u8>>) -> Seq<Seq<u8>> {
    Seq::new(blocks.len(), |i: int| blocks[i]@)
}

/// The frame of a block that travels in `direction`: sequence number,
/// command, sub-command and packed payload. There is none when the block
/// is too short, or its magic, direction, start byte or vendor id is not
/// the expected one. The payload ends before the last byte of the block,
/// which is the trailer.
pub open spec fn parse_block(buf: Seq<u8>, direction: Direction) -> Option<(u8, u8, u8, Seq<u8>)> {
    if buf.len() < MIN_BLOCK_SIZE {
        None
    } else if be_value_u32(buf.subrange(0, 4)) != BLOCK_MAGIC {
        None
    } else if be_value_u16(buf.subrange(4, 6)) != direction.spec_tag() {
        None
    } else if buf[16] != CHUNK_START || buf[17] != SYSEX_ID {
        None
    } else {
        Some((buf[18], buf[20], buf[21], buf.subrange(22, buf.len() - 1)))
    }
}

/// The bytes of the name in the unpacked payload of a name reply: the
/// first byte counts them, and they follow it. There are none when the
/// payload is empty or shorter than the count says.
pub open spec fn amp_name_bytes(raw: Seq<u8>) -> Option<Seq<u8>> {
    if raw.len() < 1 || raw.len() < 1 + raw[0] {
        None
    } else {
        Some(raw.subrange(1, 1 + raw[0]))
    }
}

/// The message that a notified block stands for, if any.
pub open spec fn decode_message(buf: Seq<u8>) -> Option<SparkToAppMsgView> {
    match parse_block(buf, Direction::FromSpark) {
        None => None,
        Some((sequence, command, sub_command, payload)) => {
            if command == AMP_NAME_COMMAND && sub_command == AMP_NAME_SUB_COMMAND {
                match amp_name_bytes(unpack7(payload)) {
                    None => None,
                    Some(name) => {
                        if valid_utf8(name) {
                            Some(SparkToAppMsgView::AmpName { sequence, name: decode_utf8(name) })
                        } else {
                            None
                        }
                    },
                }
            } else {
                None
            }
        },
    }
}

/// `String::from_utf8`, with its error dropped. Assumed: the call
/// succeeds exactly on well-formed UTF-8, and the string then holds the
/// characters that the bytes encode.
#[verifier::external_body]
fn string_from_utf8(bytes: Vec<u8>) -> (text: Option<String>)
    ensures
        text is Some <==> valid_utf8(bytes@),
        text matches Some(s) ==> s@ == decode_utf8(bytes@),
{
    String::from_utf8(bytes).ok()
}

/// Appends `bytes` to `out`.
fn append_bytes(out: &mut Vec<u8>, bytes: &[u8])
    ensures
        final(out)@ == old(out)@ + bytes@,
{
    let mut n: usize = 0;
    while n < bytes.len()
        invariant
            n <= bytes.len(),
            out@ == old(out)@ + bytes@.take(n as int),
        decreases bytes.len() - n,
    {
        out.push(bytes[n]);
        n += 1;
        proof {
            assert(out@ =~= old(out)@ + bytes@.take(n as int));
        }
    }
    proof {
        assert(bytes@.take(n as int) =~= bytes@);
    }
}

/// XOR of all bytes of `data`.
fn checksum_of(data: &[u8]) -> (sum: u8)
    ensures
        sum == xor_fold(data@),
{
    let mut sum: u8 = 0;
    let mut n: usize = 0;
    while n < data.len()
        invariant
            n <= data.len(),
            sum == xor_fold(data@.take(n as int)),
        decreases data.len() - n,
    {
        proof {
            assert(data@.take(n + 1).drop_last() =~= data@.take(n as int));
        }
        sum = sum ^ data[n];
        n += 1;
    }
    proof {
        assert(data@.take(n as int) =~= data@);
    }
    sum
}

/// Builds the blocks that carry application messages to the amplifier.
pub struct SparkMsgEncoder {
    next_sequence: u8,
}

/// Parses the blocks that the amplifier notifies.
pub struct SparkMsgDecoder;

impl SparkMsgEncoder {
    /// An encoder whose first block gets the sequence number 0.
    pub fn new() -> (encoder: Self)
        ensures
            encoder.sequence() == 0,
    {
        SparkMsgEncoder { next_sequence: 0 }
    }

    /// The sequence number that the next block gets.
    pub closed spec fn sequence(&self) -> u8 {
        self.next_sequence
    }

    /// The block that carries `chunk_data` as one chunk. It takes the
    /// encoder's sequence number, which moves on by one.
    fn build_block(&mut self, command: u8, sub_command: u8, chunk_data: &[u8]) -> (block: Vec<u8>)
        requires
            chunk_data@.len() <= MAX_CHUNK_SIZE,
        ensures
            block@ == block_bytes(
                Direction::ToSpark,
                old(self).sequence(),
                command,
                sub_command,
                chunk_data@,
            ),
            final(self).sequence() == sequence_after(old(self).sequence(), 1),
    {
        let seq: u8 = self.next_sequence;
        self.next_sequence = seq.wrapping_add(1);
        let checksum: u8 = checksum_of(chunk_data);
        let chunk_hdr = ChunkHeader {
            start: CHUNK_START,
            sysex_id: SYSEX_ID,
            sequence: seq,
            checksum,
            command,
            sub_command,
        };
        let mut chunk: Vec<u8> = Vec::new();
        let chunk_hdr_bytes: [u8; 6] = chunk_hdr.to_bytes();
        append_bytes(&mut chunk, chunk_hdr_bytes.as_slice());
        append_bytes(&mut chunk, chunk_data);
        chunk.push(CHUNK_TRAILER);
        let block_hdr = BlockHeader {
            magic: BLOCK_MAGIC,
            direction: Direction::ToSpark.tag(),
            size: (HEADER_SIZE + chunk.len()) as u8,
            _reserved: [0;9],
        };
        let mut block: Vec<u8> = Vec::with_capacity(HEADER_SIZE + chunk.len());
        let block_hdr_bytes: [u8; 16] = block_hdr.to_bytes();
        append_bytes(&mut block, block_hdr_bytes.as_slice());
        append_bytes(&mut block, chunk.as_slice());
        proof {
            assert(block_hdr._reserved@ =~= Seq::new(9, |i: int| 0u8));
            assert(block@ =~= block_bytes(
                Direction::ToSpark,
                seq,
                command,
                sub_command,
                chunk_data@,
            ));
        }
        block
    }

    /// The blocks that carry a message with the given command, sub-command
    /// and unpacked payload, in the order in which they are to be written.
    /// The packed payload is cut into chunks of at most `MAX_CHUNK_SIZE`
    /// bytes; every block takes the next sequence number.
    pub fn encode_command(&mut self, command: u8, sub_command: u8, raw: &[u8]) -> (blocks: Vec<
        Vec<u8>,
    >)
        ensures
            block_seqs(blocks@) == encoded_blocks(
                command,
                sub_command,
                raw@,
                old(self).sequence(),
            ),
            final(self).sequence() == sequence_after(old(self).sequence(), blocks@.len() as int),
    {
        let packed: Vec<u8> = Self::encode_7bit(raw);
        let mut blocks: Vec<Vec<u8>> = Vec::new();
        let ghost first = self.next_sequence;
        let ghost mut done: Seq<Seq<u8>> = Seq::empty();
        if packed.len() == 0 {
            let block = self.build_block(command, sub_command, packed.as_slice());
            blocks.push(block);
        } else {
            let mut offset: usize = 0;
            proof {
                assert(packed@.skip(0) =~= packed@);
                assert(done + chunks_of(packed@) =~= chunks_of(packed@));
            }
            while offset < packed.len()
                invariant
                    offset <= packed@.len(),
                    blocks@.len() == done.len(),
                    chunks_of(packed@) == done + (if offset < packed@.len() {
                        chunks_of(packed@.skip(offset as int))
                    } else {
                        Seq::<Seq<u8>>::empty()
                    }),
                    self.sequence() == sequence_after(first, done.len() as int),
                    forall|i: int|
                        0 <= i < blocks@.len() ==> (#[trigger] blocks@[i])@ == block_bytes(
                            Direction::ToSpark,
                            sequence_after(first, i),
                            command,
                            sub_command,
                            done[i],
                        ),
                decreases packed@.len() - offset,
            {
                let ghost rest = packed@.skip(offset as int);
                let remaining: usize = packed.len() - offset;
                let end: usize = if remaining > MAX_CHUNK_SIZE {
                    offset + MAX_CHUNK_SIZE
                } else {
                    packed.len()
                };
                let chunk: &[u8] = vstd::slice::slice_subrange(packed.as_slice(), offset, end);
                proof {
                    if remaining > MAX_CHUNK_SIZE {
                        assert(chunk@ =~= rest.take(MAX_CHUNK_SIZE as int));
                        assert(rest.skip(MAX_CHUNK_SIZE as int) =~= packed@.skip(end as int));
                        assert(done + chunks_of(rest) =~= done.push(chunk@) + chunks_of(
                            packed@.skip(end as int),
                        ));
                    } else {
                        assert(chunk@ =~= rest);
                        assert(done + chunks_of(rest) =~= done.push(chunk@) + Seq::<
                            Seq<u8>,
                        >::empty());
                    }
                }
                let block = self.build_block(command, sub_command, chunk);
                blocks.push(block);
                proof {
                    done = done.push(chunk@);
                }
                offset = end;
            }
        }
        proof {
            assert(block_seqs(blocks@) =~= encoded_blocks(command, sub_command, raw@, first));
        }
        blocks
    }

    /// The blocks that carry `msg`, in the order in which they are to be
    /// written. Sequence numbers run on from one message to the next.
    pub fn encode(&mut self, msg: AppToSparkMsg) -> (blocks: Vec<Vec<u8>>)
        ensures
            block_seqs(blocks@) == message_blocks(msg, old(self).sequence()),
            final(self).sequence() == sequence_after(old(self).sequence(), blocks@.len() as int),
    {
        let (command, sub_command) = msg.opcode();
        let raw: Vec<u8> = msg.encode_payload();
        self.encode_command(command, sub_command, raw.as_slice())
    }

    /// Packs `input` into bytes whose high bits are clear.
    pub fn encode_7bit(input: &[u8]) -> (out: Vec<u8>)
        ensures
            out@ == pack7(input@),
    {
        let mut out: Vec<u8> = Vec::new();
        let mut i: usize = 0;
        proof {
            assert(input@.skip(0) =~= input@);
        }
        while i < input.len()
            invariant
                i <= input.len(),
                pack7(input@) == out@ + pack7(input@.skip(i as int)),
            decreases input.len() - i,
        {
            let remaining: usize = input.len() - i;
            let chunk_len: usize = if remaining < GROUP_SIZE {
                remaining
            } else {
                GROUP_SIZE
            };
            let ghost rest = input@.skip(i as int);
            let ghost group = rest.take(chunk_len as int);
            let ghost before = out@;
            let mut mask: u8 = 0;
            out.push(0);
            let mask_index: usize = out.len() - 1;
            let mut bit: usize = 0;
            while bit < chunk_len
                invariant
                    bit <= chunk_len <= 7,
                    i + chunk_len <= input.len(),
                    group == input@.skip(i as int).take(chunk_len as int),
                    mask == mask_upto(group, bit as int),
                    mask_index == before.len(),
                    out@ == before.push(0u8) + group.take(bit as int).map_values(
                        |b: u8| low7(b),
                    ),
                decreases chunk_len - bit,
            {
                let b: u8 = input[i + bit];
                assert(b == group[bit as int]);
                if b & 0x80 != 0 {
                    mask = mask | (1u8 << (bit as u8));
                }
                out.push(b & 0x7F);
                proof {
                    assert(mask | 0u8 == mask) by (bit_vector);
                    assert(group.take(bit + 1).map_values(|b: u8| low7(b)) =~= group.take(
                        bit as int,
                    ).map_values(|b: u8| low7(b)).push(low7(b)));
                }
                bit += 1;
            }
            out.set(mask_index, mask);
            proof {
                assert(group.take(chunk_len as int) =~= group);
                assert(out@ =~= before + (seq![group_mask(group)] + group.map_values(
                    |b: u8| low7(b),
                )));
                assert(rest.skip(chunk_len as int) =~= input@.skip(i + chunk_len));
            }
            i += chunk_len;
        }
        proof {
            assert(input@.skip(i as int) =~= Seq::<u8>::empty());
        }
        out
    }
}

impl SparkMsgDecoder {
    /// The frame of a block that travels in `direction`: sequence number,
    /// command, sub-command and packed payload.
    pub fn decode_block<'a>(buf: &'a [u8], direction: Direction) -> (frame: Option<
        (u8, u8, u8, &'a [u8]),
    >)
        ensures
            match frame {
                Some((sequence, command, sub_command, payload)) => parse_block(buf@, direction)
                    == Some((sequence, command, sub_command, payload@)),
                None => parse_block(buf@, direction) is None,
            },
    {
        if buf.len() < MIN_BLOCK_SIZE {
            return None;
        }
        let hdr = match BlockHeader::read_from_prefix(buf) {
            Some(hdr) => hdr,
            None => { return None; },
        };
        if hdr.magic != BLOCK_MAGIC {
            return None;
        }
        if hdr.direction != direction.tag() {
            return None;
        }
        let body: &[u8] = vstd::slice::slice_subrange(buf, HEADER_SIZE, buf.len());
        let chunk_hdr = match ChunkHeader::read_from_prefix(body) {
            Some(chunk_hdr) => chunk_hdr,
            None => { return None; },
        };
        if chunk_hdr.start != CHUNK_START || chunk_hdr.sysex_id != SYSEX_ID {
            return None;
        }
        let payload: &[u8] = vstd::slice::slice_subrange(
            buf,
            HEADER_SIZE + CHUNK_HDR_SIZE,
            buf.len() - 1,
        );
        Some((chunk_hdr.sequence, chunk_hdr.command, chunk_hdr.sub_command, payload))
    }

    /// The message that a notified block stands for. There is none when
    /// the block is malformed, when it does not come from the amplifier,
    /// when its command is not a known one, or when the name it carries is
    /// cut short or is not UTF-8.
    pub fn decode(&self, block: &[u8]) -> (msg: Option<SparkToAppMsg>)
        ensures
            match msg {
                Some(m) => decode_message(block@) == Some(m@),
                None => decode_message(block@) is None,
            },
    {
        let (sequence, command, sub_command, payload) = match Self::decode_block(
            block,
            Direction::FromSpark,
        ) {
            Some(frame) => frame,
            None => { return None; },
        };
        let raw: Vec<u8> = Self::decode_7bit(payload);
        match (command, sub_command) {
            (0x03, 0x11) => {
                if raw.len() < 1 {
                    return None;
                }
                let name_len: usize = raw[0] as usize;
                if raw.len() < 1 + name_len {
                    return None;
                }
                let name_bytes: Vec<u8> = vstd::slice::slice_to_vec(
                    vstd::slice::slice_subrange(raw.as_slice(), 1, 1 + name_len),
                );
                match string_from_utf8(name_bytes) {
                    Some(name) => Some(SparkToAppMsg::AmpName { sequence, name }),
                    None => None,
                }
            },
            _ => None,
        }
    }

    /// Restores the payload that `input` packs.
    pub fn decode_7bit(input: &[u8]) -> (out: Vec<u8>)
        ensures
            out@ == unpack7(input@),
    {
        let mut out: Vec<u8> = Vec::new();
        let mut i: usize = 0;
        proof {
            assert(input@.skip(0) =~= input@);
        }
        while i < input.len()
            invariant
                i <= input.len(),
                unpack7(input@) == out@ + unpack7(input@.skip(i as int)),
            decreases input.len() - i,
        {
            let mask: u8 = input[i];
            let ghost rest = input@.skip(i as int);
            let ghost n = first_group_len((rest.len() - 1) as nat);
            let ghost before = out@;
            let ghost start = i;
            i += 1;
            let mut bit: u8 = 0;
            while bit < 7 && i < input.len()
                invariant
                    bit <= 7,
                    start + 1 + bit == i,
                    i <= input.len(),
                    bit <= n,
                    n == first_group_len((input.len() - start - 1) as nat),
                    rest == input@.skip(start as int),
                    mask == rest[0],
                    out@ == before + Seq::new(
                        bit as nat,
                        |k: int| restore(mask, k as u8, rest[1 + k]),
                    ),
                decreases 7 - bit,
            {
                let b: u8 = input[i];
                let full: u8 = if (mask >> bit) & 1 == 1 {
                    b | 0x80
                } else {
                    b
                };
                out.push(full);
                proof {
                    assert(b == rest[1 + bit]);
                    assert(Seq::new((bit + 1) as nat, |k: int| restore(mask, k as u8, rest[1 + k]))
                        =~= Seq::new(
                        bit as nat,
                        |k: int| restore(mask, k as u8, rest[1 + k]),
                    ).push(full));
                }
                i += 1;
                bit += 1;
            }
            proof {
                assert(bit == n);
                assert(rest.skip(1 + n) =~= input@.skip(i as int));
            }
        }
        proof {
            assert(input@.skip(i as int) =~= Seq::<u8>::empty());
        }
        out
    }
}

/// A payload is cut into one chunk for every started run of
/// `MAX_CHUNK_SIZE` packed bytes, and no chunk is longer than that.
pub proof fn lemma_chunk_count(packed: Seq<u8>)
    ensures
        chunks_of(packed).len() == chunk_count(packed.len()),
        forall|i: int|
            0 <= i < chunks_of(packed).len() ==> (#[trigger] chunks_of(packed)[i]).len()
                <= MAX_CHUNK_SIZE,
    decreases packed.len(),
{
    let len = packed.len() as int;
    let max = MAX_CHUNK_SIZE as int;
    assert((len + max - 1) / max == (len + 149) / 150) by (nonlinear_arith)
        requires
            max == 150,
    ;
    if packed.len() > MAX_CHUNK_SIZE {
        let rest = packed.skip(MAX_CHUNK_SIZE as int);
        lemma_chunk_count(rest);
        assert forall|i: int| 0 <= i < chunks_of(packed).len() implies (#[trigger] chunks_of(
            packed,
        )[i]).len() <= MAX_CHUNK_SIZE by {
            if i > 0 {
                assert(chunks_of(packed)[i] == chunks_of(rest)[i - 1]);
            }
        }
    }
}

/// The chunks of a payload, put end to end, are the payload.
pub proof fn lemma_chunks_join(packed: Seq<u8>)
    ensures
        chunks_of(packed).flatten() == packed,
    decreases packed.len(),
{
    let chunks = chunks_of(packed);
    if packed.len() > MAX_CHUNK_SIZE {
        let rest = packed.skip(MAX_CHUNK_SIZE as int);
        lemma_chunks_join(rest);
        assert(chunks.drop_first() =~= chunks_of(rest));
        assert(packed.take(MAX_CHUNK_SIZE as int) + rest =~= packed);
    } else {
        assert(chunks.drop_first() =~= Seq::<Seq<u8>>::empty());
        assert(chunks.drop_first().flatten() =~= Seq::<u8>::empty());
        assert(packed + Seq::<u8>::empty() =~= packed);
    }
}

/// Unpacking the chunks of a message, put end to end, gives the payload
/// of the message.
pub proof fn lemma_chunks_carry_payload(raw: Seq<u8>)
    ensures
        unpack7(chunks_of(pack7(raw)).flatten()) == raw,
{
    lemma_chunks_join(pack7(raw));
    crate::packing::lemma_unpack7_pack7(raw);
}

/// A block is as long as its headers, its chunk data and its trailer, it
/// holds the checksum of its chunk data, and what was put into it is read
/// out of it again: parsed in the direction
/// in which it was built it gives its sequence number, command,
/// sub-command and chunk data; in the other direction it gives nothing.
pub proof fn lemma_block_parses(
    direction: Direction,
    sequence: u8,
    command: u8,
    sub_command: u8,
    data: Seq<u8>,
)
    ensures
        block_bytes(direction, sequence, command, sub_command, data).len() == MIN_BLOCK_SIZE
            + data.len(),
        block_bytes(direction, sequence, command, sub_command, data)[19] == xor_fold(data),
        parse_block(block_bytes(direction, sequence, command, sub_command, data), direction)
            == Some((sequence, command, sub_command, data)),
        forall|other: Direction|
            other != direction ==> parse_block(
                block_bytes(direction, sequence, command, sub_command, data),
                other,
            ) is None,
{
    let block = block_bytes(direction, sequence, command, sub_command, data);
    lemma_be_u32_roundtrip(BLOCK_MAGIC);
    lemma_be_u16_roundtrip(direction.spec_tag());
    assert(block.subrange(0, 4) =~= be_bytes_u32(BLOCK_MAGIC));
    assert(block.subrange(4, 6) =~= be_bytes_u16(direction.spec_tag()));
    assert(block.subrange(22, block.len() - 1) =~= data);
}

/// The blocks of one message, read as blocks to the amplifier, give the
/// command and sub-command of the message and the chunks of its packed
/// payload, under sequence numbers that go up by one from block to block.
pub proof fn lemma_encoded_blocks_parse(
    command: u8,
    sub_command: u8,
    raw: Seq<u8>,
    first_sequence: u8,
    i: int,
)
    requires
        0 <= i < encoded_blocks(command, sub_command, raw, first_sequence).len(),
    ensures
        encoded_blocks(command, sub_command, raw, first_sequence).len() == chunks_of(
            pack7(raw),
        ).len(),
        parse_block(
            encoded_blocks(command, sub_command, raw, first_sequence)[i],
            Direction::ToSpark,
        ) == Some(
            (sequence_after(first_sequence, i), command, sub_command, chunks_of(pack7(raw))[i]),
        ),
{
    lemma_block_parses(
        Direction::ToSpark,
        sequence_after(first_sequence, i),
        command,
        sub_command,
        chunks_of(pack7(raw))[i],
    );
}

/// Every block of every message, read as a block to the amplifier, gives
/// back the command and sub-command of the message and the sequence
/// number that the block was built with: that of the first block, plus
/// the place of the block among the blocks of the message, wrapping at
/// 256. Unpacking the chunk data of all blocks, put end to end, gives the
/// payload of the message.
pub proof fn lemma_message_blocks_parse(msg: AppToSparkMsg, first_sequence: u8, i: int)
    requires
        0 <= i < message_blocks(msg, first_sequence).len(),
    ensures
        parse_block(message_blocks(msg, first_sequence)[i], Direction::ToSpark) == Some(
            (
                sequence_after(first_sequence, i),
                msg.spec_opcode().0,
                msg.spec_opcode().1,
                chunks_of(pack7(msg.spec_payload()))[i],
            ),
        ),
        unpack7(chunks_of(pack7(msg.spec_payload())).flatten()) == msg.spec_payload(),
{
    lemma_encoded_blocks_parse(
        msg.spec_opcode().0,
        msg.spec_opcode().1,
        msg.spec_payload(),
        first_sequence,
        i,
    );
    lemma_chunks_carry_payload(msg.spec_payload());
}

/// A message is sent in one block for every started run of
/// `MAX_CHUNK_SIZE` packed bytes. No block is longer than
/// `MAX_BLOCK_SIZE`, and each holds its own length in its size field.
pub proof fn lemma_encoded_blocks_fit(
    command: u8,
    sub_command: u8,
    raw: Seq<u8>,
    first_sequence: u8,
    i: int,
)
    requires
        0 <= i < encoded_blocks(command, sub_command, raw, first_sequence).len(),
    ensures
        encoded_blocks(command, sub_command, raw, first_sequence).len() == chunk_count(
            packed_len(raw.len()),
        ),
        encoded_blocks(command, sub_command, raw, first_sequence)[i].len() <= MAX_BLOCK_SIZE,
        encoded_blocks(command, sub_command, raw, first_sequence)[i][6] == encoded_blocks(
            command,
            sub_command,
            raw,
            first_sequence,
        )[i].len(),
{
    lemma_pack7_len(raw);
    lemma_chunk_count(pack7(raw));
    let data = chunks_of(pack7(raw))[i];
    lemma_block_parses(
        Direction::ToSpark,
        sequence_after(first_sequence, i),
        command,
        sub_command,
        data,
    );
}

/// Sequence numbers go up by one from block to block, from 255 on to 0,
/// and run on from one message to the next.
pub proof fn lemma_sequence_steps(first: u8, n: int, m: int)
    requires
        0 <= n,
        0 <= m,
    ensures
        sequence_after(first, 0) == first,
        sequence_after(first, n + 1) == (if sequence_after(first, n) == 255 {
            0u8
        } else {
            (sequence_after(first, n) + 1) as u8
        }),
        sequence_after(sequence_after(first, n), m) == sequence_after(first, n + m),
{
}

/// A block from the amplifier with any command or sub-command other than
/// that of the name reply stands for no message.
pub proof fn lemma_unknown_command_is_dropped(
    sequence: u8,
    command: u8,
    sub_command: u8,
    data: Seq<u8>,
)
    requires
        command != AMP_NAME_COMMAND || sub_command != AMP_NAME_SUB_COMMAND,
    ensures
        decode_message(block_bytes(Direction::FromSpark, sequence, command, sub_command, data))
            is None,
{
    lemma_block_parses(Direction::FromSpark, sequence, command, sub_command, data);
}

/// A block that the encoder built stands for no message from the
/// amplifier: it travels the other way.
pub proof fn lemma_own_blocks_are_not_messages(
    command: u8,
    sub_command: u8,
    raw: Seq<u8>,
    first_sequence: u8,
    i: int,
)
    requires
        0 <= i < encoded_blocks(command, sub_command, raw, first_sequence).len(),
    ensures
        decode_message(encoded_blocks(command, sub_command, raw, first_sequence)[i]) is None,
{
    lemma_block_parses(
        Direction::ToSpark,
        sequence_after(first_sequence, i),
        command,
        sub_command,
        chunks_of(pack7(raw))[i],
    );
}

/// A name reply from the amplifier, whose payload is the length of the
/// name followed by the name in UTF-8, decodes to that name under the
/// sequence number of the reply.
pub proof fn lemma_amp_name_reply_decodes(sequence: u8, name: Seq<u8>)
    requires
        name.len() <= 255,
        valid_utf8(name),
    ensures
        decode_message(
            block_bytes(
                Direction::FromSpark,
                sequence,
                AMP_NAME_COMMAND,
                AMP_NAME_SUB_COMMAND,
                pack7(seq![name.len() as u8] + name),
            ),
        ) == Some(SparkToAppMsgView::AmpName { sequence, name: decode_utf8(name) }),
{
    let raw = seq![name.len() as u8] + name;
    lemma_block_parses(
        Direction::FromSpark,
        sequence,
        AMP_NAME_COMMAND,
        AMP_NAME_SUB_COMMAND,
        pack7(raw),
    );
    crate::packing::lemma_unpack7_pack7(raw);
    assert(raw.subrange(1, 1 + raw[0]) =~= name);
}

} // verus!
