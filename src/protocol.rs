//! The packet framer.
//!
//! A frame wraps the payload of a command or a response:
//!
//! | 0xFF  | tag | format | length      | correlation id | payload | 0xAA |
//! |-------|-----|--------|-------------|----------------|---------|------|
//! | 1 B   | 1 B | 1 B    | 1 B or 2 B  | 0 to 15 B      | n B     | 1 B  |
//!
//! The format byte holds three reserved bits (zero), the extended-length bit
//! and the length of the correlation id. The length field counts the whole
//! frame, both delimiters included; it takes two bytes, big-endian, exactly
//! when the extended-length bit is set.

use vstd::prelude::*;

use crate::commands::{Command, CommandView};
use crate::responses::{Response, ResponseView};
use crate::traits::{opt_bytes, Deserializable, Serializable};
use crate::wire::{be16, get_bytes, get_u16, put_bytes, put_u16, u16_at, CodecError};

verus! {

/// Min packet size, based on the smallest valid packet.
pub const PACKET_MIN_SIZE: usize = 5;

/// Max packet size accepted by the glasses.
pub const PACKET_MAX_SIZE: usize = 533;

/// Max payload size accepted by the glasses.
pub const PACKET_DATA_MAX_SIZE: usize = 512;

/// Delimiter at the start of a packet.
pub const PACKET_START: u8 = 0xFF;

/// Delimiter at the end of a packet.
pub const PACKET_END: u8 = 0xAA;

/// Errors returned when dealing with the protocol.
#[derive(Clone, Copy, Debug, PartialEq, Eq, Structural)]
pub enum ProtocolError {
    /// The buffer is too small to contain a valid packet.
    PacketLengthTooSmall,
    /// The packet is incorrectly delimited.
    FrameError,
    /// The packet length does not correspond to the buffer length.
    InvalidPacketLength,
    /// The payload does not decode.
    ParseError(CodecError),
    /// The underlying link failed.
    EmbeddedIOError,
    /// The correlation id does not correspond to the request.
    IncorrectQueryId,
    /// Not an error: there is nothing to read.
    Empty,
}

/// Flow control: what the glasses report on their control channel, so that
/// the client does not overload their receive buffer.
#[derive(Clone, Copy, Debug, PartialEq, Eq, Structural)]
pub enum FlowErrorCtrl {
    /// The client can send data.
    ClientCanSend,
    /// The buffer is 75% full: the client should wait for `ClientCanSend`.
    ClientShouldWait,
    /// The command was incomplete or corrupt, and was ignored.
    MessageError,
    /// The receive queue overflowed.
    MessageQueueOverflow,
    ReservedError,
    /// A configuration was modified without a `cfgWrite` command first.
    MissingCfgWrite,
}

impl FlowErrorCtrl {
    /// The status that a control byte stands for, if any.
    pub open spec fn spec_from_code(b: u8) -> Option<FlowErrorCtrl> {
        if b == 1 {
            Some(FlowErrorCtrl::ClientCanSend)
        } else if b == 2 {
            Some(FlowErrorCtrl::ClientShouldWait)
        } else if b == 3 {
            Some(FlowErrorCtrl::MessageError)
        } else if b == 4 {
            Some(FlowErrorCtrl::MessageQueueOverflow)
        } else if b == 5 {
            Some(FlowErrorCtrl::ReservedError)
        } else if b == 6 {
            Some(FlowErrorCtrl::MissingCfgWrite)
        } else {
            None
        }
    }

    pub fn from_code(b: u8) -> (r: Option<FlowErrorCtrl>)
        ensures
            r == FlowErrorCtrl::spec_from_code(b),
    {
        match b {
            1 => Some(FlowErrorCtrl::ClientCanSend),
            2 => Some(FlowErrorCtrl::ClientShouldWait),
            3 => Some(FlowErrorCtrl::MessageError),
            4 => Some(FlowErrorCtrl::MessageQueueOverflow),
            5 => Some(FlowErrorCtrl::ReservedError),
            6 => Some(FlowErrorCtrl::MissingCfgWrite),
            _ => None,
        }
    }
}

/// The format byte of a packet.
#[derive(Clone, Copy, Debug, PartialEq, Eq, Structural)]
pub struct CmdFormat {
    /// The three reserved bits; written as zero, ignored when read.
    pub reserved: u8,
    /// The length field takes two bytes when this is 1.
    pub long: u8,
    /// Length of the correlation id field.
    pub query_id_size: usize,
}

impl Default for CmdFormat {
    fn default() -> (r: CmdFormat)
        ensures
            r == CmdFormat::spec_new(0, 0),
    {
        CmdFormat { reserved: 0, long: 0, query_id_size: 0 }
    }
}

impl CmdFormat {
    /// A format with zero reserved bits.
    pub open spec fn spec_new(long: u8, query_id_size: usize) -> CmdFormat {
        CmdFormat { reserved: 0, long, query_id_size }
    }

    /// The format that a format byte stands for.
    pub open spec fn spec_from_byte(b: u8) -> CmdFormat {
        CmdFormat { reserved: b / 32, long: (b / 16) % 2, query_id_size: (b % 16) as usize }
    }

    /// The format byte: the reserved bits are written as zero.
    pub open spec fn spec_byte(self) -> u8 {
        ((self.long % 2) * 16 + self.query_id_size % 16) as u8
    }

    pub fn from_byte(b: u8) -> (r: CmdFormat)
        ensures
            r == CmdFormat::spec_from_byte(b),
    {
        CmdFormat { reserved: b / 32, long: (b / 16) % 2, query_id_size: (b % 16) as usize }
    }

    pub fn to_byte(&self) -> (r: u8)
        ensures
            r == self.spec_byte(),
    {
        ((self.long % 2) * 16 + (self.query_id_size % 16) as u8) as u8
    }
}

/// Total length of a frame with a correlation id of `q` bytes and a payload of
/// `p` bytes: the length field takes a second byte when one does not suffice.
pub open spec fn frame_len(q: nat, p: nat) -> nat {
    if 5 + q + p > 255 {
        6 + q + p
    } else {
        5 + q + p
    }
}

/// The frame of a payload with its tag and correlation id.
pub open spec fn frame_bytes(tag: u8, query_id: Seq<u8>, payload: Seq<u8>) -> Seq<u8> {
    let long = 5 + query_id.len() + payload.len() > 255;
    let total = frame_len(query_id.len(), payload.len());
    let format = CmdFormat::spec_new(if long { 1 } else { 0 }, query_id.len() as usize);
    seq![PACKET_START, tag, format.spec_byte()] + (if long {
        be16(total as u16)
    } else {
        seq![total as u8]
    }) + query_id + payload + seq![PACKET_END]
}

/// What a frame holds once its envelope is checked.
pub struct FrameView {
    pub cmd_id: u8,
    pub format: CmdFormat,
    pub length: u16,
    pub query_id: Option<Seq<u8>>,
    pub data: Option<Seq<u8>>,
}

/// The declared total length of a frame that holds at least five bytes.
pub open spec fn declared_len(b: Seq<u8>) -> int {
    if CmdFormat::spec_from_byte(b[2]).long == 1 {
        u16_at(b, 3) as int
    } else {
        b[3] as int
    }
}

/// Checks the envelope of the frame `b` and cuts it into its fields.
pub open spec fn parse_frame(b: Seq<u8>) -> Result<FrameView, ProtocolError> {
    if b.len() < PACKET_MIN_SIZE {
        Err(ProtocolError::PacketLengthTooSmall)
    } else if b[0] != PACKET_START || b[b.len() - 1] != PACKET_END {
        Err(ProtocolError::FrameError)
    } else {
        let format = CmdFormat::spec_from_byte(b[2]);
        let start = if format.long == 1 { 5int } else { 4int };
        let q = format.query_id_size as int;
        if declared_len(b) != b.len() || start + q + 1 > b.len() {
            Err(ProtocolError::InvalidPacketLength)
        } else {
            let end = b.len() - 1;
            Ok(
                FrameView {
                    cmd_id: b[1],
                    format,
                    length: declared_len(b) as u16,
                    query_id: if q == 0 {
                        None
                    } else {
                        Some(b.subrange(start, start + q))
                    },
                    data: if start + q == end {
                        None
                    } else {
                        Some(b.subrange(start + q, end))
                    },
                },
            )
        }
    }
}

/// A frame's payload; a frame without one has an empty payload.
pub open spec fn frame_payload(f: FrameView) -> Seq<u8> {
    match f.data {
        Some(d) => d,
        None => Seq::empty(),
    }
}

/// The correlation id that a packet holds.
pub open spec fn qid_view(q: Option<Vec<u8>>) -> Option<Seq<u8>> {
    match q {
        Some(v) => Some(v@),
        None => None,
    }
}

/// A packet.
pub struct Packet<T> {
    pub cmd_id: u8,
    pub format: CmdFormat,
    pub length: u16,
    pub query_id: Option<Vec<u8>>,
    /// The application payload: [Command], [Response] or raw bytes.
    pub data: T,
}

/// Packet holding raw bytes, to be read later as a [Command] or a [Response].
pub type RawPacket<'a> = Packet<Option<&'a [u8]>>;

/// Packet holding a [Command].
pub type CommandPacket = Packet<Command>;

/// Packet holding a [Response].
pub type ResponsePacket = Packet<Response>;

/// The fields of a raw packet.
pub open spec fn raw_view(p: RawPacket) -> FrameView {
    FrameView {
        cmd_id: p.cmd_id,
        format: p.format,
        length: p.length,
        query_id: qid_view(p.query_id),
        data: match p.data {
            Some(d) => Some(d@),
            None => None,
        },
    }
}

/// The envelope of a packet holding a decoded value agrees with a frame.
pub open spec fn same_envelope<T>(p: Packet<T>, f: FrameView) -> bool {
    &&& p.cmd_id == f.cmd_id
    &&& p.format == f.format
    &&& p.length == f.length
    &&& qid_view(p.query_id) == f.query_id
}

/// The frame `b` read as a command: its envelope and the decoded command.
pub open spec fn parse_command_frame(b: Seq<u8>) -> Result<
    (FrameView, CommandView),
    ProtocolError,
> {
    match parse_frame(b) {
        Err(e) => Err(e),
        Ok(f) => match CommandView::parse(f.cmd_id, frame_payload(f)) {
            Err(e) => Err(ProtocolError::ParseError(e)),
            Ok(c) => Ok((f, c)),
        },
    }
}

/// The frame `b` read as a response: its envelope and the decoded response.
pub open spec fn parse_response_frame(b: Seq<u8>) -> Result<
    (FrameView, ResponseView),
    ProtocolError,
> {
    match parse_frame(b) {
        Err(e) => Err(e),
        Ok(f) => match ResponseView::parse(f.cmd_id, frame_payload(f)) {
            Err(e) => Err(ProtocolError::ParseError(e)),
            Ok(c) => Ok((f, c)),
        },
    }
}

/// The frame that a packet's fields and payload make: the length field takes
/// two bytes when the format says so, one byte otherwise.
pub open spec fn packet_bytes(
    cmd_id: u8,
    format: CmdFormat,
    length: u16,
    query_id: Option<Seq<u8>>,
    payload: Seq<u8>,
) -> Seq<u8> {
    seq![PACKET_START, cmd_id, format.spec_byte()] + (if format.long % 2 == 1 {
        be16(length)
    } else {
        seq![(length % 256) as u8]
    }) + match query_id {
        Some(q) => q,
        None => Seq::empty(),
    } + payload + seq![PACKET_END]
}

/// Writes the frame of a packet.
fn write_frame(
    cmd_id: u8,
    format: CmdFormat,
    length: u16,
    query_id: &Option<Vec<u8>>,
    payload: &[u8],
) -> (r: Vec<u8>)
    ensures
        r@ == packet_bytes(cmd_id, format, length, qid_view(*query_id), payload@),
{
    let mut res: Vec<u8> = Vec::new();
    res.push(PACKET_START);
    res.push(cmd_id);
    res.push(format.to_byte());
    if format.long % 2 == 1 {
        put_u16(&mut res, length);
    } else {
        res.push((length % 256) as u8);
    }
    match query_id {
        Some(q) => put_bytes(&mut res, q.as_slice()),
        None => {},
    }
    put_bytes(&mut res, payload);
    res.push(PACKET_END);
    assert(res@ =~= packet_bytes(cmd_id, format, length, qid_view(*query_id), payload@));
    res
}

/// The format and total length of a frame with a correlation id of `q` bytes
/// and a payload of `p` bytes.
fn frame_header(q: usize, p: usize) -> (r: (CmdFormat, u16))
    requires
        q <= 15,
        frame_len(q as nat, p as nat) <= 0xFFFF,
    ensures
        r.0 == CmdFormat::spec_new(if 5 + q + p > 255 { 1 } else { 0 }, q),
        r.1 == frame_len(q as nat, p as nat),
{
    let short = p + q + 5;
    if short > 255 {
        (CmdFormat { reserved: 0, long: 1, query_id_size: q }, (short + 1) as u16)
    } else {
        (CmdFormat { reserved: 0, long: 0, query_id_size: q }, short as u16)
    }
}

/// Frames a payload with its tag and a correlation id (none when empty).
pub fn encode_frame(tag: u8, query_id: &[u8], payload: &[u8]) -> (r: Vec<u8>)
    requires
        query_id@.len() <= 15,
        frame_len(query_id@.len(), payload@.len()) <= 0xFFFF,
    ensures
        r@ == frame_bytes(tag, query_id@, payload@),
{
    let (format, length) = frame_header(query_id.len(), payload.len());
    let q = Some(vstd::slice::slice_to_vec(query_id));
    let r = write_frame(tag, format, length, &q, payload);
    assert(r@ =~= frame_bytes(tag, query_id@, payload@));
    r
}

/// A frame made by the framer is read back: its tag, format, length,
/// correlation id and payload.
pub proof fn lemma_frame_round_trip(tag: u8, query_id: Seq<u8>, payload: Seq<u8>)
    requires
        query_id.len() <= 15,
        frame_len(query_id.len(), payload.len()) <= 0xFFFF,
    ensures
        parse_frame(frame_bytes(tag, query_id, payload)) == Ok::<FrameView, ProtocolError>(
            FrameView {
                cmd_id: tag,
                format: CmdFormat::spec_new(
                    if 5 + query_id.len() + payload.len() > 255 { 1 } else { 0 },
                    query_id.len() as usize,
                ),
                length: frame_len(query_id.len(), payload.len()) as u16,
                query_id: if query_id.len() == 0 { None } else { Some(query_id) },
                data: if payload.len() == 0 { None } else { Some(payload) },
            },
        ),
{
    let b = frame_bytes(tag, query_id, payload);
    let long = 5 + query_id.len() + payload.len() > 255;
    let total = frame_len(query_id.len(), payload.len());
    let start: int = if long { 5 } else { 4 };
    let q = query_id.len() as int;
    assert(b.len() == total);
    assert(b[2] == CmdFormat::spec_new(if long { 1 } else { 0 }, q as usize).spec_byte());
    assert(CmdFormat::spec_from_byte(b[2]) == CmdFormat::spec_new(
        if long { 1 } else { 0 },
        q as usize,
    ));
    assert(declared_len(b) == total);
    if q != 0 {
        assert(b.subrange(start, start + q) =~= query_id);
    }
    if payload.len() != 0 {
        assert(b.subrange(start + q, b.len() - 1) =~= payload);
    }
}

/// The framer rejects a buffer shorter than the smallest frame, one that is
/// not delimited by 0xFF and 0xAA, and one whose length field is not its length.
pub proof fn lemma_frame_rejections(b: Seq<u8>)
    ensures
        b.len() < 5 ==> parse_frame(b) == Err::<FrameView, ProtocolError>(
            ProtocolError::PacketLengthTooSmall,
        ),
        b.len() >= 5 && (b[0] != 0xFF || b[b.len() - 1] != 0xAA) ==> parse_frame(b) == Err::<
            FrameView,
            ProtocolError,
        >(ProtocolError::FrameError),
        b.len() >= 5 && b[0] == 0xFF && b[b.len() - 1] == 0xAA && declared_len(b) != b.len()
            ==> parse_frame(b) == Err::<FrameView, ProtocolError>(
            ProtocolError::InvalidPacketLength,
        ),
{
}

/// A well-formed command framed with any correlation id is read back whole:
/// the envelope, the correlation id and the command itself.
pub proof fn lemma_command_frame_round_trip(c: CommandView, query_id: Seq<u8>)
    requires
        c.wf(),
        1 <= query_id.len() <= 15,
        frame_len(query_id.len(), c.payload().len()) <= 0xFFFF,
    ensures
        parse_command_frame(frame_bytes(c.tag(), query_id, c.payload())) matches Ok((f, d)) && d
            == c && f.query_id == Some(query_id) && f.cmd_id == c.tag(),
{
    lemma_frame_round_trip(c.tag(), query_id, c.payload());
    crate::commands::lemma_command_round_trip(c);
    let f = parse_frame(frame_bytes(c.tag(), query_id, c.payload()))->Ok_0;
    assert(frame_payload(f) =~= c.payload());
}

/// A well-formed response framed with any correlation id is read back whole:
/// the envelope, the correlation id and the response itself.
pub proof fn lemma_response_frame_round_trip(r: ResponseView, query_id: Seq<u8>)
    requires
        r.wf(),
        1 <= query_id.len() <= 15,
        frame_len(query_id.len(), r.payload().len()) <= 0xFFFF,
    ensures
        parse_response_frame(frame_bytes(r.tag(), query_id, r.payload())) matches Ok((f, d)) && d
            == r && f.query_id == Some(query_id) && f.cmd_id == r.tag(),
{
    lemma_frame_round_trip(r.tag(), query_id, r.payload());
    crate::responses::lemma_response_round_trip(r);
    let f = parse_frame(frame_bytes(r.tag(), query_id, r.payload()))->Ok_0;
    assert(frame_payload(f) =~= r.payload());
}

impl<T: Serializable> Packet<T> {
    /// A packet for a [Command] or a [Response], without a correlation id.
    pub fn new(from: &T) -> (r: Self)
        requires
            frame_len(0, from.spec_data().len()) <= 0xFFFF,
        ensures
            r.cmd_id == from.spec_id(),
            r.format == CmdFormat::spec_new(
                if 5 + from.spec_data().len() > 255 { 1 } else { 0 },
                0,
            ),
            r.length == frame_len(0, from.spec_data().len()),
            r.query_id is None,
            r.data.same_value(from),
            r.data.spec_id() == from.spec_id(),
            r.data.spec_data() == from.spec_data(),
            packet_bytes(r.cmd_id, r.format, r.length, qid_view(r.query_id), from.spec_data())
                == frame_bytes(from.spec_id(), Seq::empty(), from.spec_data()),
    {
        let payload = from.data_bytes().unwrap();
        let (format, length) = frame_header(0, payload.len());
        let r = Packet {
            cmd_id: from.id().unwrap(),
            format,
            length,
            query_id: None,
            data: from.duplicate(),
        };
        assert(packet_bytes(r.cmd_id, r.format, r.length, qid_view(r.query_id), from.spec_data())
            =~= frame_bytes(from.spec_id(), Seq::empty(), from.spec_data()));
        r
    }

    /// A packet for a [Command] or a [Response], with a correlation id.
    pub fn new_with_query_id(from: &T, query_id: &[u8]) -> (r: Self)
        requires
            query_id@.len() <= 15,
            frame_len(query_id@.len(), from.spec_data().len()) <= 0xFFFF,
        ensures
            r.cmd_id == from.spec_id(),
            r.format == CmdFormat::spec_new(
                if 5 + query_id@.len() + from.spec_data().len() > 255 { 1 } else { 0 },
                query_id@.len() as usize,
            ),
            r.length == frame_len(query_id@.len(), from.spec_data().len()),
            qid_view(r.query_id) == Some(query_id@),
            r.data.same_value(from),
            r.data.spec_id() == from.spec_id(),
            r.data.spec_data() == from.spec_data(),
            packet_bytes(r.cmd_id, r.format, r.length, qid_view(r.query_id), from.spec_data())
                == frame_bytes(from.spec_id(), query_id@, from.spec_data()),
    {
        let payload = from.data_bytes().unwrap();
        let (format, length) = frame_header(query_id.len(), payload.len());
        let r = Packet {
            cmd_id: from.id().unwrap(),
            format,
            length,
            query_id: Some(vstd::slice::slice_to_vec(query_id)),
            data: from.duplicate(),
        };
        assert(packet_bytes(r.cmd_id, r.format, r.length, qid_view(r.query_id), from.spec_data())
            =~= frame_bytes(from.spec_id(), query_id@, from.spec_data()));
        r
    }

    /// The frame of the packet, with the payload of its value.
    pub fn to_bytes(&self) -> (r: Vec<u8>)
        ensures
            r@ == packet_bytes(
                self.cmd_id,
                self.format,
                self.length,
                qid_view(self.query_id),
                self.data.spec_data(),
            ),
    {
        let payload = self.data.data_bytes().unwrap();
        write_frame(self.cmd_id, self.format, self.length, &self.query_id, payload.as_slice())
    }
}

impl<'a> Packet<Option<&'a [u8]>> {
    /// Checks the envelope of a frame and cuts it into its fields.
    pub fn from_bytes(bytes: &'a [u8]) -> (r: Result<RawPacket<'a>, ProtocolError>)
        ensures
            match r {
                Ok(p) => parse_frame(bytes@) == Ok::<FrameView, ProtocolError>(raw_view(p)),
                Err(e) => parse_frame(bytes@) == Err::<FrameView, ProtocolError>(e),
            },
    {
        if bytes.len() < PACKET_MIN_SIZE {
            return Err(ProtocolError::PacketLengthTooSmall);
        }
        if bytes[0] != PACKET_START || bytes[bytes.len() - 1] != PACKET_END {
            return Err(ProtocolError::FrameError);
        }
        let cmd_id = bytes[1];
        let format = CmdFormat::from_byte(bytes[2]);
        let mut index: usize = 3;
        let length: u16 = if format.long == 1 {
            index = 5;
            get_u16(bytes, 3)
        } else {
            index = 4;
            bytes[3] as u16
        };
        if bytes.len() != length as usize {
            return Err(ProtocolError::InvalidPacketLength);
        }
        let q = format.query_id_size;
        if bytes.len() - index < q + 1 {
            return Err(ProtocolError::InvalidPacketLength);
        }
        let query_id = if q == 0 {
            None
        } else {
            Some(get_bytes(bytes, index, index + q))
        };
        index = index + q;
        let end = bytes.len() - 1;
        let data = if index == end {
            None
        } else {
            Some(&bytes[index..end])
        };
        Ok(Packet { cmd_id, format, length, query_id, data })
    }
}

impl Packet<Command> {
    /// Reads a frame holding a command.
    pub fn from_bytes(bytes: &[u8]) -> (r: Result<CommandPacket, ProtocolError>)
        ensures
            match r {
                Ok(p) => match parse_command_frame(bytes@) {
                    Ok((f, c)) => same_envelope(p, f) && p.data@ == c,
                    Err(_) => false,
                },
                Err(e) => parse_command_frame(bytes@) == Err::<
                    (FrameView, CommandView),
                    ProtocolError,
                >(e),
            },
    {
        let raw = RawPacket::from_bytes(bytes)?;
        match Command::from_data(raw.cmd_id, raw.data) {
            Ok(data) => Ok(
                Packet {
                    cmd_id: raw.cmd_id,
                    format: raw.format,
                    length: raw.length,
                    query_id: raw.query_id,
                    data,
                },
            ),
            Err(e) => Err(ProtocolError::ParseError(e)),
        }
    }

    /// Decodes the payload of a raw packet whose payload holds a command.
    pub fn from(raw: RawPacket) -> (r: CommandPacket)
        requires
            CommandView::parse(raw.cmd_id, opt_bytes(raw.data)) is Ok,
        ensures
            same_envelope(r, raw_view(raw)),
            CommandView::parse(raw.cmd_id, opt_bytes(raw.data)) == Ok::<CommandView, CodecError>(
                r.data@,
            ),
    {
        let data = Command::from_data(raw.cmd_id, raw.data).unwrap();
        Packet {
            cmd_id: raw.cmd_id,
            format: raw.format,
            length: raw.length,
            query_id: raw.query_id,
            data,
        }
    }
}

impl Packet<Response> {
    /// Reads a frame holding a response.
    pub fn from_bytes(bytes: &[u8]) -> (r: Result<ResponsePacket, ProtocolError>)
        ensures
            match r {
                Ok(p) => match parse_response_frame(bytes@) {
                    Ok((f, c)) => same_envelope(p, f) && p.data@ == c,
                    Err(_) => false,
                },
                Err(e) => parse_response_frame(bytes@) == Err::<
                    (FrameView, ResponseView),
                    ProtocolError,
                >(e),
            },
    {
        let raw = RawPacket::from_bytes(bytes)?;
        match Response::from_data(raw.cmd_id, raw.data) {
            Ok(data) => Ok(
                Packet {
                    cmd_id: raw.cmd_id,
                    format: raw.format,
                    length: raw.length,
                    query_id: raw.query_id,
                    data,
                },
            ),
            Err(e) => Err(ProtocolError::ParseError(e)),
        }
    }

    /// Decodes the payload of a raw packet whose payload holds a response.
    pub fn from(raw: RawPacket) -> (r: ResponsePacket)
        requires
            ResponseView::parse(raw.cmd_id, opt_bytes(raw.data)) is Ok,
        ensures
            same_envelope(r, raw_view(raw)),
            ResponseView::parse(raw.cmd_id, opt_bytes(raw.data)) == Ok::<ResponseView, CodecError>(
                r.data@,
            ),
    {
        let data = Response::from_data(raw.cmd_id, raw.data).unwrap();
        Packet {
            cmd_id: raw.cmd_id,
            format: raw.format,
            length: raw.length,
            query_id: raw.query_id,
            data,
        }
    }
}

} // verus!
