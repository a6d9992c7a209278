//! The move-transport protocol for two-player play: three message kinds
//! (acknowledge, move, promote), each encoded as a short packet of bytes,
//! sent and received over a byte stream under a strict request/acknowledge
//! discipline.

use vstd::prelude::*;
use crate::piece::PieceType;

verus! {

/// One protocol message.
#[derive(Clone, Copy, Debug, PartialEq, Eq, Structural)]
pub enum Command {
    Ack,
    Move { x0: u8, y0: u8, x1: u8, y1: u8 },
    Promote { x: u8, y: u8, piece: PieceType },
}

/// The wire code of a piece type: 1 through 6 for King through Pawn.
pub open spec fn code_of(t: PieceType) -> u8 {
    match t {
        PieceType::King => 1,
        PieceType::Queen => 2,
        PieceType::Rook => 3,
        PieceType::Bishop => 4,
        PieceType::Knight => 5,
        PieceType::Pawn => 6,
    }
}

/// The piece type a wire code between 1 and 6 denotes.
pub open spec fn type_of_code(c: u8) -> PieceType {
    if c == 1 {
        PieceType::King
    } else if c == 2 {
        PieceType::Queen
    } else if c == 3 {
        PieceType::Rook
    } else if c == 4 {
        PieceType::Bishop
    } else if c == 5 {
        PieceType::Knight
    } else {
        PieceType::Pawn
    }
}

/// The bytes a command is sent as: a type byte (1 acknowledge, 2 move,
/// 3 promote) followed by the message's coordinates and, for a promotion,
/// the piece-type code.
pub open spec fn packet_of(c: Command) -> Seq<u8> {
    match c {
        Command::Ack => seq![1u8],
        Command::Move { x0, y0, x1, y1 } => seq![2u8, x0, y0, x1, y1],
        Command::Promote { x, y, piece } => seq![3u8, x, y, code_of(piece)],
    }
}

/// Whether the stream's first pending packet carries a recognized type byte
/// and, for a promotion, a piece-type code between 1 and 6. Anything else is
/// a protocol violation, and fatal: an endpoint that cannot make sense of
/// its peer must abort rather than guess.
pub open spec fn packet_type_ok(s: Seq<u8>) -> bool {
    s.len() > 0 ==> ((s[0] == 1 || s[0] == 2 || s[0] == 3) && (s[0] == 3 && s.len() >= 4 ==> 1
        <= s[3] <= 6))
}

/// Whether the stream's pending bytes start with one complete packet.
pub open spec fn valid_packet_prefix(s: Seq<u8>) -> bool {
    s.len() > 0 && (s[0] == 1 || (s[0] == 2 && s.len() >= 5) || (s[0] == 3 && s.len() >= 4))
}

/// The command a complete packet prefix decodes to.
pub open spec fn decoded_command(s: Seq<u8>) -> Command {
    if s[0] == 1 {
        Command::Ack
    } else if s[0] == 2 {
        Command::Move { x0: s[1], y0: s[2], x1: s[3], y1: s[4] }
    } else {
        Command::Promote { x: s[1], y: s[2], piece: type_of_code(s[3]) }
    }
}

/// How many bytes the packet at the head of the stream occupies.
pub open spec fn decoded_len(s: Seq<u8>) -> int {
    if s[0] == 1 {
        1
    } else if s[0] == 2 {
        5
    } else {
        4
    }
}

impl Command {
    /// Encode the command as its packet.
    pub fn to_packet(self) -> (r: Vec<u8>)
        ensures
            r@ == packet_of(self),
    {
        let mut packet: Vec<u8> = Vec::new();
        match self {
            Command::Ack => {
                packet.push(1);
            },
            Command::Move { x0, y0, x1, y1 } => {
                packet.push(2);
                packet.push(x0);
                packet.push(y0);
                packet.push(x1);
                packet.push(y1);
            },
            Command::Promote { x, y, piece } => {
                packet.push(3);
                packet.push(x);
                packet.push(y);
                packet.push(piece_type_code(piece));
            },
        }
        proof {
            assert(packet@ =~= packet_of(self));
        }
        packet
    }

    /// The length of the command's packet.
    pub fn packet_length(self) -> (r: u8)
        ensures
            r == packet_of(self).len(),
    {
        match self {
            Command::Ack => 1,
            Command::Move { .. } => 5,
            Command::Promote { .. } => 4,
        }
    }
}

/// The wire code of a piece type.
pub fn piece_type_code(t: PieceType) -> (r: u8)
    ensures
        r == code_of(t),
{
    match t {
        PieceType::King => 1,
        PieceType::Queen => 2,
        PieceType::Rook => 3,
        PieceType::Bishop => 4,
        PieceType::Knight => 5,
        PieceType::Pawn => 6,
    }
}

/// The piece type a wire code between 1 and 6 denotes.
pub fn piece_type_from_code(code: u8) -> (r: PieceType)
    requires
        1 <= code <= 6,
    ensures
        r == type_of_code(code),
{
    match code {
        1 => PieceType::King,
        2 => PieceType::Queen,
        3 => PieceType::Rook,
        4 => PieceType::Bishop,
        5 => PieceType::Knight,
        6 => PieceType::Pawn,
        _ => unreached(),
    }
}

/// Whether the bytes form exactly one packet: a recognized type byte, the
/// length that type demands, and, for a promotion, a piece-type code between
/// 1 and 6.
pub open spec fn well_formed_packet(s: Seq<u8>) -> bool {
    &&& s.len() > 0
    &&& if s[0] == 1 {
        s.len() == 1
    } else if s[0] == 2 {
        s.len() == 5
    } else if s[0] == 3 {
        s.len() == 4 && 1 <= s[3] <= 6
    } else {
        false
    }
}

/// The number of payload bytes that follow a recognized packet type byte;
/// none for an unrecognized type.
pub fn payload_length(type_byte: u8) -> (r: Option<u8>)
    ensures
        type_byte == 1 ==> r == Some(0u8),
        type_byte == 2 ==> r == Some(4u8),
        type_byte == 3 ==> r == Some(3u8),
        !(type_byte == 1 || type_byte == 2 || type_byte == 3) ==> r is None,
{
    match type_byte {
        1 => Some(0),
        2 => Some(4),
        3 => Some(3),
        _ => None,
    }
}

/// Decode one packet from its type byte and payload: the command whose
/// encoding is exactly these bytes, or nothing when they form no packet.
pub fn decode_packet(type_byte: u8, payload: &Vec<u8>) -> (r: Option<Command>)
    ensures
        r is Some <==> well_formed_packet(seq![type_byte] + payload@),
        r matches Some(c) ==> c == decoded_command(seq![type_byte] + payload@) && packet_of(c)
            == seq![type_byte] + payload@,
{
    let ghost s = seq![type_byte] + payload@;
    if type_byte == 1 && payload.len() == 0 {
        proof {
            assert(packet_of(Command::Ack) =~= s);
        }
        Some(Command::Ack)
    } else if type_byte == 2 && payload.len() == 4 {
        let c = Command::Move { x0: payload[0], y0: payload[1], x1: payload[2], y1: payload[3] };
        proof {
            assert(packet_of(c) =~= s);
        }
        Some(c)
    } else if type_byte == 3 && payload.len() == 3 && 1 <= payload[2] && payload[2] <= 6 {
        let c = Command::Promote {
            x: payload[0],
            y: payload[1],
            piece: piece_type_from_code(payload[2]),
        };
        proof {
            assert(packet_of(c) =~= s);
        }
        Some(c)
    } else {
        None
    }
}

/// Why a stream operation failed.
#[derive(Clone, Copy, Debug, PartialEq, Eq, Structural)]
pub enum StreamError {
    /// The stream could not take or give more bytes.
    Closed,
}

/// A duplex byte channel, modelled as one first-in first-out queue of
/// pending bytes: writing appends to the queue, reading takes from its
/// front. [`ByteQueue`] is the in-memory instance; a networked program may
/// implement the trait over a socket instead, handing written bytes to the
/// peer and reading what the peer sent.
pub trait ByteStream {
    /// The bytes queued for reading.
    spec fn pending(&self) -> Seq<u8>;

    /// Append bytes to the queue.
    fn write_bytes(&mut self, data: &Vec<u8>) -> (r: Result<(), StreamError>)
        ensures
            r is Ok ==> final(self).pending() == old(self).pending() + data@,
            r is Err ==> final(self).pending() == old(self).pending(),
    ;

    /// Take the front byte of the queue; an error when none is pending.
    fn read_byte(&mut self) -> (r: Result<u8, StreamError>)
        ensures
            old(self).pending().len() > 0 ==> r == Ok::<u8, StreamError>(old(self).pending()[0])
                && final(self).pending() == old(self).pending().skip(1),
            old(self).pending().len() == 0 ==> r is Err && final(self).pending() == old(
                self,
            ).pending(),
    ;
}

/// An in-memory byte channel: what is written is later read back, first in
/// first out.
pub struct ByteQueue {
    pub bytes: Vec<u8>,
}

impl ByteQueue {
    /// An empty channel.
    pub fn new() -> (r: Self)
        ensures
            r.pending() == Seq::<u8>::empty(),
    {
        ByteQueue { bytes: Vec::new() }
    }
}

impl ByteStream for ByteQueue {
    open spec fn pending(&self) -> Seq<u8> {
        self.bytes@
    }

    fn write_bytes(&mut self, data: &Vec<u8>) -> (r: Result<(), StreamError>) {
        let mut i: usize = 0;
        while i < data.len()
            invariant
                i <= data@.len(),
                self.bytes@ == old(self).bytes@ + data@.take(i as int),
            decreases data@.len() - i,
        {
            self.bytes.push(data[i]);
            proof {
                assert(old(self).bytes@ + data@.take(i as int) + seq![data@[i as int]]
                    =~= old(self).bytes@ + data@.take(i + 1int));
            }
            i = i + 1;
        }
        proof {
            assert(data@.take(data@.len() as int) =~= data@);
        }
        Ok(())
    }

    fn read_byte(&mut self) -> (r: Result<u8, StreamError>) {
        if self.bytes.len() == 0 {
            Err(StreamError::Closed)
        } else {
            let b = self.bytes.remove(0);
            proof {
                assert(self.bytes@ =~= old(self).bytes@.skip(1));
            }
            Ok(b)
        }
    }
}

/// One endpoint of a two-player session, sending and receiving commands
/// over a byte stream under a request/acknowledge discipline.
pub struct NetPlay<S: ByteStream> {
    pub is_host: bool,
    pub stream: S,
}

impl<S: ByteStream> NetPlay<S> {
    /// An endpoint over the given stream. The host plays White.
    pub fn new(is_host: bool, stream: S) -> (r: Self)
        ensures
            r.is_host == is_host,
            r.stream == stream,
    {
        NetPlay { is_host, stream }
    }

    /// Whether this endpoint is the host.
    pub fn is_host(&self) -> (r: bool)
        ensures
            r == self.is_host,
    {
        self.is_host
    }

    /// Write one command's packet to the stream.
    pub fn send_command(&mut self, command: Command) -> (r: Result<(), StreamError>)
        ensures
            final(self).is_host == old(self).is_host,
            r is Ok ==> final(self).stream.pending() == old(self).stream.pending() + packet_of(
                command,
            ),
            r is Err ==> final(self).stream.pending() == old(self).stream.pending(),
    {
        let packet = command.to_packet();
        self.stream.write_bytes(&packet)
    }

    /// Read one command from the stream: the packet at its head, when it is
    /// complete; an error when the stream runs out of bytes first. A packet
    /// whose type byte or piece-type code is unrecognized is a protocol
    /// violation and fatal.
    pub fn recv_command(&mut self) -> (r: Result<Command, StreamError>)
        requires
            packet_type_ok(old(self).stream.pending()),
        ensures
            final(self).is_host == old(self).is_host,
            valid_packet_prefix(old(self).stream.pending()) ==> r == Ok::<Command, StreamError>(
                decoded_command(old(self).stream.pending()),
            ) && final(self).stream.pending() == old(self).stream.pending().skip(
                decoded_len(old(self).stream.pending()),
            ),
            !valid_packet_prefix(old(self).stream.pending()) ==> r is Err
                && final(self).stream.pending() == Seq::<u8>::empty(),
    {
        let tb = match self.stream.read_byte() {
            Ok(v) => v,
            Err(e) => {
                return Err(e);
            },
        };
        if tb == 1 {
            return Ok(Command::Ack);
        }
        if tb == 2 {
            let b0 = match self.stream.read_byte() {
                Ok(v) => v,
                Err(e) => {
                    return Err(e);
                },
            };
            let b1 = match self.stream.read_byte() {
                Ok(v) => v,
                Err(e) => {
                    return Err(e);
                },
            };
            let b2 = match self.stream.read_byte() {
                Ok(v) => v,
                Err(e) => {
                    return Err(e);
                },
            };
            let b3 = match self.stream.read_byte() {
                Ok(v) => v,
                Err(e) => {
                    return Err(e);
                },
            };
            return Ok(Command::Move { x0: b0, y0: b1, x1: b2, y1: b3 });
        }
        if tb == 3 {
            let b0 = match self.stream.read_byte() {
                Ok(v) => v,
                Err(e) => {
                    return Err(e);
                },
            };
            let b1 = match self.stream.read_byte() {
                Ok(v) => v,
                Err(e) => {
                    return Err(e);
                },
            };
            let b2 = match self.stream.read_byte() {
                Ok(v) => v,
                Err(e) => {
                    return Err(e);
                },
            };
            return Ok(Command::Promote { x: b0, y: b1, piece: piece_type_from_code(b2) });
        }
        unreached()
    }

    /// Send a command and wait for the acknowledge that must answer it. The
    /// model requires the acknowledge to be pending already; receiving
    /// anything else desynchronizes the protocol and is fatal.
    pub fn send(&mut self, command: Command) -> (r: Result<(), StreamError>)
        requires
            old(self).stream.pending().len() > 0,
            old(self).stream.pending()[0] == 1,
        ensures
            final(self).is_host == old(self).is_host,
            r is Ok ==> final(self).stream.pending() == old(self).stream.pending().skip(1)
                + packet_of(command),
            r is Err ==> final(self).stream.pending() == old(self).stream.pending(),
    {
        let ghost s = self.stream.pending();
        match self.send_command(command) {
            Ok(()) => (),
            Err(e) => {
                return Err(e);
            },
        }
        proof {
            assert((s + packet_of(command)).skip(1) =~= s.skip(1) + packet_of(command));
        }
        let response = match self.recv_command() {
            Ok(c) => c,
            Err(e) => {
                return Err(e);
            },
        };
        if let Command::Ack = response {
            return Ok(());
        }
        unreached()
    }

    /// Receive the next command and answer it with an acknowledge.
    pub fn recv(&mut self) -> (r: Result<Command, StreamError>)
        requires
            packet_type_ok(old(self).stream.pending()),
        ensures
            final(self).is_host == old(self).is_host,
            valid_packet_prefix(old(self).stream.pending()) && r is Ok ==> r == Ok::<
                Command,
                StreamError,
            >(decoded_command(old(self).stream.pending())) && final(self).stream.pending() == old(
                self,
            ).stream.pending().skip(decoded_len(old(self).stream.pending())) + packet_of(
                Command::Ack,
            ),
            valid_packet_prefix(old(self).stream.pending()) && r is Err ==> final(self)
                .stream.pending() == old(self).stream.pending().skip(
                decoded_len(old(self).stream.pending()),
            ),
            !valid_packet_prefix(old(self).stream.pending()) ==> r is Err,
    {
        let command = match self.recv_command() {
            Ok(c) => c,
            Err(e) => {
                return Err(e);
            },
        };
        match self.send_command(Command::Ack) {
            Ok(()) => (),
            Err(e) => {
                return Err(e);
            },
        }
        Ok(command)
    }
}

} // verus!
