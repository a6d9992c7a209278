use chess::netplay::{decode_packet, payload_length, piece_type_code, piece_type_from_code, ByteQueue,
    Command, NetPlay, StreamError};
use chess::piece::PieceType;

#[test]
fn ack() -> Result<(), StreamError> {
    let mut netplay = NetPlay::new(false, ByteQueue::new());
    netplay.send_command(Command::Ack)?;
    assert_eq!(netplay.recv_command()?, Command::Ack);
    Ok(())
}

#[test]
fn move_command() -> Result<(), StreamError> {
    let mut netplay = NetPlay::new(false, ByteQueue::new());
    let move_command = Command::Move {
        x0: 0,
        y0: 1,
        x1: 2,
        y1: 3,
    };
    netplay.send_command(move_command)?;
    assert_eq!(netplay.recv_command()?, move_command);
    Ok(())
}

#[test]
fn netplay_promote() -> Result<(), StreamError> {
    let mut netplay = NetPlay::new(false, ByteQueue::new());
    let promote = Command::Promote {
        x: 6,
        y: 7,
        piece: PieceType::Queen,
    };
    netplay.send_command(promote)?;
    assert_eq!(netplay.recv_command()?, promote);
    Ok(())
}

#[test]
fn multiple_commands() -> Result<(), StreamError> {
    let mut netplay = NetPlay::new(false, ByteQueue::new());
    let move1 = Command::Move {
        x0: 0,
        y0: 1,
        x1: 2,
        y1: 3,
    };
    let promote = Command::Promote {
        x: 6,
        y: 7,
        piece: PieceType::Queen,
    };
    let move2 = Command::Move {
        x0: 4,
        y0: 5,
        x1: 6,
        y1: 7,
    };
    netplay.send_command(move1)?;
    netplay.send_command(promote)?;
    netplay.send_command(move2)?;
    assert_eq!(netplay.recv_command()?, move1);
    assert_eq!(netplay.recv_command()?, promote);
    assert_eq!(netplay.recv_command()?, move2);
    Ok(())
}

#[test]
fn packet_bytes_are_exact() {
    let ack = Command::Ack;
    assert_eq!(ack.to_packet(), vec![1u8]);
    assert_eq!(ack.packet_length(), 1);
    let mv = Command::Move {
        x0: 0,
        y0: 1,
        x1: 2,
        y1: 3,
    };
    assert_eq!(mv.to_packet(), vec![2u8, 0, 1, 2, 3]);
    assert_eq!(mv.packet_length(), 5);
    let pr = Command::Promote {
        x: 6,
        y: 7,
        piece: PieceType::Queen,
    };
    assert_eq!(pr.to_packet(), vec![3u8, 6, 7, 2]);
    assert_eq!(pr.packet_length(), 4);
}

#[test]
fn piece_type_codes_roundtrip() {
    let types = vec![
        PieceType::King,
        PieceType::Queen,
        PieceType::Rook,
        PieceType::Bishop,
        PieceType::Knight,
        PieceType::Pawn,
    ];
    let mut expected: u8 = 1;
    for t in types {
        let code = piece_type_code(t);
        assert_eq!(code, expected);
        assert_eq!(piece_type_from_code(code), t);
        expected += 1;
    }
}

#[test]
fn recv_on_empty_stream_fails() {
    let mut netplay = NetPlay::new(true, ByteQueue::new());
    assert!(netplay.is_host());
    assert_eq!(netplay.recv_command(), Err(StreamError::Closed));
    assert_eq!(netplay.recv(), Err(StreamError::Closed));
}

#[test]
fn send_and_recv_acknowledge_each_other() -> Result<(), StreamError> {
    let mut netplay = NetPlay::new(false, ByteQueue::new());
    let mv = Command::Move {
        x0: 4,
        y0: 1,
        x1: 4,
        y1: 3,
    };
    // a peer's acknowledge is already pending; send consumes it
    netplay.send_command(Command::Ack)?;
    netplay.send(mv)?;
    // what remains is the move packet; recv hands it out and answers with
    // an acknowledge, which is then the next pending packet
    assert_eq!(netplay.recv()?, mv);
    assert_eq!(netplay.recv_command()?, Command::Ack);
    Ok(())
}

#[test]
fn decode_packet_inverts_encoding() {
    let commands = vec![
        Command::Ack,
        Command::Move {
            x0: 0,
            y0: 1,
            x1: 2,
            y1: 3,
        },
        Command::Promote {
            x: 6,
            y: 7,
            piece: PieceType::Knight,
        },
    ];
    for c in commands {
        let packet = c.to_packet();
        let payload: Vec<u8> = packet[1..].to_vec();
        assert_eq!(payload_length(packet[0]), Some(payload.len() as u8));
        assert_eq!(decode_packet(packet[0], &payload), Some(c));
    }
}

#[test]
fn malformed_packets_do_not_decode() {
    assert_eq!(payload_length(0), None);
    assert_eq!(payload_length(4), None);
    // a promotion whose piece code is outside 1..=6
    assert_eq!(decode_packet(3, &vec![0, 7, 9]), None);
    // a move packet with a missing byte
    assert_eq!(decode_packet(2, &vec![0, 1, 2]), None);
    // an acknowledge with trailing bytes
    assert_eq!(decode_packet(1, &vec![0]), None);
}
