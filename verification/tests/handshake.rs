use bytehub::handshake::{
    bidi_copy_buf, mask, opening, read_first_chunk, Handshake, HandshakeAction, HandshakeEvent,
    Phase, Role, Side, FIRST_CHUNK_LEN, FIRST_CHUNK_WAIT_MS, MODE_CLIENT, MODE_PLAIN, MODE_SERVER,
};
use bytehub::plain::{run_relay, RelayAction, RelayEvent};

#[test]
fn masking_twice_changes_nothing() {
    assert_eq!(mask(&[0, 0x5a, 0xff]), vec![0x5a, 0, 0xa5]);
    let all: Vec<u8> = (0..=255).collect();
    assert_eq!(mask(&mask(&all)), all);
    assert_eq!(mask(&[]), Vec::<u8>::new());
}

#[test]
fn first_chunk_is_what_was_read() {
    assert_eq!((FIRST_CHUNK_LEN, FIRST_CHUNK_WAIT_MS), (8192, 200));
    assert_eq!(read_first_chunk(vec![1, 2, 3], Some(2)), vec![1, 2]);
    assert_eq!(read_first_chunk(vec![1, 2, 3], Some(0)), Vec::<u8>::new());
    assert_eq!(read_first_chunk(vec![1, 2, 3], None), Vec::<u8>::new());
}

#[test]
fn opening_is_prefix_and_masked_chunk() {
    assert_eq!(opening(vec![9, 8], &[0x5a, 1]), vec![9, 8, 0, 0x5b]);
    assert_eq!(opening(vec![9, 8], &[]), vec![9, 8]);
}

#[test]
fn modes_begin_their_handshakes() {
    let client = Handshake { role: Role::Client, phase: Phase::Chunk };
    let server = Handshake { role: Role::Server, phase: Phase::Header };
    assert_eq!(bidi_copy_buf(MODE_CLIENT), (Some(client), HandshakeAction::ReadFirst(Side::A)));
    assert_eq!(bidi_copy_buf(MODE_SERVER), (Some(server), HandshakeAction::ReadExact(Side::A, 14)));
    assert_eq!(bidi_copy_buf(MODE_PLAIN), (None, HandshakeAction::Relay));
    assert_eq!(bidi_copy_buf(3), (None, HandshakeAction::Relay));
    assert_eq!(bidi_copy_buf(255), (None, HandshakeAction::Relay));
}

/// Feeds `stream` to a handshake that waits for a header; hands back the action
/// after the garbage and what is left of the stream.
fn receive(handshake: &mut Handshake, stream: &[u8]) -> (HandshakeAction, Vec<u8>) {
    match handshake.next(HandshakeEvent::Bytes(stream[..14].to_vec())) {
        HandshakeAction::ReadExact(side, n) => {
            assert_eq!(side, handshake.role.relay_side());
            let garbage: Vec<u8> = stream[14..14 + n].to_vec();
            (handshake.next(HandshakeEvent::Bytes(garbage)), stream[14 + n..].to_vec())
        }
        other => panic!("unexpected {:?}", other),
    }
}

#[test]
fn client_and_server_meet() {
    let (client, _) = bidi_copy_buf(MODE_CLIENT);
    let (server, _) = bidi_copy_buf(MODE_SERVER);
    let mut client = client.unwrap();
    let mut server = server.unwrap();

    let request: Vec<u8> = b"GET / HTTP/1.0\r\n\r\n".to_vec();
    let to_server = match client.next(HandshakeEvent::Chunk(request.clone())) {
        HandshakeAction::Write(Side::B, bytes) => bytes,
        other => panic!("unexpected {:?}", other),
    };
    assert_eq!(client.next(HandshakeEvent::Written), HandshakeAction::ReadExact(Side::B, 14));

    let (action, rest) = receive(&mut server, &to_server);
    assert_eq!(action, HandshakeAction::ReadFirst(Side::B));
    assert_eq!(mask(&rest), request);

    let to_client = match server.next(HandshakeEvent::Chunk(Vec::new())) {
        HandshakeAction::Write(Side::A, bytes) => bytes,
        other => panic!("unexpected {:?}", other),
    };
    assert_eq!(server.next(HandshakeEvent::Written), HandshakeAction::Relay);
    assert_eq!(server.phase, Phase::Over);

    let (action, rest) = receive(&mut client, &to_client);
    assert_eq!(action, HandshakeAction::Relay);
    assert!(rest.is_empty());
    assert_eq!(client.phase, Phase::Over);
}

#[test]
fn opening_is_sent_where_a_prefix_was_made() {
    for (role, side) in [(Role::Client, Side::B), (Role::Server, Side::A)] {
        let mut handshake = Handshake { role, phase: Phase::Chunk };
        assert_eq!(
            handshake.send_opening(Some(vec![9, 8]), &[0x5a, 1]),
            HandshakeAction::Write(side, vec![9, 8, 0, 0x5b])
        );
        assert_eq!(handshake, Handshake { role, phase: Phase::Write });
    }
}

#[test]
fn without_a_prefix_the_handshake_is_over() {
    let mut handshake = Handshake { role: Role::Client, phase: Phase::Chunk };
    assert_eq!(handshake.send_opening(None, &[1]), HandshakeAction::NoClock);
    assert_eq!(handshake.phase, Phase::Over);
}

#[test]
fn bad_header_is_dropped_after_a_delay() {
    for role in [Role::Client, Role::Server] {
        let mut handshake = Handshake { role, phase: Phase::Header };
        let header: Vec<u8> = b"GET / HTTP/1.0".to_vec();
        assert_eq!(handshake.next(HandshakeEvent::Bytes(header)), HandshakeAction::Sleep(3));
        assert_eq!(handshake.phase, Phase::Delay);
        assert_eq!(handshake.next(HandshakeEvent::Slept), HandshakeAction::Reject);
        assert_eq!(handshake.phase, Phase::Over);
    }
}

#[test]
fn roles_know_their_sides() {
    assert_eq!((Role::Client.plain_side(), Role::Client.relay_side()), (Side::A, Side::B));
    assert_eq!((Role::Server.plain_side(), Role::Server.relay_side()), (Side::B, Side::A));
}

#[test]
fn kernel_is_asked_only_without_obfuscation() {
    assert_eq!(run_relay(MODE_PLAIN, true), RelayAction::ZeroCopy);
    assert_eq!(run_relay(MODE_PLAIN, false), RelayAction::Copy);
    assert_eq!(run_relay(MODE_CLIENT, true), RelayAction::Copy);
    assert_eq!(run_relay(MODE_SERVER, true), RelayAction::Copy);
}

#[test]
fn invalid_input_falls_back_once() {
    assert_eq!(RelayAction::ZeroCopy.next(RelayEvent::Copied), RelayAction::Finish);
    assert_eq!(RelayAction::ZeroCopy.next(RelayEvent::InvalidInput), RelayAction::Copy);
    assert_eq!(RelayAction::ZeroCopy.next(RelayEvent::Failed), RelayAction::Fail);
    assert_eq!(RelayAction::Copy.next(RelayEvent::Copied), RelayAction::Finish);
    assert_eq!(RelayAction::Copy.next(RelayEvent::InvalidInput), RelayAction::Fail);
    assert_eq!(RelayAction::Copy.next(RelayEvent::Failed), RelayAction::Fail);
}
