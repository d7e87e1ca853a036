use async_ws::connection::CloseState;
use async_ws::connection::{
    FlushStep, NextReader, NextWriter, ReadStep, WriteStep, WsConfig, WsConnection,
    WsConnectionError,
};
use async_ws::frame::WsControlFramePayload;
use async_ws::message::WsMessageKind;

fn server() -> WsConnection {
    WsConnection::with_config(WsConfig::server())
}

fn read_all(conn: &mut WsConnection) -> Vec<u8> {
    let mut out = Vec::new();
    loop {
        match conn.read(1024) {
            ReadStep::Data(v) => out.extend_from_slice(&v),
            ReadStep::End => return out,
            other => panic!("read did not finish: {:?}", step_name(&other)),
        }
    }
}

fn step_name(s: &ReadStep) -> &'static str {
    match s {
        ReadStep::Data(_) => "data",
        ReadStep::End => "end",
        ReadStep::Pending => "pending",
        ReadStep::Failed => "failed",
    }
}

/// Simple echo: a masked "Hello" text frame comes in, the same text goes
/// back out unmasked.
#[test]
fn simple_echo() {
    let mut conn = server();
    let wire = vec![
        0x81, 0x85, 0x01, 0x02, 0x03, 0x04, 0x49, 0x67, 0x6F, 0x68, 0x6E,
    ];
    conn.feed_input(&wire);
    let kind = match conn.next_reader() {
        NextReader::Message(k) => k,
        _ => panic!("expected a message"),
    };
    assert!(matches!(kind, WsMessageKind::Text));
    let body = read_all(&mut conn);
    assert_eq!(body, b"Hello".to_vec());

    // Echo it back.
    assert!(matches!(conn.next_writer(WsMessageKind::Text), NextWriter::Ready));
    match conn.write(&body) {
        WriteStep::Accepted(n) => assert_eq!(n, 5),
        _ => panic!("write refused"),
    }
    assert!(matches!(conn.close_writer(), FlushStep::Pending));
    let out = conn.take_output();
    assert_eq!(out, vec![0x81, 0x05, b'H', b'e', b'l', b'l', b'o']);
    conn.on_flush_done();
    assert!(matches!(conn.close_writer(), FlushStep::Flushed));
}

/// Fragmented binary: two frames, one message, and reading continues to the
/// next message afterwards.
#[test]
fn fragmented_binary() {
    let mut conn = server();
    conn.feed_input(&vec![0x02, 0x03, 0x41, 0x42, 0x43]);
    conn.feed_input(&vec![0x80, 0x02, 0x44, 0x45]);
    let kind = match conn.next_reader() {
        NextReader::Message(k) => k,
        _ => panic!("expected a message"),
    };
    assert!(matches!(kind, WsMessageKind::Binary));
    assert_eq!(read_all(&mut conn), b"ABCDE".to_vec());

    // The stream is ready for the next message.
    conn.feed_input(&vec![0x82, 0x01, 0x5A]);
    assert!(matches!(conn.next_reader(), NextReader::Message(WsMessageKind::Binary)));
    assert_eq!(read_all(&mut conn), b"Z".to_vec());
}

/// A Ping interleaved between the fragments of a text message: the reader
/// sees one coherent message, and a Pong goes out.
#[test]
fn ping_during_message() {
    let mut conn = server();
    conn.feed_input(&vec![0x01, 0x02, 0x68, 0x69]);
    conn.feed_input(&vec![0x89, 0x00]);
    conn.feed_input(&vec![0x80, 0x02, 0x21, 0x21]);
    assert!(matches!(conn.next_reader(), NextReader::Message(WsMessageKind::Text)));
    assert_eq!(read_all(&mut conn), b"hi!!".to_vec());
    let out = conn.take_output();
    assert_eq!(&out[..], &[0x8A, 0x00]);
}

/// Close handshake: the peer's Close is echoed byte for byte and the
/// message stream ends cleanly.
#[test]
fn close_handshake() {
    let mut conn = server();
    conn.feed_input(&vec![0x88, 0x02, 0x03, 0xE8]);
    assert!(matches!(conn.next_reader(), NextReader::Pending));
    let out = conn.take_output();
    assert_eq!(out, vec![0x88, 0x02, 0x03, 0xE8]);
    conn.on_flush_done();
    assert!(matches!(conn.next_reader(), NextReader::Closed));
    assert!(matches!(conn.next_reader(), NextReader::Closed));
}

/// Keepalive: a quiet interval sends exactly one empty Ping; a second quiet
/// interval fails the connection with Timeout, surfaced exactly once.
#[test]
fn keepalive_ping_then_timeout() {
    let mut conn = server();
    assert!(!conn.ping_outstanding());
    conn.on_tick();
    assert!(conn.ping_outstanding());
    let out = conn.take_output();
    assert_eq!(out, vec![0x89, 0x00]);
    conn.on_tick();
    match conn.next_reader() {
        NextReader::Failed(e) => assert_eq!(e, WsConnectionError::Timeout),
        _ => panic!("expected the timeout error"),
    }
    assert!(matches!(conn.next_reader(), NextReader::Closed));
}

/// A Pong from the peer clears the outstanding flag: the next tick pings
/// again instead of failing.
#[test]
fn pong_resets_keepalive() {
    let mut conn = server();
    conn.on_tick();
    assert!(conn.ping_outstanding());
    conn.feed_input(&vec![0x8A, 0x00]);
    assert!(matches!(conn.next_reader(), NextReader::Pending));
    assert!(!conn.ping_outstanding());
    conn.on_tick();
    assert!(conn.ping_outstanding());
    assert!(matches!(conn.next_reader(), NextReader::Pending));
}

/// Invalid UTF-8 in a text message: the connection fails with InvalidUtf8
/// and a 1007 Close goes out.
#[test]
fn invalid_utf8_fails_the_connection() {
    let mut conn = server();
    conn.feed_input(&vec![0x81, 0x02, 0xC3, 0x28]);
    assert!(matches!(conn.next_reader(), NextReader::Message(WsMessageKind::Text)));
    assert!(matches!(conn.read(1024), ReadStep::Failed));
    match conn.next_reader() {
        NextReader::Failed(e) => assert_eq!(e, WsConnectionError::InvalidUtf8),
        _ => panic!("expected the utf8 error"),
    }
    let out = conn.take_output();
    assert_eq!(out, vec![0x88, 0x02, 0x03, 0xEF]);
}

/// A text message whose final frame ends inside a character fails with
/// IncompleteUtf8.
#[test]
fn incomplete_utf8_fails_the_connection() {
    let mut conn = server();
    conn.feed_input(&vec![0x81, 0x01, 0xC3]);
    assert!(matches!(conn.next_reader(), NextReader::Message(WsMessageKind::Text)));
    assert!(matches!(conn.read(1024), ReadStep::Failed));
    match conn.next_reader() {
        NextReader::Failed(e) => assert_eq!(e, WsConnectionError::IncompleteUtf8),
        _ => panic!("expected the utf8 error"),
    }
}

/// A Continuation with no message in progress is a protocol error.
#[test]
fn unexpected_continuation_fails() {
    let mut conn = server();
    conn.feed_input(&vec![0x80, 0x00]);
    match conn.next_reader() {
        NextReader::Failed(WsConnectionError::UnexpectedFrameKind(_)) => {},
        _ => panic!("expected a frame-kind error"),
    }
    // The protocol-error Close went out.
    let out = conn.take_output();
    assert_eq!(out, vec![0x88, 0x02, 0x03, 0xEA]);
}

/// At most one reader: while a message is being read, the stream yields no
/// second message even though one is already buffered.
#[test]
fn single_reader_discipline() {
    let mut conn = server();
    conn.feed_input(&vec![0x82, 0x01, 0x41]);
    conn.feed_input(&vec![0x82, 0x01, 0x42]);
    assert!(matches!(conn.next_reader(), NextReader::Message(WsMessageKind::Binary)));
    // The first reader is attached and has not finished: no second grant.
    assert!(matches!(conn.next_reader(), NextReader::Pending));
    assert_eq!(read_all(&mut conn), b"A".to_vec());
    // Now the next message is handed out.
    assert!(matches!(conn.next_reader(), NextReader::Message(WsMessageKind::Binary)));
    assert_eq!(read_all(&mut conn), b"B".to_vec());
}

/// At most one writer: while a message is being written, no second writer
/// slot is granted.
#[test]
fn single_writer_discipline() {
    let mut conn = server();
    assert!(matches!(conn.next_writer(WsMessageKind::Binary), NextWriter::Ready));
    assert!(matches!(conn.next_writer(WsMessageKind::Binary), NextWriter::Pending));
    match conn.write(&vec![1, 2, 3]) {
        WriteStep::Accepted(3) => {},
        _ => panic!("write refused"),
    }
    assert!(matches!(conn.next_writer(WsMessageKind::Binary), NextWriter::Pending));
    assert!(matches!(conn.close_writer(), FlushStep::Pending));
    let _ = conn.take_output();
    conn.on_flush_done();
    assert!(matches!(conn.close_writer(), FlushStep::Flushed));
    assert!(matches!(conn.next_writer(WsMessageKind::Binary), NextWriter::Ready));
}

/// A dropped reader does not stall the stream: the engine drains the rest
/// of the message and the next one is handed out.
#[test]
fn detached_reader_is_drained() {
    let mut conn = server();
    conn.feed_input(&vec![0x82, 0x03, 1, 2, 3]);
    conn.feed_input(&vec![0x82, 0x01, 9]);
    assert!(matches!(conn.next_reader(), NextReader::Message(WsMessageKind::Binary)));
    conn.detach_reader();
    assert!(matches!(conn.next_reader(), NextReader::Message(WsMessageKind::Binary)));
    assert_eq!(read_all(&mut conn), vec![9]);
}

/// A large text message arrives as many fragments and is read as one
/// logical message.
#[test]
fn large_fragmented_text_is_one_message() {
    let mut conn = server();
    let total: usize = 100 * 1000;
    let chunk = vec![b'a'; 1000];
    // First frame: Text, fin=0.
    conn.feed_input(&vec![0x01, 126, 0x03, 0xE8]);
    conn.feed_input(&chunk);
    let mut sent = 1000;
    while sent < total {
        let fin: u8 = if sent + 1000 >= total { 0x80 } else { 0x00 };
        conn.feed_input(&vec![fin, 126, 0x03, 0xE8]);
        conn.feed_input(&chunk);
        sent += 1000;
    }
    assert!(matches!(conn.next_reader(), NextReader::Message(WsMessageKind::Text)));
    let body = read_all(&mut conn);
    assert_eq!(body.len(), total);
    assert!(body.iter().all(|&b| b == b'a'));
}

/// A big outgoing message is split into several frames; the first frames
/// carry fin=0 and the last fin=1, and the payload survives unchanged.
#[test]
fn large_message_is_fragmented_on_send() {
    let mut conn = server();
    let payload: Vec<u8> = (0..3000u32).map(|i| (i % 251) as u8).collect();
    assert!(matches!(conn.next_writer(WsMessageKind::Binary), NextWriter::Ready));
    let mut written = 0;
    while written < payload.len() {
        let rest: Vec<u8> = payload[written..].to_vec();
        match conn.write(&rest) {
            WriteStep::Accepted(n) => written += n,
            _ => panic!("write refused"),
        }
    }
    assert!(matches!(conn.close_writer(), FlushStep::Pending));
    let out = conn.take_output();
    conn.on_flush_done();
    assert!(matches!(conn.close_writer(), FlushStep::Flushed));

    // Decode the frames back and reassemble.
    let mut body = Vec::new();
    let mut pos = 0;
    let mut frames = 0;
    let mut saw_fin = false;
    while pos < out.len() {
        let rest: Vec<u8> = out[pos..].to_vec();
        let head = async_ws::frame::FrameHead::parse(&rest).unwrap();
        let hl = head.len_bytes();
        let pl = head.payload_len as usize;
        body.extend_from_slice(&out[pos + hl..pos + hl + pl]);
        assert!(!saw_fin, "no frame may follow the fin frame");
        saw_fin = head.fin;
        frames += 1;
        pos += hl + pl;
    }
    assert!(saw_fin);
    assert!(frames >= 3);
    assert_eq!(body, payload);
}

/// The client role masks every outgoing frame with a non-zero key.
#[test]
fn client_frames_are_masked() {
    let mut conn = WsConnection::with_config(WsConfig::client());
    assert!(matches!(conn.next_writer(WsMessageKind::Text), NextWriter::Ready));
    match conn.write(&b"abc".to_vec()) {
        WriteStep::Accepted(3) => {},
        _ => panic!("write refused"),
    }
    assert!(matches!(conn.close_writer(), FlushStep::Pending));
    let out = conn.take_output();
    let head = async_ws::frame::FrameHead::parse(&out).unwrap();
    assert!(head.masked());
    assert_ne!(head.mask, [0, 0, 0, 0]);
    let mut payload = out[head.len_bytes()..].to_vec();
    async_ws::frame::payload_mask(head.mask, 0, &mut payload);
    assert_eq!(payload, b"abc".to_vec());
}

/// After a write error the connection is closed with Io.
#[test]
fn write_error_closes_the_connection() {
    let mut conn = server();
    conn.on_write_error();
    assert_eq!(conn.err(), Some(WsConnectionError::Io));
    match conn.next_reader() {
        NextReader::Failed(e) => assert_eq!(e, WsConnectionError::Io),
        _ => panic!("expected the io error"),
    }
    assert!(matches!(conn.next_reader(), NextReader::Closed));
    assert!(matches!(conn.next_writer(WsMessageKind::Text), NextWriter::Closed));
}

/// A malformed close body from the peer fails the connection.
#[test]
fn close_with_one_byte_body_is_malformed() {
    let mut conn = server();
    conn.feed_input(&vec![0x88, 0x01, 0x03]);
    match conn.next_reader() {
        NextReader::Failed(WsConnectionError::FrameDecodeError(
            async_ws::frame::FrameDecodeError::InvalidCloseBody,
        )) => {},
        other => panic!("expected an invalid close body error, got {}", name_of(&other)),
    }
}

fn name_of(r: &NextReader) -> &'static str {
    match r {
        NextReader::Message(_) => "message",
        NextReader::Failed(_) => "failed",
        NextReader::Closed => "closed",
        NextReader::Pending => "pending",
    }
}

/// The transport ending mid-frame is an error; ending between frames after
/// a close handshake is not reached here.
#[test]
fn eof_inside_a_frame_is_an_error() {
    let mut conn = server();
    conn.feed_input(&vec![0x82]);
    conn.input_closed();
    match conn.next_reader() {
        NextReader::Failed(e) => assert_eq!(
            e,
            WsConnectionError::FrameDecodeError(async_ws::frame::FrameDecodeError::Io)
        ),
        _ => panic!("expected the io error"),
    }
}

/// Round trip between two engines: what a client sends, a server reads
/// back as the same message of the same kind, masking and all.
#[test]
fn client_to_server_roundtrip() {
    let mut client = WsConnection::with_config(WsConfig::client());
    let mut server_conn = server();
    let payload: Vec<u8> = (0..2000u32).map(|i| (i % 201) as u8).collect();

    assert!(matches!(client.next_writer(WsMessageKind::Binary), NextWriter::Ready));
    let mut written = 0;
    while written < payload.len() {
        let rest: Vec<u8> = payload[written..].to_vec();
        match client.write(&rest) {
            WriteStep::Accepted(n) => written += n,
            _ => panic!("write refused"),
        }
    }
    assert!(matches!(client.close_writer(), FlushStep::Pending));
    let wire = client.take_output();
    client.on_flush_done();
    assert!(matches!(client.close_writer(), FlushStep::Flushed));

    server_conn.feed_input(&wire);
    assert!(matches!(
        server_conn.next_reader(),
        NextReader::Message(WsMessageKind::Binary)
    ));
    assert_eq!(read_all(&mut server_conn), payload);
}

/// The close-state algebra: receipt and queueing move through the table's
/// corners exactly once each.
#[test]
fn close_state_algebra() {
    let body = WsControlFramePayload::new(&vec![0x03, 0xE8]);
    let mut st = CloseState::Open;
    assert!(st.open_for_sending());
    assert!(st.open_for_receiving());
    assert!(!st.queued());

    // Receiving the peer's Close queues the echo.
    st.receive(body);
    assert!(st.queued());
    assert!(st.open_for_sending());
    assert!(!st.open_for_receiving());

    // Unqueueing hands the body out exactly once and marks it sent.
    let out = st.unqueue().expect("a close was queued");
    assert_eq!(out.data(), &vec![0x03, 0xE8]);
    assert!(st.unqueue().is_none());
    assert!(!st.open_for_sending());
    assert!(!st.open_for_receiving());
}

/// Queueing locally first, then receiving, keeps the local body.
#[test]
fn close_state_local_first() {
    let local = WsControlFramePayload::new(&vec![0x03, 0xE9]);
    let remote = WsControlFramePayload::new(&vec![0x0B, 0xB8]);
    let mut st = CloseState::Open;
    st.queue(local);
    assert!(st.queued());
    st.receive(remote);
    assert!(st.queued());
    let out = st.unqueue().expect("the local close is still queued");
    assert_eq!(out.data(), &vec![0x03, 0xE9]);
    assert!(!st.open_for_sending());
}

/// A Close carrying the reserved code 1005 is malformed on the wire.
#[test]
fn close_with_code_1005_is_malformed() {
    let mut conn = server();
    conn.feed_input(&vec![0x88, 0x02, 0x03, 0xED]);
    match conn.next_reader() {
        NextReader::Failed(WsConnectionError::FrameDecodeError(
            async_ws::frame::FrameDecodeError::InvalidCloseBody,
        )) => {}
        other => panic!("expected an invalid close body error, got {}", name_of(&other)),
    }
}

/// A Pong that answers no Ping is accepted and discarded.
#[test]
fn unsolicited_pong_is_discarded() {
    let mut conn = server();
    conn.feed_input(&vec![0x8A, 0x03, 1, 2, 3]);
    assert!(matches!(conn.next_reader(), NextReader::Pending));
    assert!(conn.take_output().is_empty());
    assert!(conn.err().is_none());
}
