use snek::config::{ACCEPT_ATTEMPTS, SIZE_CEILING};
use snek::error::ProtocolError;
use snek::framing::{decode_header, encode_header, FrameState, HEADER_LEN};
use snek::receiver::FrameReceiver;
use snek::server::{AcceptLoop, AttemptOutcome, ServerStep};

fn frame(payload: &[u8]) -> Vec<u8> {
    let mut stream = encode_header(payload.len() as u64);
    stream.extend_from_slice(payload);
    stream
}

/// Feeds the stream in chunks of `chunk` bytes, as far as the receiver wants
/// them, and collects what it hands back.
fn receive(stream: &[u8], chunk: usize) -> (FrameReceiver, Result<Vec<u8>, ProtocolError>) {
    let mut rx = FrameReceiver::new();
    let mut written = Vec::new();
    let mut pos = 0;
    while !rx.is_complete() && pos < stream.len() {
        let end = (pos + chunk).min(stream.len());
        match rx.feed(&stream[pos..end]) {
            Ok(out) => written.extend_from_slice(&out),
            Err(e) => return (rx, Err(e)),
        }
        pos = end;
    }
    let result = rx.end_of_stream().map(|()| written);
    (rx, result)
}

#[test]
fn ceiling_is_four_mebibytes() {
    assert_eq!(SIZE_CEILING, 4_194_304);
    assert_eq!(HEADER_LEN, 8);
}

#[test]
fn header_is_little_endian() {
    assert_eq!(encode_header(0), vec![0; 8]);
    assert_eq!(encode_header(0x0102030405060708), vec![8, 7, 6, 5, 4, 3, 2, 1]);
    assert_eq!(encode_header(SIZE_CEILING), vec![0, 0, 0x40, 0, 0, 0, 0, 0]);
}

#[test]
fn header_within_ceiling_is_accepted() {
    assert_eq!(decode_header(&[5, 0, 0, 0, 0, 0, 0, 0]), Ok(5));
    assert_eq!(decode_header(&[0, 0, 0x40, 0, 0, 0, 0, 0]), Ok(SIZE_CEILING));
    assert_eq!(decode_header(&[0; 8]), Ok(0));
}

#[test]
fn header_over_ceiling_is_denied() {
    assert_eq!(
        decode_header(&[1, 0, 0x40, 0, 0, 0, 0, 0]),
        Err(ProtocolError::TooLarge { declared: SIZE_CEILING + 1 })
    );
    assert_eq!(decode_header(&[0xff; 8]), Err(ProtocolError::TooLarge { declared: u64::MAX }));
}

#[test]
fn transfer_in_one_chunk_is_exact() {
    let payload = b"hello, network".to_vec();
    let (rx, result) = receive(&frame(&payload), 4096);
    assert_eq!(result, Ok(payload));
    assert_eq!(rx.state(), FrameState::Complete);
}

#[test]
fn transfer_byte_by_byte_is_exact() {
    let payload: Vec<u8> = (0..=255u8).cycle().take(1000).collect();
    let (_, result) = receive(&frame(&payload), 1);
    assert_eq!(result, Ok(payload));
}

#[test]
fn transfer_at_ceiling_is_exact() {
    let payload: Vec<u8> = (0..SIZE_CEILING).map(|i| (i % 251) as u8).collect();
    let (_, result) = receive(&frame(&payload), 65536);
    let written = result.unwrap();
    assert_eq!(written.len() as u64, SIZE_CEILING);
    assert_eq!(written, payload);
}

#[test]
fn empty_file_is_a_valid_transfer() {
    let stream = [0u8; 8];
    let (rx, result) = receive(&stream, 8);
    assert_eq!(result, Ok(Vec::new()));
    assert!(rx.is_complete());
    assert_eq!(rx.wanted(), 0);
}

#[test]
fn bytes_after_the_frame_are_not_copied() {
    let mut stream = frame(b"abc");
    let extra = frame(b"second frame");
    stream.extend_from_slice(&extra);
    let mut rx = FrameReceiver::new();
    assert_eq!(rx.feed(&stream), Ok(b"abc".to_vec()));
    assert!(rx.is_complete());
    assert_eq!(rx.end_of_stream(), Ok(()));
}

#[test]
fn oversize_header_is_rejected_before_payload() {
    let mut stream = encode_header(SIZE_CEILING + 1);
    stream.extend_from_slice(b"payload bytes");
    let mut rx = FrameReceiver::new();
    assert_eq!(rx.feed(&stream), Err(ProtocolError::TooLarge { declared: SIZE_CEILING + 1 }));
    assert_eq!(rx.state(), FrameState::Rejected);
    assert_eq!(rx.wanted(), 0);
}

#[test]
fn oversize_header_split_across_chunks_is_rejected() {
    let stream = encode_header(u64::MAX);
    let mut rx = FrameReceiver::new();
    assert_eq!(rx.feed(&stream[..3]), Ok(Vec::new()));
    assert_eq!(rx.feed(&stream[3..]), Err(ProtocolError::TooLarge { declared: u64::MAX }));
}

#[test]
fn receiver_wants_exactly_what_is_owed() {
    let mut rx = FrameReceiver::new();
    assert_eq!(rx.state(), FrameState::AwaitingHeader);
    assert_eq!(rx.wanted(), 8);
    assert_eq!(rx.feed(&[10, 0, 0]), Ok(Vec::new()));
    assert_eq!(rx.wanted(), 5);
    assert_eq!(rx.feed(&[0, 0, 0, 0, 0]), Ok(Vec::new()));
    assert_eq!(rx.state(), FrameState::Copying);
    assert_eq!(rx.wanted(), 10);
    assert_eq!(rx.feed(&[1, 2, 3, 4]), Ok(vec![1, 2, 3, 4]));
    assert_eq!(rx.wanted(), 6);
    assert_eq!(rx.feed(&[5, 6, 7, 8, 9, 10, 11, 12]), Ok(vec![5, 6, 7, 8, 9, 10]));
    assert_eq!(rx.wanted(), 0);
    assert!(rx.is_complete());
}

#[test]
fn header_and_payload_in_one_chunk_after_partial_header() {
    let stream = frame(b"xyz");
    let mut rx = FrameReceiver::new();
    assert_eq!(rx.feed(&stream[..6]), Ok(Vec::new()));
    assert_eq!(rx.feed(&stream[6..]), Ok(b"xyz".to_vec()));
    assert!(rx.is_complete());
}

#[test]
fn truncated_payload_fails_at_end_of_stream() {
    let stream = frame(b"0123456789");
    let (_, result) = receive(&stream[..12], 5);
    assert_eq!(result, Err(ProtocolError::Truncated { received: 12 }));
}

#[test]
fn truncated_header_fails_at_end_of_stream() {
    let mut rx = FrameReceiver::new();
    assert_eq!(rx.feed(&[1, 2]), Ok(Vec::new()));
    assert_eq!(rx.end_of_stream(), Err(ProtocolError::Truncated { received: 2 }));
    let empty = FrameReceiver::new();
    assert_eq!(empty.end_of_stream(), Err(ProtocolError::Truncated { received: 0 }));
}

#[test]
fn server_gives_up_after_three_failures() {
    assert_eq!(ACCEPT_ATTEMPTS, 3);
    let mut server = AcceptLoop::new();
    assert_eq!(server.on_attempt(AttemptOutcome::Failed), ServerStep::AcceptAgain);
    assert_eq!(server.on_attempt(AttemptOutcome::Failed), ServerStep::AcceptAgain);
    assert_eq!(server.on_attempt(AttemptOutcome::Failed), ServerStep::GiveUp);
}

#[test]
fn server_finishes_on_first_delivery() {
    let mut server = AcceptLoop::new();
    assert_eq!(server.on_attempt(AttemptOutcome::Delivered), ServerStep::Finish);
    let mut server = AcceptLoop::new();
    assert_eq!(server.on_attempt(AttemptOutcome::Failed), ServerStep::AcceptAgain);
    assert_eq!(server.on_attempt(AttemptOutcome::Failed), ServerStep::AcceptAgain);
    assert_eq!(server.on_attempt(AttemptOutcome::Delivered), ServerStep::Finish);
}

#[test]
fn rejected_header_spends_an_attempt() {
    let mut server = AcceptLoop::new();
    for _ in 0..ACCEPT_ATTEMPTS {
        let mut rx = FrameReceiver::new();
        let outcome = match rx.feed(&encode_header(SIZE_CEILING + 1)) {
            Ok(_) => AttemptOutcome::Delivered,
            Err(_) => AttemptOutcome::Failed,
        };
        assert_eq!(outcome, AttemptOutcome::Failed);
        let step = server.on_attempt(outcome);
        assert_ne!(step, ServerStep::Finish);
    }
}
