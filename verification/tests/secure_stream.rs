use secio::error::SecioError;
use secio::mac::{Digest, Hmac};
use secio::secure_stream::{DriverAction, SecureStream, StreamEvent};
use secio::stream_cipher::{ctr_int, Cipher};
use secio::stream_handle::CommandQueue;

#[test]
fn test_decode_encode() {
    let cipher_key: [u8; 32] = rand::random();
    let hmac_key: [u8; 32] = rand::random();
    let null_iv = [0u8; 16];

    let data = b"hello world";

    let mut encode_data = data.to_vec();

    let mut encode_cipher = ctr_int(Cipher::Aes256, &cipher_key, &null_iv);
    let encode_hmac = Hmac::from_key(Digest::Sha256, &hmac_key);
    let mut decode_cipher = ctr_int(Cipher::Aes256, &cipher_key, &null_iv);
    let decode_hmac = encode_hmac.clone();

    encode_cipher.encrypt(&mut encode_data);
    let signature = encode_hmac.sign(&encode_data);
    encode_data.extend_from_slice(&signature);

    let content_length = encode_data.len() - decode_hmac.num_bytes();

    let (crypted_data, expected_hash) = encode_data.split_at(content_length);

    assert!(decode_hmac.verify(crypted_data, expected_hash));

    let mut decode_data = encode_data.to_vec();
    decode_data.truncate(content_length);
    decode_cipher.decrypt(&mut decode_data);

    assert_eq!(&decode_data[..], &data[..]);
}

fn secure_codec_encode_then_decode(cipher: Cipher) {
    let cipher_key: [u8; 32] = rand::random();
    let key_size = cipher.key_size();
    let hmac_key: [u8; 16] = rand::random();
    let null_iv = [0u8; 16];
    let data = b"hello world";
    let nonce = vec![0u8, 1, 2, 3, 4, 5, 6, 7, 8, 9];

    let mut server = SecureStream::new(
        ctr_int(cipher, &cipher_key[..key_size], &null_iv),
        ctr_int(cipher, &cipher_key[..key_size], &null_iv),
        Hmac::from_key(Digest::Sha256, &hmac_key),
        Hmac::from_key(Digest::Sha256, &hmac_key),
        nonce.clone(),
    );
    let mut server_handle = server.create_handle().unwrap();

    let mut client = SecureStream::new(
        ctr_int(cipher, &cipher_key[..key_size], &null_iv),
        ctr_int(cipher, &cipher_key[..key_size], &null_iv),
        Hmac::from_key(Digest::Sha256, &hmac_key),
        Hmac::from_key(Digest::Sha256, &hmac_key),
        Vec::new(),
    );
    let mut client_handle = client.create_handle().unwrap();

    client_handle.write(&nonce);
    let first = client_handle.flush_payload();
    assert_eq!(client.handle_event(StreamEvent::Frame(first)), DriverAction::SendPending);
    client_handle.write(&data[..]);
    let second = client_handle.flush_payload();
    assert_eq!(client.handle_event(StreamEvent::Frame(second)), DriverAction::SendPending);

    while let Some(frame) = client.next_outbound() {
        server.on_frame(&frame).unwrap();
    }
    for plain in server.take_inbound(1024) {
        server_handle.on_frame(&plain);
    }
    let received = server_handle.read(11);
    assert_eq!(received, data.to_vec());
}

#[test]
fn secure_codec_encode_then_decode_aes128() {
    secure_codec_encode_then_decode(Cipher::Aes128);
}

#[test]
fn secure_codec_encode_then_decode_aes256() {
    secure_codec_encode_then_decode(Cipher::Aes256);
}

#[test]
fn secure_codec_encode_then_decode_twofish() {
    secure_codec_encode_then_decode(Cipher::TwofishCtr);
}

#[test]
fn empty_nonce_delivers_plaintext_and_closes_clean() {
    // S1: AES-256-CTR, SHA-256 HMAC, empty nonce.
    let cipher_key: [u8; 32] = rand::random();
    let hmac_key: [u8; 32] = rand::random();
    let null_iv = [0u8; 16];

    let mut sender = SecureStream::new(
        ctr_int(Cipher::Aes256, &cipher_key, &null_iv),
        ctr_int(Cipher::Aes256, &cipher_key, &null_iv),
        Hmac::from_key(Digest::Sha256, &hmac_key),
        Hmac::from_key(Digest::Sha256, &hmac_key),
        Vec::new(),
    );
    let mut receiver = SecureStream::new(
        ctr_int(Cipher::Aes256, &cipher_key, &null_iv),
        ctr_int(Cipher::Aes256, &cipher_key, &null_iv),
        Hmac::from_key(Digest::Sha256, &hmac_key),
        Hmac::from_key(Digest::Sha256, &hmac_key),
        Vec::new(),
    );
    let mut sender_handle = sender.create_handle().unwrap();
    let mut receiver_handle = receiver.create_handle().unwrap();

    sender_handle.write(b"hello world");
    let payload = sender_handle.flush_payload();
    sender.handle_event(StreamEvent::Frame(payload));
    while let Some(frame) = sender.next_outbound() {
        receiver.on_frame(&frame).unwrap();
    }
    for plain in receiver.take_inbound(1024) {
        receiver_handle.on_frame(&plain);
    }
    assert_eq!(receiver_handle.read(64), b"hello world".to_vec());

    // idle close: the sender's side goes down, the receiver sees EOF
    assert_eq!(sender.handle_event(StreamEvent::Close), DriverAction::CloseSocket);
    assert!(sender.is_dead());
    receiver.terminate();
    receiver_handle.on_close();
    assert!(receiver_handle.is_eof());
}

#[test]
fn wrong_nonce_expectation_is_fatal() {
    // S3: receiver expects the reversed nonce; nothing may be delivered.
    let cipher_key: [u8; 32] = rand::random();
    let hmac_key: [u8; 32] = rand::random();
    let null_iv = [0u8; 16];
    let nonce = vec![0u8, 1, 2, 3, 4, 5, 6, 7, 8, 9];
    let reversed: Vec<u8> = nonce.iter().rev().cloned().collect();

    let mut sender = SecureStream::new(
        ctr_int(Cipher::Aes256, &cipher_key, &null_iv),
        ctr_int(Cipher::Aes256, &cipher_key, &null_iv),
        Hmac::from_key(Digest::Sha256, &hmac_key),
        Hmac::from_key(Digest::Sha256, &hmac_key),
        Vec::new(),
    );
    let mut receiver = SecureStream::new(
        ctr_int(Cipher::Aes256, &cipher_key, &null_iv),
        ctr_int(Cipher::Aes256, &cipher_key, &null_iv),
        Hmac::from_key(Digest::Sha256, &hmac_key),
        Hmac::from_key(Digest::Sha256, &hmac_key),
        reversed,
    );

    let mut sender_handle = sender.create_handle().unwrap();
    sender_handle.write(&nonce);
    sender_handle.write(b"hello world");
    let payload = sender_handle.flush_payload();
    sender.handle_event(StreamEvent::Frame(payload));
    let frame = sender.next_outbound().unwrap();
    assert_eq!(receiver.on_frame(&frame), Err(SecioError::NonceVerificationFailed));
    assert_eq!(receiver.take_inbound(1024).len(), 0);
    // the fatal error alone kills the session
    assert!(receiver.is_dead());
}

#[test]
fn tag_bit_flip_is_rejected() {
    // S4: AES-128-CTR, flip the last bit of the MAC tag in transit.
    let cipher_key: [u8; 16] = rand::random();
    let hmac_key: [u8; 32] = rand::random();
    let null_iv = [0u8; 16];

    let mut sender = SecureStream::new(
        ctr_int(Cipher::Aes128, &cipher_key, &null_iv),
        ctr_int(Cipher::Aes128, &cipher_key, &null_iv),
        Hmac::from_key(Digest::Sha256, &hmac_key),
        Hmac::from_key(Digest::Sha256, &hmac_key),
        Vec::new(),
    );
    let mut receiver = SecureStream::new(
        ctr_int(Cipher::Aes128, &cipher_key, &null_iv),
        ctr_int(Cipher::Aes128, &cipher_key, &null_iv),
        Hmac::from_key(Digest::Sha256, &hmac_key),
        Hmac::from_key(Digest::Sha256, &hmac_key),
        Vec::new(),
    );

    let mut frame = b"attack at dawn".to_vec();
    sender.encode(&mut frame);
    let last = frame.len() - 1;
    frame[last] ^= 0x01;
    assert_eq!(receiver.decode(&frame), Err(SecioError::HmacNotMatching));

    // a flip inside the ciphertext region is caught just the same
    let mut frame = b"attack at dusk".to_vec();
    sender.encode(&mut frame);
    frame[3] ^= 0x40;
    assert_eq!(receiver.decode(&frame), Err(SecioError::HmacNotMatching));
}

#[test]
fn truncated_frames_are_rejected() {
    let cipher_key: [u8; 32] = rand::random();
    let hmac_key: [u8; 32] = rand::random();
    let null_iv = [0u8; 16];

    let mut sender = SecureStream::new(
        ctr_int(Cipher::Aes256, &cipher_key, &null_iv),
        ctr_int(Cipher::Aes256, &cipher_key, &null_iv),
        Hmac::from_key(Digest::Sha256, &hmac_key),
        Hmac::from_key(Digest::Sha256, &hmac_key),
        Vec::new(),
    );
    let mut receiver = SecureStream::new(
        ctr_int(Cipher::Aes256, &cipher_key, &null_iv),
        ctr_int(Cipher::Aes256, &cipher_key, &null_iv),
        Hmac::from_key(Digest::Sha256, &hmac_key),
        Hmac::from_key(Digest::Sha256, &hmac_key),
        Vec::new(),
    );

    let mut frame = b"some payload".to_vec();
    sender.encode(&mut frame);

    // below the tag width: FrameTooShort
    let short = frame[..31].to_vec();
    assert_eq!(receiver.decode(&short), Err(SecioError::FrameTooShort));

    // a tag's worth of bytes but ciphertext cut off: the MAC cannot match
    let cut = frame[..frame.len() - 1].to_vec();
    assert_eq!(receiver.decode(&cut), Err(SecioError::HmacNotMatching));
}

#[test]
fn create_handle_succeeds_at_most_once() {
    let cipher_key: [u8; 32] = rand::random();
    let hmac_key: [u8; 32] = rand::random();
    let null_iv = [0u8; 16];
    let mut stream = SecureStream::new(
        ctr_int(Cipher::Aes256, &cipher_key, &null_iv),
        ctr_int(Cipher::Aes256, &cipher_key, &null_iv),
        Hmac::from_key(Digest::Sha256, &hmac_key),
        Hmac::from_key(Digest::Sha256, &hmac_key),
        Vec::new(),
    );
    assert!(stream.create_handle().is_ok());
    assert_eq!(stream.create_handle().err(), Some(SecioError::HandleAlreadyTaken));
    assert_eq!(stream.create_handle().err(), Some(SecioError::HandleAlreadyTaken));
}

#[test]
fn backpressure_keeps_undelivered_frames() {
    // the data channel has room for two frames: the third stays queued, not
    // dropped, and leaves on the next poll
    let cipher_key: [u8; 32] = rand::random();
    let hmac_key: [u8; 32] = rand::random();
    let null_iv = [0u8; 16];
    let mut sender = SecureStream::new(
        ctr_int(Cipher::Aes256, &cipher_key, &null_iv),
        ctr_int(Cipher::Aes256, &cipher_key, &null_iv),
        Hmac::from_key(Digest::Sha256, &hmac_key),
        Hmac::from_key(Digest::Sha256, &hmac_key),
        Vec::new(),
    );
    let mut receiver = SecureStream::new(
        ctr_int(Cipher::Aes256, &cipher_key, &null_iv),
        ctr_int(Cipher::Aes256, &cipher_key, &null_iv),
        Hmac::from_key(Digest::Sha256, &hmac_key),
        Hmac::from_key(Digest::Sha256, &hmac_key),
        Vec::new(),
    );
    for chunk in [&b"one"[..], &b"two"[..], &b"three"[..]] {
        sender.handle_event(StreamEvent::Frame(chunk.to_vec()));
    }
    while let Some(frame) = sender.next_outbound() {
        receiver.on_frame(&frame).unwrap();
    }
    let first = receiver.take_inbound(2);
    assert_eq!(first.len(), 2);
    assert_eq!(first[0], b"one".to_vec());
    assert_eq!(first[1], b"two".to_vec());
    let second = receiver.take_inbound(2);
    assert_eq!(second.len(), 1);
    assert_eq!(second[0], b"three".to_vec());
}

#[test]
fn large_transfer_in_chunks_survives_a_paused_reader() {
    // S5: Twofish, 1 MiB in 64 KiB chunks; delivery to the handle stops
    // mid-stream and resumes, and every byte arrives in order.
    let cipher_key: [u8; 32] = rand::random();
    let hmac_key: [u8; 16] = rand::random();
    let null_iv = [0u8; 16];
    let mut sender = SecureStream::new(
        ctr_int(Cipher::TwofishCtr, &cipher_key, &null_iv),
        ctr_int(Cipher::TwofishCtr, &cipher_key, &null_iv),
        Hmac::from_key(Digest::Sha256, &hmac_key),
        Hmac::from_key(Digest::Sha256, &hmac_key),
        Vec::new(),
    );
    let mut receiver = SecureStream::new(
        ctr_int(Cipher::TwofishCtr, &cipher_key, &null_iv),
        ctr_int(Cipher::TwofishCtr, &cipher_key, &null_iv),
        Hmac::from_key(Digest::Sha256, &hmac_key),
        Hmac::from_key(Digest::Sha256, &hmac_key),
        Vec::new(),
    );
    let mut receiver_handle = receiver.create_handle().unwrap();

    let chunk: Vec<u8> = (0..65536u32).map(|i| (i % 251) as u8).collect();
    let total: Vec<u8> = chunk.iter().cloned().cycle().take(1024 * 1024).collect();
    for part in total.chunks(65536) {
        sender.handle_event(StreamEvent::Frame(part.to_vec()));
    }
    while let Some(frame) = sender.next_outbound() {
        receiver.on_frame(&frame).unwrap();
    }
    // the reader pauses after half the frames...
    for plain in receiver.take_inbound(8) {
        receiver_handle.on_frame(&plain);
    }
    let first_half = receiver_handle.read(1024 * 1024);
    // ...and resumes
    for plain in receiver.take_inbound(1024) {
        receiver_handle.on_frame(&plain);
    }
    let second_half = receiver_handle.read(1024 * 1024);
    let mut got = first_half;
    got.extend_from_slice(&second_half);
    assert_eq!(got.len(), total.len());
    assert!(got == total);
}

#[test]
fn close_command_is_terminal() {
    let cipher_key: [u8; 32] = rand::random();
    let hmac_key: [u8; 32] = rand::random();
    let null_iv = [0u8; 16];
    let mut stream = SecureStream::new(
        ctr_int(Cipher::Aes256, &cipher_key, &null_iv),
        ctr_int(Cipher::Aes256, &cipher_key, &null_iv),
        Hmac::from_key(Digest::Sha256, &hmac_key),
        Hmac::from_key(Digest::Sha256, &hmac_key),
        Vec::new(),
    );
    assert!(!stream.is_dead());
    assert_eq!(stream.handle_event(StreamEvent::Flush), DriverAction::FlushAck);
    assert!(!stream.is_dead());
    assert_eq!(stream.handle_event(StreamEvent::Close), DriverAction::CloseSocket);
    assert!(stream.is_dead());
}

#[test]
fn pending_frames_drain_in_order_before_shutdown() {
    // dropping every handle: the driver drains the outbound queue, then the
    // stream terminates
    let cipher_key: [u8; 32] = rand::random();
    let hmac_key: [u8; 32] = rand::random();
    let null_iv = [0u8; 16];
    let mut sender = SecureStream::new(
        ctr_int(Cipher::Aes256, &cipher_key, &null_iv),
        ctr_int(Cipher::Aes256, &cipher_key, &null_iv),
        Hmac::from_key(Digest::Sha256, &hmac_key),
        Hmac::from_key(Digest::Sha256, &hmac_key),
        Vec::new(),
    );
    let mut receiver = SecureStream::new(
        ctr_int(Cipher::Aes256, &cipher_key, &null_iv),
        ctr_int(Cipher::Aes256, &cipher_key, &null_iv),
        Hmac::from_key(Digest::Sha256, &hmac_key),
        Hmac::from_key(Digest::Sha256, &hmac_key),
        Vec::new(),
    );
    let mut receiver_handle = receiver.create_handle().unwrap();
    sender.handle_event(StreamEvent::Frame(b"first".to_vec()));
    sender.handle_event(StreamEvent::Frame(b"second".to_vec()));

    // a not-ready socket sends one frame back to the queue; order is kept
    let frame = sender.next_outbound().unwrap();
    sender.requeue_outbound(frame);

    let mut wire: Vec<Vec<u8>> = Vec::new();
    while let Some(frame) = sender.next_outbound() {
        wire.push(frame);
    }
    sender.terminate();
    assert!(sender.is_dead());

    for frame in &wire {
        receiver.on_frame(frame).unwrap();
    }
    for plain in receiver.take_inbound(1024) {
        receiver_handle.on_frame(&plain);
    }
    assert_eq!(receiver_handle.read(64), b"firstsecond".to_vec());
    receiver_handle.on_close();
    assert!(receiver_handle.is_eof());
}

#[test]
fn command_channel_full_suspends_the_writer() {
    let mut q = CommandQueue::new(2);
    assert!(q.try_send(StreamEvent::Frame(b"a".to_vec())).is_none());
    assert!(q.try_send(StreamEvent::Frame(b"b".to_vec())).is_none());
    // bound reached: the command comes back instead of being dropped
    let back = q.try_send(StreamEvent::Frame(b"c".to_vec()));
    assert!(matches!(back, Some(StreamEvent::Frame(ref v)) if v == b"c"));
    assert_eq!(q.len(), 2);
    // the reader resumes, room opens, the retried send goes through
    assert!(matches!(q.pop(), Some(StreamEvent::Frame(ref v)) if v == b"a"));
    assert!(q.try_send(back.unwrap()).is_none());
    assert_eq!(q.len(), 2);
}

#[test]
fn nonce_echo_may_span_frames() {
    let cipher_key: [u8; 32] = rand::random();
    let hmac_key: [u8; 32] = rand::random();
    let null_iv = [0u8; 16];
    let nonce = vec![0u8, 1, 2, 3, 4, 5, 6, 7, 8, 9];

    let mut sender = SecureStream::new(
        ctr_int(Cipher::Aes256, &cipher_key, &null_iv),
        ctr_int(Cipher::Aes256, &cipher_key, &null_iv),
        Hmac::from_key(Digest::Sha256, &hmac_key),
        Hmac::from_key(Digest::Sha256, &hmac_key),
        Vec::new(),
    );
    let mut receiver = SecureStream::new(
        ctr_int(Cipher::Aes256, &cipher_key, &null_iv),
        ctr_int(Cipher::Aes256, &cipher_key, &null_iv),
        Hmac::from_key(Digest::Sha256, &hmac_key),
        Hmac::from_key(Digest::Sha256, &hmac_key),
        nonce.clone(),
    );

    // the nonce arrives in two frames; nothing is delivered until it is done
    sender.handle_event(StreamEvent::Frame(nonce[..4].to_vec()));
    sender.handle_event(StreamEvent::Frame(nonce[4..].to_vec()));
    sender.handle_event(StreamEvent::Frame(b"payload".to_vec()));
    let first = sender.next_outbound().unwrap();
    receiver.on_frame(&first).unwrap();
    assert!(receiver
        .take_inbound(1024)
        .iter()
        .all(|plain| plain.is_empty()));
    while let Some(frame) = sender.next_outbound() {
        receiver.on_frame(&frame).unwrap();
    }
    let rest: Vec<u8> = receiver.take_inbound(1024).concat();
    assert_eq!(rest, b"payload".to_vec());
}
