use crypto_stream::cipher::XorStreamCipher;
use crypto_stream::reader::DecryptedReader;
use crypto_stream::writer::EncryptedWriter;
use crypto_stream::StreamError;

/// Drive the writer's flush phase with a transport that accepts
/// `per_call` bytes each time, collecting everything it acknowledged.
fn drain_writer(w: &mut EncryptedWriter<XorStreamCipher>, per_call: usize) -> Vec<u8> {
    let mut wire = Vec::new();
    while !w.idle() {
        let pending = w.pending_data().to_vec();
        let n = if per_call < pending.len() { per_call } else { pending.len() };
        wire.extend_from_slice(&pending[..n]);
        w.ack_written(n).expect("transport accepted bytes");
    }
    wire
}

/// Encrypt `chunks` through a writer, returning the full wire stream.
fn encrypt_all(key: &[u8], iv: &[u8], chunks: &[&[u8]], per_call: usize) -> Vec<u8> {
    let cipher = XorStreamCipher::new(key, iv);
    let mut w = EncryptedWriter::new_with_iv(cipher, iv);
    let mut wire = Vec::new();
    for chunk in chunks {
        w.start_submit(chunk).expect("cipher never fails");
        wire.extend_from_slice(&drain_writer(&mut w, per_call));
    }
    wire
}

/// Decrypt `ciphertext` through a reader, feeding the transport bytes in
/// `feed_size` pieces and draining with `read_size` requests.
fn decrypt_all(key: &[u8], iv: &[u8], ciphertext: &[u8], feed_size: usize, read_size: usize) -> Vec<u8> {
    let cipher = XorStreamCipher::new(key, iv);
    let mut r = DecryptedReader::new(cipher);
    let mut plain = Vec::new();
    let mut offset = 0;
    loop {
        while r.needs_fill() {
            let end = std::cmp::min(offset + feed_size, ciphertext.len());
            r.feed(&ciphertext[offset..end]).expect("cipher never fails");
            offset = end;
        }
        let chunk = r.read_buffered(read_size);
        if chunk.is_empty() {
            break;
        }
        plain.extend_from_slice(&chunk);
    }
    plain
}

/// The XOR keystream the cipher applies, for computing expected bytes.
fn keystream_byte(key: &[u8], iv: &[u8], i: usize) -> u8 {
    let k = if key.is_empty() { 0 } else { key[i % key.len()] };
    let v = if iv.is_empty() { 0 } else { iv[i % iv.len()] };
    k ^ v
}

fn xor_with_keystream(key: &[u8], iv: &[u8], start: usize, data: &[u8]) -> Vec<u8> {
    data.iter().enumerate().map(|(j, b)| b ^ keystream_byte(key, iv, start + j)).collect()
}

#[test]
fn example_scenario_zero_key_zero_iv() {
    // key = 16 zero bytes, IV = 16 zero bytes: the keystream is all
    // zeros, so the ciphertext equals the plaintext.
    let key = [0u8; 16];
    let iv = [0u8; 16];
    let wire = encrypt_all(&key, &iv, &[b"hello"], usize::MAX);
    let mut expected = vec![0u8; 16];
    expected.extend_from_slice(b"hello");
    assert_eq!(wire, expected);
    assert_eq!(wire.len(), 21);

    // The session layer strips the 16-byte IV prefix and keys the
    // reader's cipher with it; the reader consumes the remaining bytes.
    let (wire_iv, ciphertext) = wire.split_at(16);
    let cipher = XorStreamCipher::new(&key, wire_iv);
    let mut r = DecryptedReader::new(cipher);
    r.feed(ciphertext).unwrap();
    assert_eq!(r.read_buffered(1024), b"hello");
    // Next transport read reports EOF; every read after that returns 0.
    r.feed(&[]).unwrap();
    assert!(r.read_buffered(1024).is_empty());
    assert!(r.read_buffered(1024).is_empty());
}

#[test]
fn round_trip_sizes() {
    let key = [7u8, 1, 255, 3, 9, 100, 42, 11];
    let iv = [13u8, 2, 250, 77];
    let multi_block: Vec<u8> = (0..20000u32).map(|i| (i * 31 % 251) as u8).collect();
    let cases: Vec<&[u8]> = vec![b"", b"x", b"hello world", &multi_block];
    for plaintext in cases {
        let wire = encrypt_all(&key, &iv, &[plaintext], usize::MAX);
        assert_eq!(&wire[..iv.len()], &iv);
        let plain = decrypt_all(&key, &iv, &wire[iv.len()..], 8192, 4096);
        assert_eq!(plain, plaintext);
    }
}

#[test]
fn round_trip_many_submits() {
    let key = [200u8, 15, 3];
    let iv = [9u8, 9, 8, 7, 6];
    let chunks: Vec<&[u8]> = vec![b"first ", b"", b"second ", b"third"];
    let wire = encrypt_all(&key, &iv, &chunks, 3);
    let plain = decrypt_all(&key, &iv, &wire[iv.len()..], 2, 5);
    assert_eq!(plain, b"first second third");
}

#[test]
fn iv_sent_exactly_once_at_start() {
    let key = [1u8, 2, 3, 4];
    let iv = [0xAAu8, 0xBB, 0xCC, 0xDD, 0xEE, 0xFF];
    let wire = encrypt_all(&key, &iv, &[b"abcdef", b"ghijkl"], usize::MAX);
    // The wire stream is the IV, exactly once, at the very start,
    // followed by the ciphertext of the concatenated submissions.
    assert_eq!(&wire[..6], &iv);
    let expected_ct = xor_with_keystream(&key, &iv, 0, b"abcdefghijkl");
    assert_eq!(&wire[6..], &expected_ct);
    assert_eq!(wire.len(), 6 + 12);
}

#[test]
fn iv_not_resent_by_later_submit() {
    let key = [0u8; 4];
    let iv = [0x55u8; 4];
    let cipher = XorStreamCipher::new(&key, &iv);
    let mut w = EncryptedWriter::new(cipher, bytes::Bytes::copy_from_slice(&iv));
    w.start_submit(b"one").unwrap();
    let first = drain_writer(&mut w, usize::MAX);
    w.start_submit(b"two").unwrap();
    let second = drain_writer(&mut w, usize::MAX);
    assert_eq!(first.len(), 4 + 3);
    assert_eq!(&first[..4], &iv);
    // The second flush carries ciphertext only: no second IV copy.
    assert_eq!(second.len(), 3);
}

#[test]
fn eof_is_permanent_and_loses_nothing() {
    let key = [3u8, 1, 4, 1, 5];
    let iv = [9u8, 2, 6];
    let plaintext = b"all delivered before eof";
    let wire = encrypt_all(&key, &iv, &[&plaintext[..]], usize::MAX);
    let cipher = XorStreamCipher::new(&key, &iv);
    let mut r = DecryptedReader::new(cipher);
    r.feed(&wire[iv.len()..]).unwrap();
    let mut plain = Vec::new();
    loop {
        while r.needs_fill() {
            // Transport EOF, repeatedly observed only once: after the
            // first zero-length read the reader never asks again.
            r.feed(&[]).unwrap();
        }
        let chunk = r.read_buffered(7);
        if chunk.is_empty() {
            break;
        }
        plain.extend_from_slice(&chunk);
    }
    assert_eq!(plain, plaintext);
    for _ in 0..5 {
        assert!(!r.needs_fill());
        assert!(r.read_buffered(64).is_empty());
    }
}

#[test]
fn one_byte_transport_delivers_everything_in_order() {
    let key = [11u8, 22, 33];
    let iv = [44u8, 55];
    // A transport stub that accepts only 1 byte per call still drains
    // the full, correctly ordered wire stream: nothing duplicated or
    // skipped.
    let wire_slow = encrypt_all(&key, &iv, &[b"patience is a virtue"], 1);
    let wire_fast = encrypt_all(&key, &iv, &[b"patience is a virtue"], usize::MAX);
    assert_eq!(wire_slow, wire_fast);
}

#[test]
fn zero_byte_write_is_unexpected_eof() {
    let key = [1u8; 4];
    let iv = [2u8; 4];
    let cipher = XorStreamCipher::new(&key, &iv);
    let mut w = EncryptedWriter::new(cipher, bytes::Bytes::copy_from_slice(&iv));
    w.start_submit(b"pending data").unwrap();
    assert!(w.pending_len() > 0);
    // A transport that accepts 0 bytes while data is pending is broken:
    // an error, not a retry loop.
    assert_eq!(w.ack_written(0), Err(StreamError::UnexpectedEof));
    // The writer did not lose the pending bytes over the failed call.
    assert_eq!(w.pending_len(), 4 + 12);
}

#[test]
fn chunking_independence() {
    let key = [90u8, 80, 70, 60, 50];
    let iv = [1u8, 3, 5, 7];
    let plaintext: Vec<u8> = (0..9000u32).map(|i| (i % 256) as u8).collect();
    let wire = encrypt_all(&key, &iv, &[&plaintext[..]], usize::MAX);
    let ciphertext = &wire[iv.len()..];
    // One large transport read vs. many 1-byte reads, drained with
    // different caller-slice sizes: identical plaintext.
    let a = decrypt_all(&key, &iv, ciphertext, ciphertext.len(), 100);
    let b = decrypt_all(&key, &iv, ciphertext, 1, 1);
    let c = decrypt_all(&key, &iv, ciphertext, 4096, 1234);
    assert_eq!(a, plaintext);
    assert_eq!(b, plaintext);
    assert_eq!(c, plaintext);
}

#[test]
fn empty_key_and_iv_are_identity_keystream() {
    let wire = encrypt_all(&[], &[], &[b"plain as day"], usize::MAX);
    // No IV bytes to prefix, zero keystream: the wire is the plaintext.
    assert_eq!(wire, b"plain as day");
    let plain = decrypt_all(&[], &[], &wire, 3, 4);
    assert_eq!(plain, b"plain as day");
}

#[test]
fn ciphertext_actually_differs_from_plaintext() {
    let key = [0xFFu8; 8];
    let iv = [0u8; 8];
    let wire = encrypt_all(&key, &iv, &[b"visible"], usize::MAX);
    // With an all-ones keystream every ciphertext byte is the bitwise
    // complement of its plaintext byte.
    let body = &wire[8..];
    let expected: Vec<u8> = b"visible".iter().map(|b| !b).collect();
    assert_eq!(body, &expected);
}

#[test]
fn reader_serves_caller_sized_slices() {
    let key = [5u8, 10, 15];
    let iv = [20u8, 25];
    let plaintext = b"0123456789";
    let wire = encrypt_all(&key, &iv, &[&plaintext[..]], usize::MAX);
    let cipher = XorStreamCipher::new(&key, &iv);
    let mut r = DecryptedReader::new(cipher);
    r.feed(&wire[2..]).unwrap();
    // Tiny caller slices drain the one buffered transport read without
    // re-issuing transport reads.
    assert_eq!(r.read_buffered(3), b"012");
    assert!(!r.needs_fill());
    assert_eq!(r.read_buffered(3), b"345");
    assert_eq!(r.read_buffered(3), b"678");
    assert_eq!(r.read_buffered(3), b"9");
    assert!(r.needs_fill());
}
