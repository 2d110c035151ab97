use libbdgt::crypto::{CryptoBuffer, DestructiveFrom};

#[test]
fn new_buffer_is_empty() {
    let buffer = CryptoBuffer::new();
    assert!(buffer.as_bytes().is_empty());
}

#[test]
fn default_buffer_is_empty() {
    let buffer = CryptoBuffer::default();
    assert_eq!(buffer.as_bytes(), &[] as &[u8]);
}

#[test]
fn buffer_from_vec_holds_the_bytes() {
    let buffer = CryptoBuffer::from(vec![1u8, 2, 3, 250]);
    assert_eq!(buffer.as_bytes(), &[1u8, 2, 3, 250]);
}

#[test]
fn buffer_from_slice_copies_the_bytes() {
    let source = [9u8, 8, 7];
    let buffer = CryptoBuffer::from(&source[..]);
    assert_eq!(buffer.as_bytes(), &[9u8, 8, 7]);
    assert_eq!(source, [9u8, 8, 7]);
}

#[test]
fn destroy_data_zeroes_every_byte() {
    let mut data = vec![0xffu8, 1, 0, 42, 7];
    CryptoBuffer::destroy_data(&mut data);
    assert_eq!(data, vec![0u8; 5]);
}

#[test]
fn destroy_data_accepts_nothing() {
    let mut data: Vec<u8> = Vec::new();
    CryptoBuffer::destroy_data(&mut data);
    assert!(data.is_empty());
}

#[test]
fn wipe_zeroes_the_buffer_and_keeps_its_length() {
    let mut buffer = CryptoBuffer::from(vec![5u8, 6, 7, 8]);
    buffer.wipe();
    assert_eq!(buffer.as_bytes(), &[0u8, 0, 0, 0]);
}

#[test]
fn destructive_from_copies_the_secret() {
    let mut secret = String::from("hunter2");
    let buffer = CryptoBuffer::destructive_from(&mut secret);
    assert_eq!(buffer.as_bytes(), b"hunter2");
}

#[test]
fn destructive_from_zeroes_the_source() {
    let mut secret = String::from("pa\u{df}word");
    let length = secret.len();
    assert_eq!(length, 8);
    let buffer = CryptoBuffer::destructive_from(&mut secret);
    assert_eq!(buffer.as_bytes(), "pa\u{df}word".as_bytes());
    assert_eq!(secret.len(), length);
    assert!(secret.as_bytes().iter().all(|b| *b == 0));
    assert_eq!(secret, "\0\0\0\0\0\0\0\0");
}

#[test]
fn destructive_from_zeroes_in_place() {
    let mut secret = String::from("a secret that sits on the heap");
    let before = secret.as_ptr();
    let _buffer = CryptoBuffer::destructive_from(&mut secret);
    assert_eq!(secret.as_ptr(), before);
}

#[test]
fn destructive_from_empty_string() {
    let mut secret = String::new();
    let buffer = CryptoBuffer::destructive_from(&mut secret);
    assert!(buffer.as_bytes().is_empty());
    assert!(secret.is_empty());
}
