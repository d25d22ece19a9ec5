use freeswitch_esl_tokio::buffer::EslBuffer;
use freeswitch_esl_tokio::constants::MAX_BUFFER_SIZE;
use freeswitch_esl_tokio::error::EslError;

#[test]
fn test_basic_operations() {
    let mut buffer = EslBuffer::new();
    assert_eq!(buffer.len(), 0);

    buffer.extend_from_slice(b"Hello World");
    assert_eq!(buffer.len(), 11);
    assert_eq!(buffer.data(), b"Hello World");
}

#[test]
fn test_advance() {
    let mut buffer = EslBuffer::new();
    buffer.extend_from_slice(b"Hello World");

    buffer
        .advance(6)
        .unwrap();
    assert_eq!(buffer.data(), b"World");
    assert_eq!(buffer.len(), 5);
}

#[test]
fn test_advance_overflow() {
    let mut buffer = EslBuffer::new();
    buffer.extend_from_slice(b"Hello");
    assert!(buffer
        .advance(10)
        .is_err());
}

#[test]
fn test_find_pattern() {
    let mut buffer = EslBuffer::new();
    buffer.extend_from_slice(b"Header1: Value1\r\nHeader2: Value2\r\n\r\nBody");

    let pos = buffer.find_pattern(b"\r\n\r\n");
    assert_eq!(pos, Some(32));
}

#[test]
fn test_extract_until_pattern() {
    let mut buffer = EslBuffer::new();
    buffer.extend_from_slice(b"Header1: Value1\r\nHeader2: Value2\r\n\r\nBody");

    let headers = buffer
        .extract_until_pattern(b"\r\n\r\n")
        .unwrap();
    assert_eq!(headers, b"Header1: Value1\r\nHeader2: Value2");
    assert_eq!(buffer.data(), b"Body");
}

#[test]
fn test_extract_bytes() {
    let mut buffer = EslBuffer::new();
    buffer.extend_from_slice(b"Hello World");

    let data = buffer
        .extract_bytes(5)
        .unwrap();
    assert_eq!(data, b"Hello");
    assert_eq!(buffer.data(), b" World");
}

#[test]
fn test_compact() {
    let mut buffer = EslBuffer::new();
    buffer.extend_from_slice(b"Hello World");
    buffer
        .advance(6)
        .unwrap();

    assert_eq!(buffer.data(), b"World");
    buffer.compact();
    assert_eq!(buffer.data(), b"World");
}

#[test]
fn buffer_exceeding_max_size_returns_error() {
    let mut buffer = EslBuffer::new();
    let chunk = vec![0u8; 1024 * 1024];
    for _ in 0..17 {
        buffer.extend_from_slice(&chunk);
    }
    assert!(buffer.len() > MAX_BUFFER_SIZE);
    let err = buffer
        .check_size_limits()
        .unwrap_err();
    assert!(
        matches!(err, EslError::BufferOverflow { .. }),
        "expected BufferOverflow, got: {err:?}"
    );
}
