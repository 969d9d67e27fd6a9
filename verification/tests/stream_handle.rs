use secio::stream_handle::StreamHandle;

#[test]
fn handle_reads_bytes_in_delivery_order() {
    let mut handle = StreamHandle::new();
    handle.on_frame(b"hello ");
    handle.on_frame(b"world");
    assert_eq!(handle.read(8), b"hello wo".to_vec());
    assert_eq!(handle.read(8), b"rld".to_vec());
    assert_eq!(handle.read(8), Vec::<u8>::new());
    assert!(!handle.is_eof());
    handle.on_close();
    assert!(handle.is_eof());
}

#[test]
fn handle_buffers_writes_until_flush() {
    let mut handle = StreamHandle::new();
    handle.write(b"one ");
    handle.write(b"frame");
    assert_eq!(handle.flush_payload(), b"one frame".to_vec());
    assert_eq!(handle.flush_payload(), Vec::<u8>::new());
}

#[test]
fn handle_packages_a_frame_at_the_limit() {
    let mut handle = StreamHandle::new();
    assert_eq!(handle.write_with_limit(b"abcd", 8), None);
    let packaged = handle.write_with_limit(b"efgh", 8);
    assert_eq!(packaged, Some(b"abcdefgh".to_vec()));
    assert_eq!(handle.flush_payload(), Vec::<u8>::new());
}
