use g3_resolver::chunked::{ChunkedEncodeTransferInternal, StreamToChunkedTransfer};

#[test]
fn encode_two_no_trailer() {
    let body_len: usize = 24;
    let data1 = b"test\n";
    let data2 = b"body";
    let reads = vec![data1.to_vec(), data2.to_vec()];

    let mut chunked_encoder = ChunkedEncodeTransferInternal::new(1024, true);
    let write_buf = chunked_encoder.encode_all(&reads);

    let nw = chunked_encoder.total_write();
    assert_eq!(nw, body_len as u64);
    assert!(chunked_encoder.finished());

    assert_eq!(write_buf.as_slice(), b"5\r\ntest\n\r\n4\r\nbody\r\n0\r\n\r\n" as &[u8]);
}

#[test]
fn encode_two_pending_trailer() {
    let body_len: usize = 22;
    let data1 = b"test\n";
    let data2 = b"body";
    let reads = vec![data1.to_vec(), data2.to_vec()];

    let mut chunked_encoder = ChunkedEncodeTransferInternal::new(1024, false);
    let write_buf = chunked_encoder.encode_all(&reads);

    let nw = chunked_encoder.total_write();
    assert_eq!(nw, body_len as u64);
    assert!(chunked_encoder.finished());

    assert_eq!(write_buf.as_slice(), b"5\r\ntest\n\r\n4\r\nbody\r\n0\r\n" as &[u8]);
}

#[test]
fn encode_empty_no_trailer() {
    let body_len: usize = 5;
    let reads: Vec<Vec<u8>> = Vec::new();

    let mut chunked_encoder = ChunkedEncodeTransferInternal::new(1024, true);
    let write_buf = chunked_encoder.encode_all(&reads);

    let nw = chunked_encoder.total_write();
    assert_eq!(nw, body_len as u64);
    assert!(chunked_encoder.finished());

    assert_eq!(write_buf.as_slice(), b"0\r\n\r\n" as &[u8]);
}

#[test]
fn encode_empty_pending_trailer() {
    let body_len: usize = 3;
    let reads: Vec<Vec<u8>> = Vec::new();

    let mut chunked_encoder = ChunkedEncodeTransferInternal::new(1024, false);
    let write_buf = chunked_encoder.encode_all(&reads);

    let nw = chunked_encoder.total_write();
    assert_eq!(nw, body_len as u64);
    assert!(chunked_encoder.finished());

    assert_eq!(write_buf.as_slice(), b"0\r\n" as &[u8]);
}

#[test]
fn encode_large_chunk_hex_header() {
    // 255 bytes must be framed with the two-digit hex size line "ff".
    let reads = vec![vec![0x61u8; 255]];
    let mut enc = ChunkedEncodeTransferInternal::new(1024, true);
    let out = enc.encode_all(&reads);
    assert_eq!(&out[..4], b"ff\r\n" as &[u8]);
    assert_eq!(out.len(), 4 + 255 + 2 + 5);
    assert_eq!(enc.total_write(), out.len() as u64);
}

#[test]
fn stepwise_partial_writes() {
    // Drive the state machine as the copy loop does, with the writer
    // accepting the header in two pieces.
    let mut enc = ChunkedEncodeTransferInternal::new(1024, true);
    assert!(enc.is_idle());
    assert!(!enc.finished());

    enc.begin_chunk(5);
    assert!(enc.is_active());
    assert_eq!(enc.header_bytes().as_slice(), b"5\r\n" as &[u8]);
    assert!(!enc.no_cached_data());

    enc.note_header_write(1);
    assert_eq!(enc.header_offset(), 1);
    enc.note_header_write(2);
    assert!(!enc.no_cached_data());

    enc.note_data_write(3);
    assert_eq!(enc.left_chunk_size(), 2);
    enc.note_data_write(2);
    assert!(enc.no_cached_data());
    enc.end_chunk();

    enc.begin_chunk(0);
    assert!(enc.read_finished());
    assert_eq!(enc.header_bytes().as_slice(), b"\r\n0\r\n\r\n" as &[u8]);
    let n = enc.header_bytes().len();
    enc.note_header_write(n);
    assert!(enc.finished());
    assert_eq!(enc.total_write(), 15);

    enc.reset_active();
    assert!(enc.is_idle());
}

#[test]
fn transfer_wrapper_forwards_state() {
    let reader: Vec<u8> = b"data".to_vec();
    let writer: Vec<u8> = Vec::new();
    let mut t = StreamToChunkedTransfer::new_with_no_trailer(reader, writer, 4096);
    assert!(t.is_idle());
    assert!(!t.is_active());
    assert!(!t.finished());
    assert!(t.no_cached_data());
    t.internal.begin_chunk(4);
    assert!(t.is_active());
    assert!(!t.no_cached_data());
    t.reset_active();
    assert!(t.is_idle());

    let t2 = StreamToChunkedTransfer::new_with_pending_trailer(0u8, 0u8, 16);
    assert!(!t2.finished());
}
