use simengine::network::{frame_length, frame_message, is_connection_closed, IoErrorKind};

#[test]
fn frame_starts_with_big_endian_length() {
    let framed = frame_message(b"abc").expect("small body");
    assert_eq!(framed, vec![0, 0, 0, 3, b'a', b'b', b'c']);
    let empty = frame_message(&[]).expect("empty body");
    assert_eq!(empty, vec![0, 0, 0, 0]);
}

#[test]
fn frame_length_reads_big_endian() {
    assert_eq!(frame_length([0, 0, 1, 0]), 256);
    assert_eq!(frame_length([1, 2, 3, 4]), 0x0102_0304);
    assert_eq!(frame_length([0xff, 0xff, 0xff, 0xff]), u32::MAX);
}

#[test]
fn framed_length_reads_back() {
    let body = vec![5u8; 300];
    let framed = frame_message(&body).expect("body");
    let header = [framed[0], framed[1], framed[2], framed[3]];
    assert_eq!(frame_length(header) as usize, body.len());
    assert_eq!(&framed[4..], &body[..]);
}

#[test]
fn closed_connection_kinds() {
    assert!(is_connection_closed(IoErrorKind::UnexpectedEof));
    assert!(is_connection_closed(IoErrorKind::ConnectionReset));
    assert!(is_connection_closed(IoErrorKind::ConnectionAborted));
    assert!(is_connection_closed(IoErrorKind::BrokenPipe));
    assert!(!is_connection_closed(IoErrorKind::Other));
}
