use bm1_server::codec::{decode_frame, encode_frame, frame_body_len, frame_header};

#[test]
fn test_frame_roundtrip() {
    let body: Vec<u8> = (0..42u8).collect();
    let frame = encode_frame(&body);
    assert_eq!(frame.len(), 46);
    assert_eq!(&frame[..4], &[0, 0, 0, 42]);
    let (decoded, used) = decode_frame(&frame).unwrap();
    assert_eq!(decoded, body);
    assert_eq!(used, 46);
}

#[test]
fn header_is_big_endian() {
    assert_eq!(frame_header(0x0102_0304), vec![1, 2, 3, 4]);
    assert_eq!(frame_body_len(&[1, 2, 3, 4]), 0x0102_0304);
    assert_eq!(frame_body_len(&frame_header(u32::MAX)), u32::MAX);
}

#[test]
fn incomplete_frames_are_not_taken() {
    assert!(decode_frame(&[0, 0, 0]).is_none());
    assert!(decode_frame(&[0, 0, 0, 2, 9]).is_none());
    assert_eq!(decode_frame(&[0, 0, 0, 0]), Some((vec![], 4)));
}

#[test]
fn frames_come_apart_in_order() {
    let mut stream = encode_frame(b"abc");
    stream.extend(encode_frame(b"hello"));
    let (first, used) = decode_frame(&stream).unwrap();
    assert_eq!(first, b"abc");
    let (second, used2) = decode_frame(&stream[used..]).unwrap();
    assert_eq!(second, b"hello");
    assert_eq!(used + used2, stream.len());
}
