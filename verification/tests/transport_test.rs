use playwright_core::error::Error;
use playwright_core::transport::{encode_frame, FrameReader, MAX_PAYLOAD_LEN, PREFIX_LEN};

#[test]
fn a_frame_is_the_length_lowest_byte_first_and_the_payload() {
    assert_eq!(PREFIX_LEN, 4);
    assert_eq!(MAX_PAYLOAD_LEN, 4294967295);
    assert_eq!(encode_frame(b"{}"), Ok(vec![2, 0, 0, 0, b'{', b'}']));
    assert_eq!(encode_frame(b""), Ok(vec![0, 0, 0, 0]));
    let payload = vec![7u8; 0x012345];
    let frame = encode_frame(&payload).unwrap();
    assert_eq!(&frame[..4], &[0x45, 0x23, 0x01, 0x00]);
    assert_eq!(&frame[4..], &payload[..]);
    let payload = vec![1u8; 256];
    assert_eq!(&encode_frame(&payload).unwrap()[..4], &[0, 1, 0, 0]);
}

#[test]
fn a_frame_is_handed_out_when_it_is_whole() {
    let mut reader = FrameReader::new();
    assert_eq!(reader.buffered(), 0);
    assert_eq!(reader.next_frame(), None);
    reader.push(&[3, 0]);
    assert_eq!(reader.next_frame(), None);
    reader.push(&[0, 0, b'a']);
    assert_eq!(reader.next_frame(), None);
    assert_eq!(reader.buffered(), 5);
    reader.push(&[b'b', b'c', 1]);
    assert_eq!(reader.next_frame(), Some(b"abc".to_vec()));
    assert_eq!(reader.buffered(), 1);
    assert_eq!(reader.next_frame(), None);
    reader.push(&[0, 0, 0, b'z']);
    assert_eq!(reader.next_frame(), Some(b"z".to_vec()));
    assert_eq!(reader.buffered(), 0);
}

#[test]
fn frames_come_out_in_the_order_they_came_in() {
    let mut reader = FrameReader::new();
    let mut stream = encode_frame(b"first").unwrap();
    stream.extend(encode_frame(b"").unwrap());
    stream.extend(encode_frame(b"third").unwrap());
    reader.push(&stream);
    assert_eq!(reader.next_frame(), Some(b"first".to_vec()));
    assert_eq!(reader.next_frame(), Some(Vec::new()));
    assert_eq!(reader.next_frame(), Some(b"third".to_vec()));
    assert_eq!(reader.next_frame(), None);
}

#[test]
fn what_is_written_is_read_back() {
    let payload: Vec<u8> = (0..70000u32).map(|i| (i % 251) as u8).collect();
    let frame = encode_frame(&payload).unwrap();
    let mut reader = FrameReader::new();
    for chunk in frame.chunks(4096) {
        assert_eq!(reader.next_frame(), None);
        reader.push(chunk);
    }
    assert_eq!(reader.next_frame(), Some(payload));
    assert_eq!(reader.buffered(), 0);
}

#[test]
fn the_end_between_frames_is_a_closed_transport() {
    let mut reader = FrameReader::new();
    assert_eq!(reader.finish(), Error::TransportClosed);
    reader.push(&encode_frame(b"whole").unwrap());
    reader.next_frame().unwrap();
    assert_eq!(reader.finish(), Error::TransportClosed);
}

#[test]
fn the_end_within_a_frame_is_a_protocol_error() {
    let mut reader = FrameReader::new();
    reader.push(&[5, 0, 0]);
    assert_eq!(
        reader.finish(),
        Error::ProtocolError("Stream ended within a frame".to_string())
    );
    reader.push(&[0, b'a', b'b']);
    assert_eq!(reader.next_frame(), None);
    assert_eq!(
        reader.finish(),
        Error::ProtocolError("Stream ended within a frame".to_string())
    );
}
