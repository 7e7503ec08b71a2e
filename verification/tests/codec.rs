use gmodpatchtool::codec::{Codec, FrameStep};
use tokio_util::bytes::BytesMut;

fn codec() -> Codec<u32> {
    Codec::new()
}

/// Appends the frame of `payload` to `dst`, as the link's writer does.
fn write_frame(c: &Codec<u32>, payload: &[u8], dst: &mut BytesMut) {
    let frame = c.encode_frame(payload);
    dst.reserve(frame.len());
    dst.extend_from_slice(&frame);
}

/// Takes the next payload off `src`, reserving room while waiting, as the
/// link's reader does.
fn read_frame(c: &Codec<u32>, src: &mut BytesMut) -> Option<Vec<u8>> {
    match c.decode_frame(src) {
        FrameStep::Frame(payload) => Some(payload),
        FrameStep::Wait(room) => {
            src.reserve(room);
            None
        }
    }
}

#[test]
fn encode_writes_little_endian_length_then_payload() {
    assert_eq!(codec().encode_frame(&[7, 8, 9]), vec![3, 0, 0, 0, 7, 8, 9]);
}

#[test]
fn encode_appends_after_existing_bytes() {
    let mut dst = BytesMut::from(&[1u8, 2][..]);
    write_frame(&codec(), &[5], &mut dst);
    assert_eq!(&dst[..], &[1, 2, 1, 0, 0, 0, 5]);
}

#[test]
fn encode_long_payload_prefix() {
    let payload = vec![0xabu8; 300];
    let frame = codec().encode_frame(&payload);
    assert_eq!(&frame[..4], &[44, 1, 0, 0]);
    assert_eq!(frame.len(), 304);
    assert_eq!(&frame[4..], &payload[..]);
}

#[test]
fn encode_empty_payload() {
    assert_eq!(codec().encode_frame(&[]), vec![0, 0, 0, 0]);
}

#[test]
fn decode_waits_for_prefix() {
    let mut src = BytesMut::from(&[3u8, 0, 0][..]);
    assert_eq!(codec().decode_frame(&mut src), FrameStep::Wait(0));
    assert_eq!(&src[..], &[3, 0, 0]);
}

#[test]
fn decode_waits_for_payload_and_asks_for_room() {
    let mut src = BytesMut::from(&[44u8, 1, 0, 0, 1, 2][..]);
    assert_eq!(codec().decode_frame(&mut src), FrameStep::Wait(298));
    assert_eq!(&src[..], &[44, 1, 0, 0, 1, 2]);
    assert_eq!(read_frame(&codec(), &mut src), None);
    assert!(src.capacity() >= 304);
}

#[test]
fn decode_takes_one_frame_and_keeps_the_rest() {
    let mut src = BytesMut::from(&[2u8, 0, 0, 0, 7, 8, 9, 10][..]);
    assert_eq!(codec().decode_frame(&mut src), FrameStep::Frame(vec![7, 8]));
    assert_eq!(&src[..], &[9, 10]);
}

#[test]
fn decode_empty_frame() {
    let mut src = BytesMut::from(&[0u8, 0, 0, 0][..]);
    assert_eq!(codec().decode_frame(&mut src), FrameStep::Frame(vec![]));
    assert!(src.is_empty());
}

#[test]
fn decode_reads_full_32_bit_length() {
    let mut src = BytesMut::from(&[0u8, 0, 1, 0, 1][..]);
    assert_eq!(codec().decode_frame(&mut src), FrameStep::Wait(65535));
    assert_eq!(src.len(), 5);
}

#[test]
fn roundtrip_frames_in_order() {
    let c = codec();
    let mut stream = BytesMut::new();
    write_frame(&c, b"ping 42", &mut stream);
    write_frame(&c, b"", &mut stream);
    write_frame(&c, b"pong", &mut stream);
    assert_eq!(read_frame(&c, &mut stream), Some(b"ping 42".to_vec()));
    assert_eq!(read_frame(&c, &mut stream), Some(Vec::new()));
    assert_eq!(read_frame(&c, &mut stream), Some(b"pong".to_vec()));
    assert_eq!(read_frame(&c, &mut stream), None);
    assert!(stream.is_empty());
}

#[test]
fn partial_frame_arrives_in_pieces() {
    let c = codec();
    let whole = c.encode_frame(&[1, 2, 3, 4, 5]);
    let mut stream = BytesMut::new();
    for (i, byte) in whole.iter().enumerate() {
        stream.extend_from_slice(&[*byte]);
        let got = read_frame(&c, &mut stream);
        if i + 1 < whole.len() {
            assert_eq!(got, None);
            assert_eq!(stream.len(), i + 1);
        } else {
            assert_eq!(got, Some(vec![1, 2, 3, 4, 5]));
        }
    }
}

#[test]
fn chunking_does_not_change_the_frames() {
    let c = codec();
    let payloads: Vec<Vec<u8>> = vec![b"ab".to_vec(), Vec::new(), b"cdefg".to_vec()];
    let mut all = Vec::new();
    for p in &payloads {
        all.extend_from_slice(&c.encode_frame(p));
    }
    for chunk_len in 1..=all.len() {
        let mut stream = BytesMut::new();
        let mut got = Vec::new();
        for chunk in all.chunks(chunk_len) {
            stream.extend_from_slice(chunk);
            while let Some(p) = read_frame(&c, &mut stream) {
                got.push(p);
            }
        }
        assert_eq!(got, payloads);
        assert!(stream.is_empty());
    }
}

#[test]
fn decoded_frame_encodes_back_to_the_same_bytes() {
    let c = codec();
    let original = [5u8, 0, 0, 0, 10, 20, 30, 40, 50, 99];
    let mut src = BytesMut::from(&original[..]);
    let payload = read_frame(&c, &mut src).expect("a whole frame");
    let mut again = c.encode_frame(&payload);
    again.extend_from_slice(&src);
    assert_eq!(&again[..], &original[..]);
}
