use tokimo_media_intelligence::frame::{
    encode_error_frame, relay_chunk, stream_chunk, write_raw_frame, FrameReader, ReadFailure,
    ReadStep,
};
use tokimo_media_intelligence::rpc::RpcError;

fn bad(message: &str) -> RpcError {
    RpcError::BadRequest(message.to_string())
}

fn broken(message: &str) -> RpcError {
    RpcError::Transport(message.to_string())
}

#[test]
fn frame_bytes() {
    assert_eq!(write_raw_frame(&[], 10), Ok(vec![0, 0, 0, 0]));
    assert_eq!(write_raw_frame(&[7, 8, 9], 10), Ok(vec![0, 0, 0, 3, 7, 8, 9]));
    let out = write_raw_frame(&vec![1u8; 0x01_02_03], 0x01_02_03).unwrap();
    assert_eq!(&out[..5], &[0, 1, 2, 3, 1]);
    assert_eq!(out.len(), 0x01_02_03 + 4);
}

#[test]
fn frame_over_the_limit_is_not_written() {
    assert_eq!(write_raw_frame(&[0; 10], 10).unwrap().len(), 14);
    assert_eq!(write_raw_frame(&[0; 11], 10), Err(bad("frame too large: 11")));
    assert_eq!(write_raw_frame(&[0], 0), Err(bad("frame too large: 1")));
}

#[test]
fn chunks() {
    assert_eq!(stream_chunk(Some(vec![5, 6])), Some(vec![0, 0, 0, 2, 5, 6]));
    assert_eq!(stream_chunk(Some(vec![])), Some(vec![0, 0, 0, 0]));
    assert_eq!(stream_chunk(None), None);
    assert_eq!(relay_chunk(&[1, 2, 3]), vec![0, 0, 0, 3, 1, 2, 3]);
}

#[test]
fn error_frames() {
    assert_eq!(encode_error_frame(Ok(vec![9])), Ok(vec![0, 0, 0, 1, 9]));
    assert_eq!(encode_error_frame(Err(broken("no"))), Err(broken("no")));
}

#[test]
fn reader_asks_for_prefix_then_payload() {
    let mut reader = FrameReader::new(300);
    assert_eq!(reader.max_payload(), 300);
    assert_eq!(reader.read_raw_frame(), ReadStep::Need(4));
    reader.feed(&[0, 0, 1]);
    assert_eq!(reader.read_raw_frame(), ReadStep::Need(1));
    reader.feed(&[4]);
    assert_eq!(reader.read_raw_frame(), ReadStep::Need(260));
    reader.feed(&[3; 260]);
    assert_eq!(reader.read_raw_frame(), ReadStep::Frame(vec![3; 260]));
    assert_eq!(reader.read_raw_frame(), ReadStep::Need(4));
}

#[test]
fn reader_refuses_a_prefix_over_the_limit() {
    let mut reader = FrameReader::new(5);
    reader.feed(&[0, 0, 0, 6]);
    assert_eq!(reader.read_raw_frame(), ReadStep::Fail(bad("frame too large: 6")));
    assert_eq!(reader.read_raw_frame(), ReadStep::Need(4));
    reader.feed(&[0, 0, 0, 1, 8]);
    assert_eq!(reader.read_raw_frame(), ReadStep::Frame(vec![8]));
    let mut reader = FrameReader::new(5);
    reader.feed(&[255, 255, 255, 255]);
    assert_eq!(reader.read_raw_frame(), ReadStep::Fail(bad("frame too large: 4294967295")));
}

#[test]
fn reader_tells_clean_ends_from_broken_ones() {
    let mut reader = FrameReader::new(5);
    assert_eq!(reader.read_failed(true, ReadFailure::EndOfInput(broken("eof"))), Ok(()));
    assert_eq!(reader.read_failed(false, ReadFailure::EndOfInput(broken("eof"))), Err(broken("eof")));
    assert_eq!(reader.read_failed(true, ReadFailure::Broken(broken("io"))), Err(broken("io")));
    reader.feed(&[0, 0, 0]);
    assert_eq!(reader.read_failed(true, ReadFailure::EndOfInput(broken("eof"))), Ok(()));
    reader.feed(&[2]);
    assert_eq!(reader.read_failed(true, ReadFailure::EndOfInput(broken("eof"))), Err(broken("eof")));
}

#[test]
fn written_frames_are_read_back() {
    let payloads: Vec<Vec<u8>> = vec![vec![1], vec![], vec![2, 3, 4], vec![0; 100]];
    let mut wire: Vec<u8> = Vec::new();
    for payload in &payloads {
        wire.extend(write_raw_frame(payload, 100).unwrap());
    }
    for piece in [1usize, 3, 4, 7, 1000] {
        let mut reader = FrameReader::new(100);
        let mut seen: Vec<Vec<u8>> = Vec::new();
        for bytes in wire.chunks(piece) {
            reader.feed(bytes);
            while let ReadStep::Frame(payload) = reader.read_raw_frame() {
                seen.push(payload);
            }
        }
        assert_eq!(seen, payloads);
        let relayed: Vec<u8> = seen.iter().flat_map(|p| relay_chunk(p)).collect();
        assert_eq!(relayed, wire);
    }
}

#[test]
fn response_stream_skips_what_was_not_encoded() {
    let items: Vec<Option<Vec<u8>>> = vec![Some(vec![1, 2]), None, Some(vec![]), None, Some(vec![3])];
    let mut reader = FrameReader::new(10);
    for item in items {
        if let Some(chunk) = stream_chunk(item) {
            reader.feed(&chunk);
        }
    }
    assert_eq!(reader.read_raw_frame(), ReadStep::Frame(vec![1, 2]));
    assert_eq!(reader.read_raw_frame(), ReadStep::Frame(vec![]));
    assert_eq!(reader.read_raw_frame(), ReadStep::Frame(vec![3]));
    assert_eq!(reader.read_raw_frame(), ReadStep::Need(4));
}
