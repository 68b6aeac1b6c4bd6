use cscp::{Frame, FrameParser, Message};

/// A comparable description of a frame: kind, error code, message bytes.
fn describe(frame: &Frame) -> (u8, u8, Vec<u8>) {
    match &frame.msg {
        Message::ACK(_) => (0, 0, vec![]),
        Message::ERR(e) => (1, e.error, vec![]),
        Message::MSG(m) => (2, 0, m.buffer.clone()),
    }
}

fn stream() -> Vec<u8> {
    let mut bytes = vec![0x04];
    bytes.extend(match Frame::set_fader_level(3, 744).msg {
        Message::MSG(m) => m.buffer,
        _ => unreachable!(),
    });
    bytes.extend([0x05, 0x07]);
    bytes.extend([0xF1, 0x02, 0x00, 0x00, 0x07, 0xF9]);
    bytes
}

#[test]
fn ack_byte_decodes_to_ack_and_consumes_one_byte() {
    let mut parser = FrameParser::new();
    parser.extend(&[0x04, 0x04]);
    assert_eq!(describe(&parser.parse_frame().unwrap()), (0, 0, vec![]));
    assert_eq!(describe(&parser.parse_frame().unwrap()), (0, 0, vec![]));
    assert!(parser.parse_frame().is_none());
}

#[test]
fn err_bytes_decode_to_err_code_and_consume_two_bytes() {
    let mut parser = FrameParser::new();
    parser.extend(&[0x05, 0x07, 0x04]);
    assert_eq!(describe(&parser.parse_frame().unwrap()), (1, 7, vec![]));
    assert_eq!(describe(&parser.parse_frame().unwrap()), (0, 0, vec![]));
    assert!(parser.parse_frame().is_none());
}

#[test]
fn incomplete_frame_stays_buffered() {
    let mut parser = FrameParser::new();
    parser.extend(&[0xF1, 0x02, 0x00, 0x00]);
    assert!(parser.parse_frame().is_none());
    assert!(parser.parse_frame().is_none());
    parser.extend(&[0x07, 0xF9]);
    assert_eq!(
        describe(&parser.parse_frame().unwrap()),
        (2, 0, vec![0xF1, 0x02, 0x00, 0x00, 0x07, 0xF9])
    );
    assert!(parser.parse_frame().is_none());
}

#[test]
fn empty_parser_has_no_frame() {
    let mut parser = FrameParser::new();
    assert!(parser.parse_frame().is_none());
    assert!(parser.drain_frames().is_empty());
}

#[test]
fn drain_takes_every_queued_frame_in_order() {
    let mut parser = FrameParser::new();
    parser.extend(&stream());
    let frames: Vec<_> = parser.drain_frames().iter().map(describe).collect();
    assert_eq!(frames.len(), 4);
    assert_eq!(frames[0], (0, 0, vec![]));
    assert_eq!(frames[1].0, 2);
    assert_eq!(frames[1].2[4], 0x00);
    assert_eq!(frames[2], (1, 7, vec![]));
    assert_eq!(frames[3], (2, 0, vec![0xF1, 0x02, 0x00, 0x00, 0x07, 0xF9]));
}

#[test]
fn one_chunk_and_byte_by_byte_give_the_same_frames() {
    let bytes = stream();
    let mut whole = FrameParser::new();
    let at_once: Vec<_> = whole.receive(&bytes).iter().map(describe).collect();
    let mut split = FrameParser::new();
    let mut one_by_one = Vec::new();
    for b in &bytes {
        one_by_one.extend(split.receive(&[*b]).iter().map(describe));
    }
    assert_eq!(at_once, one_by_one);
    assert_eq!(at_once.len(), 4);
}

#[test]
fn uneven_chunks_give_the_same_frames() {
    let bytes = stream();
    let mut whole = FrameParser::new();
    let at_once: Vec<_> = whole.receive(&bytes).iter().map(describe).collect();
    let mut split = FrameParser::new();
    let mut chunked = Vec::new();
    for chunk in bytes.chunks(3) {
        chunked.extend(split.receive(chunk).iter().map(describe));
    }
    assert_eq!(at_once, chunked);
}

#[test]
fn appended_bytes_do_not_change_a_complete_frame() {
    let frame = vec![0xF1, 0x02, 0x00, 0x00, 0x07, 0xF9];
    let mut alone = FrameParser::new();
    alone.extend(&frame);
    let first = describe(&alone.parse_frame().unwrap());
    let mut longer = FrameParser::new();
    let mut more = frame.clone();
    more.extend([0xF1, 0x09, 0x00, 0x04]);
    longer.extend(&more);
    assert_eq!(describe(&longer.parse_frame().unwrap()), first);
    assert_eq!(Frame::check(&frame), Frame::check(&more));
}

#[test]
fn encoded_frame_decodes_back_to_same_command_and_payload() {
    let sent = match Frame::set_fader_level(3, 744).msg {
        Message::MSG(m) => m.buffer,
        _ => unreachable!(),
    };
    let mut parser = FrameParser::new();
    let frames = parser.receive(&sent);
    assert_eq!(frames.len(), 1);
    let (kind, _, bytes) = describe(&frames[0]);
    assert_eq!(kind, 2);
    assert_eq!(bytes, sent);
    assert_eq!(&bytes[3..5], &[0x80, 0x00]);
    assert_eq!(&bytes[5..bytes[1] as usize + 3], &[0x00, 0x03, 0x02, 0xE8]);
    assert!(parser.parse_frame().is_none());
}
