use cscp::{get_frame, sum, Frame, Message};

fn bytes_of(frame: &Frame) -> Vec<u8> {
    match &frame.msg {
        Message::MSG(m) => m.buffer.clone(),
        _ => panic!("not a message frame"),
    }
}

#[test]
fn set_fader_level_encodes_header_command_target_value_and_checksum() {
    let bytes = bytes_of(&Frame::set_fader_level(3, 744));
    assert_eq!(bytes, vec![0xF1, 0x06, 0x00, 0x80, 0x00, 0x00, 0x03, 0x02, 0xE8, 0x93]);
    let total: u32 = bytes[3..].iter().map(|&b| b as u32).sum();
    assert_eq!(total % 256, 0);
}

#[test]
fn set_fader_cut_encodes_flag_byte() {
    assert_eq!(
        bytes_of(&Frame::set_fader_cut(3, true)),
        vec![0xF1, 0x05, 0x00, 0x80, 0x01, 0x00, 0x03, 0x01, 0x7B]
    );
}

#[test]
fn set_fader_pfl_encodes_off_as_zero() {
    assert_eq!(
        bytes_of(&Frame::set_fader_pfl(2, false)),
        vec![0xF1, 0x05, 0x00, 0x80, 0x05, 0x00, 0x02, 0x00, 0x79]
    );
}

#[test]
fn set_main_level_encodes_big_endian_level() {
    assert_eq!(
        bytes_of(&Frame::set_main_level(1, 0x1234)),
        vec![0xF1, 0x06, 0x00, 0x80, 0x02, 0x00, 0x01, 0x12, 0x34, 0x37]
    );
}

#[test]
fn set_main_pfl_encodes_opcode_0c() {
    assert_eq!(
        bytes_of(&Frame::set_main_pfl(1, true)),
        vec![0xF1, 0x05, 0x00, 0x80, 0x0C, 0x00, 0x01, 0x01, 0x72]
    );
}

#[test]
fn console_queries_have_no_target() {
    assert_eq!(bytes_of(&Frame::get_console_name()), vec![0xF1, 0x02, 0x00, 0x00, 0x07, 0xF9]);
    assert_eq!(bytes_of(&Frame::get_console_info()), vec![0xF1, 0x02, 0x00, 0x00, 0x08, 0xF8]);
}

#[test]
fn fader_queries_carry_the_fader_number() {
    assert_eq!(
        bytes_of(&Frame::get_fader_level(3)),
        vec![0xF1, 0x04, 0x00, 0x00, 0x00, 0x00, 0x03, 0xFD]
    );
    assert_eq!(
        bytes_of(&Frame::get_fader_cut(3)),
        vec![0xF1, 0x04, 0x00, 0x00, 0x01, 0x00, 0x03, 0xFC]
    );
    assert_eq!(
        bytes_of(&Frame::get_fader_pfl(3)),
        vec![0xF1, 0x04, 0x00, 0x00, 0x05, 0x00, 0x03, 0xF8]
    );
    assert_eq!(
        bytes_of(&Frame::get_fader_label(3)),
        vec![0xF1, 0x04, 0x00, 0x00, 0x0B, 0x00, 0x03, 0xF2]
    );
}

#[test]
fn send_with_zero_sum_body_has_zero_checksum() {
    assert_eq!(bytes_of(&Frame::send(vec![0, 0], vec![], vec![])), vec![0xF1, 0x02, 0x00, 0x00, 0x00, 0x00]);
}

#[test]
fn send_largest_body_declares_255() {
    let frame = Frame::send(vec![0xFF, 0xFF], vec![0xFF; 200], vec![0xFF; 53]);
    let bytes = bytes_of(&frame);
    assert_eq!(bytes.len(), 259);
    assert_eq!(bytes[1], 255);
    let total: u32 = bytes[3..].iter().map(|&b| b as u32).sum();
    assert_eq!(total % 256, 0);
    assert!(frame.checksum_valid());
}

#[test]
fn checksum_holds_for_every_builder() {
    for frame in [
        Frame::set_fader_level(0xFFFF, 0xFFFF),
        Frame::set_fader_cut(7, true),
        Frame::set_main_pfl(2, false),
        Frame::get_console_info(),
        Frame::get_fader_label(300),
    ] {
        let bytes = bytes_of(&frame);
        let total: u32 = bytes[3..].iter().map(|&b| b as u32).sum();
        assert_eq!(total % 256, 0);
        assert!(frame.checksum_valid());
    }
}

#[test]
fn checksum_valid_rejects_altered_byte() {
    let mut bytes = bytes_of(&Frame::set_fader_level(3, 744));
    bytes[8] = 0xE9;
    let frame = Frame::new(Message::MSG(cscp::FrameMessage { buffer: bytes }));
    assert!(!frame.checksum_valid());
}

#[test]
fn check_reports_incomplete_for_empty_window() {
    assert_eq!(Frame::check(&[]), None);
}

#[test]
fn check_ack_is_one_byte() {
    assert_eq!(Frame::check(&[0x04]), Some(1));
    assert_eq!(Frame::check(&[0x04, 0xF1, 0x09]), Some(1));
}

#[test]
fn check_err_needs_two_bytes() {
    assert_eq!(Frame::check(&[0x05]), None);
    assert_eq!(Frame::check(&[0x05, 0x07]), Some(2));
}

#[test]
fn check_message_needs_declared_length() {
    assert_eq!(Frame::check(&[0xF1, 0x02, 0x00]), None);
    assert_eq!(Frame::check(&[0xF1, 0x02, 0x00, 0x00, 0x07]), None);
    assert_eq!(Frame::check(&[0xF1, 0x02, 0x00, 0x00, 0x07, 0xF9]), Some(6));
    assert_eq!(Frame::check(&[0xF1, 0x02, 0x00, 0x00, 0x07, 0xF9, 0x04]), Some(6));
}

#[test]
fn check_large_declared_length_does_not_wrap() {
    let mut window = vec![0xF1, 0xFF, 0x00];
    window.extend(vec![0u8; 255]);
    assert_eq!(Frame::check(&window), None);
    window.push(0);
    assert_eq!(Frame::check(&window), Some(259));
}

#[test]
fn sum_adds_bytes_as_numbers() {
    assert_eq!(sum(&vec![]), 0);
    assert_eq!(sum(&vec![0x80, 0x00, 0x00, 0x03, 0x02, 0xE8]), 365);
    assert_eq!(sum(&vec![0xFF; 257]), 65535);
}

#[test]
fn get_frame_takes_the_prefix() {
    let src = [1u8, 2, 3, 4];
    assert_eq!(get_frame(&src, 2), &[1u8, 2][..]);
    assert_eq!(get_frame(&src, 0), &[] as &[u8]);
}

#[test]
fn outbound_bytes_only_for_messages() {
    let frame = Frame::get_console_info();
    assert_eq!(frame.outbound_bytes(), Some(&vec![0xF1, 0x02, 0x00, 0x00, 0x08, 0xF8]));
    let ack = Frame::new(Message::ACK(cscp::FrameAck {}));
    assert_eq!(ack.outbound_bytes(), None);
    let err = Frame::new(Message::ERR(cscp::FrameError { error: 3 }));
    assert_eq!(err.outbound_bytes(), None);
}
