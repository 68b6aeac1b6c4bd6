//! Frames of the wire protocol: building outbound messages with their
//! checksum, and classifying a window of received bytes.
use vstd::prelude::*;
use vstd::slice::slice_subrange;

verus! {

/// First byte of every message frame.
pub const SYNC: u8 = 0xF1;

/// The single byte of an acknowledgement frame.
pub const ACK_BYTE: u8 = 0x04;

/// First byte of an error frame; the error code follows.
pub const ERR_BYTE: u8 = 0x05;

#[derive(Debug, Clone)]
pub struct FrameAck {}

#[derive(Debug, Clone)]
pub struct FrameError {
    pub error: u8,
}

#[derive(Debug, Clone)]
pub struct FrameMessage {
    pub buffer: Vec<u8>,
}

#[derive(Debug, Clone)]
pub enum Message {
    ACK(FrameAck),
    ERR(FrameError),
    MSG(FrameMessage),
}

#[derive(Debug, Clone)]
pub struct Frame {
    pub msg: Message,
}

/// What a frame is, as a mathematical value: an acknowledgement, an error
/// code, or the complete bytes of a message frame.
pub enum FrameModel {
    Ack,
    Error(u8),
    Msg(Seq<u8>),
}

/// Sum of the bytes, each taken as a number.
pub open spec fn byte_sum(s: Seq<u8>) -> nat
    decreases s.len(),
{
    if s.len() == 0 {
        0
    } else {
        byte_sum(s.drop_last()) + s.last() as nat
    }
}

/// The byte that makes the sum of `body` and itself a multiple of 256.
pub open spec fn checksum_of(body: Seq<u8>) -> u8 {
    ((256 - byte_sum(body) % 256) % 256) as u8
}

/// A 16-bit value in big-endian byte order.
pub open spec fn be16(v: u16) -> Seq<u8> {
    seq![(v / 256) as u8, (v % 256) as u8]
}

/// A flag as one byte: 1 for on, 0 for off.
pub open spec fn flag_byte(b: bool) -> u8 {
    if b {
        1
    } else {
        0
    }
}

/// The message frame for a command: header, command, target, value, checksum.
pub open spec fn encode(cmd: Seq<u8>, data: Seq<u8>, value: Seq<u8>) -> Seq<u8> {
    let body = cmd + data + value;
    seq![SYNC, body.len() as u8, 0u8] + body + seq![checksum_of(body)]
}

/// Length of the frame that starts `s`, once all of it has arrived; `None`
/// while it is incomplete.
pub open spec fn frame_len(s: Seq<u8>) -> Option<nat> {
    if s.len() == 0 {
        None
    } else if s[0] == ACK_BYTE {
        Some(1)
    } else if s[0] == ERR_BYTE {
        if s.len() >= 2 {
            Some(2)
        } else {
            None
        }
    } else if s.len() >= 4 && s[1] + 4 <= s.len() {
        Some(s[1] as nat + 4)
    } else {
        None
    }
}

/// The frame that starts `s`, meaningful where `frame_len(s)` is `Some`.
pub open spec fn frame_at(s: Seq<u8>) -> FrameModel {
    if s[0] == ACK_BYTE {
        FrameModel::Ack
    } else if s[0] == ERR_BYTE {
        FrameModel::Error(s[1])
    } else {
        FrameModel::Msg(s.subrange(0, s[1] + 4))
    }
}

/// The two command bytes of a message frame.
pub open spec fn msg_command(m: Seq<u8>) -> Seq<u8> {
    m.subrange(3, 5)
}

/// What follows the command in a message frame, up to the checksum; its end
/// is computed from the declared length.
pub open spec fn msg_payload(m: Seq<u8>) -> Seq<u8> {
    m.subrange(5, m[1] + 3)
}

/// A message frame whose bytes after the header sum to a multiple of 256.
pub open spec fn checksum_holds(m: Seq<u8>) -> bool {
    m.len() >= 4 && byte_sum(m.subrange(3, m.len() as int)) % 256 == 0
}

impl Frame {
    pub open spec fn model(&self) -> FrameModel {
        match self.msg {
            Message::ACK(_) => FrameModel::Ack,
            Message::ERR(e) => FrameModel::Error(e.error),
            Message::MSG(m) => FrameModel::Msg(m.buffer@),
        }
    }

    pub fn new(msg: Message) -> (r: Frame)
        ensures
            r.msg == msg,
    {
        Frame { msg }
    }

    pub fn set_fader_level(fader_number: u16, value: u16) -> (r: Frame)
        ensures
            r.model() == FrameModel::Msg(encode(seq![0x80u8, 0x00u8], be16(fader_number), be16(value))),
    {
        Frame::send(vec![0x80, 0x00], put_u16(fader_number), put_u16(value))
    }

    pub fn set_fader_cut(fader_number: u16, is_on: bool) -> (r: Frame)
        ensures
            r.model() == FrameModel::Msg(
                encode(seq![0x80u8, 0x01u8], be16(fader_number), seq![flag_byte(is_on)]),
            ),
    {
        Frame::send(vec![0x80, 0x01], put_u16(fader_number), put_flag(is_on))
    }

    pub fn set_fader_pfl(fader_number: u16, is_on: bool) -> (r: Frame)
        ensures
            r.model() == FrameModel::Msg(
                encode(seq![0x80u8, 0x05u8], be16(fader_number), seq![flag_byte(is_on)]),
            ),
    {
        Frame::send(vec![0x80, 0x05], put_u16(fader_number), put_flag(is_on))
    }

    pub fn set_main_level(main_number: u16, value: u16) -> (r: Frame)
        ensures
            r.model() == FrameModel::Msg(encode(seq![0x80u8, 0x02u8], be16(main_number), be16(value))),
    {
        Frame::send(vec![0x80, 0x02], put_u16(main_number), put_u16(value))
    }

    pub fn set_main_pfl(main_number: u16, is_on: bool) -> (r: Frame)
        ensures
            r.model() == FrameModel::Msg(
                encode(seq![0x80u8, 0x0Cu8], be16(main_number), seq![flag_byte(is_on)]),
            ),
    {
        Frame::send(vec![0x80, 0x0C], put_u16(main_number), put_flag(is_on))
    }

    pub fn get_console_name() -> (r: Frame)
        ensures
            r.model() == FrameModel::Msg(encode(seq![0x00u8, 0x07u8], seq![], seq![])),
    {
        Frame::send(vec![0x00, 0x07], Vec::new(), Vec::new())
    }

    pub fn get_console_info() -> (r: Frame)
        ensures
            r.model() == FrameModel::Msg(encode(seq![0x00u8, 0x08u8], seq![], seq![])),
    {
        Frame::send(vec![0x00, 0x08], Vec::new(), Vec::new())
    }

    pub fn get_fader_level(fader_number: u16) -> (r: Frame)
        ensures
            r.model() == FrameModel::Msg(encode(seq![0x00u8, 0x00u8], be16(fader_number), seq![])),
    {
        Frame::send(vec![0x00, 0x00], put_u16(fader_number), Vec::new())
    }

    pub fn get_fader_cut(fader_number: u16) -> (r: Frame)
        ensures
            r.model() == FrameModel::Msg(encode(seq![0x00u8, 0x01u8], be16(fader_number), seq![])),
    {
        Frame::send(vec![0x00, 0x01], put_u16(fader_number), Vec::new())
    }

    pub fn get_fader_pfl(fader_number: u16) -> (r: Frame)
        ensures
            r.model() == FrameModel::Msg(encode(seq![0x00u8, 0x05u8], be16(fader_number), seq![])),
    {
        Frame::send(vec![0x00, 0x05], put_u16(fader_number), Vec::new())
    }

    pub fn get_fader_label(fader_number: u16) -> (r: Frame)
        ensures
            r.model() == FrameModel::Msg(encode(seq![0x00u8, 0x0Bu8], be16(fader_number), seq![])),
    {
        Frame::send(vec![0x00, 0x0B], put_u16(fader_number), Vec::new())
    }

    /// The message frame for a command, its target and its value. The declared
    /// length is one byte, so the three together hold at most 255 bytes.
    pub fn send(cmd: Vec<u8>, data: Vec<u8>, value: Vec<u8>) -> (r: Frame)
        requires
            cmd@.len() + data@.len() + value@.len() <= 255,
        ensures
            r.model() == FrameModel::Msg(encode(cmd@, data@, value@)),
    {
        let byte_count = (cmd.len() + data.len() + value.len()) as u8;
        let cmd_sum = sum(&cmd);
        let data_sum = sum(&data);
        let value_sum = sum(&value);
        proof {
            lemma_byte_sum_concat(cmd@, data@);
            lemma_byte_sum_concat(cmd@ + data@, value@);
            lemma_byte_sum_bound(cmd@);
            lemma_byte_sum_bound(data@);
            lemma_byte_sum_bound(value@);
        }
        let byte_sum: u16 = cmd_sum + data_sum + value_sum;
        let checksum = ((256 - byte_sum % 256) % 256) as u8;
        let mut outgoing: Vec<u8> = Vec::new();
        outgoing.push(SYNC);
        outgoing.push(byte_count);
        outgoing.push(0);
        append(&mut outgoing, &cmd);
        append(&mut outgoing, &data);
        append(&mut outgoing, &value);
        outgoing.push(checksum);
        proof {
            let body = cmd@ + data@ + value@;
            assert(outgoing@ =~= seq![SYNC, body.len() as u8, 0u8] + body + seq![checksum_of(body)]);
        }
        Frame::new(Message::MSG(FrameMessage { buffer: outgoing }))
    }

    /// Length of the complete frame at the start of `src`, or `None` while
    /// more bytes are needed. Never an error: a short window is incomplete.
    pub fn check(src: &[u8]) -> (r: Option<usize>)
        ensures
            r is Some <==> frame_len(src@) is Some,
            r matches Some(n) ==> frame_len(src@) == Some(n as nat),
    {
        let remaining = src.len();
        if remaining < 1 {
            return None;
        }
        let first = src[0];
        if first == ACK_BYTE {
            Some(1)
        } else if first == ERR_BYTE {
            if remaining >= 2 {
                Some(2)
            } else {
                None
            }
        } else {
            if remaining < 4 {
                return None;
            }
            let len = src[1] as usize + 4;
            if len <= remaining {
                Some(len)
            } else {
                None
            }
        }
    }

    /// The bytes to write to the console: a message frame's own; nothing for
    /// an acknowledgement or an error, which only the console sends.
    pub fn outbound_bytes(&self) -> (r: Option<&Vec<u8>>)
        ensures
            match self.model() {
                FrameModel::Msg(m) => r matches Some(b) && b@ == m,
                _ => r is None,
            },
    {
        match &self.msg {
            Message::MSG(m) => Some(&m.buffer),
            _ => None,
        }
    }

    /// Whether a message frame's bytes after the header sum to a multiple of
    /// 256, as the sender's checksum makes them; frames without a checksum
    /// pass.
    pub fn checksum_valid(&self) -> (r: bool)
        ensures
            r == match self.model() {
                FrameModel::Msg(m) => checksum_holds(m),
                _ => true,
            },
    {
        match &self.msg {
            Message::MSG(m) => {
                let buf = &m.buffer;
                if buf.len() < 4 {
                    return false;
                }
                let mut acc: u64 = 0;
                let mut i: usize = 3;
                while i < buf.len()
                    invariant
                        3 <= i <= buf@.len(),
                        acc < 256,
                        acc == byte_sum(buf@.subrange(3, i as int)) % 256,
                    decreases buf@.len() - i,
                {
                    proof {
                        assert(buf@.subrange(3, i as int + 1).drop_last() =~= buf@.subrange(3, i as int));
                    }
                    acc = (acc + buf[i] as u64) % 256;
                    i = i + 1;
                }
                acc == 0
            },
            _ => true,
        }
    }
}

/// A 16-bit value in big-endian byte order.
pub fn put_u16(v: u16) -> (r: Vec<u8>)
    ensures
        r@ == be16(v),
{
    let r = vec![(v / 256) as u8, (v % 256) as u8];
    assert(r@ =~= be16(v));
    r
}

/// A flag as one byte.
pub fn put_flag(b: bool) -> (r: Vec<u8>)
    ensures
        r@ == seq![flag_byte(b)],
{
    let r = vec![if b { 1u8 } else { 0u8 }];
    assert(r@ =~= seq![flag_byte(b)]);
    r
}

/// The first `end` bytes of `src`.
pub fn get_frame(src: &[u8], end: usize) -> (r: &[u8])
    requires
        end <= src@.len(),
    ensures
        r@ == src@.subrange(0, end as int),
{
    slice_subrange(src, 0, end)
}

/// Sum of the bytes of `list`; at most 257 bytes, so that it fits.
pub fn sum(list: &Vec<u8>) -> (r: u16)
    requires
        list@.len() <= 257,
    ensures
        r == byte_sum(list@),
{
    let mut total: u16 = 0;
    let mut i: usize = 0;
    while i < list.len()
        invariant
            i <= list@.len() <= 257,
            total == byte_sum(list@.subrange(0, i as int)),
            total <= 255 * i,
        decreases list@.len() - i,
    {
        proof {
            assert(list@.subrange(0, i as int + 1).drop_last() =~= list@.subrange(0, i as int));
        }
        total = total + list[i] as u16;
        i = i + 1;
    }
    assert(list@.subrange(0, list@.len() as int) =~= list@);
    total
}

fn append(out: &mut Vec<u8>, src: &Vec<u8>)
    ensures
        final(out)@ == old(out)@ + src@,
{
    let mut i: usize = 0;
    while i < src.len()
        invariant
            i <= src@.len(),
            out@ == old(out)@ + src@.subrange(0, i as int),
        decreases src@.len() - i,
    {
        out.push(src[i]);
        i = i + 1;
        assert(out@ =~= old(out)@ + src@.subrange(0, i as int));
    }
    assert(src@.subrange(0, src@.len() as int) =~= src@);
}

/// The byte sum of a concatenation is the sum of the byte sums.
pub proof fn lemma_byte_sum_concat(a: Seq<u8>, b: Seq<u8>)
    ensures
        byte_sum(a + b) == byte_sum(a) + byte_sum(b),
    decreases b.len(),
{
    if b.len() == 0 {
        assert(a + b =~= a);
    } else {
        assert((a + b).drop_last() =~= a + b.drop_last());
        lemma_byte_sum_concat(a, b.drop_last());
    }
}

/// Each byte adds at most 255.
pub proof fn lemma_byte_sum_bound(s: Seq<u8>)
    ensures
        byte_sum(s) <= 255 * s.len(),
    decreases s.len(),
{
    if s.len() > 0 {
        lemma_byte_sum_bound(s.drop_last());
    }
}

/// Once the bytes at the start of a buffer classify as a complete frame,
/// bytes appended after them change neither its length nor its contents.
pub proof fn lemma_classification_stable(s: Seq<u8>, more: Seq<u8>)
    requires
        frame_len(s) is Some,
    ensures
        frame_len(s + more) == frame_len(s),
        frame_at(s + more) == frame_at(s),
{
    let t = s + more;
    assert(t[0] == s[0]);
    if s.len() >= 2 {
        assert(t[1] == s[1]);
    }
    if s[0] != ACK_BYTE && s[0] != ERR_BYTE {
        assert(t.subrange(0, s[1] + 4) =~= s.subrange(0, s[1] + 4));
    }
}

/// The checksum byte cancels the bytes it covers: their sum and it add up to
/// a multiple of 256, so every encoded frame passes the checksum test.
pub proof fn lemma_checksum_cancels(cmd: Seq<u8>, data: Seq<u8>, value: Seq<u8>)
    ensures
        (byte_sum(cmd + data + value) + checksum_of(cmd + data + value)) % 256 == 0,
        cmd.len() + data.len() + value.len() <= 255 ==> checksum_holds(encode(cmd, data, value)),
{
    let body = cmd + data + value;
    let e = encode(cmd, data, value);
    let covered = e.subrange(3, e.len() as int);
    assert(covered =~= body.push(checksum_of(body)));
    assert(covered.drop_last() =~= body);
}

/// Decoding an encoded command frame as if it had been received gives back a
/// complete message frame of exactly those bytes, with the same command and
/// the target and value as its payload.
pub proof fn lemma_round_trip(cmd: Seq<u8>, data: Seq<u8>, value: Seq<u8>)
    requires
        cmd.len() == 2,
        cmd.len() + data.len() + value.len() <= 255,
    ensures
        frame_len(encode(cmd, data, value)) == Some(encode(cmd, data, value).len()),
        frame_at(encode(cmd, data, value)) == FrameModel::Msg(encode(cmd, data, value)),
        msg_command(encode(cmd, data, value)) == cmd,
        msg_payload(encode(cmd, data, value)) == data + value,
{
    let body = cmd + data + value;
    let e = encode(cmd, data, value);
    assert(e[0] == SYNC);
    assert(e[1] == body.len());
    assert(e.len() == body.len() + 4);
    assert(e.subrange(0, e[1] + 4) =~= e);
    assert(msg_command(e) =~= cmd);
    assert(msg_payload(e) =~= data + value);
}

} // verus!
