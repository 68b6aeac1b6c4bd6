//! The client's decisions: what each inbound frame does to the cached state
//! and which change it announces, and what each command becomes.
use tokio::sync::oneshot;
use vstd::prelude::*;

use crate::cache::{is_snapshot, StateCache};
use crate::frame::{be16, encode, flag_byte, Frame, FrameModel, Message};
use crate::inbound::{apply_spec, apply_update, decode_message, decodes_to, desk_info_after, Update};
use crate::model::{Fader, FaderView, DB};
use crate::requests::Request;

verus! {

/// What the client does for a command: write a frame to the console, or hand
/// a snapshot to the slot that asked for it.
pub enum Action {
    Write(Frame),
    Reply(oneshot::Sender<DB>, DB),
}

/// The frame bytes that a setting command becomes.
pub open spec fn command_bytes(req: Request) -> Seq<u8> {
    match req {
        Request::SET_FADER_LEVEL(s) => encode(seq![0x80u8, 0x00u8], be16(s.index), be16(s.level)),
        Request::SET_FADER_CUT(s) => encode(seq![0x80u8, 0x01u8], be16(s.index), seq![flag_byte(s.isCut)]),
        Request::SET_FADER_PFL(s) => encode(seq![0x80u8, 0x05u8], be16(s.index), seq![flag_byte(s.isPfl)]),
        Request::SET_MAIN_LEVEL(s) => encode(seq![0x80u8, 0x02u8], be16(s.index), be16(s.level)),
        Request::SET_MAIN_PFL(s) => encode(seq![0x80u8, 0x0Cu8], be16(s.index), seq![flag_byte(s.isPfl)]),
        Request::GET_DB(_) => Seq::empty(),
    }
}

/// The client's state: the cache that inbound frames keep up to date and
/// snapshots are taken from.
pub struct CSCPClient {
    pub cache: StateCache,
}

impl CSCPClient {
    pub fn new() -> (r: CSCPClient)
        ensures
            r.cache.wf(),
            r.cache.faders_view() == Map::<u16, FaderView>::empty(),
            r.cache.desk_info_view() is None,
    {
        CSCPClient { cache: StateCache::new() }
    }

    /// Handles one inbound frame. A message frame is decoded and applied to
    /// the cache; the update and the changed fader, if any, are returned.
    /// Acknowledgements and errors change nothing.
    pub fn handle_frame(&mut self, frame: &Frame) -> (r: (Option<Update>, Option<Fader>))
        requires
            old(self).cache.wf(),
        ensures
            final(self).cache.wf(),
            match frame.model() {
                FrameModel::Msg(m) => {
                    &&& r.0 matches Some(u)
                    &&& decodes_to(m, u)
                    &&& final(self).cache.faders_view() == apply_spec(old(self).cache.faders_view(), u).0
                    &&& final(self).cache.desk_info_view() == desk_info_after(old(self).cache.desk_info_view(), u)
                    &&& match r.1 {
                        Some(f) => apply_spec(old(self).cache.faders_view(), u).1 == Some(f@),
                        None => apply_spec(old(self).cache.faders_view(), u).1 is None,
                    }
                },
                _ => {
                    &&& r.0 is None
                    &&& r.1 is None
                    &&& final(self).cache.faders_view() == old(self).cache.faders_view()
                    &&& final(self).cache.desk_info_view() == old(self).cache.desk_info_view()
                },
            },
    {
        match &frame.msg {
            Message::MSG(m) => {
                let update = decode_message(&m.buffer);
                let changed = apply_update(&mut self.cache, &update);
                (Some(update), changed)
            },
            _ => (None, None),
        }
    }

    /// Handles one command: a setting becomes the frame that carries it, and
    /// a snapshot request is answered from the cache.
    pub fn handle_request(&self, req: Request) -> (r: Action)
        requires
            self.cache.wf(),
        ensures
            match req {
                Request::GET_DB(tx) => {
                    &&& r matches Action::Reply(slot, db)
                    &&& slot == tx
                    &&& is_snapshot(db, self.cache.faders_view(), self.cache.desk_info_view())
                },
                _ => r matches Action::Write(f) && f.model() == FrameModel::Msg(command_bytes(req)),
            },
    {
        match req {
            Request::SET_FADER_LEVEL(msg) => Action::Write(Frame::set_fader_level(msg.index, msg.level)),
            Request::SET_FADER_CUT(msg) => Action::Write(Frame::set_fader_cut(msg.index, msg.isCut)),
            Request::SET_FADER_PFL(msg) => Action::Write(Frame::set_fader_pfl(msg.index, msg.isPfl)),
            Request::SET_MAIN_LEVEL(msg) => Action::Write(Frame::set_main_level(msg.index, msg.level)),
            Request::SET_MAIN_PFL(msg) => Action::Write(Frame::set_main_pfl(msg.index, msg.isPfl)),
            Request::GET_DB(sender) => Action::Reply(sender, self.cache.snapshot()),
        }
    }
}

} // verus!
