//! Protocol engine for remote-controlling a mixing console over CSCP, the
//! console's length-prefixed binary TCP protocol: frame encoding and
//! classification, an incremental frame parser, the fader/desk state cache and
//! the decisions of the client that ties them together.
#![allow(non_snake_case, non_camel_case_types)]

pub mod cache;
pub mod client;
pub mod frame;
pub mod inbound;
pub mod model;
pub mod parser;
pub mod requests;

pub use cache::StateCache;
pub use client::{Action, CSCPClient};
pub use frame::{get_frame, sum, Frame, FrameAck, FrameError, FrameMessage, Message};
pub use inbound::{decode_message, Update};
pub use model::{AudioType, AudioWidth, DeskInfo, Fader, FaderChangedEvent, DB};
pub use parser::FrameParser;
pub use requests::{
    Request, SetFaderCut, SetFaderCutArgs, SetFaderLevel, SetFaderLevelArgs, SetFaderPfl,
    SetFaderPflArgs, SetMainLevel, SetMainPfl,
};
