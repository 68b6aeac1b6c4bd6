//! Commands from the user interface to the client.
use tokio::sync::oneshot;
use vstd::prelude::*;

use crate::model::DB;

verus! {

#[verifier::external_type_specification]
#[verifier::external_body]
#[verifier::reject_recursive_types(T)]
pub struct ExOneshotSender<T>(oneshot::Sender<T>);

#[derive(Debug, Clone)]
pub struct SetFaderLevel {
    pub index: u16,
    pub level: u16,
}

#[derive(Debug, Clone)]
pub struct SetFaderCut {
    pub index: u16,
    pub isCut: bool,
}

#[derive(Debug, Clone)]
pub struct SetFaderPfl {
    pub index: u16,
    pub isPfl: bool,
}

#[derive(Debug, Clone)]
pub struct SetMainLevel {
    pub index: u16,
    pub level: u16,
}

#[derive(Debug, Clone)]
pub struct SetMainPfl {
    pub index: u16,
    pub isPfl: bool,
}

/// A command for the client; `GET_DB` carries the slot its snapshot goes to.
#[derive(Debug)]
pub enum Request {
    SET_FADER_LEVEL(SetFaderLevel),
    SET_FADER_CUT(SetFaderCut),
    SET_FADER_PFL(SetFaderPfl),
    SET_MAIN_LEVEL(SetMainLevel),
    SET_MAIN_PFL(SetMainPfl),
    GET_DB(oneshot::Sender<DB>),
}

/// Arguments of the user interface's set-fader-level command.
pub struct SetFaderLevelArgs {
    pub index: u16,
    pub level: u16,
}

/// Arguments of the user interface's set-fader-cut command.
pub struct SetFaderCutArgs {
    pub index: u16,
    pub isCut: bool,
}

/// Arguments of the user interface's set-fader-PFL command.
pub struct SetFaderPflArgs {
    pub index: u16,
    pub isPfl: bool,
}

} // verus!
