//! The mirrored console state: faders, desk information and snapshots.
use vstd::prelude::*;

verus! {

/// Audio-source category of a fader's path, as numbered on the wire.
#[derive(Debug, Clone, Copy, PartialEq, Eq)]
pub enum AudioType {
    U,
    CH,
    GP,
    VCA_MASTER,
    VCA_MASTER_CH,
    VCA_MASTER_GP,
    MN,
    VCA_MASTER_MN,
    TK,
    VCA_MASTER_TK,
    AUX,
    VCA_MASTER_AUX,
}

/// The path type numbered `code` on the wire, if there is one.
pub open spec fn audio_type_of(code: u8) -> Option<AudioType> {
    if code == 0 {
        Some(AudioType::U)
    } else if code == 1 {
        Some(AudioType::CH)
    } else if code == 2 {
        Some(AudioType::GP)
    } else if code == 3 {
        Some(AudioType::VCA_MASTER)
    } else if code == 4 {
        Some(AudioType::VCA_MASTER_CH)
    } else if code == 5 {
        Some(AudioType::VCA_MASTER_GP)
    } else if code == 6 {
        Some(AudioType::MN)
    } else if code == 7 {
        Some(AudioType::VCA_MASTER_MN)
    } else if code == 8 {
        Some(AudioType::TK)
    } else if code == 9 {
        Some(AudioType::VCA_MASTER_TK)
    } else if code == 10 {
        Some(AudioType::AUX)
    } else if code == 11 {
        Some(AudioType::VCA_MASTER_AUX)
    } else {
        None
    }
}

impl AudioType {
    /// The path type numbered `code` on the wire, if there is one.
    pub fn from_code(code: u8) -> (r: Option<AudioType>)
        ensures
            r == audio_type_of(code),
    {
        match code {
            0 => Some(AudioType::U),
            1 => Some(AudioType::CH),
            2 => Some(AudioType::GP),
            3 => Some(AudioType::VCA_MASTER),
            4 => Some(AudioType::VCA_MASTER_CH),
            5 => Some(AudioType::VCA_MASTER_GP),
            6 => Some(AudioType::MN),
            7 => Some(AudioType::VCA_MASTER_MN),
            8 => Some(AudioType::TK),
            9 => Some(AudioType::VCA_MASTER_TK),
            10 => Some(AudioType::AUX),
            11 => Some(AudioType::VCA_MASTER_AUX),
            _ => None,
        }
    }
}

/// Channel width of a fader, as numbered on the wire.
#[derive(Debug, Clone, Copy, PartialEq, Eq)]
pub enum AudioWidth {
    NP,
    M,
    ST,
    UNUSED1,
    UNUSED2,
    UNUSED3,
    SU,
}

/// The width numbered `code` on the wire, if there is one.
pub open spec fn audio_width_of(code: u8) -> Option<AudioWidth> {
    if code == 0 {
        Some(AudioWidth::NP)
    } else if code == 1 {
        Some(AudioWidth::M)
    } else if code == 2 {
        Some(AudioWidth::ST)
    } else if code == 3 {
        Some(AudioWidth::UNUSED1)
    } else if code == 4 {
        Some(AudioWidth::UNUSED2)
    } else if code == 5 {
        Some(AudioWidth::UNUSED3)
    } else if code == 6 {
        Some(AudioWidth::SU)
    } else {
        None
    }
}

impl AudioWidth {
    /// The width numbered `code` on the wire, if there is one.
    pub fn from_code(code: u8) -> (r: Option<AudioWidth>)
        ensures
            r == audio_width_of(code),
    {
        match code {
            0 => Some(AudioWidth::NP),
            1 => Some(AudioWidth::M),
            2 => Some(AudioWidth::ST),
            3 => Some(AudioWidth::UNUSED1),
            4 => Some(AudioWidth::UNUSED2),
            5 => Some(AudioWidth::UNUSED3),
            6 => Some(AudioWidth::SU),
            _ => None,
        }
    }
}

/// One console channel strip; `index` is its identity.
#[derive(Debug, Clone, PartialEq)]
pub struct Fader {
    pub index: u16,
    pub label: String,
    pub level: u16,
    pub isCut: bool,
    pub isPfl: bool,
    pub pathType: AudioType,
    pub format: AudioWidth,
}

/// A fader as a mathematical value: its label as a sequence of characters.
pub struct FaderView {
    pub index: u16,
    pub label: Seq<char>,
    pub level: u16,
    pub isCut: bool,
    pub isPfl: bool,
    pub pathType: AudioType,
    pub format: AudioWidth,
}

impl View for Fader {
    type V = FaderView;

    open spec fn view(&self) -> FaderView {
        FaderView {
            index: self.index,
            label: self.label@,
            level: self.level,
            isCut: self.isCut,
            isPfl: self.isPfl,
            pathType: self.pathType,
            format: self.format,
        }
    }
}

/// A fader that nothing has been heard of yet: no label, level 0, not cut,
/// not on PFL, unrouted, no width.
pub open spec fn default_fader(index: u16) -> FaderView {
    FaderView {
        index,
        label: Seq::empty(),
        level: 0,
        isCut: false,
        isPfl: false,
        pathType: AudioType::U,
        format: AudioWidth::NP,
    }
}

impl Fader {
    pub fn new(index: u16) -> (r: Fader)
        ensures
            r@ == default_fader(index),
    {
        Fader {
            index,
            label: String::new(),
            level: 0,
            isCut: false,
            isPfl: false,
            pathType: AudioType::U,
            format: AudioWidth::NP,
        }
    }

    /// A field-for-field copy.
    pub fn duplicate(&self) -> (r: Fader)
        ensures
            r == *self,
    {
        Fader {
            index: self.index,
            label: self.label.clone(),
            level: self.level,
            isCut: self.isCut,
            isPfl: self.isPfl,
            pathType: self.pathType,
            format: self.format,
        }
    }
}

/// Identity and capabilities of the console.
#[derive(Debug, Clone, PartialEq)]
pub struct DeskInfo {
    pub cscpVersion: u16,
    pub numFaders: u16,
    pub numMains: u16,
    pub name: String,
}

/// The desk information reported before the console has sent any.
pub open spec fn is_zero_desk_info(d: DeskInfo) -> bool {
    &&& d.cscpVersion == 0
    &&& d.numFaders == 0
    &&& d.numMains == 0
    &&& d.name@ == Seq::<char>::empty()
}

impl DeskInfo {
    pub fn default() -> (r: DeskInfo)
        ensures
            is_zero_desk_info(r),
    {
        DeskInfo { cscpVersion: 0, numFaders: 0, numMains: 0, name: String::new() }
    }

    /// A field-for-field copy.
    pub fn duplicate(&self) -> (r: DeskInfo)
        ensures
            r == *self,
    {
        DeskInfo {
            cscpVersion: self.cscpVersion,
            numFaders: self.numFaders,
            numMains: self.numMains,
            name: self.name.clone(),
        }
    }
}

/// A fader change as announced to the user interface.
#[derive(Debug, Clone, PartialEq)]
pub struct FaderChangedEvent {
    pub event: String,
    pub payload: Fader,
}

/// A point-in-time copy of the cached console state.
#[derive(Debug, Clone)]
pub struct DB {
    pub deskInfo: DeskInfo,
    pub faders: Vec<Fader>,
}

impl DB {
    pub fn default() -> (r: DB)
        ensures
            is_zero_desk_info(r.deskInfo),
            r.faders@ == Seq::<Fader>::empty(),
    {
        DB { deskInfo: DeskInfo::default(), faders: Vec::new() }
    }
}

} // verus!
