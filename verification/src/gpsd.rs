//! Commands of the GPS daemon's protocol.

use crate::time::datetime::UTCDateTime;
use vstd::prelude::*;

verus! {

/// The answer to a poll: the last fixes seen on the devices that are
/// watched, as time-position-velocity reports of type `T` and sky views of
/// type `S`.
pub struct Poll<T, S> {
    /// When the answer was made.
    pub time: UTCDateTime,
    /// Number of devices that are active.
    pub active: u32,
    /// The last time-position-velocity report of each device.
    pub tpv: Vec<T>,
    /// The last sky view of each device.
    pub sky: Vec<S>,
}

/// How a watcher is sent raw data.
#[derive(Clone, Copy, Debug, PartialEq, Eq, Structural)]
pub enum RawMode {
    /// Text sentences as they are; binary data as hexadecimal text.
    AsciiDumped,
    /// Binary data as it was received.
    RawBinary,
}

impl RawMode {
    /// The number that stands for this mode in a command.
    pub open spec fn code_of(self) -> u8 {
        match self {
            RawMode::AsciiDumped => 1,
            RawMode::RawBinary => 2,
        }
    }

    /// The number that stands for this mode in a command.
    pub fn code(&self) -> (code: u8)
        ensures
            code == self.code_of(),
    {
        match self {
            RawMode::AsciiDumped => 1,
            RawMode::RawBinary => 2,
        }
    }

    /// The mode that `code` stands for, if it stands for one.
    pub fn from_code(code: u8) -> (mode: Option<RawMode>)
        ensures
            mode == (if code == 1 {
                Some(RawMode::AsciiDumped)
            } else if code == 2 {
                Some(RawMode::RawBinary)
            } else {
                None
            }),
    {
        if code == 1 {
            Some(RawMode::AsciiDumped)
        } else if code == 2 {
            Some(RawMode::RawBinary)
        } else {
            None
        }
    }
}

/// The command that sets what a watcher is sent. A setting that is `None`
/// is left as it is.
#[derive(Clone, Debug)]
pub struct Watch {
    /// Whether the watcher is sent anything at all.
    pub enable: Option<bool>,
    /// Whether reports are sent as JSON.
    pub json: Option<bool>,
    /// Whether reports are sent as NMEA sentences.
    pub nmea: Option<bool>,
    /// Whether, and how, raw data is sent.
    pub raw: Option<RawMode>,
    /// Whether raw values are scaled to physical units.
    pub scaled: Option<bool>,
    /// Whether long AIS messages are sent in two parts.
    pub split24: Option<bool>,
    /// Whether pulse-per-second reports are sent.
    pub pps: Option<bool>,
    /// The device, or remote daemon, that the settings apply to.
    pub remote: Option<String>,
}

} // verus!
