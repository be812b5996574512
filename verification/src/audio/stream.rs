//! Opening a stream of an audio device.
use crate::error::{BridgeError, BridgeResult};
use vstd::prelude::*;
use vstd::string::StringExecFns;

verus! {

/// How opening a stream went.
#[derive(Debug)]
pub enum StreamOpening {
    /// There is no device.
    NoDevice,
    /// The device refused the stream, for this reason.
    NotBuilt(String),
    /// The stream did not start, for this reason.
    NotStarted(String),
    /// The stream runs.
    Playing,
}

impl StreamOpening {
    /// What is said of a stream that was not opened; the device is named by
    /// `missing`.
    pub open spec fn complaint(self, missing: Seq<char>) -> Option<Seq<char>> {
        match self {
            StreamOpening::NoDevice => Some(missing),
            StreamOpening::NotBuilt(e) => Some("Failed to build stream: "@ + e@),
            StreamOpening::NotStarted(e) => Some("Failed to start stream: "@ + e@),
            StreamOpening::Playing => None,
        }
    }

    /// Turns a stream that was not opened into an error.
    pub fn into_result(self, missing: &str) -> (r: BridgeResult<()>)
        ensures
            match r {
                Ok(_) => self.complaint(missing@) is None,
                Err(BridgeError::Audio(m)) => self.complaint(missing@) == Some(m@),
                Err(_) => false,
            },
    {
        match self {
            StreamOpening::NoDevice => Err(BridgeError::Audio(String::from_str(missing))),
            StreamOpening::NotBuilt(e) => {
                let mut m = String::from_str("Failed to build stream: ");
                m.append(e.as_str());
                Err(BridgeError::Audio(m))
            },
            StreamOpening::NotStarted(e) => {
                let mut m = String::from_str("Failed to start stream: ");
                m.append(e.as_str());
                Err(BridgeError::Audio(m))
            },
            StreamOpening::Playing => Ok(()),
        }
    }
}

/// Only a stream that plays gives no complaint; the others say what went wrong, with
/// the reason that the device gave.
pub proof fn law_complaints_give_the_reason(opening: StreamOpening, missing: Seq<char>)
    ensures
        opening.complaint(missing) is None <==> opening is Playing,
        opening is NoDevice ==> opening.complaint(missing) == Some(missing),
        opening matches StreamOpening::NotBuilt(e) ==> opening.complaint(missing)->0.skip(
            opening.complaint(missing)->0.len() - e@.len(),
        ) == e@,
        opening matches StreamOpening::NotStarted(e) ==> opening.complaint(missing)->0.skip(
            opening.complaint(missing)->0.len() - e@.len(),
        ) == e@,
{
    match opening {
        StreamOpening::NotBuilt(e) => {
            let p = "Failed to build stream: "@;
            assert((p + e@).skip(p.len() as int) =~= e@);
        },
        StreamOpening::NotStarted(e) => {
            let p = "Failed to start stream: "@;
            assert((p + e@).skip(p.len() as int) =~= e@);
        },
        _ => {},
    }
}

} // verus!
