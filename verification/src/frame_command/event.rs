//! Events the frame command service records.

use vstd::prelude::*;
use crate::frame_command::frame::create::FrameCreatedData;

verus! {

/// An event of the frame stream.
#[derive(Debug, Clone, PartialEq)]
pub enum Event {
    FrameCreated(FrameCreatedData),
}

/// The stream version a write expects.
#[derive(Debug, Clone, Copy, PartialEq, Eq)]
pub enum ExpectedVersion {
    StreamShouldNotExist,
}

impl ExpectedVersion {
    /// The number the event store understands for this expectation.
    pub fn value(&self) -> (v: i8)
        ensures
            v == -1,
    {
        match self {
            ExpectedVersion::StreamShouldNotExist => -1,
        }
    }
}

} // verus!
