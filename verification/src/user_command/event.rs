//! Events the user command service records.

use vstd::prelude::*;
use crate::user_command::user::login::UserLoggedInData;
use crate::user_command::user::register::UserRegisteredData;

verus! {

/// An event of the user stream.
#[derive(Debug, Clone, PartialEq)]
pub enum Event {
    Login(UserLoggedInData),
    UserRegistered(UserRegisteredData),
}

/// The stream version a write expects.
#[derive(Debug, Clone, Copy, PartialEq, Eq)]
pub enum ExpectedVersion {
    StreamShouldNotExist,
    StreamShouldExist,
}

impl ExpectedVersion {
    /// The number the event store understands for this expectation.
    pub fn value(&self) -> (v: i8)
        ensures
            v == match self {
                ExpectedVersion::StreamShouldNotExist => -1i8,
                ExpectedVersion::StreamShouldExist => -4i8,
            },
    {
        match self {
            ExpectedVersion::StreamShouldNotExist => -1,
            ExpectedVersion::StreamShouldExist => -4,
        }
    }
}

} // verus!
