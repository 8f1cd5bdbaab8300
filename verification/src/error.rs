use vstd::prelude::*;

verus! {

/// What went wrong, with the message shown to the caller.
#[derive(Debug)]
pub enum Error {
    CoreNotFound(String),
    CoreLoad(String),
    NotConnected(String),
    DeviceConnection(String),
    Validation(String),
    UnknownTaskType(String),
    Refused(String),
    Busy(String),
    PlayTools(String),
    Io(String),
    Image(String),
    Config(String),
}

impl Error {
    /// The text the error carries.
    pub open spec fn text(self) -> Seq<char> {
        match self {
            Error::CoreNotFound(s) => s@,
            Error::CoreLoad(s) => s@,
            Error::NotConnected(s) => s@,
            Error::DeviceConnection(s) => s@,
            Error::Validation(s) => s@,
            Error::UnknownTaskType(s) => s@,
            Error::Refused(s) => s@,
            Error::Busy(s) => s@,
            Error::PlayTools(s) => s@,
            Error::Io(s) => s@,
            Error::Image(s) => s@,
            Error::Config(s) => s@,
        }
    }

    /// The error's message; the whole of what it displays.
    pub fn message(&self) -> (r: String)
        ensures
            r@ == self.text(),
    {
        match self {
            Error::CoreNotFound(s) => s.clone(),
            Error::CoreLoad(s) => s.clone(),
            Error::NotConnected(s) => s.clone(),
            Error::DeviceConnection(s) => s.clone(),
            Error::Validation(s) => s.clone(),
            Error::UnknownTaskType(s) => s.clone(),
            Error::Refused(s) => s.clone(),
            Error::Busy(s) => s.clone(),
            Error::PlayTools(s) => s.clone(),
            Error::Io(s) => s.clone(),
            Error::Image(s) => s.clone(),
            Error::Config(s) => s.clone(),
        }
    }
}

} // verus!
