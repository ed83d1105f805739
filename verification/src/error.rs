//! The failure kinds of the library.
use vstd::prelude::*;

verus! {

/// Everything that can go wrong in a session, from the device bridge to the
/// byte-stream parsers. I/O failures carry their diagnostic as plain text so
/// that the error type stays free of opaque handles.
#[derive(Debug, Clone)]
pub enum ScrcpyError {
    /// The external device-bridge tool failed; holds its captured stderr.
    Bridge(String),
    /// The requested device serial is absent, or no device is connected.
    DeviceNotFound,
    /// An operating-system I/O failure, as text.
    Io(String),
    /// A socket-level failure, as text.
    Network(String),
    /// The video byte stream broke mid-read.
    VideoStream(String),
    /// Text that does not have the expected shape.
    Parse(String),
    /// No free port was found in the inclusive range.
    NoAvailablePort(u16, u16),
}

impl ScrcpyError {
    /// A short label naming the error kind, in place of `Display`.
    pub fn kind_name(&self) -> (r: &'static str)
        ensures
            r@ == self.spec_kind_name(),
    {
        match self {
            ScrcpyError::Bridge(_) => "Bridge error",
            ScrcpyError::DeviceNotFound => "Device not found",
            ScrcpyError::Io(_) => "IO error",
            ScrcpyError::Network(_) => "Network error",
            ScrcpyError::VideoStream(_) => "Video stream error",
            ScrcpyError::Parse(_) => "Parse error",
            ScrcpyError::NoAvailablePort(_, _) => "No available port found",
        }
    }

    /// The label that `kind_name` returns for each variant.
    pub open spec fn spec_kind_name(&self) -> Seq<char> {
        match self {
            ScrcpyError::Bridge(_) => "Bridge error"@,
            ScrcpyError::DeviceNotFound => "Device not found"@,
            ScrcpyError::Io(_) => "IO error"@,
            ScrcpyError::Network(_) => "Network error"@,
            ScrcpyError::VideoStream(_) => "Video stream error"@,
            ScrcpyError::Parse(_) => "Parse error"@,
            ScrcpyError::NoAvailablePort(_, _) => "No available port found"@,
        }
    }
}

} // verus!
