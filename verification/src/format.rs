use vstd::prelude::*;

verus! {

/// The representation in which an output device takes its samples.
#[derive(Clone, Copy, Debug, PartialEq, Eq, Structural)]
pub enum SampleFormat {
    I8,
    I16,
    I32,
    I64,
    U8,
    U16,
    U32,
    U64,
    F32,
    F64,
    /// A representation that this library has no name for.
    Unknown,
}

impl SampleFormat {
    /// The one format that playback serves: 32-bit floating point.
    pub open spec fn supported(self) -> bool {
        self == SampleFormat::F32
    }

    /// Whether a stream can be built for a device that negotiated this format.
    pub fn is_supported(self) -> (r: bool)
        ensures
            r == self.supported(),
    {
        match self {
            SampleFormat::F32 => true,
            _ => false,
        }
    }
}

} // verus!
