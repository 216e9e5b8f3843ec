use vstd::prelude::*;

verus! {

/// The error kinds reported by the bitmap codec.
#[derive(Debug)]
pub enum Error {
    /// Structurally valid input that describes a format variant this codec
    /// does not implement (for example a bit depth other than 24).
    Unsupported(&'static str),
    /// Malformed or internally inconsistent input (bad magic, wrong header
    /// size, truncated buffers, pixel-count mismatches, malformed arguments).
    IllegalParameter(&'static str),
}

impl Error {
    /// The static description carried by the error.
    pub fn message(&self) -> (r: &'static str)
        ensures
            match *self {
                Error::Unsupported(m) => r == m,
                Error::IllegalParameter(m) => r == m,
            },
    {
        match self {
            Error::Unsupported(m) => m,
            Error::IllegalParameter(m) => m,
        }
    }
}

} // verus!
