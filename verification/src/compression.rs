//! The compression methods that an entry can name.

use vstd::prelude::*;

verus! {

/// How the content of an entry is stored in the archive.
#[derive(Clone, Copy, Debug, PartialEq, Eq, Structural)]
pub enum CompressionMethod {
    /// The content is stored byte for byte.
    Stored,
    /// The content is a raw DEFLATE stream.
    Deflated,
    /// Any other method, with the code that the archive gives for it.
    Unknown(u16),
}

impl CompressionMethod {
    /// The method that a header's method code stands for.
    pub open spec fn spec_from_u16(code: u16) -> CompressionMethod {
        if code == 0 {
            CompressionMethod::Stored
        } else if code == 8 {
            CompressionMethod::Deflated
        } else {
            CompressionMethod::Unknown(code)
        }
    }

    /// The code that a header holds for this method.
    pub open spec fn spec_to_u16(self) -> u16 {
        match self {
            CompressionMethod::Stored => 0,
            CompressionMethod::Deflated => 8,
            CompressionMethod::Unknown(code) => code,
        }
    }

    /// The method is written the one way that decoding produces: the codes of
    /// Stored and Deflated never stand inside `Unknown`.
    pub open spec fn canonical(self) -> bool {
        self == Self::spec_from_u16(self.spec_to_u16())
    }

    /// The writer can produce entries of this method.
    pub open spec fn writable(self) -> bool {
        self == CompressionMethod::Stored || self == CompressionMethod::Deflated
    }

    /// Decodes a method code. Codes other than 0 and 8 are kept in `Unknown`.
    pub fn from_u16(code: u16) -> (method: CompressionMethod)
        ensures
            method == Self::spec_from_u16(code),
            method.canonical(),
            method.spec_to_u16() == code,
    {
        if code == 0 {
            CompressionMethod::Stored
        } else if code == 8 {
            CompressionMethod::Deflated
        } else {
            CompressionMethod::Unknown(code)
        }
    }

    /// The method's code.
    pub fn to_u16(self) -> (code: u16)
        ensures
            code == self.spec_to_u16(),
    {
        match self {
            CompressionMethod::Stored => 0,
            CompressionMethod::Deflated => 8,
            CompressionMethod::Unknown(code) => code,
        }
    }
}

} // verus!
