//! The closed error taxonomy of the loader.
//!
//! Every failure of the library is one of these variants; each has a stable
//! short name that can cross a language or process boundary unchanged.

use vstd::prelude::*;

verus! {

/// A failure while loading a trace: acquiring its text, parsing its header,
/// or decoding its command stream.
#[derive(Clone, Copy, Debug, PartialEq, Eq, Structural)]
pub enum VCDFileError {
    /// The source of the trace text could not be opened.
    FileNotOpened,
    /// The source opened, but reading its bytes failed.
    FileReadError,
    /// The header (declaration) phase of the trace could not be parsed.
    ParsingFailHeaderInvalid,
    /// The body phase of the trace held a command that could not be decoded.
    ParsingFailCommandInvalid,
    /// The value-map extraction produced no result although parsing succeeded.
    ExtractionValueMapFail,
    /// The variable-map extraction produced no result although parsing succeeded.
    ExtractionVariableMapFail,
}

impl VCDFileError {
    /// The stable machine-readable name of this error variant.
    pub open spec fn name_spec(self) -> Seq<char> {
        match self {
            VCDFileError::FileNotOpened => "FileNotOpened"@,
            VCDFileError::FileReadError => "FileReadError"@,
            VCDFileError::ParsingFailHeaderInvalid => "ParsingFailHeaderInvalid"@,
            VCDFileError::ParsingFailCommandInvalid => "ParsingFailCommandInvalid"@,
            VCDFileError::ExtractionValueMapFail => "ExtractionValueMapFail"@,
            VCDFileError::ExtractionVariableMapFail => "ExtractionVariableMapFail"@,
        }
    }

    /// Returns the stable short name of this error variant.
    pub fn to_str(&self) -> (r: &'static str)
        ensures
            r@ == self.name_spec(),
    {
        match self {
            VCDFileError::FileNotOpened => "FileNotOpened",
            VCDFileError::FileReadError => "FileReadError",
            VCDFileError::ParsingFailHeaderInvalid => "ParsingFailHeaderInvalid",
            VCDFileError::ParsingFailCommandInvalid => "ParsingFailCommandInvalid",
            VCDFileError::ExtractionValueMapFail => "ExtractionValueMapFail",
            VCDFileError::ExtractionVariableMapFail => "ExtractionVariableMapFail",
        }
    }
}

} // verus!
