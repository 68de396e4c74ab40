use vstd::prelude::*;

verus! {

/// Failure taxonomy shared by the generation loop and the evaluation harness.
///
/// All variants except `MalformedRecord` are fatal: they abort the run they
/// occur in. `MalformedRecord` is recoverable per record: the harness skips
/// the offending record and continues.
#[derive(Clone, Copy, Debug, PartialEq, Eq, Structural)]
pub enum Error {
    /// The encoded prompt holds no token; generation needs at least one.
    EmptyPrompt,
    /// The tokenizer failed to encode a text.
    Encode,
    /// The tokenizer failed to decode a token sequence.
    Decode,
    /// The model's forward computation failed.
    Compute,
    /// The score vector handed to sampling was degenerate.
    Sampling,
    /// The tokenizer and model do not agree on a required vocabulary entry.
    Configuration,
    /// An evaluation record could not be read as a row of fields.
    MalformedRecord,
}

impl Error {
    /// A short description of the failure, for reporting at the top level.
    pub fn describe(&self) -> (r: &'static str)
        ensures
            r@ == describe_spec(*self),
    {
        match self {
            Error::EmptyPrompt => "empty prompts are not supported",
            Error::Encode => "the prompt could not be encoded",
            Error::Decode => "a token could not be decoded",
            Error::Compute => "the model forward pass failed",
            Error::Sampling => "the score vector was degenerate",
            Error::Configuration => "a required vocabulary entry is missing",
            Error::MalformedRecord => "a record could not be read",
        }
    }
}

/// The description each error variant carries.
pub open spec fn describe_spec(e: Error) -> Seq<char> {
    match e {
        Error::EmptyPrompt => "empty prompts are not supported"@,
        Error::Encode => "the prompt could not be encoded"@,
        Error::Decode => "a token could not be decoded"@,
        Error::Compute => "the model forward pass failed"@,
        Error::Sampling => "the score vector was degenerate"@,
        Error::Configuration => "a required vocabulary entry is missing"@,
        Error::MalformedRecord => "a record could not be read"@,
    }
}

} // verus!
