//! One error type for all layers.

use crate::boundary;
use crate::control::ControlError;
use crate::noise::NoiseError;
use crate::text;
use crate::wire::WireError;
use vstd::prelude::*;

verus! {

/// What can go wrong in any layer.
#[derive(Debug)]
#[non_exhaustive]
pub enum DictyonError {
    /// The wire layer reported an error.
    Wire {
        /// The error of the wire layer.
        source: WireError,
    },
    /// The control protocol was not kept.
    Control {
        /// The error of the control protocol.
        source: ControlError,
    },
    /// The Noise layer reported an error.
    Noise {
        /// The error of the Noise layer.
        source: NoiseError,
    },
}

impl DictyonError {
    /// The sentence that describes the error: the name of the layer, and then
    /// that layer's own sentence, given the operating system's text for the
    /// error where there is one.
    pub open spec fn sentence(self, io_text: Seq<char>) -> Seq<char> {
        match self {
            DictyonError::Wire { source } => "wire error: "@ + source@.sentence(io_text),
            DictyonError::Control { source } => "control error: "@ + source.message@,
            DictyonError::Noise { source } => "noise error: "@ + source@.sentence(),
        }
    }

    /// Whether `s` is the sentence that describes the error, whatever the
    /// operating system says of it.
    pub open spec fn is_sentence(self, s: Seq<char>) -> bool {
        exists|io_text: Seq<char>| s == #[trigger] self.sentence(io_text)
    }

    /// The error as a sentence, given the operating system's text for it,
    /// which only errors of I/O have.
    pub fn describe_with(&self, io_text: &str) -> (s: String)
        ensures
            s@ == self.sentence(io_text@),
    {
        match self {
            DictyonError::Wire { source } => text::joined(
                "wire error: ",
                source.describe_with(io_text).as_str(),
            ),
            DictyonError::Control { source } => text::joined(
                "control error: ",
                source.describe().as_str(),
            ),
            DictyonError::Noise { source } => text::joined(
                "noise error: ",
                source.describe().as_str(),
            ),
        }
    }

    /// The error as a sentence.
    pub fn describe(&self) -> (s: String)
        ensures
            self.is_sentence(s@),
    {
        match self {
            DictyonError::Wire { source } => {
                let io_text: String = source.io_text();
                self.describe_with(io_text.as_str())
            },
            _ => self.describe_with(""),
        }
    }
}

impl core::fmt::Display for DictyonError {
    fn fmt(&self, f: &mut core::fmt::Formatter<'_>) -> (r: core::fmt::Result)
        ensures
            r is Ok ==> exists|s: Seq<char>|
                #![trigger self.is_sentence(s)]
                self.is_sentence(s) && boundary::written(*final(f)) == boundary::written(*old(f))
                    + s,
    {
        let s: String = self.describe();
        boundary::write_text(f, s.as_str())
    }
}

impl From<WireError> for DictyonError {
    fn from(source: WireError) -> (error: Self) {
        DictyonError::Wire { source }
    }
}

impl vstd::std_specs::convert::FromSpecImpl<WireError> for DictyonError {
    open spec fn obeys_from_spec() -> bool {
        true
    }

    open spec fn from_spec(source: WireError) -> DictyonError {
        DictyonError::Wire { source }
    }
}

impl From<ControlError> for DictyonError {
    fn from(source: ControlError) -> (error: Self) {
        DictyonError::Control { source }
    }
}

impl vstd::std_specs::convert::FromSpecImpl<ControlError> for DictyonError {
    open spec fn obeys_from_spec() -> bool {
        true
    }

    open spec fn from_spec(source: ControlError) -> DictyonError {
        DictyonError::Control { source }
    }
}

impl From<NoiseError> for DictyonError {
    fn from(source: NoiseError) -> (error: Self) {
        DictyonError::Noise { source }
    }
}

impl vstd::std_specs::convert::FromSpecImpl<NoiseError> for DictyonError {
    open spec fn obeys_from_spec() -> bool {
        true
    }

    open spec fn from_spec(source: NoiseError) -> DictyonError {
        DictyonError::Noise { source }
    }
}

/// What an error says names its layer and then holds all that the layer says.
pub proof fn law_combined_error_sentences(error: DictyonError, io_text: Seq<char>)
    ensures
        match error {
            DictyonError::Wire { source } => error.sentence(io_text) == "wire error: "@
                + source@.sentence(io_text),
            DictyonError::Control { source } => error.sentence(io_text) == "control error: "@
                + source.message@,
            DictyonError::Noise { source } => error.sentence(io_text) == "noise error: "@
                + source@.sentence(),
        },
{
}

} // verus!
