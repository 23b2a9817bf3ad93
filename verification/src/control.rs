//! Errors of the control protocol itself, above the wire.

use crate::boundary;
use crate::text;
use vstd::prelude::*;

verus! {

/// The control server's answer is not one that the protocol allows.
#[derive(Debug)]
pub struct ControlError {
    /// Description of the problem.
    pub message: String,
}

impl ControlError {
    /// The error as a sentence.
    pub fn describe(&self) -> (s: String)
        ensures
            s@ == self.message@,
    {
        text::owned(self.message.as_str())
    }
}

impl core::fmt::Display for ControlError {
    fn fmt(&self, f: &mut core::fmt::Formatter<'_>) -> (r: core::fmt::Result)
        ensures
            r is Ok ==> boundary::written(*final(f)) == boundary::written(*old(f))
                + self.message@,
    {
        boundary::write_text(f, self.message.as_str())
    }
}

impl core::error::Error for ControlError {

}

} // verus!
