//! The choices that a translation is made with.
use vstd::prelude::*;

verus! {

/// The direction of a translation.
#[derive(Clone, Copy, Debug, PartialEq, Eq, Structural)]
pub enum MorseCommand {
    /// From text to Morse code.
    Encode,
    /// From Morse code to text.
    Decode,
}

/// The form of a translation's output.
#[derive(Clone, Copy, Debug, PartialEq, Eq, Structural)]
pub enum MorseTraductionType {
    /// Lines of text.
    Text,
    /// Sound samples.
    Audio,
}

} // verus!
