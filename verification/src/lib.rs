//! Translation between text and Morse code.
pub mod audio;
pub mod laws;
pub mod letter;
pub mod parser;
pub mod translator;
pub mod wav;
pub mod words;

pub use letter::Letter;
