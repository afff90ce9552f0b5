//! Discovery and classification of hardware-monitoring sensor inputs.
//!
//! The library decides which directory entries are sensor inputs, what kind
//! of sensor each one is, which label it carries, and how its raw reading is
//! scaled. Reading the files themselves is left to the caller, who hands the
//! library the names and bytes it found.
use vstd::prelude::*;

pub mod group;
pub mod input;
pub mod name;

verus! {

/// What can go wrong while discovering or reading a sensor input.
#[derive(PartialEq, Eq, Structural, Debug, Clone, Copy)]
pub enum SensorError {
    /// A file or directory could not be listed, opened or read.
    Filesystem,
    /// An input file name does not start with a type tag, an index and `_`.
    MalformedName,
    /// A value file does not hold a decimal number and a newline.
    MalformedValue,
    /// A label file does not end with a newline.
    InconsistentLabelFile,
}

} // verus!
