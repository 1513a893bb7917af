//! Host telemetry core: parsing of kernel counter text, rate computation,
//! process-to-application grouping, signal-outcome aggregation, and
//! selection-preserving refresh logic.
use vstd::prelude::*;

pub mod apps;
pub mod cpu;
pub mod dispatch;
pub mod monitor;
pub mod drive;
pub mod rates;
pub mod text;
pub mod topology;

verus! {

/// Why a read of a kernel counter source was rejected.
#[derive(Clone, Copy, Debug, PartialEq, Eq, Structural)]
pub enum ParseError {
    /// The text does not follow the expected field layout, or a field is
    /// missing or not an unsigned integer.
    Malformed,
    /// A requested core index exceeds the number of reported cpu lines.
    CoreOutOfRange,
    /// A parsed value does not fit the target unit after conversion.
    Overflow,
}

} // verus!
