//! The failures that end a run.

use vstd::prelude::*;

verus! {

/// What is wrong with the configuration of a run.
#[derive(Clone, Copy, Debug, PartialEq, Eq, Structural)]
pub enum ConfigFault {
    /// The number of output header names differs from the number of output
    /// columns.
    HeaderNames { names: usize, columns: usize },
    /// A filter rule is not of the form `column:value`.
    FilterRule,
    /// A list of numbers and ranges could not be read.
    NumberRange,
}

/// A failure that ends the run.
#[derive(Clone, Copy, Debug, PartialEq, Eq, Structural)]
pub enum PipelineError {
    /// A record has another number of fields than the established width.
    /// `ordinal` is the number of lines accepted so far, this one included;
    /// `file_line` is the position of the line in its file, as it was handed in.
    WidthMismatch { ordinal: usize, file_line: usize, expected: usize, found: usize },
    /// A filter rule or the split column names a column that a record of
    /// `width` fields does not have.
    ColumnOutOfRange { column: usize, width: usize },
    /// The configuration contradicts itself or the data.
    Configuration(ConfigFault),
}

} // verus!
