//! What can go wrong, by component.

use crate::shape::LogShape;
use vstd::prelude::*;

verus! {

/// A pattern of this library that the engine refused to compile.
#[derive(Clone, Copy, Debug, PartialEq, Eq, Structural)]
pub enum PatternError {
    /// The pattern of a shape.
    Shape(LogShape),
    /// The pattern that locates the timestamp.
    Timestamp,
    /// The pattern that locates the message.
    Message,
}

/// A classified line that the extractor cannot take apart. The classifier
/// and the extractor are meant to agree, so this is a fault of the patterns
/// and not of the line.
#[derive(Clone, Copy, Debug, PartialEq, Eq, Structural)]
pub enum ExtractionError {
    /// The line does not start with a bracketed timestamp.
    MissingTimestamp,
    /// The line holds no user name in angle brackets followed by a message.
    MissingMessage,
}

/// A selection that does not fit the records.
#[derive(Clone, Copy, Debug, PartialEq, Eq, Structural)]
pub enum SelectionError {
    /// `index` was chosen, but there are only `len` records.
    IndexOutOfBounds { index: usize, len: usize },
}

/// A rendering that cannot be laid out.
#[derive(Clone, Copy, Debug, PartialEq, Eq, Structural)]
pub enum RenderError {
    /// There is no record to render.
    EmptySelection,
    /// The canvas would be wider or higher than a `u32` can say.
    CanvasTooLarge,
}

} // verus!
