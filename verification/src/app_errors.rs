use vstd::prelude::*;

verus! {

/// Errors that the library's own logic can produce.
#[derive(Debug, Clone, Copy, PartialEq, Eq, Structural)]
pub enum AppError {
    /// Not enough data is available to parse a message.
    IncompleteError,
    /// The length field of a frame points before the start of the buffer
    /// or past the largest cursor position.
    MessageFormatError,
}

pub type AppResult<T> = Result<T, AppError>;

} // verus!
