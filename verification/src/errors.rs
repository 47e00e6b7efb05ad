//! A structured parse error, with the place it was found.

use vstd::prelude::*;

verus! {

/// An error from reading malformed JSON text.
#[derive(Debug, Clone)]
pub struct JsonError {
    pub message: String,
    pub line: usize,
    pub column: usize,
}

/// The error a parser would report at the very start of an unterminated
/// array.
pub fn json_error() -> (r: Result<(), JsonError>)
    ensures
        match r {
            Ok(_) => false,
            Err(e) => {
                &&& e.message@ == "expected ']' at end of array"@
                &&& e.line == 0
                &&& e.column == 0
            },
        },
{
    let current_line: usize = 0;
    let current_column: usize = 0;
    Err(
        JsonError {
            message: String::from_str("expected ']' at end of array"),
            line: current_line,
            column: current_column,
        },
    )
}

} // verus!
