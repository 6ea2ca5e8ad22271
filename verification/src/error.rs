use vstd::prelude::*;
use vstd::string::*;

verus! {

/// Typed failures reported by the browser core.
#[derive(Clone, Debug)]
pub enum NetraError {
    /// Input validation failed before the requested operation could begin.
    InvalidInput(String),
    /// A requested resource or tab could not be found.
    NotFound(String),
    /// A generic operation failure occurred.
    OperationFailed(String),
}

impl NetraError {
    /// The human-readable rendering of the error: a kind prefix followed by
    /// the message.
    pub open spec fn text(&self) -> Seq<char> {
        match self {
            NetraError::InvalidInput(m) => "invalid input: "@ + m@,
            NetraError::NotFound(m) => "not found: "@ + m@,
            NetraError::OperationFailed(m) => "operation failed: "@ + m@,
        }
    }

    /// Renders the error as text.
    pub fn to_string(&self) -> (r: String)
        ensures
            r@ == self.text(),
    {
        match self {
            NetraError::InvalidInput(m) => "invalid input: ".to_string().concat(m.as_str()),
            NetraError::NotFound(m) => "not found: ".to_string().concat(m.as_str()),
            NetraError::OperationFailed(m) => "operation failed: ".to_string().concat(m.as_str()),
        }
    }
}

} // verus!
