//! Parser function return values shared by the HTTP/1 and HTTP/2 parsers.

use crate::text::{append_decimal, decimal};
use vstd::prelude::*;
use vstd::string::*;

verus! {

/// Parsing function return values.
pub enum ParserValue {
    /// Continue the parser loop.
    Continue,
    /// Exit the parser loop.
    Exit(Success),
}

/// Parsing function success return values.
#[derive(Clone, Copy, Debug, PartialEq, Eq, Structural)]
pub enum Success {
    /// A callback returned `false` and the parser function exited prematurely. This can be
    /// treated the same as `Success::Finished`.
    ///
    /// **(1)**: The amount of `stream` bytes that were processed before the callback was executed.
    Callback(usize),
    /// Additional `stream` data is expected.
    ///
    /// **(1)**: The amount of `stream` bytes that were processed. This value will always match
    ///          `stream.len()`.
    Eos(usize),
    /// The parser function finished successfully.
    ///
    /// **(1)**: The amount of `stream` bytes that were processed.
    Finished(usize),
}

/// The name of a success value's variant.
pub open spec fn success_name(s: Success) -> Seq<char> {
    match s {
        Success::Callback(_) => "Callback"@,
        Success::Eos(_) => "Eos"@,
        Success::Finished(_) => "Finished"@,
    }
}

impl Success {
    /// The amount of `stream` bytes that were processed, whatever the variant.
    pub open spec fn spec_length(self) -> usize {
        match self {
            Success::Callback(n) => n,
            Success::Eos(n) => n,
            Success::Finished(n) => n,
        }
    }

    /// Retrieve the amount of `stream` bytes that were processed.
    pub fn length(&self) -> (r: usize)
        ensures
            r == self.spec_length(),
    {
        match *self {
            Success::Callback(n) => n,
            Success::Eos(n) => n,
            Success::Finished(n) => n,
        }
    }

    /// The text of this value, as displayed: the amount of bytes processed.
    pub fn message(&self) -> (r: String)
        ensures
            r@ == decimal(self.spec_length() as nat),
    {
        let mut s = String::new();
        append_decimal(&mut s, self.length() as u64);
        assert(s@ =~= decimal(self.spec_length() as nat));
        s
    }

    /// The text of this value, as debugged: `Success::Eos(N)`, ...
    pub fn debug_message(&self) -> (r: String)
        ensures
            r@ == "Success::"@ + success_name(*self) + "("@ + decimal(self.spec_length() as nat)
                + ")"@,
    {
        let mut s = String::new();
        s.append("Success::");
        match *self {
            Success::Callback(_) => s.append("Callback"),
            Success::Eos(_) => s.append("Eos"),
            Success::Finished(_) => s.append("Finished"),
        }
        s.append("(");
        append_decimal(&mut s, self.length() as u64);
        s.append(")");
        assert(s@ =~= "Success::"@ + success_name(*self) + "("@ + decimal(self.spec_length() as nat)
            + ")"@);
        s
    }
}

} // verus!
