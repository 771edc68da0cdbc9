//! The outer error of the command-line boundary: any domain error paired
//! with the process exit code, and the user-facing message naming both. This
//! is the single place exit codes are decided.

use vstd::prelude::*;

use crate::error::error_message;

verus! {

/// The default exit code of a failed operation.
pub const EXIT_FAILURE: u8 = 1;

pub type CliResult<T> = Result<T, Error>;

/// A domain error paired with the process exit code it surfaces as.
#[derive(Debug)]
pub struct Error {
    pub error: crate::error::Error,
    pub exit_code: u8,
}

pub open spec fn dec_digit(d: int) -> char {
    ((48 + d) as u8) as char
}

/// The decimal text of an exit code.
pub open spec fn u8_dec(n: u8) -> Seq<char> {
    if n < 10 {
        seq![dec_digit(n as int)]
    } else if n < 100 {
        seq![dec_digit(n as int / 10), dec_digit(n as int % 10)]
    } else {
        seq![dec_digit(n as int / 100), dec_digit((n as int / 10) % 10), dec_digit(n as int % 10)]
    }
}

/// The user-facing text of the outer error.
pub open spec fn cli_message(e: crate::error::Error, code: u8) -> Seq<char> {
    "huak exited with code "@ + u8_dec(code) + ": "@ + error_message(e)
}

fn digit_str(d: u8) -> (r: &'static str)
    requires
        d < 10,
    ensures
        r@ == seq![dec_digit(d as int)],
{
    let r: &'static str = if d == 0 {
        "0"
    } else if d == 1 {
        "1"
    } else if d == 2 {
        "2"
    } else if d == 3 {
        "3"
    } else if d == 4 {
        "4"
    } else if d == 5 {
        "5"
    } else if d == 6 {
        "6"
    } else if d == 7 {
        "7"
    } else if d == 8 {
        "8"
    } else {
        "9"
    };
    proof {
        reveal_strlit("0");
        reveal_strlit("1");
        reveal_strlit("2");
        reveal_strlit("3");
        reveal_strlit("4");
        reveal_strlit("5");
        reveal_strlit("6");
        reveal_strlit("7");
        reveal_strlit("8");
        reveal_strlit("9");
        assert(r@ =~= seq![dec_digit(d as int)]);
    }
    r
}

/// Render an exit code in decimal.
fn u8_to_string(n: u8) -> (r: String)
    ensures
        r@ == u8_dec(n),
{
    if n < 10 {
        let s = String::from_str(digit_str(n));
        proof {
            assert(s@ =~= u8_dec(n));
        }
        s
    } else if n < 100 {
        let mut s = String::from_str(digit_str(n / 10));
        s.append(digit_str(n % 10));
        proof {
            assert(s@ =~= u8_dec(n));
        }
        s
    } else {
        let mut s = String::from_str(digit_str(n / 100));
        s.append(digit_str((n / 10) % 10));
        s.append(digit_str(n % 10));
        proof {
            assert(s@ =~= u8_dec(n));
        }
        s
    }
}

impl Error {
    /// Pair a domain error with an exit code.
    pub fn new(error: crate::error::Error, exit_code: u8) -> (r: Error)
        ensures
            r.error == error,
            r.exit_code == exit_code,
    {
        Error { error, exit_code }
    }

    /// The user-facing message: `huak exited with code <code>: <cause>`.
    pub fn message(&self) -> (r: String)
        ensures
            r@ == cli_message(self.error, self.exit_code),
    {
        let mut s = String::from_str("huak exited with code ");
        let code = u8_to_string(self.exit_code);
        s.append(code.as_str());
        s.append(": ");
        let cause = self.error.message();
        s.append(cause.as_str());
        proof {
            assert(s@ =~= cli_message(self.error, self.exit_code));
        }
        s
    }
}

impl From<crate::error::Error> for Error {
    /// Wrap a domain error with the default failure exit code.
    fn from(e: crate::error::Error) -> (r: Error) {
        Error::new(e, EXIT_FAILURE)
    }
}

impl vstd::std_specs::convert::FromSpecImpl<crate::error::Error> for Error {
    open spec fn obeys_from_spec() -> bool {
        true
    }

    open spec fn from_spec(e: crate::error::Error) -> Error {
        Error { error: e, exit_code: EXIT_FAILURE }
    }
}

} // verus!
