//! Error types.

use vstd::prelude::*;
use crate::cbw::cbw_Err;
use crate::text::{decimal_digits, push_decimal, push_str, string_from_chars};

verus! {

/// An error that the C code of the browser framework reports.
pub struct CbwError(pub cbw_Err);

/// `[code] message`.
pub open spec fn cbw_error_text(e: cbw_Err) -> Seq<char> {
    seq!['['] + decimal_digits(e.code as nat) + seq![']', ' '] + e.message@
}

impl CbwError {
    /// `[code] message`.
    pub fn to_string(&self) -> (r: String)
        ensures
            r@ == cbw_error_text(self.0),
    {
        let mut out: Vec<char> = Vec::new();
        out.push('[');
        push_decimal(&mut out, self.0.code as u64);
        out.push(']');
        out.push(' ');
        push_str(&mut out, self.0.message.as_str());
        string_from_chars(&out)
    }
}

impl From<cbw_Err> for CbwError {
    fn from(e: cbw_Err) -> (r: Self) {
        Self(e)
    }
}

impl vstd::std_specs::convert::FromSpecImpl<cbw_Err> for CbwError {
    open spec fn obeys_from_spec() -> bool {
        true
    }

    open spec fn from_spec(e: cbw_Err) -> Self {
        CbwError(e)
    }
}

/// An error of the library.
pub enum Error {
    Cbw(CbwError),
}

/// The result type of the library.
pub type Result<T> = core::result::Result<T, Error>;

/// `c(bw) error: ` and the text of the C error.
pub open spec fn error_text(e: Error) -> Seq<char> {
    match e {
        Error::Cbw(c) => "c(bw) error: "@ + cbw_error_text(c.0),
    }
}

impl Error {
    /// `c(bw) error: ` and the text of the C error.
    pub fn to_string(&self) -> (r: String)
        ensures
            r@ == error_text(*self),
    {
        match self {
            Error::Cbw(e) => {
                let mut out: Vec<char> = Vec::new();
                push_str(&mut out, "c(bw) error: ");
                let inner = e.to_string();
                push_str(&mut out, inner.as_str());
                string_from_chars(&out)
            },
        }
    }
}

impl From<CbwError> for Error {
    fn from(e: CbwError) -> (r: Self) {
        Error::Cbw(e)
    }
}

impl vstd::std_specs::convert::FromSpecImpl<CbwError> for Error {
    open spec fn obeys_from_spec() -> bool {
        true
    }

    open spec fn from_spec(e: CbwError) -> Self {
        Error::Cbw(e)
    }
}

/// The outcome that the C code reports with an error record: success where
/// the code is `0`, the error otherwise.
pub fn error_result(input: cbw_Err) -> (r: Result<()>)
    ensures
        input.code == 0 ==> r is Ok,
        input.code != 0 ==> (r matches Err(Error::Cbw(CbwError(e))) && e == input),
{
    if input.code == 0 {
        Ok(())
    } else {
        Err(Error::from(CbwError::from(input)))
    }
}

} // verus!
