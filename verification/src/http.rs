//! HTTP status codes, and the requests that the updater asks for.

use vstd::prelude::*;
use crate::text::decimal;

verus! {

/// A status code of an HTTP response: three digits, the first not zero.
#[derive(Clone, Copy, Debug, PartialEq, Eq, Structural)]
pub struct HttpStatus {
    code: u16,
}

impl HttpStatus {
    pub closed spec fn spec_code(self) -> u16 {
        self.code
    }

    #[verifier::type_invariant]
    spec fn three_digits(self) -> bool {
        100 <= self.code <= 999
    }

    /// The status with the given code, if it has three digits.
    pub fn new(code: u16) -> (r: Option<HttpStatus>)
        ensures
            r is Some <==> 100 <= code <= 999,
            r matches Some(status) ==> status.spec_code() == code,
    {
        if code < 100 || code > 999 {
            None
        } else {
            Some(HttpStatus { code })
        }
    }

    pub fn code(&self) -> (r: u16)
        ensures
            r == self.spec_code(),
    {
        self.code
    }

    /// A status from 200 to 299.
    pub open spec fn success(self) -> bool {
        200 <= self.spec_code() < 300
    }

    /// A status from 400 to 599: the client or the server is at fault.
    pub open spec fn fault(self) -> bool {
        400 <= self.spec_code() < 600
    }

    pub fn is_success(&self) -> (r: bool)
        ensures
            r == self.success(),
    {
        200 <= self.code && self.code < 300
    }

    pub fn is_fault(&self) -> (r: bool)
        ensures
            r == self.fault(),
    {
        400 <= self.code && self.code < 600
    }

    /// The status as it is shown in messages, such as `404 Not Found`.
    pub fn display(&self) -> (r: String)
        ensures
            r@ == status_display(self.spec_code()),
            r@.len() > 4,
            r@.take(4) == decimal(self.spec_code() as nat).push(' '),
    {
        proof {
            use_type_invariant(self);
        }
        display_status(self.code)
    }
}

/// How `reqwest::StatusCode` displays the status with the given code.
pub uninterp spec fn status_display(code: u16) -> Seq<char>;

/// Calls the `Display` implementation of `reqwest::StatusCode` on the status
/// that `StatusCode::from_u16` makes of `code`, which it does for every code
/// from 100 to 999. What is shown is the code, a space, and the canonical reason
/// of the code or a text that says that there is none; the reasons themselves
/// are left to the name.
#[verifier::external_body]
fn display_status(code: u16) -> (r: String)
    requires
        100 <= code <= 999,
    ensures
        r@ == status_display(code),
        r@.len() > 4,
        r@.take(4) == decimal(code as nat).push(' '),
{
    reqwest::StatusCode::from_u16(code).unwrap().to_string()
}

/// The methods that the updater uses.
#[derive(Clone, Copy, Debug, PartialEq, Eq, Structural)]
pub enum Method {
    Get,
    Put,
    Post,
}

} // verus!
