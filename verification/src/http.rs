//! What the library reads off an HTTP reply.
use vstd::prelude::*;

use crate::text::{begins_with, decimal};

verus! {

/// A status code that a reply can carry.
pub open spec fn is_status(status: u16) -> bool {
    100 <= status <= 999
}

/// The request succeeded.
pub open spec fn is_success(status: u16) -> bool {
    200 <= status <= 299
}

/// The server is at fault.
pub open spec fn is_server_error(status: u16) -> bool {
    500 <= status <= 599
}

pub fn success(status: u16) -> (res: bool)
    ensures
        res == is_success(status),
{
    200 <= status && status <= 299
}

pub fn server_error(status: u16) -> (res: bool)
    ensures
        res == is_server_error(status),
{
    500 <= status && status <= 599
}

/// How a status code is written out: its number and its reason phrase.
pub uninterp spec fn status_line(status: u16) -> Seq<char>;

/// `reqwest::StatusCode::from_u16` and the `Display` of what it gives: the
/// number of the status code, a space, and its canonical reason phrase. A code of
/// three digits is always accepted.
#[verifier::external_body]
pub(crate) fn status_text(status: u16) -> (res: String)
    requires
        is_status(status),
    ensures
        res@ == status_line(status),
        begins_with(res@, decimal(status as nat) + " "@),
{
    reqwest::StatusCode::from_u16(status).unwrap().to_string()
}

/// The first digit of a status tells a success and a fault of the server.
pub proof fn law_the_first_digit_tells(status: u16)
    requires
        is_status(status),
    ensures
        is_success(status) <==> status / 100 == 2,
        is_server_error(status) <==> status / 100 == 5,
{
}

} // verus!
