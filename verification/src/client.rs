//! The request client's side of the service.
//!
//! The request client exposes no bootstrap capability of its own, so its
//! local service stub carries no state; it exists so the session wiring can
//! name a handler type for this role. The fixed request the client sends and
//! the reply it must receive are stated here so the round trip can be
//! checked against the handler's contract.

use vstd::prelude::*;
use crate::reply::dec_digits;
use crate::reply::reply_message;

verus! {

/// The request client's (empty) local service stub.
pub struct HelloWorldImpl;

/// The name the request client sends.
pub fn request_name() -> (s: &'static str)
    ensures
        s@ == "Toru"@,
{
    "Toru"
}

/// The value the request client sends.
pub fn request_value() -> (v: i32)
    ensures
        v == 123,
{
    123
}

/// The reply the server owes the request client's fixed request.
pub proof fn lemma_expected_reply()
    ensures
        reply_message("Toru"@, 123) == "Hello Toru, I got 123"@,
{
    reveal_strlit("Toru");
    reveal_strlit("Hello Toru, I got 123");
    reveal_strlit("Hello ");
    reveal_strlit(", I got ");
    reveal_with_fuel(dec_digits, 4);
    assert(reply_message("Toru"@, 123) =~= "Hello Toru, I got 123"@);
}

} // verus!
