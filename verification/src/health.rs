//! The health server's answer.

use vstd::prelude::*;

verus! {

/// How many bytes of a request the health server reads.
pub const REQUEST_LIMIT: usize = 1024;

/// The answer to every request: the server is up.
pub fn health_response() -> (r: String)
    ensures
        r@
            == "HTTP/1.1 200 OK\r\nContent-Type: text/plain\r\nContent-Length: 2\r\nConnection: close\r\n\r\nok"@,
{
    "HTTP/1.1 200 OK\r\nContent-Type: text/plain\r\nContent-Length: 2\r\nConnection: close\r\n\r\nok".to_owned()
}

} // verus!
