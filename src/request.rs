//! The profiled target and the request sent to it.

use vstd::prelude::*;

verus! {

/// The schemes that can be profiled.
#[derive(PartialEq, Eq, Structural, Clone, Copy, Debug)]
pub enum Scheme {
    Http,
    Https,
}

/// A validated target URL, as the parts that a session reads.
pub struct Target {
    pub scheme: Scheme,
    /// The host name, also used to validate a TLS certificate.
    pub host: String,
    /// The path and query that the request line names.
    pub path_and_query: String,
}

/// The `User-Agent` that requests carry unless another is given.
pub const DEFAULT_USER_AGENT: &'static str = "curl/7.58.0";

/// The request sent for a path, host and user agent.
pub open spec fn request_text(path: Seq<char>, host: Seq<char>, agent: Seq<char>) -> Seq<char> {
    "GET "@ + path + " HTTP/1.1\r\nHost: "@ + host + "\r\nUser-Agent: "@ + agent
        + "\r\nAccept: */*\r\nConnection: close\r\n\r\n"@
}

/// Renders the GET request for the target, with `Connection: close`.
pub fn get_formatted_request(target: &Target, user_agent: &str) -> (r: String)
    ensures
        r@ == request_text(target.path_and_query@, target.host@, user_agent@),
{
    let mut r = String::from_str("GET ");
    r.append(target.path_and_query.as_str());
    r.append(" HTTP/1.1\r\nHost: ");
    r.append(target.host.as_str());
    r.append("\r\nUser-Agent: ");
    r.append(user_agent);
    r.append("\r\nAccept: */*\r\nConnection: close\r\n\r\n");
    r
}

} // verus!
