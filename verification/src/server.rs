//! The API server's address.
use vstd::prelude::*;

verus! {

/// The API server.
pub struct ApiServer;

/// The address the server listens on: all interfaces, at the given port or 8080.
pub open spec fn listen_address_of(port: Option<Seq<char>>) -> Seq<char> {
    "0.0.0.0:"@ + match port {
        Some(p) => p,
        None => "8080"@,
    }
}

impl ApiServer {
    /// The address to listen on, given the `PORT` setting when it is set.
    pub fn listen_address(port: Option<String>) -> (r: String)
        ensures
            r@ == listen_address_of(crate::text::opt_text(port)),
    {
        let mut addr = String::from_str("0.0.0.0:");
        match port {
            Some(p) => addr.append(p.as_str()),
            None => addr.append("8080"),
        }
        addr
    }
}

} // verus!
