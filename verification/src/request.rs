//! The request that asks a proxy to open a tunnel.

use vstd::prelude::*;
use vstd::string::*;
use crate::config::Tunnel;
use crate::number::{decimal_text, format_u16};

verus! {

/// The credential that a request carries: an empty one counts as none.
pub open spec fn credential_of(user: Option<String>) -> Option<Seq<char>> {
    match user {
        Some(encoded) => if encoded@.len() > 0 {
            Some(encoded@)
        } else {
            None
        },
        None => None,
    }
}

/// The header line that carries a credential; nothing where there is none.
pub open spec fn authorization_line(credential: Option<Seq<char>>) -> Seq<char> {
    match credential {
        Some(encoded) => "Proxy-Authorization: Basic "@ + encoded + "\r\n"@,
        None => Seq::empty(),
    }
}

/// The CONNECT request for `host:port`: the request line, the authorization
/// line if there is a credential, and the blank line.
pub open spec fn connect_request_text(
    host: Seq<char>,
    port: u16,
    credential: Option<Seq<char>>,
) -> Seq<char> {
    "CONNECT "@ + host + ":"@ + decimal_text(port as nat) + " HTTP/1.1\r\n"@ + authorization_line(
        credential,
    ) + "\r\n"@
}

/// Writes the CONNECT request that opens `tunnel` through a proxy, with the
/// encoded credential `user` where one is given.
pub fn connect_request(tunnel: &Tunnel, user: &Option<String>) -> (request: String)
    ensures
        request@ == connect_request_text(
            tunnel.remote_host@,
            tunnel.remote_port,
            credential_of(*user),
        ),
{
    let mut request = String::from_str("CONNECT ");
    request.append(tunnel.remote_host.as_str());
    request.append(":");
    let port = format_u16(tunnel.remote_port);
    request.append(port.as_str());
    request.append(" HTTP/1.1\r\n");
    match user {
        Some(encoded) => {
            if !encoded.as_str().is_empty() {
                request.append("Proxy-Authorization: Basic ");
                request.append(encoded.as_str());
                request.append("\r\n");
            }
        },
        None => {},
    }
    request.append("\r\n");
    proof {
        let head = "CONNECT "@ + tunnel.remote_host@ + ":"@ + decimal_text(
            tunnel.remote_port as nat,
        ) + " HTTP/1.1\r\n"@;
        match credential_of(*user) {
            Some(encoded) => {
                assert(request@ =~= head + ("Proxy-Authorization: Basic "@ + encoded + "\r\n"@)
                    + "\r\n"@);
            },
            None => {
                assert(request@ =~= head + Seq::<char>::empty() + "\r\n"@);
            },
        }
    }
    request
}

} // verus!
