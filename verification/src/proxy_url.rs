//! A proxy given as a URL, as the environment gives it.

use vstd::prelude::*;
use url::Url;
use crate::config::{Proxy, ProxyView};
use crate::error::Error;

verus! {

/// Whether `url::Url::parse` accepts `text` as an absolute URL.
pub uninterp spec fn url_parses(text: Seq<char>) -> bool;

/// What `Url::host_str` gives for the URL parsed from `text`.
pub uninterp spec fn url_host(text: Seq<char>) -> Option<Seq<char>>;

/// What `Url::port` gives for the URL parsed from `text`.
pub uninterp spec fn url_port(text: Seq<char>) -> Option<u16>;

/// The parts of a URL that name a proxy.
#[derive(Debug, Clone)]
pub struct UrlParts {
    pub host: Option<String>,
    pub port: Option<u16>,
}

impl UrlParts {
    /// The characters of the host, where there is one.
    pub open spec fn host_text(self) -> Option<Seq<char>> {
        match self.host {
            Some(host) => Some(host@),
            None => None,
        }
    }
}

/// Parses a URL and takes its host and port.
///
/// Trusted: calls `url::Url::parse`, and on the URL that it gives
/// `Url::host_str` and `Url::port`. The three results are named `url_parses`,
/// `url_host` and `url_port`; nothing else is claimed of them.
#[verifier::external_body]
pub(crate) fn split_url(text: &str) -> (parts: Option<UrlParts>)
    ensures
        parts is Some == url_parses(text@),
        parts matches Some(p) ==> p.host_text() == url_host(text@) && p.port == url_port(text@),
{
    match Url::parse(text) {
        Ok(url) => Some(UrlParts { host: url.host_str().map(str::to_owned), port: url.port() }),
        Err(_) => None,
    }
}

/// The port of a proxy whose URL names none.
pub const DEFAULT_PROXY_PORT: u16 = 80;

/// The proxy that the parts of a URL name: the URL has to parse and to have a
/// host; without a port it means port 80.
pub open spec fn proxy_of_parts(
    parses: bool,
    host: Option<Seq<char>>,
    port: Option<u16>,
) -> Result<ProxyView, Error> {
    if !parses {
        Err(Error::InvalidProxy)
    } else {
        match host {
            None => Err(Error::InvalidProxy),
            Some(host) => Ok(
                ProxyView {
                    host,
                    port: match port {
                        Some(port) => port,
                        None => DEFAULT_PROXY_PORT,
                    },
                },
            ),
        }
    }
}

/// The proxy that parsed parts name; `None` stands for a URL that does not
/// parse.
pub open spec fn proxy_of_url_parts(parts: Option<UrlParts>) -> Result<ProxyView, Error> {
    match parts {
        None => proxy_of_parts(false, None, None),
        Some(p) => proxy_of_parts(true, p.host_text(), p.port),
    }
}

/// Makes a proxy of the parts of its URL.
pub fn proxy_from_parts(parts: Option<UrlParts>) -> (r: Result<Proxy, Error>)
    ensures
        match r {
            Ok(proxy) => proxy_of_url_parts(parts) == Ok::<ProxyView, Error>(proxy@),
            Err(e) => proxy_of_url_parts(parts) == Err::<ProxyView, Error>(e),
        },
{
    match parts {
        None => Err(Error::InvalidProxy),
        Some(parts) => match parts.host {
            None => Err(Error::InvalidProxy),
            Some(host) => {
                let port = match parts.port {
                    Some(port) => port,
                    None => DEFAULT_PROXY_PORT,
                };
                Ok(Proxy { host, port })
            },
        },
    }
}

/// Parses a proxy written as a URL, such as `http://proxy.example.com:8080`.
pub fn parse_proxy_from_uri(url_in: &str) -> (r: Result<Proxy, Error>)
    ensures
        match r {
            Ok(proxy) => proxy_of_parts(url_parses(url_in@), url_host(url_in@), url_port(url_in@))
                == Ok::<ProxyView, Error>(proxy@),
            Err(e) => proxy_of_parts(url_parses(url_in@), url_host(url_in@), url_port(url_in@))
                == Err::<ProxyView, Error>(e),
        },
{
    proxy_from_parts(split_url(url_in))
}

} // verus!
