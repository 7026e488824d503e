//! What a tunnel client is configured with, and how it is written.

use vstd::prelude::*;
use vstd::string::*;
use vstd::utf8::encode_utf8;
use crate::credential::{base64_bytes, base64_encode, base64_text, max_plain_len};
use crate::error::Error;
use crate::number::{decimal_u16, parse_u16_range};
use crate::proxy_url::{parse_proxy_from_uri, proxy_of_parts, url_host, url_parses, url_port};
use crate::text::chars_of;

verus! {

/// One relay: connections to `local_port` are carried to
/// `remote_host:remote_port`.
#[derive(Debug, PartialEq, Eq, Clone)]
pub struct Tunnel {
    pub local_port: u16,
    pub remote_port: u16,
    pub remote_host: String,
}

/// A tunnel as a value: its ports and the characters of its host.
pub struct TunnelView {
    pub local_port: u16,
    pub remote_port: u16,
    pub remote_host: Seq<char>,
}

impl View for Tunnel {
    type V = TunnelView;

    open spec fn view(&self) -> TunnelView {
        TunnelView {
            local_port: self.local_port,
            remote_port: self.remote_port,
            remote_host: self.remote_host@,
        }
    }
}

/// A host by name and a port, as a dial takes them.
pub type RawSocketAddr<'a> = (&'a str, u16);

impl Tunnel {
    /// The address that the tunnel leads to.
    pub fn remote_addr(&self) -> (addr: RawSocketAddr<'_>)
        ensures
            addr.0@ == self.remote_host@,
            addr.1 == self.remote_port,
    {
        (self.remote_host.as_str(), self.remote_port)
    }
}

/// An HTTP proxy that accepts CONNECT.
#[derive(Debug, PartialEq, Clone)]
pub struct Proxy {
    pub host: String,
    pub port: u16,
}

/// A proxy as a value: the characters of its host and its port.
pub struct ProxyView {
    pub host: Seq<char>,
    pub port: u16,
}

impl View for Proxy {
    type V = ProxyView;

    open spec fn view(&self) -> ProxyView {
        ProxyView { host: self.host@, port: self.port }
    }
}

impl Proxy {
    /// The address of the proxy.
    pub fn addr(&self) -> (addr: RawSocketAddr<'_>)
        ensures
            addr.0@ == self.host@,
            addr.1 == self.port,
    {
        (self.host.as_str(), self.port)
    }
}

/// Who asks the proxy for the tunnel.
#[derive(Debug, Clone)]
pub struct User {
    pub name: String,
    pub password: Option<String>,
}

impl User {
    /// The bytes of the credential before encoding: the name, or the name, a
    /// colon and the password.
    pub open spec fn plain(self) -> Seq<u8> {
        match self.password {
            None => encode_utf8(self.name@),
            Some(password) => encode_utf8(self.name@) + seq![0x3au8] + encode_utf8(password@),
        }
    }

    /// The credential of Basic authentication: `plain` in base64. Decoding it
    /// gives `plain` back.
    pub fn encoded(&self) -> (text: String)
        requires
            self.plain().len() <= max_plain_len(),
        ensures
            text@ == base64_text(self.plain()),
            base64_bytes(text@) == Some(self.plain()),
    {
        let mut plain = self.name.as_str().as_bytes_vec();
        match &self.password {
            None => {},
            Some(password) => {
                plain.push(0x3au8);
                let mut rest = password.as_str().as_bytes_vec();
                plain.append(&mut rest);
            },
        }
        assert(plain@ =~= self.plain());
        base64_encode(plain.as_slice())
    }
}

/// The positions of the colons in `text`, in rising order.
pub open spec fn separators(text: Seq<char>) -> Seq<int>
    decreases text.len(),
{
    if text.len() == 0 {
        Seq::empty()
    } else {
        let before = separators(text.drop_last());
        if text.last() == ':' {
            before.push(text.len() - 1)
        } else {
            before
        }
    }
}

/// `separators` lists the colons of a text and nothing else: each entry is the
/// position of a colon, the entries rise, and every colon is listed.
pub proof fn lemma_separators(text: Seq<char>)
    ensures
        forall|k: int|
            0 <= k < separators(text).len() ==> 0 <= #[trigger] separators(text)[k] < text.len()
                && text[separators(text)[k]] == ':',
        forall|j: int, k: int|
            0 <= j < k < separators(text).len() ==> separators(text)[j] < separators(text)[k],
        forall|i: int|
            0 <= i < text.len() && text[i] == ':' ==> #[trigger] separators(text).contains(i),
    decreases text.len(),
{
    if text.len() > 0 {
        let shorter = text.drop_last();
        let before = separators(shorter);
        lemma_separators(shorter);
        let all = separators(text);
        assert forall|i: int| 0 <= i < text.len() && text[i] == ':' implies #[trigger] all.contains(
            i,
        ) by {
            if i < text.len() - 1 {
                assert(shorter[i] == ':');
                assert(before.contains(i));
                let k = choose|k: int| 0 <= k < before.len() && before[k] == i;
                assert(all[k] == i);
            } else {
                assert(all[all.len() - 1] == i);
            }
        }
    }
}

/// The proxy that `text` denotes: a host and a port with one colon between
/// them.
pub open spec fn proxy_of(text: Seq<char>) -> Result<ProxyView, Error> {
    let at = separators(text);
    if at.len() != 1 {
        Err(Error::InvalidProxy)
    } else {
        match decimal_u16(text.subrange(at[0] + 1, text.len() as int)) {
            Err(e) => Err(Error::InvalidPort(e)),
            Ok(port) => Ok(ProxyView { host: text.subrange(0, at[0]), port }),
        }
    }
}

/// The tunnel that `text` denotes: local port, remote host and remote port
/// with a colon between each two. Of two bad ports the local one is reported.
pub open spec fn tunnel_of(text: Seq<char>) -> Result<TunnelView, Error> {
    let at = separators(text);
    if at.len() != 2 {
        Err(Error::InvalidTunnel)
    } else {
        match decimal_u16(text.subrange(0, at[0])) {
            Err(e) => Err(Error::InvalidPort(e)),
            Ok(local_port) => match decimal_u16(text.subrange(at[1] + 1, text.len() as int)) {
                Err(e) => Err(Error::InvalidPort(e)),
                Ok(remote_port) => Ok(
                    TunnelView {
                        local_port,
                        remote_port,
                        remote_host: text.subrange(at[0] + 1, at[1]),
                    },
                ),
            },
        }
    }
}

/// Finds the colons of `text`.
fn find_separators(text: &Vec<char>) -> (at: Vec<usize>)
    ensures
        at@.len() == separators(text@).len(),
        forall|k: int| 0 <= k < at@.len() ==> at@[k] as int == #[trigger] separators(text@)[k],
        forall|k: int| 0 <= k < at@.len() ==> #[trigger] at@[k] < text@.len(),
        forall|j: int, k: int| 0 <= j < k < at@.len() ==> at@[j] < at@[k],
{
    let mut at: Vec<usize> = Vec::new();
    let mut i: usize = 0;
    assert(text@.take(0) =~= Seq::<char>::empty());
    while i < text.len()
        invariant
            i <= text@.len(),
            at@.len() == separators(text@.take(i as int)).len(),
            forall|k: int|
                0 <= k < at@.len() ==> at@[k] as int == #[trigger] separators(
                    text@.take(i as int),
                )[k],
            forall|k: int| 0 <= k < at@.len() ==> #[trigger] at@[k] < i,
            forall|j: int, k: int| 0 <= j < k < at@.len() ==> at@[j] < at@[k],
        decreases text@.len() - i,
    {
        assert(text@.take(i + 1).drop_last() =~= text@.take(i as int));
        if text[i] == ':' {
            at.push(i);
        }
        i = i + 1;
    }
    assert(text@.take(i as int) =~= text@);
    at
}

/// Parses a proxy written as `host:port`.
pub fn parse_proxy(proxy: &str) -> (r: Result<Proxy, Error>)
    ensures
        match r {
            Ok(p) => proxy_of(proxy@) == Ok::<ProxyView, Error>(p@),
            Err(e) => proxy_of(proxy@) == Err::<ProxyView, Error>(e),
        },
{
    let text = chars_of(proxy);
    let at = find_separators(&text);
    if at.len() != 1 {
        return Err(Error::InvalidProxy);
    }
    let colon = at[0];
    match parse_u16_range(&text, colon + 1, text.len()) {
        Err(e) => Err(Error::InvalidPort(e)),
        Ok(port) => Ok(Proxy { host: proxy.substring_char(0, colon).to_owned(), port }),
    }
}

/// Parses a tunnel written as `local_port:remote_host:remote_port`.
pub fn parse_tunnel(t: &str) -> (r: Result<Tunnel, Error>)
    ensures
        match r {
            Ok(tunnel) => tunnel_of(t@) == Ok::<TunnelView, Error>(tunnel@),
            Err(e) => tunnel_of(t@) == Err::<TunnelView, Error>(e),
        },
{
    let text = chars_of(t);
    let at = find_separators(&text);
    if at.len() != 2 {
        return Err(Error::InvalidTunnel);
    }
    let first = at[0];
    let second = at[1];
    let local_port = match parse_u16_range(&text, 0, first) {
        Err(e) => { return Err(Error::InvalidPort(e)); },
        Ok(port) => port,
    };
    let remote_host = t.substring_char(first + 1, second).to_owned();
    match parse_u16_range(&text, second + 1, text.len()) {
        Err(e) => Err(Error::InvalidPort(e)),
        Ok(remote_port) => Ok(Tunnel { local_port, remote_port, remote_host }),
    }
}

/// How much is logged.
#[derive(Clone, Copy, Debug, PartialEq, Eq, Structural)]
pub enum LogLevel {
    Off,
    Error,
    Warn,
    Info,
    Debug,
    Trace,
}

/// The log level that the flags ask for: nothing when quiet, else errors and,
/// with each repetition of the verbose flag, one level more.
pub open spec fn log_level_of(quiet: bool, verbose: u8) -> LogLevel {
    if quiet {
        LogLevel::Off
    } else if verbose == 0 {
        LogLevel::Error
    } else if verbose == 1 {
        LogLevel::Warn
    } else if verbose == 2 {
        LogLevel::Info
    } else if verbose == 3 {
        LogLevel::Debug
    } else {
        LogLevel::Trace
    }
}

/// Chooses the log level from the quiet flag and the count of verbose flags.
pub fn log_level(quiet: bool, verbose: u8) -> (level: LogLevel)
    ensures
        level == log_level_of(quiet, verbose),
{
    if quiet {
        LogLevel::Off
    } else {
        match verbose {
            0 => LogLevel::Error,
            1 => LogLevel::Warn,
            2 => LogLevel::Info,
            3 => LogLevel::Debug,
            _ => LogLevel::Trace,
        }
    }
}

/// The proxy to use. One that is given has to be valid; one that only the
/// environment names is left out when it is not.
pub open spec fn selected_proxy(given: Option<Seq<char>>, environment: Option<Seq<char>>) -> Result<
    Option<ProxyView>,
    Error,
> {
    match given {
        Some(text) => match proxy_of(text) {
            Ok(proxy) => Ok(Some(proxy)),
            Err(e) => Err(e),
        },
        None => match environment {
            None => Ok(None),
            Some(url) => match proxy_of_parts(url_parses(url), url_host(url), url_port(url)) {
                Ok(proxy) => Ok(Some(proxy)),
                Err(_) => Ok(None),
            },
        },
    }
}

/// The characters of a text that may be absent.
pub open spec fn text_of(text: Option<String>) -> Option<Seq<char>> {
    match text {
        Some(text) => Some(text@),
        None => None,
    }
}

/// The value of a proxy that may be absent.
pub open spec fn proxy_view(proxy: Option<Proxy>) -> Option<ProxyView> {
    match proxy {
        Some(proxy) => Some(proxy@),
        None => None,
    }
}

/// Chooses the proxy: the one given as `host:port`, or else the one that the
/// environment names by a URL.
pub fn select_proxy(given: &Option<String>, environment: &Option<String>) -> (r: Result<
    Option<Proxy>,
    Error,
>)
    ensures
        match r {
            Ok(proxy) => selected_proxy(text_of(*given), text_of(*environment)) == Ok::<
                Option<ProxyView>,
                Error,
            >(proxy_view(proxy)),
            Err(e) => selected_proxy(text_of(*given), text_of(*environment)) == Err::<
                Option<ProxyView>,
                Error,
            >(e),
        },
{
    match given {
        Some(text) => match parse_proxy(text.as_str()) {
            Ok(proxy) => Ok(Some(proxy)),
            Err(e) => Err(e),
        },
        None => match environment {
            None => Ok(None),
            Some(url) => match parse_proxy_from_uri(url.as_str()) {
                Ok(proxy) => Ok(Some(proxy)),
                Err(_) => Ok(None),
            },
        },
    }
}

/// The tunnels that `texts` denote, in order; the first text that denotes
/// none gives the error.
pub open spec fn tunnels_of(texts: Seq<Seq<char>>) -> Result<Seq<TunnelView>, Error>
    decreases texts.len(),
{
    if texts.len() == 0 {
        Ok(Seq::empty())
    } else {
        match tunnels_of(texts.drop_last()) {
            Err(e) => Err(e),
            Ok(before) => match tunnel_of(texts.last()) {
                Err(e) => Err(e),
                Ok(tunnel) => Ok(before.push(tunnel)),
            },
        }
    }
}

/// The characters of each text of a list.
pub open spec fn texts_of(texts: Seq<String>) -> Seq<Seq<char>> {
    Seq::new(texts.len(), |i: int| texts[i]@)
}

/// The value of each tunnel of a list.
pub open spec fn tunnel_views(tunnels: Seq<Tunnel>) -> Seq<TunnelView> {
    Seq::new(tunnels.len(), |i: int| tunnels[i]@)
}

/// Parses the tunnels of a command line.
pub fn parse_tunnels(texts: &Vec<String>) -> (r: Result<Vec<Tunnel>, Error>)
    ensures
        match r {
            Ok(tunnels) => tunnels_of(texts_of(texts@)) == Ok::<Seq<TunnelView>, Error>(
                tunnel_views(tunnels@),
            ),
            Err(e) => tunnels_of(texts_of(texts@)) == Err::<Seq<TunnelView>, Error>(e),
        },
{
    let mut tunnels: Vec<Tunnel> = Vec::new();
    let mut i: usize = 0;
    assert(texts_of(texts@).take(0) =~= Seq::<Seq<char>>::empty());
    assert(tunnel_views(tunnels@) =~= Seq::<TunnelView>::empty());
    while i < texts.len()
        invariant
            i <= texts@.len(),
            tunnels_of(texts_of(texts@).take(i as int)) == Ok::<Seq<TunnelView>, Error>(
                tunnel_views(tunnels@),
            ),
        decreases texts@.len() - i,
    {
        let ghost all = texts_of(texts@);
        let ghost before = tunnel_views(tunnels@);
        assert(all.take(i + 1).drop_last() =~= all.take(i as int));
        assert(all.take(i + 1).last() == texts@[i as int]@);
        match parse_tunnel(texts[i].as_str()) {
            Err(e) => {
                proof {
                    lemma_tunnels_error_stays(all, i + 1);
                }
                return Err(e);
            },
            Ok(tunnel) => {
                tunnels.push(tunnel);
                assert(tunnel_views(tunnels@) =~= before.push(tunnel@));
            },
        }
        i = i + 1;
    }
    assert(texts_of(texts@).take(i as int) =~= texts_of(texts@));
    Ok(tunnels)
}

/// An error among the first `n` texts is the error of the whole list.
proof fn lemma_tunnels_error_stays(texts: Seq<Seq<char>>, n: int)
    requires
        0 <= n <= texts.len(),
        tunnels_of(texts.take(n)) is Err,
    ensures
        tunnels_of(texts) == tunnels_of(texts.take(n)),
    decreases texts.len() - n,
{
    if n < texts.len() {
        assert(texts.take(n + 1).drop_last() =~= texts.take(n));
        lemma_tunnels_error_stays(texts, n + 1);
    } else {
        assert(texts.take(n) =~= texts);
    }
}

/// What a command line and the environment give, before any of it is read.
#[derive(Debug, Clone)]
pub struct Arguments {
    pub quiet: bool,
    /// How often the verbose flag was given.
    pub verbose: u8,
    /// The proxy, as `host:port`.
    pub proxy: Option<String>,
    /// The proxy that the environment names, as a URL.
    pub environment_proxy: Option<String>,
    /// The tunnels, each as `local_port:remote_host:remote_port`.
    pub tunnels: Vec<String>,
    pub user: Option<String>,
    pub password: Option<String>,
    pub multithreaded: bool,
}

/// What the tunnel client runs with.
#[derive(Debug)]
pub struct Config {
    pub log_level: LogLevel,
    pub proxy: Option<Proxy>,
    pub tunnels: Vec<Tunnel>,
    pub user: Option<User>,
    pub multithreaded: bool,
}

/// The user of the arguments: a password without a name counts for nothing.
pub open spec fn user_of(name: Option<String>, password: Option<String>) -> Option<User> {
    match name {
        None => None,
        Some(name) => Some(User { name, password }),
    }
}

/// Reads the arguments. A bad proxy is reported before a bad tunnel.
pub fn build_config(args: Arguments) -> (r: Result<Config, Error>)
    ensures
        match r {
            Ok(config) => {
                &&& config.log_level == log_level_of(args.quiet, args.verbose)
                &&& selected_proxy(text_of(args.proxy), text_of(args.environment_proxy)) == Ok::<
                    Option<ProxyView>,
                    Error,
                >(proxy_view(config.proxy))
                &&& tunnels_of(texts_of(args.tunnels@)) == Ok::<Seq<TunnelView>, Error>(
                    tunnel_views(config.tunnels@),
                )
                &&& config.user == user_of(args.user, args.password)
                &&& config.multithreaded == args.multithreaded
            },
            Err(e) => match selected_proxy(text_of(args.proxy), text_of(args.environment_proxy)) {
                Err(proxy_error) => e == proxy_error,
                Ok(_) => tunnels_of(texts_of(args.tunnels@)) == Err::<Seq<TunnelView>, Error>(e),
            },
        },
{
    let level = log_level(args.quiet, args.verbose);
    let proxy = match select_proxy(&args.proxy, &args.environment_proxy) {
        Ok(proxy) => proxy,
        Err(e) => {
            return Err(e);
        },
    };
    let tunnels = match parse_tunnels(&args.tunnels) {
        Ok(tunnels) => tunnels,
        Err(e) => {
            return Err(e);
        },
    };
    let user = match args.user {
        None => None,
        Some(name) => Some(User { name, password: args.password }),
    };
    Ok(Config { log_level: level, proxy, tunnels, user, multithreaded: args.multithreaded })
}

} // verus!
