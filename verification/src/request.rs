//! Requests: where an address leads.
use vstd::prelude::*;
#[allow(unused_imports)]
use vstd::string::*;

use crate::text::{
    dec, join, law_numbers_read_back, law_split_parts, law_texts_are_read_as_their_number, parse_dec, parsed, split_at_char, split_once, strip_prefix, without_prefix,
};

verus! {

/// How much of an answer is kept, in bytes.
pub const RESPONSE_BUF: usize = 8192;

/// Why a request failed.
#[derive(Clone, Copy, Debug, PartialEq, Eq, Structural)]
pub enum RequestError {
    TimeOut,
    UnsupportedScheme,
    PortParse,
    DnsLookup,
    ConnectError,
    ReqwlessError,
    TlsError,
    SendError,
    ReadError,
    BufferOver,
}

/// An answer, with the number of its bytes.
#[derive(Debug)]
pub struct ResponseData {
    pub data: Vec<u8>,
    pub length: usize,
}

/// Where a request goes.
#[derive(Debug)]
pub struct Target {
    /// The connection is encrypted.
    pub secure: bool,
    pub host: String,
    pub port: u16,
    pub path: String,
}

/// Where a request goes, as plain values.
pub struct TargetView {
    pub secure: bool,
    pub host: Seq<char>,
    pub port: u16,
    pub path: Seq<char>,
}

impl View for Target {
    type V = TargetView;

    open spec fn view(&self) -> TargetView {
        TargetView { secure: self.secure, host: self.host@, port: self.port, path: self.path@ }
    }
}

/// A path with a slash at its beginning.
pub open spec fn rooted(path: Seq<char>) -> Seq<char> {
    if path.len() == 0 {
        "/"@
    } else if path[0] == '/' {
        path
    } else {
        "/"@ + path
    }
}

/// Where the part of an address after its scheme leads: up to the first slash a host, with a port
/// behind a colon or the standard one, and then a path.
pub open spec fn target_of(rest: Seq<char>, secure: bool) -> Result<TargetView, RequestError> {
    let (place, path) = match split_at_char(rest, '/') {
        Some(p) => p,
        None => (rest, seq![]),
    };
    let standard = if secure {
        443nat
    } else {
        80
    };
    let (host, port) = match split_at_char(place, ':') {
        Some((h, p)) => (h, parsed(p, 65535)),
        None => (place, Some(standard)),
    };
    match port {
        Some(port) => Ok(TargetView { secure, host, port: port as u16, path: rooted(path) }),
        None => Err(RequestError::PortParse),
    }
}

/// Where an address leads.
pub open spec fn resolved(url: Seq<char>) -> Result<TargetView, RequestError> {
    match without_prefix(url, "https://"@) {
        Some(rest) => target_of(rest, true),
        None => match without_prefix(url, "http://"@) {
            Some(rest) => target_of(rest, false),
            None => Err(RequestError::UnsupportedScheme),
        },
    }
}

/// A target as plain values.
pub open spec fn target_view(r: Result<Target, RequestError>) -> Result<TargetView, RequestError> {
    match r {
        Ok(t) => Ok(t@),
        Err(e) => Err(e),
    }
}

fn parse_rest(rest: &str, secure: bool) -> (r: Result<Target, RequestError>)
    ensures
        target_view(r) == target_of(rest@, secure),
{
    let empty = String::new();
    let (place, path): (&str, &str) = match split_once(rest, '/') {
        Some(p) => p,
        None => (rest, empty.as_str()),
    };
    let path: String = if path.is_empty() {
        "/".to_owned()
    } else if path.get_char(0) == '/' {
        path.to_owned()
    } else {
        join("/", path)
    };
    match split_once(place, ':') {
        Some((host, port)) => match parse_dec(port, 65535) {
            Some(port) => Ok(Target { secure, host: host.to_owned(), port: port as u16, path }),
            None => Err(RequestError::PortParse),
        },
        None => {
            let port: u16 = if secure {
                443
            } else {
                80
            };
            Ok(Target { secure, host: place.to_owned(), port, path })
        },
    }
}

/// Where an address leads; an error where its scheme or its port is none.
pub fn parse_url(url: &str) -> (r: Result<Target, RequestError>)
    ensures
        target_view(r) == resolved(url@),
{
    if let Some(rest) = strip_prefix(url, "https://") {
        parse_rest(rest, true)
    } else if let Some(rest) = strip_prefix(url, "http://") {
        parse_rest(rest, false)
    } else {
        Err(RequestError::UnsupportedScheme)
    }
}

/// Every path that is asked for begins with a slash.
pub proof fn law_paths_are_rooted(url: Seq<char>)
    ensures
        resolved(url) matches Ok(t) ==> t.path.len() > 0 && t.path[0] == '/',
{
    reveal_strlit("/");
}

proof fn lemma_split_at(a: Seq<char>, c: char, b: Seq<char>)
    requires
        !a.contains(c),
    ensures
        split_at_char(a + seq![c] + b, c) == Some((a, b)),
{
    let s = a + seq![c] + b;
    law_split_parts(s, c);
    assert(s[a.len() as int] == c);
    assert(s.contains(c));
    let p = split_at_char(s, c)->0;
    let k = p.0.len() as int;
    if k < a.len() {
        assert(s[k] == a[k]);
        assert((p.0 + seq![c] + p.1)[k] == c);
        assert(a.contains(c));
    }
    if a.len() < k {
        assert((p.0 + seq![c] + p.1)[a.len() as int] == p.0[a.len() as int]);
        assert(p.0.contains(c));
    }
    assert(p.0 =~= s.take(k));
    assert(p.1 =~= s.skip(k + 1));
    assert(a =~= s.take(k));
    assert(b =~= s.skip(k + 1));
}

/// An address that was put together of a scheme, a host, a port and a path is taken apart into them.
#[verifier::rlimit(50)]
pub proof fn law_addresses_are_taken_apart(host: Seq<char>, port: nat, path: Seq<char>, secure: bool)
    requires
        !host.contains('/'),
        !host.contains(':'),
        path.len() == 0 || path[0] != '/',
    ensures
        ({
            let scheme = if secure {
                "https://"@
            } else {
                "http://"@
            };
            let with_port = resolved(scheme + (host + seq![':'] + dec(port) + seq!['/'] + path));
            let plain = resolved(scheme + (host + seq!['/'] + path));
            &&& port <= 65535 ==> with_port == Ok::<TargetView, RequestError>(
                TargetView { secure, host, port: port as u16, path: seq!['/'] + path },
            )
            &&& port > 65535 ==> with_port == Err::<TargetView, RequestError>(RequestError::PortParse)
            &&& plain == Ok::<TargetView, RequestError>(
                TargetView {
                    secure,
                    host,
                    port: if secure {
                        443
                    } else {
                        80
                    },
                    path: seq!['/'] + path,
                },
            )
        }),
{
    reveal_strlit("https://");
    reveal_strlit("http://");
    reveal_strlit("/");
    let scheme = if secure {
        "https://"@
    } else {
        "http://"@
    };
    let place = host + seq![':'] + dec(port);
    law_texts_are_read_as_their_number(seq![], port, 65535);
    law_numbers_read_back(port);
    assert(!place.contains('/')) by {
        if place.contains('/') {
            let i = choose|i: int| 0 <= i < place.len() && place[i] == '/';
            if i < host.len() {
                assert(host[i] == '/');
            } else if i > host.len() {
                assert(dec(port)[i - host.len() - 1] == '/');
            }
        }
    }
    lemma_split_at(place, '/', path);
    lemma_split_at(host, '/', path);
    lemma_split_at(host, ':', dec(port));
    law_split_parts(host, ':');
    assert(rooted(path) =~= seq!['/'] + path);
    let r1 = place + seq!['/'] + path;
    let r2 = host + seq!['/'] + path;
    assert(r1 =~= host + seq![':'] + dec(port) + seq!['/'] + path);
    lemma_prefix(scheme, r1);
    lemma_prefix(scheme, r2);
    if !secure {
        let u1 = scheme + r1;
        let u2 = scheme + r2;
        assert(u1[4] == ':' && u2[4] == ':' && "https://"@[4] == 's');
        assert(!"https://"@.is_prefix_of(u1));
        assert(!"https://"@.is_prefix_of(u2));
    }
}

proof fn lemma_prefix(p: Seq<char>, s: Seq<char>)
    ensures
        without_prefix(p + s, p) == Some(s),
{
    assert(p.is_prefix_of(p + s));
    assert((p + s).skip(p.len() as int) =~= s);
}

/// Only the two known schemes are followed.
pub proof fn law_other_schemes_are_refused(url: Seq<char>)
    requires
        !"https://"@.is_prefix_of(url),
        !"http://"@.is_prefix_of(url),
    ensures
        resolved(url) == Err::<TargetView, RequestError>(RequestError::UnsupportedScheme),
{
}

} // verus!
