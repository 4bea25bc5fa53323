//! URLs of the daemon.

use vstd::prelude::*;
use crate::text;

verus! {

/// A URL of the form `scheme://host[:port][/path]`.
#[derive(Debug)]
pub struct Url {
    pub scheme: String,
    pub host: String,
    pub port: Option<u16>,
    pub path: String,
}

/// The value of a URL.
#[verifier::ext_equal]
pub struct UrlView {
    pub scheme: Seq<char>,
    pub host: Seq<char>,
    pub port: Option<u16>,
    pub path: Seq<char>,
}

impl View for Url {
    type V = UrlView;

    open spec fn view(&self) -> UrlView {
        UrlView { scheme: self.scheme@, host: self.host@, port: self.port, path: self.path@ }
    }
}

/// The scheme of a URL: one of the two that are supported.
pub open spec fn scheme_of(s: Seq<char>) -> Option<Seq<char>> {
    if text::stands_at(s, "http://"@, 0) {
        Some("http"@)
    } else if text::stands_at(s, "https://"@, 0) {
        Some("https"@)
    } else {
        None
    }
}

/// The host and the port of an authority: where a port number follows the last colon, the
/// colon parts the two, else all of it is the host.
pub open spec fn host_and_port(authority: Seq<char>) -> (Seq<char>, Option<u16>) {
    match authority.index_of_last(':') {
        Some(colon) => match text::unsigned_value(authority.skip(colon + 1), u16::MAX as nat) {
            Some(port) => (authority.take(colon), Some(port as u16)),
            None => (authority, None),
        },
        None => (authority, None),
    }
}

/// The authority and the path that follow the scheme: the path starts at the first slash; a
/// missing path is `/`.
pub open spec fn authority_and_path(rest: Seq<char>) -> (Seq<char>, Seq<char>) {
    match rest.index_of_first('/') {
        Some(slash) => (rest.take(slash), rest.skip(slash)),
        None => (rest, "/"@),
    }
}

/// The URL that a text denotes, if its scheme is supported.
pub open spec fn parsed(s: Seq<char>) -> Option<UrlView> {
    match scheme_of(s) {
        Some(scheme) => {
            let (authority, path) = authority_and_path(s.skip(scheme.len() as int + 3));
            let (host, port) = host_and_port(authority);
            Some(UrlView { scheme, host, port, path })
        },
        None => None,
    }
}

/// Where the first part of a text holds no slash and a slash follows, the slash is the first.
proof fn lemma_first_slash(a: Seq<char>, b: Seq<char>)
    requires
        !a.contains('/'),
        b.len() > 0,
        b[0] == '/',
    ensures
        authority_and_path(a + b) == (a, b),
{
    let s = a + b;
    s.index_of_first_ensures('/');
    assert(s[a.len() as int] == '/');
    assert(s.contains('/'));
    let p = s.index_of_first('/')->0;
    assert(p == a.len()) by {
        if p < a.len() {
            assert(a[p] == '/');
        }
    }
    assert(s.take(p) == a);
    assert(s.skip(p) == b);
}

/// A URL reads back: where a host without a slash, a port number and a path that starts with a
/// slash are written one after the other, with a supported scheme before them, reading gives
/// the parts.
pub proof fn law_url_reads_back(secure: bool, host: Seq<char>, port: u16, path: Seq<char>)
    requires
        !host.contains('/'),
        path.len() > 0,
        path[0] == '/',
    ensures
        ({
            let scheme = if secure {
                "https"@
            } else {
                "http"@
            };
            parsed(scheme + "://"@ + host + ":"@ + text::decimal(port as nat) + path) == Some(
                UrlView { scheme, host, port: Some(port), path },
            )
        }),
{
    let scheme = if secure {
        "https"@
    } else {
        "http"@
    };
    let digits = text::decimal(port as nat);
    let authority = host + ":"@ + digits;
    let s = scheme + "://"@ + host + ":"@ + digits + path;
    lemma_scheme(secure, authority + path);
    assert(s == scheme + "://"@ + (authority + path));
    text::lemma_decimal_digits(port as nat);
    reveal_strlit(":");
    assert(!authority.contains('/')) by {
        assert forall|i: int| 0 <= i < authority.len() implies authority[i] != '/' by {
            if i < host.len() {
                assert(authority[i] == host[i]);
            } else if i > host.len() {
                assert(authority[i] == digits[i - host.len() - 1]);
                assert(text::is_digit(digits[i - host.len() - 1]));
            }
        }
    }
    lemma_first_slash(authority, path);
    let colon = host.len() as int;
    authority.index_of_last_ensures(':');
    assert(authority[colon] == ':');
    assert(authority.contains(':'));
    let p = authority.index_of_last(':')->0;
    assert(p == colon) by {
        if p > colon {
            assert(authority[p] == digits[p - colon - 1]);
            assert(text::is_digit(digits[p - colon - 1]));
        }
    }
    assert(authority.skip(colon + 1) == digits);
    assert(authority.take(colon) == host);
    text::lemma_unsigned_value_of_decimal(port as nat, u16::MAX as nat);
}

/// A URL without a port reads back too, where its host does not itself read as a host and a port.
pub proof fn law_url_without_port_reads_back(secure: bool, host: Seq<char>, path: Seq<char>)
    requires
        !host.contains('/'),
        host_and_port(host) == (host, None::<u16>),
        path.len() > 0,
        path[0] == '/',
    ensures
        ({
            let scheme = if secure {
                "https"@
            } else {
                "http"@
            };
            parsed(scheme + "://"@ + host + path) == Some(
                UrlView { scheme, host, port: None, path },
            )
        }),
{
    let scheme = if secure {
        "https"@
    } else {
        "http"@
    };
    lemma_scheme(secure, host + path);
    assert(scheme + "://"@ + host + path == scheme + "://"@ + (host + path));
    lemma_first_slash(host, path);
}

/// A URL, written from its parts.
pub open spec fn url_text(u: UrlView) -> Seq<char> {
    let port = match u.port {
        Some(p) => ":"@ + text::decimal(p as nat),
        None => Seq::<char>::empty(),
    };
    u.scheme + "://"@ + u.host + port + u.path
}

/// Every URL that can be read reads back from its parts.
pub proof fn law_parts_read_back(s: Seq<char>)
    requires
        parsed(s) is Some,
    ensures
        parsed(url_text(parsed(s)->0)) == parsed(s),
{
    let u = parsed(s)->0;
    let secure = !text::stands_at(s, "http://"@, 0);
    let rest = s.skip(u.scheme.len() as int + 3);
    let authority = authority_and_path(rest).0;
    law_path_starts_with_slash(s);
    rest.index_of_first_ensures('/');
    authority.index_of_last_ensures(':');
    assert(!authority.contains('/')) by {
        assert forall|i: int| 0 <= i < authority.len() implies authority[i] != '/' by {
            assert(authority[i] == rest[i]);
        }
    }
    assert(!u.host.contains('/')) by {
        assert forall|i: int| 0 <= i < u.host.len() implies u.host[i] != '/' by {
            assert(u.host[i] == authority[i]);
        }
    }
    match u.port {
        Some(p) => {
            law_url_reads_back(secure, u.host, p, u.path);
            assert(url_text(u) == u.scheme + "://"@ + u.host + ":"@ + text::decimal(p as nat)
                + u.path);
        },
        None => {
            law_url_without_port_reads_back(secure, u.host, u.path);
            assert(url_text(u) == u.scheme + "://"@ + u.host + u.path);
        },
    }
}

/// The scheme of a URL is found, and what follows it.
proof fn lemma_scheme(secure: bool, rest: Seq<char>)
    ensures
        ({
            let scheme = if secure {
                "https"@
            } else {
                "http"@
            };
            let s = scheme + "://"@ + rest;
            scheme_of(s) == Some(scheme) && s.skip(scheme.len() as int + 3) == rest
        }),
{
    reveal_strlit("http");
    reveal_strlit("https");
    reveal_strlit("://");
    reveal_strlit("http://");
    reveal_strlit("https://");
    if secure {
        let s = "https"@ + "://"@ + rest;
        assert(s.subrange(0, 8) == "https://"@);
        assert(s.subrange(0, 7)[4] == 's');
        assert(s.skip(8) == rest);
    } else {
        let s = "http"@ + "://"@ + rest;
        assert(s.subrange(0, 7) == "http://"@);
        assert(s.skip(7) == rest);
    }
}

/// Every URL that can be read has a path that starts with a slash.
pub proof fn law_path_starts_with_slash(s: Seq<char>)
    requires
        parsed(s) is Some,
    ensures
        parsed(s)->0.path.len() > 0,
        parsed(s)->0.path[0] == '/',
{
    let scheme = scheme_of(s)->0;
    let rest = s.skip(scheme.len() as int + 3);
    rest.index_of_first_ensures('/');
    reveal_strlit("/");
}

impl Url {
    /// Reads a URL. One with another scheme than `http` or `https` is refused.
    pub fn from_str(s: &str) -> (res: Result<Url, String>)
        ensures
            match res {
                Ok(url) => parsed(s@) == Some(url@),
                Err(e) => parsed(s@) is None && e@ == "Unsupported scheme"@,
            },
    {
        proof {
            reveal_strlit("http://");
            reveal_strlit("https://");
            reveal_strlit("http");
            reveal_strlit("https");
        }
        let chars = text::to_chars(s);
        let (scheme, start): (&str, usize) = if text::matches_at(
            &chars,
            &text::to_chars("http://"),
            0,
        ) {
            ("http", 7)
        } else if text::matches_at(&chars, &text::to_chars("https://"), 0) {
            ("https", 8)
        } else {
            return Err("Unsupported scheme".to_string());
        };
        let ghost rest = s@.skip(start as int);
        let len = chars.len();
        let rest_text = s.substring_char(start, len);
        let rest_chars = text::to_chars(rest_text);
        assert(rest_chars@ == rest);
        let (slash, path): (usize, String) = match text::find_char(&rest_chars, '/') {
            Some(p) => {
                let tail = rest_text.substring_char(p, rest_chars.len());
                assert(tail@ == rest.skip(p as int));
                (p, tail.to_string())
            },
            None => (rest_chars.len(), "/".to_string()),
        };
        let ghost authority = rest.take(slash as int);
        assert(authority_and_path(rest) == (authority, path@));
        let (host, port): (String, Option<u16>) = match text::find_last_char(
            &rest_chars,
            slash,
            ':',
        ) {
            Some(colon) => {
                let digits = text::to_chars(rest_text.substring_char(colon + 1, slash));
                assert(digits@.skip(0) == authority.skip(colon + 1));
                match text::parse_unsigned(&digits, 0, 65535) {
                    Some(p) => {
                        assert(rest.take(colon as int) == authority.take(colon as int));
                        (rest_text.substring_char(0, colon).to_string(), Some(p as u16))
                    },
                    None => (rest_text.substring_char(0, slash).to_string(), None),
                }
            },
            None => (rest_text.substring_char(0, slash).to_string(), None),
        };
        assert(host_and_port(authority) == (host@, port));
        Ok(Url { scheme: scheme.to_string(), host, port, path })
    }

    /// The host.
    pub fn host_str(&self) -> (res: Option<&str>)
        ensures
            res is Some,
            res->0@ == self@.host,
    {
        Some(self.host.as_str())
    }

    /// The port, where one is given.
    pub fn port(&self) -> (res: Option<u16>)
        ensures
            res == self@.port,
    {
        self.port
    }

    /// The path.
    pub fn path(&self) -> (res: &str)
        ensures
            res@ == self@.path,
    {
        self.path.as_str()
    }
}

impl core::str::FromStr for Url {
    type Err = String;

    /// Reads a URL, as [`Url::from_str`] does.
    fn from_str(s: &str) -> (res: Result<Url, String>)
        ensures
            match res {
                Ok(url) => parsed(s@) == Some(url@),
                Err(e) => parsed(s@) is None && e@ == "Unsupported scheme"@,
            },
    {
        Url::from_str(s)
    }
}

/// The value of a URL shows each of its fields as it is.
pub proof fn law_url_view(url: Url)
    ensures
        url@.scheme == url.scheme@,
        url@.host == url.host@,
        url@.port == url.port,
        url@.path == url.path@,
{
}

/// A text can be read as a URL exactly if it starts with one of the two schemes.
pub proof fn law_schemes(s: Seq<char>)
    ensures
        parsed(s) is Some <==> (s.len() >= 7 && s.take(7) == "http://"@) || (s.len() >= 8 && s.take(8)
            == "https://"@),
{
    reveal_strlit("http://");
    reveal_strlit("https://");
    if s.len() >= 7 {
        assert(s.take(7) == s.subrange(0, 7));
    }
    if s.len() >= 8 {
        assert(s.take(8) == s.subrange(0, 8));
    }
}

/// What follows the scheme of a URL is its authority, up to the first slash, and its path, which is
/// `/` where there is no slash. The host and the port are those of the authority.
pub proof fn law_url_parts(secure: bool, authority: Seq<char>, path: Seq<char>)
    requires
        !authority.contains('/'),
        path.len() == 0 || path[0] == '/',
    ensures
        ({
            let scheme = if secure {
                "https"@
            } else {
                "http"@
            };
            parsed(scheme + "://"@ + (authority + path)) == Some(
                UrlView {
                    scheme,
                    host: host_and_port(authority).0,
                    port: host_and_port(authority).1,
                    path: if path.len() == 0 {
                        seq!['/']
                    } else {
                        path
                    },
                },
            )
        }),
{
    lemma_scheme(secure, authority + path);
    if path.len() == 0 {
        assert(authority + path == authority);
        authority.index_of_first_ensures('/');
        reveal_strlit("/");
        assert("/"@ == seq!['/']);
    } else {
        lemma_first_slash(authority, path);
    }
}

/// An authority without a colon is a host. One with a colon is a host and a port where what follows
/// the last colon is an unsigned number of at most 65,535, and else is a host as a whole.
pub proof fn law_host_and_port(host: Seq<char>, tail: Seq<char>)
    requires
        !tail.contains(':'),
    ensures
        host_and_port(tail) == (tail, None::<u16>),
        match text::unsigned_value(tail, 65_535) {
            Some(v) => {
                &&& host_and_port(host + seq![':'] + tail).0 == host
                &&& host_and_port(host + seq![':'] + tail).1 is Some
                &&& host_and_port(host + seq![':'] + tail).1->0 == v
            },
            None => host_and_port(host + seq![':'] + tail) == (
                host + seq![':'] + tail,
                None::<u16>,
            ),
        },
{
    tail.index_of_last_ensures(':');
    let authority = host + seq![':'] + tail;
    let colon = host.len() as int;
    authority.index_of_last_ensures(':');
    assert(authority[colon] == ':');
    assert(authority.contains(':'));
    let p = authority.index_of_last(':')->0;
    assert(p == colon) by {
        if p > colon {
            assert(authority[p] == tail[p - colon - 1]);
        }
    }
    assert(authority.skip(colon + 1) == tail);
    assert(authority.take(colon) == host);
}

} // verus!
