//! Locators and the request descriptor built from them.
use vstd::prelude::*;
use crate::error::ClientError;
use crate::text::{
    is_space_spec, lemma_char_from_absent, lemma_char_from_first, lemma_char_from_found, lemma_lead_end_bounds,
    lemma_lead_is_space, lemma_sep_from_absent, lemma_sep_from_found, lemma_trail_start_bounds,
    lemma_trimmed_unchanged, lead_end, sep_at, trail_start,
    char_from, find_char, find_separator, lemma_char_from_bounds, lemma_sep_from_bounds,
    sep_from, trim, trimmed,
};

verus! {

/// The scheme assumed when a locator names none.
pub open spec fn gemini_name() -> Seq<char> {
    seq!['g', 'e', 'm', 'i', 'n', 'i']
}

/// The port assumed when a locator names none: Gemini's own for its scheme,
/// `0` (unspecified) for any other.
pub open spec fn default_port(scheme: Seq<char>) -> Seq<char> {
    if scheme == gemini_name() {
        seq!['1', '9', '6', '5']
    } else {
        seq!['0']
    }
}

/// The parts of a locator, as sequences of characters.
pub struct RequestView {
    pub scheme: Seq<char>,
    pub host: Seq<char>,
    pub port: Seq<char>,
    pub path: Seq<char>,
}

/// What follows the scheme separator, or the whole locator where it has none.
pub open spec fn after_scheme(t: Seq<char>) -> Seq<char> {
    let k = sep_from(t, 0);
    if k < t.len() {
        t.subrange(k + 3, t.len() as int)
    } else {
        t
    }
}

/// The scheme a locator names, or Gemini's where it names none.
pub open spec fn scheme_of(t: Seq<char>) -> Seq<char> {
    let k = sep_from(t, 0);
    if k < t.len() {
        t.subrange(0, k)
    } else {
        gemini_name()
    }
}

/// The parts of an already trimmed locator: a `:` before the first `/`
/// separates host and port; the path starts at the first `/` after the host.
pub open spec fn locator_parts(t: Seq<char>) -> RequestView {
    let scheme = scheme_of(t);
    let rest = after_scheme(t);
    let slash = char_from(rest, '/', 0);
    let colon = char_from(rest, ':', 0);
    if colon < slash {
        RequestView {
            scheme,
            host: rest.subrange(0, colon),
            port: rest.subrange(colon + 1, slash),
            path: rest.subrange(slash, rest.len() as int),
        }
    } else {
        RequestView {
            scheme,
            host: rest.subrange(0, slash),
            port: default_port(scheme),
            path: rest.subrange(slash, rest.len() as int),
        }
    }
}

/// The outcome of parsing a raw locator: its parts once trimmed, or a parse
/// error where the host is empty.
pub open spec fn parse_locator(raw: Seq<char>) -> Result<RequestView, ClientError> {
    let d = locator_parts(trimmed(raw));
    if d.host.len() == 0 {
        Err(ClientError::Parse)
    } else {
        Ok(d)
    }
}

/// The request line sent to the server: `<scheme>://<host><path>` and CRLF.
pub open spec fn request_line(d: RequestView) -> Seq<char> {
    d.scheme + seq![':', '/', '/'] + d.host + d.path + seq!['\r', '\n']
}

/// The `host:port` pair handed to name resolution.
pub open spec fn tcp_target(d: RequestView) -> Seq<char> {
    d.host + seq![':'] + d.port
}

/// A locator with no scheme separator, and no `:` ahead of its first `/`,
/// parses to the `gemini` scheme and port `1965`.
pub proof fn lemma_defaults_without_scheme_or_port(raw: Seq<char>)
    requires
        forall|k: int| !sep_at(raw, k),
        forall|i: int|
            0 <= i < raw.len() && raw[i] == ':' ==> exists|j: int| 0 <= j < i && raw[j] == '/',
    ensures
        match parse_locator(raw) {
            Ok(d) => d.scheme == gemini_name() && d.port == seq!['1', '9', '6', '5'],
            Err(e) => e == ClientError::Parse,
        },
{
    let a = lead_end(raw, 0);
    let b = trail_start(raw, raw.len() as int);
    lemma_lead_end_bounds(raw, 0);
    lemma_trail_start_bounds(raw, raw.len() as int);
    let t = trimmed(raw);
    if a < b {
        assert(t == raw.subrange(a, b));
        assert forall|k: int| 0 <= k < t.len() implies !sep_at(t, k) by {
            assert(!sep_at(raw, a + k));
        }
        lemma_sep_from_absent(t, 0);
        let slash = char_from(t, '/', 0);
        let colon = char_from(t, ':', 0);
        lemma_char_from_bounds(t, ':', 0);
        lemma_char_from_bounds(t, '/', 0);
        assert(after_scheme(t) == t);
        assert(scheme_of(t) == gemini_name());
        if colon < t.len() {
            assert(raw[a + colon] == ':');
            let j = choose|j: int| 0 <= j < a + colon && raw[j] == '/';
            if j < a {
                lemma_lead_is_space(raw, 0, j);
                assert(!is_space_spec('/'));
            }
            assert(t[j - a] == '/');
            lemma_char_from_first(t, '/', 0, j - a);
        }
        assert(!(colon < slash));
    } else {
        assert(t.len() == 0);
        assert(after_scheme(t) == t);
    }
}

/// `gemini://host:port/path` parses back to exactly its host, port and path,
/// where the host holds neither `:` nor `/`, the port holds no `/`, the path
/// is empty or starts with `/`, and the locator does not end with whitespace.
pub proof fn lemma_full_locator_round_trip(host: Seq<char>, port: Seq<char>, path: Seq<char>)
    requires
        host.len() > 0,
        forall|i: int| 0 <= i < host.len() ==> host[i] != ':' && host[i] != '/',
        forall|i: int| 0 <= i < port.len() ==> port[i] != '/',
        path.len() == 0 || path[0] == '/',
        !is_space_spec(
            (gemini_name() + seq![':', '/', '/'] + host + seq![':'] + port + path).last(),
        ),
    ensures
        parse_locator(gemini_name() + seq![':', '/', '/'] + host + seq![':'] + port + path)
            == Ok::<RequestView, ClientError>(
            RequestView { scheme: gemini_name(), host, port, path },
        ),
{
    let s = gemini_name() + seq![':', '/', '/'] + host + seq![':'] + port + path;
    assert(s[0] == 'g');
    lemma_trimmed_unchanged(s);
    assert(sep_at(s, 6));
    lemma_sep_from_found(s, 0, 6);
    assert(s.subrange(0, 6) =~= gemini_name());
    let rest = host + seq![':'] + port + path;
    assert(s.subrange(9, s.len() as int) =~= rest);
    let h = host.len() as int;
    let q = h + 1 + port.len();
    assert(rest[h] == ':');
    lemma_char_from_found(rest, ':', 0, h);
    if path.len() > 0 {
        assert(rest[q] == '/');
        lemma_char_from_found(rest, '/', 0, q);
    } else {
        assert(rest.len() == q);
        lemma_char_from_absent(rest, '/', 0);
    }
    assert(rest.subrange(0, h) =~= host);
    assert(rest.subrange(h + 1, q) =~= port);
    assert(rest.subrange(q, rest.len() as int) =~= path);
}

/// A parsed locator: what one visit asks for.
pub struct GeminiRequest {
    scheme: String,
    hostname: String,
    port: String,
    path: String,
}

impl View for GeminiRequest {
    type V = RequestView;

    closed spec fn view(&self) -> RequestView {
        RequestView {
            scheme: self.scheme@,
            host: self.hostname@,
            port: self.port@,
            path: self.path@,
        }
    }
}

/// Whether `s` is the word `gemini`.
fn is_gemini(s: &str) -> (r: bool)
    ensures
        r == (s@ == gemini_name()),
{
    if s.unicode_len() != 6 {
        return false;
    }
    let r = s.get_char(0) == 'g' && s.get_char(1) == 'e' && s.get_char(2) == 'm'
        && s.get_char(3) == 'i' && s.get_char(4) == 'n' && s.get_char(5) == 'i';
    proof {
        if r {
            assert(s@ =~= gemini_name());
        }
    }
    r
}

impl GeminiRequest {
    /// Splits a raw locator into scheme, host, port and path.
    pub fn parse(raw: &str) -> (r: Result<GeminiRequest, ClientError>)
        ensures
            match r {
                Ok(d) => parse_locator(raw@) == Ok::<RequestView, ClientError>(d@),
                Err(e) => parse_locator(raw@) == Err::<RequestView, ClientError>(e),
            },
    {
        let t = trim(raw);
        let n = t.unicode_len();
        let k = find_separator(t);
        proof {
            lemma_sep_from_bounds(t@, 0);
        }
        let (scheme, rest) = if k < n {
            (String::from_str(t.substring_char(0, k)), t.substring_char(k + 3, n))
        } else {
            proof {
                reveal_strlit("gemini");
                assert("gemini"@ =~= gemini_name());
            }
            (String::from_str("gemini"), t)
        };
        assert(scheme@ == scheme_of(t@));
        assert(rest@ == after_scheme(t@));
        let m = rest.unicode_len();
        let slash = find_char(rest, '/', 0);
        let colon = find_char(rest, ':', 0);
        proof {
            lemma_char_from_bounds(rest@, '/', 0);
            lemma_char_from_bounds(rest@, ':', 0);
        }
        let (hostname, port) = if colon < slash {
            (
                String::from_str(rest.substring_char(0, colon)),
                String::from_str(rest.substring_char(colon + 1, slash)),
            )
        } else {
            let port = if is_gemini(scheme.as_str()) {
                proof {
                    reveal_strlit("1965");
                    assert("1965"@ =~= seq!['1', '9', '6', '5']);
                }
                String::from_str("1965")
            } else {
                proof {
                    reveal_strlit("0");
                    assert("0"@ =~= seq!['0']);
                }
                String::from_str("0")
            };
            (String::from_str(rest.substring_char(0, slash)), port)
        };
        let path = String::from_str(rest.substring_char(slash, m));
        if hostname.as_str().unicode_len() == 0 {
            return Err(ClientError::Parse);
        }
        Ok(GeminiRequest { scheme, hostname, port, path })
    }

    pub fn scheme(&self) -> (r: &str)
        ensures
            r@ == self@.scheme,
    {
        self.scheme.as_str()
    }

    pub fn hostname(&self) -> (r: &str)
        ensures
            r@ == self@.host,
    {
        self.hostname.as_str()
    }

    pub fn port(&self) -> (r: &str)
        ensures
            r@ == self@.port,
    {
        self.port.as_str()
    }

    pub fn path(&self) -> (r: &str)
        ensures
            r@ == self@.path,
    {
        self.path.as_str()
    }

    /// The `host:port` pair to resolve and connect to.
    pub fn for_tcp(&self) -> (r: String)
        ensures
            r@ == tcp_target(self@),
    {
        let mut r = self.hostname.clone();
        r.append(":");
        r.append(self.port.as_str());
        proof {
            reveal_strlit(":");
            assert(r@ =~= tcp_target(self@));
        }
        r
    }

    /// The request line: `<scheme>://<host><path>` terminated by CRLF.
    pub fn request(&self) -> (r: String)
        ensures
            r@ == request_line(self@),
    {
        let mut r = self.scheme.clone();
        r.append("://");
        r.append(self.hostname.as_str());
        r.append(self.path.as_str());
        r.append("\r\n");
        proof {
            reveal_strlit("://");
            reveal_strlit("\r\n");
            assert(r@ =~= request_line(self@));
        }
        r
    }
}

} // verus!
