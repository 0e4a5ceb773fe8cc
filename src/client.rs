//! The client: how certificates are trusted, how locators become requests,
//! and the server name a session is negotiated for.
use vstd::prelude::*;
use crate::error::ClientError;
use crate::request::{parse_locator, GeminiRequest, RequestView};

verus! {

#[verifier::external_type_specification]
#[verifier::external_body]
pub struct ExDNSName(webpki::DNSName);

#[verifier::external_type_specification]
#[verifier::external_body]
pub struct ExInvalidDNSNameError(webpki::InvalidDNSNameError);

/// A name for whether some text is a syntactically valid DNS name.
pub uninterp spec fn is_dns_name(s: Seq<char>) -> bool;

/// Relies on `webpki::DNSNameRef::try_from_ascii_str`, which accepts exactly
/// the syntactically valid DNS names, and on `DNSNameRef::to_owned` to keep
/// the accepted name.
#[verifier::external_body]
fn dns_name(host: &str) -> (r: Result<webpki::DNSName, webpki::InvalidDNSNameError>)
    ensures
        r is Ok <==> is_dns_name(host@),
{
    match webpki::DNSNameRef::try_from_ascii_str(host) {
        Ok(name) => Ok(name.to_owned()),
        Err(e) => Err(e),
    }
}

/// Whether `a` and `b` hold the same bytes.
fn same_bytes(a: &Vec<u8>, b: &Vec<u8>) -> (r: bool)
    ensures
        r == (a@ == b@),
{
    if a.len() != b.len() {
        return false;
    }
    let mut i: usize = 0;
    while i < b.len()
        invariant
            a@.len() == b@.len(),
            0 <= i <= b@.len(),
            forall|k: int| 0 <= k < i ==> a@[k] == b@[k],
        decreases b@.len() - i,
    {
        if a[i] != b[i] {
            assert(a@[i as int] != b@[i as int]);
            return false;
        }
        i = i + 1;
    }
    assert(a@ =~= b@);
    true
}

/// Which server certificates a client accepts.
#[derive(Clone, Debug)]
pub enum TrustPolicy {
    /// Every certificate chain is accepted: Gemini servers mostly present
    /// self-signed certificates.
    AcceptAny,
    /// Only a chain whose end-entity certificate has exactly these DER bytes.
    Pinned(Vec<u8>),
}

impl TrustPolicy {
    /// Whether a presented chain (end-entity certificate first) is accepted.
    pub open spec fn accepts_spec(&self, chain: Seq<Seq<u8>>) -> bool {
        match self {
            TrustPolicy::AcceptAny => true,
            TrustPolicy::Pinned(der) => chain.len() > 0 && chain[0] == der@,
        }
    }

    /// Decides whether a presented chain (end-entity certificate first) is
    /// accepted.
    pub fn accepts(&self, chain: &Vec<Vec<u8>>) -> (r: bool)
        ensures
            r == self.accepts_spec(chain.deep_view()),
    {
        match self {
            TrustPolicy::AcceptAny => true,
            TrustPolicy::Pinned(der) => {
                if chain.len() == 0 {
                    return false;
                }
                let first = &chain[0];
                assert(chain.deep_view()[0] == first@);
                same_bytes(first, der)
            },
        }
    }
}

/// A Gemini client: parses locators and holds the trust policy that its
/// sessions apply.
pub struct GeminiClient {
    policy: TrustPolicy,
}

impl GeminiClient {
    /// A client that accepts every server certificate.
    pub fn new() -> (r: Self)
        ensures
            r.policy() is AcceptAny,
    {
        GeminiClient { policy: TrustPolicy::AcceptAny }
    }

    /// A client that applies `policy` to server certificates.
    pub fn with_policy(policy: TrustPolicy) -> (r: Self)
        ensures
            r.policy() == policy,
    {
        GeminiClient { policy }
    }

    pub closed spec fn policy(&self) -> TrustPolicy {
        self.policy
    }

    /// The trust policy of this client.
    pub fn trust_policy(&self) -> (r: &TrustPolicy)
        ensures
            *r == self.policy(),
    {
        &self.policy
    }

    /// Splits a raw locator into scheme, host, port and path; an empty host
    /// is a parse error.
    pub fn parse_request(&self, request: String) -> (r: Result<GeminiRequest, ClientError>)
        ensures
            match r {
                Ok(d) => parse_locator(request@) == Ok::<RequestView, ClientError>(d@),
                Err(e) => parse_locator(request@) == Err::<RequestView, ClientError>(e),
            },
    {
        GeminiRequest::parse(request.as_str())
    }

    /// The name the session with `request`'s host is negotiated for: a host
    /// that is no valid DNS name fails the handshake before any connection.
    pub fn server_name(&self, request: &GeminiRequest) -> (r: Result<
        webpki::DNSName,
        ClientError,
    >)
        ensures
            r is Ok <==> is_dns_name(request@.host),
            r is Err ==> r == Err::<webpki::DNSName, ClientError>(ClientError::Handshake),
    {
        match dns_name(request.hostname()) {
            Ok(name) => Ok(name),
            Err(_) => Err(ClientError::Handshake),
        }
    }
}

} // verus!
