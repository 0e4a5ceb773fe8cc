use gemini_client::client::GeminiClient;
use gemini_client::error::ClientError;
use gemini_client::request::GeminiRequest;

fn parse(s: &str) -> Result<GeminiRequest, ClientError> {
    GeminiClient::new().parse_request(s.to_string())
}

fn parts(r: &GeminiRequest) -> (String, String, String, String) {
    (
        r.scheme().to_string(),
        r.hostname().to_string(),
        r.port().to_string(),
        r.path().to_string(),
    )
}

#[test]
fn host_and_path_get_gemini_defaults() {
    let r = parse("example.org/foo").unwrap();
    assert_eq!(
        parts(&r),
        ("gemini".to_string(), "example.org".to_string(), "1965".to_string(), "/foo".to_string())
    );
}

#[test]
fn explicit_port_without_path() {
    let r = parse("example.org:1966").unwrap();
    assert_eq!(
        parts(&r),
        ("gemini".to_string(), "example.org".to_string(), "1966".to_string(), "".to_string())
    );
}

#[test]
fn empty_locator_is_a_parse_error() {
    assert_eq!(parse("").err(), Some(ClientError::Parse));
    assert_eq!(parse("   ").err(), Some(ClientError::Parse));
}

#[test]
fn bare_host_has_no_path() {
    let r = parse("example.org").unwrap();
    assert_eq!(
        parts(&r),
        ("gemini".to_string(), "example.org".to_string(), "1965".to_string(), "".to_string())
    );
}

#[test]
fn full_locator_round_trips() {
    let r = parse("gemini://geminiprotocol.net:1970/docs/faq.gmi").unwrap();
    assert_eq!(
        parts(&r),
        (
            "gemini".to_string(),
            "geminiprotocol.net".to_string(),
            "1970".to_string(),
            "/docs/faq.gmi".to_string()
        )
    );
}

#[test]
fn colon_after_slash_is_not_a_port() {
    let r = parse("example.org/a:b").unwrap();
    assert_eq!(
        parts(&r),
        ("gemini".to_string(), "example.org".to_string(), "1965".to_string(), "/a:b".to_string())
    );
}

#[test]
fn surrounding_whitespace_is_trimmed() {
    let r = parse(" \t example.org/x \n").unwrap();
    assert_eq!(
        parts(&r),
        ("gemini".to_string(), "example.org".to_string(), "1965".to_string(), "/x".to_string())
    );
}

#[test]
fn other_scheme_defaults_to_port_zero() {
    let r = parse("https://example.org/").unwrap();
    assert_eq!(
        parts(&r),
        ("https".to_string(), "example.org".to_string(), "0".to_string(), "/".to_string())
    );
}

#[test]
fn scheme_without_host_is_a_parse_error() {
    assert_eq!(parse("gemini:///path").err(), Some(ClientError::Parse));
}

#[test]
fn request_line_omits_the_port() {
    let r = parse("gemini://example.org:1966/a b").unwrap();
    assert_eq!(r.request(), "gemini://example.org/a b\r\n");
    assert_eq!(r.for_tcp(), "example.org:1966");
}

#[test]
fn request_line_for_bare_host() {
    let r = parse("example.org").unwrap();
    assert_eq!(r.request(), "gemini://example.org\r\n");
    assert_eq!(r.for_tcp(), "example.org:1965");
}

#[test]
fn server_name_accepts_dns_names_only() {
    let client = GeminiClient::new();
    let good = parse("example.org/").unwrap();
    assert!(client.server_name(&good).is_ok());
    let bad = parse("exa_mple!.org/").unwrap();
    assert_eq!(client.server_name(&bad).err(), Some(ClientError::Handshake));
}

#[test]
fn error_messages() {
    assert_eq!(ClientError::Parse.message(), "Could not resolve host");
    assert_eq!(ClientError::Connect.message(), "Failed to connect to socket");
    assert_eq!(ClientError::Handshake.message(), "Failed to negotiate a secure session");
    assert_eq!(ClientError::Send.message(), "Failed to send the request");
    assert_eq!(ClientError::Receive.message(), "Failed to read the response");
}

#[test]
fn full_locator_without_path_round_trips() {
    let r = parse("gemini://example.org:1966").unwrap();
    assert_eq!(
        parts(&r),
        ("gemini".to_string(), "example.org".to_string(), "1966".to_string(), "".to_string())
    );
}
