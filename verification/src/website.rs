//! HTTP prober, verified half. One invocation makes a single request; the
//! surrounding application builds the client and performs the transport.
//! This module validates the configured method before any network activity
//! and classifies what the transport reported: an answered request — of
//! any status — and a failed transport are both successful probe
//! executions, distinguished only in the result; only a malformed
//! configuration is a hard error.

use vstd::prelude::*;

verus! {

use crate::error::NetworkError;
use crate::text::{eq_ignore_ascii_case, eq_ignoring_ascii_case, lower_codes};
use vstd::string::StringExecFns;

/// The request methods the prober supports.
#[derive(Clone, Copy, Debug, PartialEq, Eq, Structural)]
pub enum HttpMethod {
    Get,
    Post,
    Put,
    Delete,
    Head,
}

/// Configuration of one HTTP probe.
#[derive(Clone, Debug, PartialEq, Eq)]
pub struct WebsiteTestConfig {
    /// The URL requested.
    pub url: String,
    /// Request method name, matched ignoring ASCII case.
    pub method: String,
    /// Whole-request deadline, in milliseconds.
    pub timeout_ms: u64,
    /// Whether redirects are followed.
    pub follow_redirects: bool,
    /// Whether the server certificate is verified.
    pub verify_ssl: bool,
    /// Extra request headers, as name/value pairs.
    pub headers: Vec<(String, String)>,
}

impl Default for WebsiteTestConfig {
    /// The documented defaults: a `GET` with a 30 s deadline, redirects
    /// followed, certificates verified, and the engine's user-agent
    /// header.
    fn default() -> (r: Self)
        ensures
            r.url@ == Seq::<char>::empty(),
            r.method@ == "GET"@,
            r.timeout_ms == 30000,
            r.follow_redirects,
            r.verify_ssl,
            r.headers@.len() == 1,
            r.headers@[0].0@ == "User-Agent"@,
            r.headers@[0].1@ == "NetworkProbe/1.0"@,
    {
        let mut headers: Vec<(String, String)> = Vec::new();
        headers.push((String::from_str("User-Agent"), String::from_str("NetworkProbe/1.0")));
        WebsiteTestConfig {
            url: String::new(),
            method: String::from_str("GET"),
            timeout_ms: 30000,
            follow_redirects: true,
            verify_ssl: true,
            headers,
        }
    }
}

/// Result of one HTTP probe execution.
#[derive(Clone, Debug, PartialEq, Eq)]
pub struct WebsiteTestResult {
    /// The URL requested.
    pub url: String,
    /// The response status, when the transport got an answer.
    pub status_code: Option<u16>,
    /// How long the attempt took, in microseconds.
    pub response_time_micros: u64,
    /// The advertised content length, when the server sent one.
    pub content_length: Option<usize>,
    /// Whether an answer came back with a 2xx status.
    pub success: bool,
    /// The transport's error text, when no answer came back.
    pub error_message: Option<String>,
    /// The response headers, as name/value pairs.
    pub headers: Vec<(String, String)>,
    /// When the probe was captured, in milliseconds since the Unix epoch.
    pub timestamp_ms: u64,
}

/// Validate the configured method, ignoring ASCII case. An unsupported
/// method is rejected before any network activity.
pub fn parse_method(method: &str) -> (r: Result<HttpMethod, NetworkError>)
    ensures
        r matches Ok(m) ==> {
            &&& m == HttpMethod::Get <==> eq_ignoring_ascii_case(method@, "GET"@)
            &&& m == HttpMethod::Post <==> eq_ignoring_ascii_case(method@, "POST"@)
            &&& m == HttpMethod::Put <==> eq_ignoring_ascii_case(method@, "PUT"@)
            &&& m == HttpMethod::Delete <==> eq_ignoring_ascii_case(method@, "DELETE"@)
            &&& m == HttpMethod::Head <==> eq_ignoring_ascii_case(method@, "HEAD"@)
        },
        r is Ok <==> (eq_ignoring_ascii_case(method@, "GET"@) || eq_ignoring_ascii_case(
            method@,
            "POST"@,
        ) || eq_ignoring_ascii_case(method@, "PUT"@) || eq_ignoring_ascii_case(method@, "DELETE"@)
            || eq_ignoring_ascii_case(method@, "HEAD"@)),
        r matches Err(e) ==> e is InvalidInput,
{
    proof {
        lemma_method_names_distinct();
    }
    if eq_ignore_ascii_case(method, "GET") {
        Ok(HttpMethod::Get)
    } else if eq_ignore_ascii_case(method, "POST") {
        Ok(HttpMethod::Post)
    } else if eq_ignore_ascii_case(method, "PUT") {
        Ok(HttpMethod::Put)
    } else if eq_ignore_ascii_case(method, "DELETE") {
        Ok(HttpMethod::Delete)
    } else if eq_ignore_ascii_case(method, "HEAD") {
        Ok(HttpMethod::Head)
    } else {
        Err(
            NetworkError::InvalidInput(
                String::from_str("unsupported HTTP method: ").concat(method),
            ),
        )
    }
}

/// The five method names fold to five distinct texts.
proof fn lemma_method_names_distinct()
    ensures
        lower_codes("GET"@) != lower_codes("POST"@),
        lower_codes("GET"@) != lower_codes("PUT"@),
        lower_codes("GET"@) != lower_codes("DELETE"@),
        lower_codes("GET"@) != lower_codes("HEAD"@),
        lower_codes("POST"@) != lower_codes("PUT"@),
        lower_codes("POST"@) != lower_codes("DELETE"@),
        lower_codes("POST"@) != lower_codes("HEAD"@),
        lower_codes("PUT"@) != lower_codes("DELETE"@),
        lower_codes("PUT"@) != lower_codes("HEAD"@),
        lower_codes("DELETE"@) != lower_codes("HEAD"@),
{
    reveal_strlit("GET");
    reveal_strlit("POST");
    reveal_strlit("PUT");
    reveal_strlit("DELETE");
    reveal_strlit("HEAD");
    assert(lower_codes("GET"@).len() == 3);
    assert(lower_codes("POST"@).len() == 4);
    assert(lower_codes("PUT"@).len() == 3);
    assert(lower_codes("DELETE"@).len() == 6);
    assert(lower_codes("HEAD"@).len() == 4);
    assert(lower_codes("GET"@)[0] == 'g' as int);
    assert(lower_codes("PUT"@)[0] == 'p' as int);
    assert(lower_codes("POST"@)[0] == 'p' as int);
    assert(lower_codes("HEAD"@)[0] == 'h' as int);
    assert(lower_codes("POST"@)[1] == 'o' as int);
    assert(lower_codes("HEAD"@)[1] == 'e' as int);
}

/// Whether a status code counts as success: the 2xx class.
pub open spec fn is_success_status(status: u16) -> bool {
    200 <= status < 300
}

/// Classify an answered request: the probe observed the server, and the
/// result carries the status, timing and response metadata. Success means
/// a 2xx status; any other status is an unsuccessful — but answered —
/// probe with no error text.
pub fn transport_success(
    url: String,
    status_code: u16,
    response_time_micros: u64,
    content_length: Option<usize>,
    headers: Vec<(String, String)>,
    timestamp_ms: u64,
) -> (r: WebsiteTestResult)
    ensures
        r.url == url,
        r.status_code == Some(status_code),
        r.response_time_micros == response_time_micros,
        r.content_length == content_length,
        r.success == is_success_status(status_code),
        r.error_message is None,
        r.headers == headers,
        r.timestamp_ms == timestamp_ms,
{
    WebsiteTestResult {
        url,
        status_code: Some(status_code),
        response_time_micros,
        content_length,
        success: 200 <= status_code && status_code < 300,
        error_message: None,
        headers,
        timestamp_ms,
    }
}

/// Classify a failed transport (resolution, connect, TLS or timeout): a
/// successful probe execution that observed failure, carrying the error
/// text and no response metadata — not an error return.
pub fn transport_failure(
    url: String,
    response_time_micros: u64,
    error_message: String,
    timestamp_ms: u64,
) -> (r: WebsiteTestResult)
    ensures
        r.url == url,
        r.status_code is None,
        r.response_time_micros == response_time_micros,
        r.content_length is None,
        !r.success,
        r.error_message == Some(error_message),
        r.headers@ =~= Seq::<(String, String)>::empty(),
        r.timestamp_ms == timestamp_ms,
{
    WebsiteTestResult {
        url,
        status_code: None,
        response_time_micros,
        content_length: None,
        success: false,
        error_message: Some(error_message),
        headers: Vec::new(),
        timestamp_ms,
    }
}

} // verus!
