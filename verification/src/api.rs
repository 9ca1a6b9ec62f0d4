//! Calls to the OpenAI-compatible API and to Gitea: request URLs and
//! headers, and what a failed call is answered with.

use vstd::prelude::*;
use vstd::utf8::encode_utf8;
use crate::config::AppConfig;
use crate::errors::{ErrorStatus, HandlerError};
use crate::tasks::{CallOutcome, ChatCompletionResponse};
use crate::text::{chars_of, string_of_range, trim_end_by, skip_back_while_from};

verus! {

/// Whether a byte may stand in an HTTP header value: visible ASCII, a space,
/// a tab, or any byte of a multi-byte character.
pub open spec fn header_byte_ok(b: u8) -> bool {
    (b >= 32 && b != 127) || b == 9
}

/// Whether `s` is a valid HTTP header value (what `HeaderValue::from_str`
/// accepts): every byte of its UTF-8 encoding is allowed.
pub open spec fn valid_header_value(s: Seq<char>) -> bool {
    forall|i: int| 0 <= i < encode_utf8(s).len() ==> header_byte_ok(#[trigger] encode_utf8(s)[i])
}

/// The text of the error that refuses a header value.
pub open spec fn header_value_refusal() -> Seq<char> {
    "failed to parse header value"@
}

/// Checks `s` with `reqwest::header::HeaderValue::from_str` (the `http`
/// crate's): `None` where it is accepted, else the error's text. The source
/// tests each byte with `b >= 32 && b != 127 || b == b'\t'` and displays the
/// error as "failed to parse header value"; the contract states both.
#[verifier::external_body]
fn header_value_error(s: &str) -> (r: Option<String>)
    ensures
        r is None <==> valid_header_value(s@),
        r matches Some(m) ==> m@ == header_value_refusal(),
{
    match reqwest::header::HeaderValue::from_str(s) {
        Ok(_) => None,
        Err(e) => Some(e.to_string()),
    }
}

/// The value `"<scheme> <credential>"` of an `Authorization` header, or the
/// error text where it is not a valid header value.
pub fn authorization_value(scheme: &str, credential: &str) -> (r: Result<String, String>)
    ensures
        valid_header_value(scheme@ + " "@ + credential@) ==> (r matches Ok(v) && v@ == scheme@
            + " "@ + credential@),
        !valid_header_value(scheme@ + " "@ + credential@) ==> (r matches Err(m) && m@
            == header_value_refusal()),
{
    let mut v = String::from_str(scheme);
    v.append(" ");
    v.append(credential);
    match header_value_error(v.as_str()) {
        None => Ok(v),
        Some(m) => Err(m),
    }
}

/// Whether `c` is `/`.
pub open spec fn slash() -> spec_fn(char) -> bool {
    |c: char| c == '/'
}

/// The URL of the chat completions of the API at `endpoint`: the endpoint
/// without trailing slashes, then `/chat/completions`.
pub open spec fn completions_url(endpoint: Seq<char>) -> Seq<char> {
    trim_end_by(endpoint, slash()) + "/chat/completions"@
}

/// The URL that chat completions are requested from.
pub fn chat_completions_url(endpoint: &str) -> (r: String)
    ensures
        r@ == completions_url(endpoint@),
{
    let cs = chars_of(endpoint);
    let ghost p = slash();
    let mut j = cs.len();
    while j > 0 && cs[j - 1] == '/'
        invariant
            j <= cs@.len(),
            p == slash(),
            skip_back_while_from(cs@, p, cs@.len() as int) == skip_back_while_from(cs@, p, j as int),
        decreases j,
    {
        assert(p(cs@[j - 1]));
        j = j - 1;
    }
    proof {
        assert(j > 0 ==> !p(cs@[j - 1]));
        assert(skip_back_while_from(cs@, p, j as int) == j);
    }
    let mut r = string_of_range(&cs, 0, j);
    r.append("/chat/completions");
    assert(cs@.subrange(0, j as int) =~= trim_end_by(cs@, p));
    r
}

/// The views of a list of headers, as (name, value).
pub open spec fn header_views(h: Seq<(String, String)>) -> Seq<(Seq<char>, Seq<char>)> {
    h.map_values(|x: (String, String)| (x.0@, x.1@))
}

/// The headers of a chat completion request: the bearer token, the JSON
/// content type and, where one is configured, the organization.
pub open spec fn completion_headers(key: Seq<char>, organization: Option<Seq<char>>) -> Seq<
    (Seq<char>, Seq<char>),
> {
    let base = seq![
        ("Authorization"@, "Bearer "@ + key),
        ("Content-Type"@, "application/json"@),
    ];
    match organization {
        Some(o) => base.push(("OpenAI-Organization"@, o)),
        None => base,
    }
}

/// The configured organization, as characters.
pub open spec fn organization_of(c: AppConfig) -> Option<Seq<char>> {
    match c.organization_id {
        Some(o) => Some(o@),
        None => None,
    }
}

/// The headers for a chat completion with configuration `c`; a bearer token
/// or organization that is no valid header value ends the request with an
/// internal server error that carries the header error's text.
pub fn chat_request_headers(c: &AppConfig) -> (r: Result<Vec<(String, String)>, HandlerError>)
    ensures
        ({
            let ok = valid_header_value("Bearer "@ + c.api_key@) && match c.organization_id {
                Some(o) => valid_header_value(o@),
                None => true,
            };
            &&& ok ==> (r matches Ok(h) && header_views(h@) == completion_headers(
                c.api_key@,
                organization_of(*c),
            ))
            &&& !ok ==> (r matches Err(e) && e.status == ErrorStatus::InternalServerError
                && e.message@ == header_value_refusal())
        }),
{
    assert("Bearer"@ + " "@ + c.api_key@ =~= "Bearer "@ + c.api_key@) by {
        reveal_strlit("Bearer");
        reveal_strlit(" ");
        reveal_strlit("Bearer ");
    }
    let auth = match authorization_value("Bearer", c.api_key.as_str()) {
        Ok(v) => v,
        Err(m) => return Err(HandlerError { status: ErrorStatus::InternalServerError, message: m }),
    };
    let mut h: Vec<(String, String)> = Vec::new();
    h.push((String::from_str("Authorization"), auth));
    h.push((String::from_str("Content-Type"), String::from_str("application/json")));
    match &c.organization_id {
        Some(o) => {
            match header_value_error(o.as_str()) {
                None => {
                    h.push((String::from_str("OpenAI-Organization"), o.clone()));
                },
                Some(m) => {
                    return Err(HandlerError { status: ErrorStatus::InternalServerError, message: m });
                },
            }
        },
        None => {},
    }
    assert(header_views(h@) =~= completion_headers(c.api_key@, organization_of(*c)));
    Ok(h)
}

/// The headers of a decomposition request: the bearer token and the JSON
/// content type (the key must make a valid header value; the service panics
/// where it does not).
pub fn decomposition_headers(c: &AppConfig) -> (r: Vec<(String, String)>)
    requires
        valid_header_value("Bearer "@ + c.api_key@),
    ensures
        header_views(r@) == seq![
            ("Authorization"@, "Bearer "@ + c.api_key@),
            ("Content-Type"@, "application/json"@),
        ],
{
    let mut auth = String::from_str("Bearer ");
    auth.append(c.api_key.as_str());
    let h = vec![
        (String::from_str("Authorization"), auth),
        (String::from_str("Content-Type"), String::from_str("application/json")),
    ];
    assert(header_views(h@) =~= seq![
        ("Authorization"@, "Bearer "@ + c.api_key@),
        ("Content-Type"@, "application/json"@),
    ]);
    h
}

/// The service that a call goes to.
#[derive(Clone, Copy, Debug, PartialEq, Eq, Structural)]
pub enum Upstream {
    /// The OpenAI-compatible API.
    Completions,
    /// A Gitea server.
    Gitea,
}

/// The text that a failed send to `u` is answered with, before the error.
pub open spec fn call_failure_prefix(u: Upstream) -> Seq<char> {
    match u {
        Upstream::Completions => "Failed to call API: "@,
        Upstream::Gitea => "Failed to call Gitea API: "@,
    }
}

/// The text that an error status from `u` is answered with, before the body.
pub open spec fn status_failure_prefix(u: Upstream) -> Seq<char> {
    match u {
        Upstream::Completions => "API returned error: "@,
        Upstream::Gitea => "Gitea returned error: "@,
    }
}

/// The answer to a request whose call to `u` could not be sent.
pub fn call_failure(u: Upstream, error_text: &str) -> (r: HandlerError)
    ensures
        r.status == ErrorStatus::BadGateway,
        r.message@ == call_failure_prefix(u) + error_text@,
{
    let mut m = match u {
        Upstream::Completions => String::from_str("Failed to call API: "),
        Upstream::Gitea => String::from_str("Failed to call Gitea API: "),
    };
    m.append(error_text);
    HandlerError { status: ErrorStatus::BadGateway, message: m }
}

/// Whether an HTTP status code means success (200 to 299).
pub open spec fn is_success(status: u16) -> bool {
    200 <= status <= 299
}

/// Whether a call that came back with `status` failed: the status is no
/// success.
pub fn upstream_rejected(status: u16) -> (r: bool)
    ensures
        r == !is_success(status),
{
    !(200 <= status && status <= 299)
}

/// The answer to a request whose call to `u` came back with an error status
/// and the body `body`: a bad gateway error that quotes the body.
pub fn rejection(u: Upstream, body: &str) -> (r: HandlerError)
    ensures
        r.status == ErrorStatus::BadGateway,
        r.message@ == status_failure_prefix(u) + body@,
{
    let mut m = match u {
        Upstream::Completions => String::from_str("API returned error: "),
        Upstream::Gitea => String::from_str("Gitea returned error: "),
    };
    m.append(body);
    HandlerError { status: ErrorStatus::BadGateway, message: m }
}

/// The answer to a request whose upstream response could not be parsed.
pub fn parse_failure(error_text: &str) -> (r: HandlerError)
    ensures
        r.status == ErrorStatus::BadGateway,
        r.message@ == "Failed to parse response: "@ + error_text@,
{
    let mut m = String::from_str("Failed to parse response: ");
    m.append(error_text);
    HandlerError { status: ErrorStatus::BadGateway, message: m }
}

/// The answer to a chat request whose HTTP client could not be built.
pub fn client_failure(error_text: &str) -> (r: HandlerError)
    ensures
        r.status == ErrorStatus::InternalServerError,
        r.message@ == error_text@,
{
    HandlerError { status: ErrorStatus::InternalServerError, message: String::from_str(error_text) }
}

/// The token limit and streaming flag sent with a chat completion: those of
/// the request, else 1024 tokens and no streaming.
pub fn completion_options(max_tokens: Option<u32>, stream: Option<bool>) -> (r: (u32, bool))
    ensures
        r.0 == (match max_tokens {
            Some(n) => n,
            None => 1024,
        }),
        r.1 == (match stream {
            Some(b) => b,
            None => false,
        }),
{
    let n = match max_tokens {
        Some(n) => n,
        None => 1024,
    };
    let s = match stream {
        Some(b) => b,
        None => false,
    };
    (n, s)
}


/// A chat completion call, as the service forwards it with the client it
/// built: where it goes, its headers, and the token limit and streaming flag
/// of its body. The model, the messages and the temperature of the
/// body are those of the client's request.
#[derive(Debug)]
pub struct ChatCall {
    pub url: String,
    pub headers: Vec<(String, String)>,
    pub max_tokens: u32,
    pub stream: bool,
}

/// What has happened so far while a chat completion request is handled.
#[derive(Debug)]
pub enum ChatEvent {
    /// Nothing yet.
    Start,
    /// The HTTP client with the requested timeout could not be built; the
    /// error's text.
    ClientFailed(String),
    /// The HTTP client is ready.
    ClientReady,
    /// The call was made and came out this way.
    Called(CallOutcome),
}

/// What handling a chat completion request does next.
#[derive(Debug)]
pub enum ChatStep {
    /// Build an HTTP client whose requests time out after this many seconds.
    BuildClient(u64),
    /// Send this call and come back with its outcome.
    Send(ChatCall),
    /// Answer the request with this.
    Done(Result<ChatCompletionResponse, HandlerError>),
}

/// Handles a chat completion request whose token limit and streaming flag
/// are `max_tokens` and `stream`, with the configuration `c`, after `event`:
/// first the client is built with the configured timeout (a failure is an
/// internal server error with the error's text); then the headers are made
/// (a bearer token or organization that is no valid header value is an
/// internal server error) and the call is sent; a call that fails, is
/// refused or brings back no completion ends in a bad gateway error, and a
/// completion is the answer.
pub fn chat_completions(
    c: &AppConfig,
    max_tokens: Option<u32>,
    stream: Option<bool>,
    event: ChatEvent,
) -> (r: ChatStep)
    ensures
        match event {
            ChatEvent::Start => r == ChatStep::BuildClient(c.timeout_secs),
            ChatEvent::ClientFailed(e) => r matches ChatStep::Done(Err(err)) && err.status
                == ErrorStatus::InternalServerError && err.message@ == e@,
            ChatEvent::ClientReady => {
                let ok = valid_header_value("Bearer "@ + c.api_key@) && match c.organization_id {
                    Some(o) => valid_header_value(o@),
                    None => true,
                };
                &&& ok ==> (r matches ChatStep::Send(call) && {
                    &&& call.url@ == completions_url(c.api_endpoint@)
                    &&& header_views(call.headers@) == completion_headers(
                        c.api_key@,
                        organization_of(*c),
                    )
                    &&& call.max_tokens == (match max_tokens {
                        Some(n) => n,
                        None => 1024,
                    })
                    &&& call.stream == (match stream {
                        Some(b) => b,
                        None => false,
                    })
                })
                &&& !ok ==> (r matches ChatStep::Done(Err(err)) && err.status
                    == ErrorStatus::InternalServerError && err.message@ == header_value_refusal())
            },
            ChatEvent::Called(CallOutcome::NotSent(e)) => r matches ChatStep::Done(Err(err))
                && err.status == ErrorStatus::BadGateway && err.message@ == call_failure_prefix(
                Upstream::Completions,
            ) + e@,
            ChatEvent::Called(CallOutcome::Rejected(body)) => r matches ChatStep::Done(Err(err))
                && err.status == ErrorStatus::BadGateway && err.message@ == status_failure_prefix(
                Upstream::Completions,
            ) + body@,
            ChatEvent::Called(CallOutcome::Unparsable(e)) => r matches ChatStep::Done(Err(err))
                && err.status == ErrorStatus::BadGateway && err.message@
                == "Failed to parse response: "@ + e@,
            ChatEvent::Called(CallOutcome::Answered(answer)) => r == ChatStep::Done(
                Ok::<ChatCompletionResponse, HandlerError>(answer),
            ),
        },
{
    match event {
        ChatEvent::Start => ChatStep::BuildClient(c.timeout_secs),
        ChatEvent::ClientFailed(e) => ChatStep::Done(Err(client_failure(e.as_str()))),
        ChatEvent::ClientReady => match chat_request_headers(c) {
            Err(err) => ChatStep::Done(Err(err)),
            Ok(headers) => {
                let (n, s) = completion_options(max_tokens, stream);
                ChatStep::Send(
                    ChatCall {
                        url: chat_completions_url(c.api_endpoint.as_str()),
                        headers,
                        max_tokens: n,
                        stream: s,
                    },
                )
            },
        },
        ChatEvent::Called(CallOutcome::NotSent(e)) => ChatStep::Done(
            Err(call_failure(Upstream::Completions, e.as_str())),
        ),
        ChatEvent::Called(CallOutcome::Rejected(body)) => ChatStep::Done(
            Err(rejection(Upstream::Completions, body.as_str())),
        ),
        ChatEvent::Called(CallOutcome::Unparsable(e)) => ChatStep::Done(
            Err(parse_failure(e.as_str())),
        ),
        ChatEvent::Called(CallOutcome::Answered(answer)) => ChatStep::Done(Ok(answer)),
    }
}

} // verus!
