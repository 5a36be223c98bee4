use vstd::prelude::*;
use vstd::utf8::encode_utf8;

use crate::codec::{message_bytes, message_name, ContentType};
use crate::error::{decode_error_body, decoded_error, decoded_meta, meta_view, TwirpErrorCode, TwirpErrorResponse};
use crate::service::{PingRequest, PingResponse};

verus! {

/// What `url::Url::join` gives for a base URL and a relative reference, as text.
pub uninterp spec fn url_join(base: Seq<char>, rel: Seq<char>) -> Option<Seq<char>>;

/// What `url::Url::set_host` makes of a URL and a host name, as text.
pub uninterp spec fn url_with_host(url: Seq<char>, host: Seq<char>) -> Option<Seq<char>>;

/// Relies on `url::Url::join` (after `Url::parse` of the base): the result depends on
/// the two texts alone, and is absent where either does not parse.
#[verifier::external_body]
fn join_url(base: &str, rel: &str) -> (r: Option<String>)
    ensures
        r matches Some(u) ==> url_join(base@, rel@) == Some(u@),
        r is None ==> url_join(base@, rel@) is None,
{
    let u = url::Url::parse(base).ok()?;
    u.join(rel).ok().map(String::from)
}

/// Relies on `url::Url::set_host` (after `Url::parse` of the URL): the result depends
/// on the two texts alone, and is absent where either is refused.
#[verifier::external_body]
fn set_url_host(url: &str, host: &str) -> (r: Option<String>)
    ensures
        r matches Some(u) ==> url_with_host(url@, host@) == Some(u@),
        r is None ==> url_with_host(url@, host@) is None,
{
    let mut u = url::Url::parse(url).ok()?;
    u.set_host(Some(host)).ok()?;
    Some(String::from(u))
}

/// Why a call did not give a response.
pub enum TwirpClientError {
    /// The base URL does not end with `/`.
    InvalidBaseUrl,
    /// No URL could be formed for the method.
    InvalidUrl,
    /// The request never reached the server (connection, name lookup, timeout).
    Transport { msg: String },
    /// The server answered with a protocol error, or with a body that could not be read.
    Protocol { status: u16, error: TwirpErrorResponse },
}

/// A request ready to be sent with `POST`.
pub struct OutboundRequest {
    pub url: String,
    pub headers: Vec<(String, String)>,
    pub content_type: ContentType,
    pub body: Vec<u8>,
}

/// Whether a text's last byte is `/`.
pub open spec fn ends_with_slash(s: Seq<char>) -> bool {
    encode_utf8(s).len() > 0 && encode_utf8(s).last() == 0x2f
}

/// A client of a service root; the encoding is fixed for the client.
pub struct HttpTwirpClient {
    /// The service root, mount prefix included, ending with `/`.
    pub base_url: String,
    pub content_type: ContentType,
    /// Headers sent with every request.
    pub headers: Vec<(String, String)>,
}

impl HttpTwirpClient {
    /// The URL of a method: the base URL joined with the method's fully-qualified name.
    pub fn method_url(&self, fqn: &str) -> (r: Result<String, TwirpClientError>)
        ensures
            match url_join(self.base_url@, fqn@) {
                Some(u) => r matches Ok(s) && s@ == u,
                None => r matches Err(TwirpClientError::InvalidUrl),
            },
    {
        match join_url(self.base_url.as_str(), fqn) {
            Some(u) => Ok(u),
            None => Err(TwirpClientError::InvalidUrl),
        }
    }

    /// The request for the `Ping` method, sent to the base URL.
    pub fn ping_request(&self, req: &PingRequest) -> (r: Result<OutboundRequest, TwirpClientError>)
        ensures
            match url_join(self.base_url@, "test.TestAPI/Ping"@) {
                Some(u) => r matches Ok(o) && o.url@ == u && o.content_type == self.content_type
                    && o.body@ == message_bytes(self.content_type, req.name@) && o.headers@.len()
                    == self.headers@.len() && forall|i: int|
                    0 <= i < self.headers@.len() ==> o.headers@[i].0@ == self.headers@[i].0@
                        && o.headers@[i].1@ == self.headers@[i].1@,
                None => r matches Err(TwirpClientError::InvalidUrl),
            },
    {
        let url = match self.method_url("test.TestAPI/Ping") {
            Ok(u) => u,
            Err(e) => {
                return Err(e);
            },
        };
        Ok(OutboundRequest { url, headers: copy_headers(&self.headers), content_type: self.content_type, body: req.encode(self.content_type) })
    }

    /// A client of the service root `base`, which must end with `/`; it sends JSON and
    /// no extra headers.
    pub fn from_base_url(base: &str) -> (r: Result<HttpTwirpClient, TwirpClientError>)
        ensures
            ends_with_slash(base@) ==> (r matches Ok(c) && c.base_url@ == base@
                && c.content_type == ContentType::Structured && c.headers@.len() == 0),
            !ends_with_slash(base@) ==> r matches Err(TwirpClientError::InvalidBaseUrl),
    {
        let b = base.as_bytes();
        if b.len() > 0 && b[b.len() - 1] == 0x2f {
            Ok(HttpTwirpClient { base_url: base.to_owned(), content_type: ContentType::Structured, headers: Vec::new() })
        } else {
            Err(TwirpClientError::InvalidBaseUrl)
        }
    }
}

fn copy_headers(h: &Vec<(String, String)>) -> (r: Vec<(String, String)>)
    ensures
        r@.len() == h@.len(),
        forall|i: int| 0 <= i < h@.len() ==> r@[i].0@ == h@[i].0@ && r@[i].1@ == h@[i].1@,
{
    let mut out: Vec<(String, String)> = Vec::new();
    let mut i: usize = 0;
    while i < h.len()
        invariant
            i <= h@.len(),
            out@.len() == i,
            forall|t: int| 0 <= t < i ==> out@[t].0@ == h@[t].0@ && out@[t].1@ == h@[t].1@,
        decreases h.len() - i,
    {
        out.push((h[i].0.as_str().to_owned(), h[i].1.as_str().to_owned()));
        i = i + 1;
    }
    out
}

/// The message of the error that a success body that cannot be read turns into.
pub open spec fn bad_response_message() -> Seq<char> {
    "the response body is not a well-formed message"@
}

/// The result of a call, from what the transport gave: the status and body of the
/// response, or the text of a transport failure. Status 200 gives the decoded response
/// (an unreadable one is an internal error); any other status gives the error envelope
/// that the body holds.
pub fn finish_call(ct: ContentType, outcome: Result<(u16, Vec<u8>), String>) -> (r: Result<PingResponse, TwirpClientError>)
    ensures
        match outcome {
            Err(m) => r matches Err(TwirpClientError::Transport { msg }) && msg@ == m@,
            Ok((status, body)) => if status == 200 {
                match message_name(ct, body@) {
                    Some(n) => r matches Ok(p) && p.name@ == n,
                    None => r matches Err(TwirpClientError::Protocol { status: s, error: e }) && s == 200
                        && e.code == TwirpErrorCode::Internal && e.msg@ == bad_response_message(),
                }
            } else {
                r matches Err(TwirpClientError::Protocol { status: s, error: e }) && s == status && (
                e.code, e.msg@) == decoded_error(body@) && meta_view(e.meta@) == decoded_meta(body@)
            },
        },
{
    match outcome {
        Err(msg) => Err(TwirpClientError::Transport { msg }),
        Ok((status, body)) => {
            if status == 200 {
                match PingResponse::decode(ct, body.as_slice()) {
                    Ok(p) => Ok(p),
                    Err(_) => Err(
                        TwirpClientError::Protocol {
                            status,
                            error: crate::error::internal("the response body is not a well-formed message"),
                        },
                    ),
                }
            } else {
                Err(TwirpClientError::Protocol { status, error: decode_error_body(body.as_slice()) })
            }
        },
    }
}

/// A client that adds its own headers, and a signature header where it holds a key.
pub struct TestAPIClientCustom {
    pub hmac_key: Option<String>,
    pub client: HttpTwirpClient,
}

impl TestAPIClientCustom {
    /// The URL of the `Ping` method under a base URL.
    pub fn ping_url(&self, base_url: &str) -> (r: Result<String, TwirpClientError>)
        ensures
            match url_join(base_url@, "test.TestAPI/Ping"@) {
                Some(u) => r matches Ok(s) && s@ == u,
                None => r matches Err(TwirpClientError::InvalidUrl),
            },
    {
        match join_url(base_url, "test.TestAPI/Ping") {
            Some(u) => Ok(u),
            None => Err(TwirpClientError::InvalidUrl),
        }
    }

    /// The `Ping` request for the client's service root with its host replaced by
    /// `hostname`, carrying a request-id header and, where a key is held, a signature
    /// header.
    pub fn ping(&self, hostname: &str, req: &PingRequest) -> (r: Result<OutboundRequest, TwirpClientError>)
        ensures
            match url_join(self.client.base_url@, "test.TestAPI/Ping"@) {
                None => r matches Err(TwirpClientError::InvalidUrl),
                Some(u) => match url_with_host(u, hostname@) {
                    None => r matches Err(TwirpClientError::InvalidUrl),
                    Some(h) => r matches Ok(o) && o.url@ == h && o.content_type
                        == self.client.content_type && o.body@ == message_bytes(
                        self.client.content_type,
                        req.name@,
                    ) && o.headers@.len() == (if self.hmac_key is Some { 2int } else { 1int })
                        && o.headers@[0].0@ == "X-GitHub-Request-Id"@ && o.headers@[0].1@ == "XYZ"@
                        && (self.hmac_key is Some ==> o.headers@[1].0@ == "Request-HMAC"@
                        && o.headers@[1].1@ == "example:todo"@),
                },
            },
    {
        let url = match self.ping_url(self.client.base_url.as_str()) {
            Ok(u) => u,
            Err(e) => {
                return Err(e);
            },
        };
        let url = match set_url_host(url.as_str(), hostname) {
            Some(u) => u,
            None => {
                return Err(TwirpClientError::InvalidUrl);
            },
        };
        let mut headers: Vec<(String, String)> = Vec::new();
        headers.push(("X-GitHub-Request-Id".to_owned(), "XYZ".to_owned()));
        if self.hmac_key.is_some() {
            headers.push(("Request-HMAC".to_owned(), "example:todo".to_owned()));
        }
        Ok(OutboundRequest { url, headers, content_type: self.client.content_type, body: req.encode(self.client.content_type) })
    }
}

/// The client side of the test service: what a transport implements.
pub trait TestAPIClient {
    fn ping(&self, req: PingRequest) -> Result<PingResponse, TwirpClientError>;

    fn boom(&self, req: PingRequest) -> Result<PingResponse, TwirpClientError>;
}

} // verus!
