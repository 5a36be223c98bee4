use vstd::prelude::*;
use vstd::utf8::encode_utf8;

use crate::codec::{content_type_of, detect, message_bytes, message_name, ContentType};
use crate::error::{
    decoded_error, encode_error_body, error_body, lemma_error_body_round_trip, status_of,
    TwirpErrorCode, TwirpErrorResponse,
};
use crate::service::{PingRequest, PingResponse, TestAPI};
use crate::text::{lit_at, starts_at, str_eq};

verus! {

pub const SLASH: u8 = 0x2f;

/// A response, encoded in full before any of it is written.
pub struct HttpResponse {
    pub status: u16,
    pub content_type: ContentType,
    pub body: Vec<u8>,
}

/// A table of fully-qualified method names (`<package>.<Service>/<Method>`), mounted
/// under a path prefix. Filled once, then only read.
pub struct Router {
    pub prefix: String,
    pub methods: Vec<String>,
}

/// The path under which method `i` of the table is served, as UTF-8 bytes.
pub open spec fn route_bytes(r: &Router, i: int) -> Seq<u8> {
    encode_utf8(r.prefix@) + seq![SLASH] + encode_utf8(r.methods@[i]@)
}

/// Whether `path` is the path of method `i`.
pub open spec fn routes_to(r: &Router, path: Seq<char>, i: int) -> bool {
    0 <= i < r.methods@.len() && encode_utf8(path) == route_bytes(r, i)
}

impl Router {
    /// An empty table mounted at the root.
    pub fn new() -> (r: Router)
        ensures
            r.prefix@.len() == 0,
            r.methods@.len() == 0,
    {
        Router { prefix: String::new(), methods: Vec::new() }
    }

    /// Registers a method under its fully-qualified name.
    pub fn add_method(&mut self, fqn: &str)
        ensures
            final(self).prefix@ == old(self).prefix@,
            final(self).methods@.len() == old(self).methods@.len() + 1,
            forall|i: int|
                0 <= i < old(self).methods@.len() ==> final(self).methods@[i] == old(self).methods@[i],
            final(self).methods@.last()@ == fqn@,
    {
        self.methods.push(fqn.to_owned());
    }

    /// Mounts the table under `prefix`: the prefix is joined in front of the current one.
    pub fn nest(self, prefix: &str) -> (r: Router)
        ensures
            encode_utf8(r.prefix@) == encode_utf8(prefix@) + encode_utf8(self.prefix@),
            r.methods@ == self.methods@,
    {
        let mut b: Vec<u8> = Vec::new();
        crate::text::append_bytes(&mut b, prefix.as_bytes());
        crate::text::append_bytes(&mut b, self.prefix.as_str().as_bytes());
        proof {
            vstd::utf8::encode_utf8_valid_utf8(prefix@);
            vstd::utf8::encode_utf8_valid_utf8(self.prefix@);
            vstd::utf8::valid_utf8_concat(encode_utf8(prefix@), encode_utf8(self.prefix@));
        }
        let ghost bytes = b@;
        match crate::text::string_from_utf8(b) {
            Some(p) => {
                proof {
                    vstd::utf8::decode_utf8_encode_utf8(bytes);
                }
                Router { prefix: p, methods: self.methods }
            },
            None => Router { prefix: self.prefix, methods: self.methods },
        }
    }

    /// Finds the first method whose path is `path`, by exact comparison.
    pub fn find_method(&self, path: &str) -> (r: Option<usize>)
        ensures
            match r {
                Some(i) => routes_to(self, path@, i as int) && forall|t: int|
                    0 <= t < i ==> !routes_to(self, path@, t),
                None => forall|t: int| !routes_to(self, path@, t),
            },
    {
        let p = path.as_bytes();
        let pre = self.prefix.as_str().as_bytes();
        if !(starts_at(p, 0, pre) && pre.len() < p.len() && p[pre.len()] == SLASH) {
            proof {
                assert forall|t: int| !routes_to(self, path@, t) by {
                    if routes_to(self, path@, t) {
                        assert(p@.subrange(0, pre@.len() as int) =~= pre@);
                        assert(p@[pre@.len() as int] == route_bytes(self, t)[pre@.len() as int]);
                    }
                }
            }
            return None;
        }
        let start: usize = pre.len() + 1;
        let mut i: usize = 0;
        while i < self.methods.len()
            invariant
                i <= self.methods@.len(),
                start == pre@.len() + 1,
                start <= p@.len(),
                p@ == encode_utf8(path@),
                pre@ == encode_utf8(self.prefix@),
                lit_at(p@, 0, pre@),
                p@[pre@.len() as int] == SLASH,
                forall|t: int| 0 <= t < i ==> !routes_to(self, path@, t),
            decreases self.methods.len() - i,
        {
            let m = self.methods[i].as_str().as_bytes();
            let hit = starts_at(p, start, m) && p.len() - start == m.len();
            proof {
                let rb = route_bytes(self, i as int);
                assert(p@.subrange(0, pre@.len() as int) =~= pre@);
                if hit {
                    assert(p@ =~= rb);
                } else {
                    if p@ == rb {
                        assert(p@.subrange(start as int, p@.len() as int) =~= m@);
                    }
                }
            }
            if hit {
                return Some(i);
            }
            i = i + 1;
        }
        None
    }
}

/// A response carrying an error envelope, with the status of its code.
pub fn error_response(e: &TwirpErrorResponse) -> (r: HttpResponse)
    ensures
        r.status == status_of(e.code),
        r.content_type == ContentType::Structured,
        r.body@ == error_body(e.code, e.msg@, e.meta@),
{
    HttpResponse { status: e.code.http_status_code(), content_type: ContentType::Structured, body: encode_error_body(e) }
}

/// What a handler came back with: its result, or `None` where it failed unexpectedly.
pub type HandlerOutcome = Option<Result<PingResponse, TwirpErrorResponse>>;

/// The message of the error written for a handler that failed unexpectedly.
pub open spec fn fault_message() -> Seq<char> {
    "internal error"@
}

/// The status, encoding and body written for a handler's outcome: the response in the
/// request's encoding with status 200, the handler's error with the status of its code,
/// or an internal error.
pub open spec fn outcome_response(ct: ContentType, outcome: HandlerOutcome) -> (u16, ContentType, Seq<u8>) {
    match outcome {
        Some(Ok(p)) => (200, ct, message_bytes(ct, p.name@)),
        Some(Err(e)) => (status_of(e.code), ContentType::Structured, error_body(e.code, e.msg@, e.meta@)),
        None => (500, ContentType::Structured, error_body(TwirpErrorCode::Internal, fault_message(), Seq::empty())),
    }
}

/// Writes a handler's outcome for a request of encoding `ct`.
pub fn write_outcome(ct: ContentType, outcome: HandlerOutcome) -> (r: HttpResponse)
    ensures
        (r.status, r.content_type, r.body@) == outcome_response(ct, outcome),
{
    match outcome {
        Some(Ok(p)) => HttpResponse { status: 200, content_type: ct, body: p.encode(ct) },
        Some(Err(e)) => error_response(&e),
        None => {
            let e = crate::error::internal("internal error");
            let r = error_response(&e);
            assert(e.meta@ =~= Seq::<(String, String)>::empty());
            r
        },
    }
}

/// An error returned by a handler reaches the client with the status of its code and
/// reads back as that code and message.
pub proof fn lemma_handler_error_reaches_client(ct: ContentType, e: TwirpErrorResponse)
    requires
        e.meta@.len() == 0,
    ensures
        outcome_response(ct, Some(Err(e))).0 == status_of(e.code),
        decoded_error(outcome_response(ct, Some(Err(e))).2) == (e.code, e.msg@),
        e.code == TwirpErrorCode::InvalidArgument ==> outcome_response(ct, Some(Err(e))).0 == 400,
{
    lemma_error_body_round_trip(e.code, e.msg@, e.meta@);
}

/// A handler that fails unexpectedly still gives a status-500 response whose body reads
/// back as an internal error.
pub proof fn lemma_fault_is_internal(ct: ContentType)
    ensures
        outcome_response(ct, None).0 == 500,
        decoded_error(outcome_response(ct, None).2) == (TwirpErrorCode::Internal, fault_message()),
{
    lemma_error_body_round_trip(TwirpErrorCode::Internal, fault_message(), Seq::empty());
}

/// The next step for an incoming request, decided before any handler runs.
pub enum Dispatch {
    /// Run method `method` of the table on a body of encoding `content_type`.
    Invoke { method: usize, content_type: ContentType },
    /// Answer at once.
    Reply(HttpResponse),
}

/// The message of the error written for a path that no method has.
pub open spec fn not_found_message() -> Seq<char> {
    "no such method"@
}

/// The message of the error written for a method called other than by `POST`.
pub open spec fn bad_verb_message() -> Seq<char> {
    "methods are called with POST"@
}

/// Matches a request's path against the table and resolves its encoding.
pub fn route_request(router: &Router, http_method: &str, path: &str, content_type: Option<&str>) -> (r: Dispatch)
    ensures
        (forall|t: int| !routes_to(router, path@, t)) ==> (r matches Dispatch::Reply(resp) && resp.status
            == 404 && resp.content_type == ContentType::Structured && resp.body@ == error_body(
            TwirpErrorCode::NotFound,
            not_found_message(),
            Seq::empty(),
        ) && decoded_error(resp.body@) == (TwirpErrorCode::NotFound, not_found_message())),
        (exists|t: int| routes_to(router, path@, t)) && http_method@ != "POST"@ ==> (r matches Dispatch::Reply(resp)
            && resp.status == 405 && resp.content_type == ContentType::Structured && resp.body@
            == error_body(TwirpErrorCode::Unimplemented, bad_verb_message(), Seq::empty())
            && decoded_error(resp.body@) == (TwirpErrorCode::Unimplemented, bad_verb_message())),
        (exists|t: int| routes_to(router, path@, t)) && http_method@ == "POST"@ ==> (r matches Dispatch::Invoke { method, content_type: ct }
            && routes_to(router, path@, method as int) && (forall|t: int| 0 <= t < method ==> !routes_to(router, path@, t))
            && ct == content_type_of(
            match content_type {
                Some(h) => Some(h@),
                None => None,
            },
        )),
{
    match router.find_method(path) {
        None => {
            let e = crate::error::not_found("no such method");
            let resp = error_response(&e);
            proof {
                assert(e.meta@ =~= Seq::<(String, String)>::empty());
                lemma_error_body_round_trip(TwirpErrorCode::NotFound, not_found_message(), Seq::empty());
            }
            Dispatch::Reply(resp)
        },
        Some(i) => {
            if !str_eq(http_method, "POST") {
                let e = crate::error::unimplemented("methods are called with POST");
                let mut resp = error_response(&e);
                resp.status = 405;
                assert(e.meta@ =~= Seq::<(String, String)>::empty());
                proof {
                    lemma_error_body_round_trip(TwirpErrorCode::Unimplemented, bad_verb_message(), Seq::empty());
                }
                Dispatch::Reply(resp)
            } else {
                Dispatch::Invoke { method: i, content_type: detect(content_type) }
            }
        },
    }
}

/// The table of the test service, mounted under `/twirp`: `test.TestAPI/Ping` and
/// `test.TestAPI/Boom`.
pub fn test_api_router() -> (r: Router)
    ensures
        r.prefix@ == "/twirp"@,
        r.methods@.len() == 2,
        r.methods@[0]@ == "test.TestAPI/Ping"@,
        r.methods@[1]@ == "test.TestAPI/Boom"@,
{
    let mut methods: Vec<String> = Vec::new();
    methods.push("test.TestAPI/Ping".to_owned());
    methods.push("test.TestAPI/Boom".to_owned());
    Router { prefix: "/twirp".to_owned(), methods }
}

/// The view of an optional header value.
pub open spec fn header_view(h: Option<&str>) -> Option<Seq<char>> {
    match h {
        Some(s) => Some(s@),
        None => None,
    }
}

/// Serves one request to the test service: routes it, decodes the body (a malformed one
/// never reaches the handler), runs the handler once and writes what it returned.
pub fn serve_test_api<A: TestAPI>(api: &A, router: &Router, http_method: &str, path: &str, content_type: Option<&str>, body: &[u8]) -> (r: HttpResponse)
    ensures
        (forall|t: int| !routes_to(router, path@, t)) ==> r.status == 404 && r.content_type
            == ContentType::Structured && decoded_error(r.body@) == (TwirpErrorCode::NotFound, not_found_message()),
        (exists|t: int| routes_to(router, path@, t)) && http_method@ != "POST"@ ==> r.status == 405
            && r.content_type == ContentType::Structured && decoded_error(r.body@) == (
            TwirpErrorCode::Unimplemented,
            bad_verb_message(),
        ),
        (exists|t: int| routes_to(router, path@, t)) && http_method@ == "POST"@ && message_name(
            content_type_of(header_view(content_type)),
            body@,
        ) is None ==> r.status == 400 && r.content_type == ContentType::Structured && decoded_error(
            r.body@,
        ).0 == TwirpErrorCode::InvalidArgument,
        (exists|t: int| routes_to(router, path@, t)) && http_method@ == "POST"@ && message_name(
            content_type_of(header_view(content_type)),
            body@,
        ) is Some ==> exists|o: Result<PingResponse, TwirpErrorResponse>|
            (r.status, r.content_type, r.body@) == #[trigger] outcome_response(
                content_type_of(header_view(content_type)),
                Some(o),
            ),
{
    match route_request(router, http_method, path, content_type) {
        Dispatch::Reply(resp) => resp,
        Dispatch::Invoke { method, content_type: ct } => {
            let req = match PingRequest::decode(ct, body) {
                Ok(q) => q,
                Err(e) => {
                    proof {
                        lemma_error_body_round_trip(e.code, e.msg@, e.meta@);
                    }
                    return error_response(&e);
                },
            };
            let name = router.methods[method].as_str();
            let outcome = if str_eq(name, "test.TestAPI/Ping") {
                api.ping(req)
            } else if str_eq(name, "test.TestAPI/Boom") {
                api.boom(req)
            } else {
                Err(crate::error::unimplemented("the service has no such method"))
            };
            let ghost o = outcome;
            let resp = write_outcome(ct, Some(outcome));
            assert((resp.status, resp.content_type, resp.body@) == outcome_response(ct, Some(o)));
            resp
        },
    }
}

} // verus!
