use vstd::prelude::*;

use crate::codec::{decode_name_message, encode_name_message, message_bytes, message_name, ContentType};
use crate::error::{internal, TwirpErrorResponse};

verus! {

/// The request of the `Ping` and `Boom` methods.
pub struct PingRequest {
    pub name: String,
}

/// The response of the `Ping` and `Boom` methods.
pub struct PingResponse {
    pub name: String,
}

impl PingRequest {
    /// Encodes the request in the given encoding.
    pub fn encode(&self, ct: ContentType) -> (r: Vec<u8>)
        ensures
            r@ == message_bytes(ct, self.name@),
    {
        encode_name_message(ct, self.name.as_str())
    }

    /// Decodes a request; a malformed body is an invalid argument.
    pub fn decode(ct: ContentType, body: &[u8]) -> (r: Result<PingRequest, TwirpErrorResponse>)
        ensures
            match message_name(ct, body@) {
                Some(n) => r matches Ok(q) && q.name@ == n,
                None => r matches Err(e) && e.code == crate::error::TwirpErrorCode::InvalidArgument
                    && e.meta@.len() == 0,
            },
    {
        match decode_name_message(ct, body) {
            Ok(name) => Ok(PingRequest { name }),
            Err(e) => Err(e),
        }
    }
}

impl PingResponse {
    /// Encodes the response in the given encoding.
    pub fn encode(&self, ct: ContentType) -> (r: Vec<u8>)
        ensures
            r@ == message_bytes(ct, self.name@),
    {
        encode_name_message(ct, self.name.as_str())
    }

    /// Decodes a response; a malformed body is an invalid argument.
    pub fn decode(ct: ContentType, body: &[u8]) -> (r: Result<PingResponse, TwirpErrorResponse>)
        ensures
            match message_name(ct, body@) {
                Some(n) => r matches Ok(q) && q.name@ == n,
                None => r matches Err(e) && e.code == crate::error::TwirpErrorCode::InvalidArgument
                    && e.meta@.len() == 0,
            },
    {
        match decode_name_message(ct, body) {
            Ok(name) => Ok(PingResponse { name }),
            Err(e) => Err(e),
        }
    }
}

/// A request to the test service's `Ping` method, mounted under `/twirp`: its path and
/// JSON body.
pub fn gen_ping_request(name: &str) -> (r: (String, Vec<u8>))
    ensures
        r.0@ == "/twirp/test.TestAPI/Ping"@,
        r.1@ == message_bytes(ContentType::Structured, name@),
{
    ("/twirp/test.TestAPI/Ping".to_owned(), encode_name_message(ContentType::Structured, name))
}

/// The server side of the test service: what its users implement.
pub trait TestAPI {
    fn ping(&self, req: PingRequest) -> Result<PingResponse, TwirpErrorResponse>;

    fn boom(&self, req: PingRequest) -> Result<PingResponse, TwirpErrorResponse>;
}

/// The sample implementation: `Ping` echoes the name, `Boom` always fails.
pub struct TestAPIServer;

impl TestAPIServer {
    pub fn ping(&self, req: PingRequest) -> (r: Result<PingResponse, TwirpErrorResponse>)
        ensures
            r matches Ok(p) && p.name@ == req.name@,
    {
        Ok(PingResponse { name: req.name })
    }

    pub fn boom(&self, req: PingRequest) -> (r: Result<PingResponse, TwirpErrorResponse>)
        ensures
            r matches Err(e) && e.code == crate::error::TwirpErrorCode::Internal && e.msg@
                == "boom!"@ && e.meta@.len() == 0,
    {
        Err(internal("boom!"))
    }
}

impl TestAPI for TestAPIServer {
    fn ping(&self, req: PingRequest) -> Result<PingResponse, TwirpErrorResponse> {
        TestAPIServer::ping(self, req)
    }

    fn boom(&self, req: PingRequest) -> Result<PingResponse, TwirpErrorResponse> {
        TestAPIServer::boom(self, req)
    }
}

} // verus!
