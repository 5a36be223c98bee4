use vstd::prelude::*;

use crate::error::{invalid_argument, TwirpErrorCode, TwirpErrorResponse};

verus! {

/// A point in time: seconds since the Unix epoch and a fraction in nanoseconds.
#[derive(Clone, Copy, Debug, PartialEq, Eq, Structural)]
pub struct Timestamp {
    pub seconds: i64,
    pub nanos: i32,
}

/// A request for a hat of a given size.
pub struct MakeHatRequest {
    pub inches: i32,
}

/// A hat made to order.
pub struct MakeHatResponse {
    pub color: String,
    pub name: String,
    pub size: i32,
    pub timestamp: Option<Timestamp>,
}

/// The sample hat service.
pub struct HaberdasherAPIServer;

impl HaberdasherAPIServer {
    /// Makes a black top hat of the requested size, stamped with `now_seconds`; a size of
    /// zero is an invalid argument that names the field.
    pub fn make_hat(&self, req: MakeHatRequest, now_seconds: i64) -> (r: Result<MakeHatResponse, TwirpErrorResponse>)
        ensures
            req.inches == 0 ==> (r matches Err(e) && e.code == TwirpErrorCode::InvalidArgument && e.msg@
                == "inches"@ && e.meta@.len() == 0),
            req.inches != 0 ==> (r matches Ok(h) && h.size == req.inches && h.color@ == "black"@
                && h.name@ == "top hat"@ && h.timestamp == Some(
                Timestamp { seconds: now_seconds, nanos: 0 },
            )),
    {
        if req.inches == 0 {
            return Err(invalid_argument("inches"));
        }
        Ok(
            MakeHatResponse {
                color: "black".to_owned(),
                name: "top hat".to_owned(),
                size: req.inches,
                timestamp: Some(Timestamp { seconds: now_seconds, nanos: 0 }),
            },
        )
    }
}

} // verus!
