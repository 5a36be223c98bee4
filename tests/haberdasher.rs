use twirp::error::TwirpErrorCode;
use twirp::haberdash::{HaberdasherAPIServer, MakeHatRequest, Timestamp};

#[test]
fn success() {
    let api = HaberdasherAPIServer {};
    let res = api.make_hat(MakeHatRequest { inches: 1 }, 1_700_000_000);
    assert!(res.is_ok());
    let res = res.ok().unwrap();
    assert_eq!(res.size, 1);
    assert_eq!(res.color, "black");
    assert_eq!(res.name, "top hat");
    assert_eq!(res.timestamp, Some(Timestamp { seconds: 1_700_000_000, nanos: 0 }));
}

#[test]
fn invalid_request() {
    let api = HaberdasherAPIServer {};
    let res = api.make_hat(MakeHatRequest { inches: 0 }, 0);
    assert!(res.is_err());
    let err = res.err().unwrap();
    assert_eq!(err.code, TwirpErrorCode::InvalidArgument);
    assert_eq!(err.msg, "inches");
}
