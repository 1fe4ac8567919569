//! Checks of the wire codec: exact envelope shapes, escaping, round trips,
//! and the client's interpretation of replies.

use open_here::client::{decode_reply, path_route, url_route, OpenError};
use open_here::cmd::Error;
use open_here::wire::{decode_envelope, decode_url_target, encode_envelope, encode_url_target};
use open_here::{Response, UrlTarget};

#[test]
fn envelope_ok_shape_is_exact() {
    let r: Response = Ok("hi".to_string());
    assert_eq!(encode_envelope(&r), "{\"Ok\":\"hi\"}");
}

#[test]
fn envelope_err_shapes_are_exact() {
    let cases: Vec<(Response, &str)> = vec![
        (
            Err(Error::CouldNotRun("boom".to_string())),
            "{\"Err\":{\"CouldNotRun\":\"boom\"}}",
        ),
        (
            Err(Error::CreateDirectory("full".to_string())),
            "{\"Err\":{\"CreateDirectory\":\"full\"}}",
        ),
        (
            Err(Error::OpenFile("denied".to_string())),
            "{\"Err\":{\"OpenFile\":\"denied\"}}",
        ),
        (
            Err(Error::WriteFile("short".to_string())),
            "{\"Err\":{\"WriteFile\":\"short\"}}",
        ),
    ];
    for (resp, expected) in cases {
        assert_eq!(encode_envelope(&resp), expected);
    }
}

#[test]
fn envelope_escapes_specials() {
    let r: Response = Ok("a\"b\\c\nd".to_string());
    let s = encode_envelope(&r);
    assert_eq!(s, "{\"Ok\":\"a\\\"b\\\\c\\u000ad\"}");
    match decode_envelope(&s) {
        Some(Ok(back)) => assert_eq!(back, "a\"b\\c\nd"),
        _ => panic!("expected Ok envelope"),
    }
}

#[test]
fn envelope_round_trips() {
    let cases: Vec<Response> = vec![
        Ok("".to_string()),
        Ok("Would run: xdg-open http://x".to_string()),
        Err(Error::CouldNotRun("no xdg-open".to_string())),
        Err(Error::WriteFile("disk full".to_string())),
    ];
    for resp in cases {
        let encoded = encode_envelope(&resp);
        let decoded = decode_envelope(&encoded).expect("must decode");
        assert_eq!(encode_envelope(&decoded), encoded);
        match (&resp, &decoded) {
            (Ok(a), Ok(b)) => assert_eq!(a, b),
            (Err(_), Err(_)) => {}
            _ => panic!("round trip changed the variant"),
        }
    }
}

#[test]
fn envelope_rejects_garbage() {
    for bad in ["", "{}", "not json", "{\"Ok\":}", "{\"Ok\":\"unterminated}", "{\"Err\":{}}"] {
        assert!(decode_envelope(bad).is_none());
    }
}

#[test]
fn url_body_shape_is_exact() {
    let t = UrlTarget {
        target: "http://localhost:1234".to_string(),
    };
    assert_eq!(encode_url_target(&t), "{\"target\":\"http://localhost:1234\"}");
}

#[test]
fn url_body_round_trips() {
    let t = UrlTarget {
        target: "https://example.org/a b\"c".to_string(),
    };
    let body = encode_url_target(&t);
    let back = decode_url_target(&body).expect("must decode");
    assert_eq!(back.target, t.target);
}

#[test]
fn url_body_rejects_garbage() {
    for bad in ["", "{\"target\":}", "{\"other\":\"x\"}", "target=http://x"] {
        assert!(decode_url_target(bad).is_none());
    }
}

#[test]
fn reply_with_error_status_is_http_error() {
    let r = decode_reply(false, "500 Internal Server Error", "");
    match r {
        Err(OpenError::HttpError { msg }) => assert_eq!(msg, "500 Internal Server Error"),
        _ => panic!("expected HttpError"),
    }
}

#[test]
fn reply_with_err_envelope_is_server_error() {
    let body = "{\"Err\":{\"CouldNotRun\":\"boom\"}}";
    let r = decode_reply(true, "200 OK", body);
    match r {
        Err(OpenError::ServerError { err: Error::CouldNotRun(m) }) => assert_eq!(m, "boom"),
        _ => panic!("expected ServerError"),
    }
}

#[test]
fn reply_with_malformed_body_is_http_error() {
    let r = decode_reply(true, "200 OK", "surprise!");
    match r {
        Err(OpenError::HttpError { msg }) => assert_eq!(msg, "malformed server reply"),
        _ => panic!("expected HttpError"),
    }
}

#[test]
fn reply_with_ok_envelope_returns_inner_string() {
    let r = decode_reply(true, "200 OK", "{\"Ok\":\"done\"}");
    assert_eq!(r.unwrap(), "done");
}

#[test]
fn routes_append_paths() {
    assert_eq!(url_route("http://h:1"), "http://h:1/open/url");
    assert_eq!(path_route("http://h:1"), "http://h:1/open/path");
}
