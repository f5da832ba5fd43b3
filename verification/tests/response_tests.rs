//! Behaviour of the response builder, cookie handling and conversions.
use bytes::{Bytes, BytesMut};
use http_response::cookies::Cookie;
use http_response::payload::Body;
use http_response::response::Response;
use http_response::builder::ResponseBuilder;

#[test]
fn test_response_cookies() {
    let baseline = Cookie::new("cookie1", "value1");

    let resp = Response::build(200)
        .cookie(
            Cookie::new("name", "value")
                .domain("www.rust-lang.org")
                .path("/test")
                .http_only(true)
                .max_age_secs(86400),
        )
        .del_cookie(&baseline)
        .finish();

    let mut val: Vec<String> = resp
        .headers()
        .get_all("Set-Cookie")
        .iter()
        .map(|v| v.to_str().unwrap().to_owned())
        .collect();
    val.sort();
    assert!(val[0].starts_with("cookie1=; Max-Age=0;"));
    assert_eq!(
        val[1],
        "name=value; HttpOnly; Path=/test; Domain=www.rust-lang.org; Max-Age=86400"
    );
}

#[test]
fn test_update_response_cookies() {
    let mut r = Response::build(200)
        .cookie(Cookie::new("original", "val100"))
        .finish();

    r.add_cookie(&Cookie::new("cookie2", "val200")).unwrap();
    r.add_cookie(&Cookie::new("cookie2", "val250")).unwrap();
    r.add_cookie(&Cookie::new("cookie3", "val300")).unwrap();

    assert_eq!(r.cookies().len(), 4);
    r.del_cookie("cookie2");

    let cookies = r.cookies();
    let mut iter = cookies.iter();
    let v = iter.next().unwrap();
    assert_eq!((v.name_str(), v.value_str()), ("original", "val100"));
    let v = iter.next().unwrap();
    assert_eq!((v.name_str(), v.value_str()), ("cookie3", "val300"));
}

#[test]
fn test_basic_builder() {
    let resp = Response::build(200).header("X-TEST", "value").finish();
    assert_eq!(resp.status(), 200);
}

#[test]
fn test_upgrade() {
    let resp = Response::build(200).upgrade("websocket").finish();
    assert!(resp.upgrade());
    assert_eq!(
        resp.headers().get(http::header::UPGRADE).unwrap(),
        http::header::HeaderValue::from_static("websocket")
    );
}

#[test]
fn test_force_close() {
    let resp = Response::build(200).force_close().finish();
    assert!(!resp.keep_alive())
}

#[test]
fn test_content_type() {
    let resp = Response::build(200)
        .content_type("text/plain")
        .body(Body::Empty);
    assert_eq!(
        resp.headers().get(http::header::CONTENT_TYPE).unwrap(),
        "text/plain"
    )
}

#[test]
fn test_json() {
    let resp = Response::build(200).json(&vec!["v1", "v2", "v3"]);
    let ct = resp.headers().get(http::header::CONTENT_TYPE).unwrap();
    assert_eq!(ct, http::header::HeaderValue::from_static("application/json"));
    assert_eq!(resp.body().get_ref(), b"[\"v1\",\"v2\",\"v3\"]");
}

#[test]
fn test_json_ct() {
    let resp = Response::build(200)
        .header("content-type", "text/json")
        .json(&vec!["v1", "v2", "v3"]);
    let ct = resp.headers().get(http::header::CONTENT_TYPE).unwrap();
    assert_eq!(ct, http::header::HeaderValue::from_static("text/json"));
    assert_eq!(resp.body().get_ref(), b"[\"v1\",\"v2\",\"v3\"]");
}

#[test]
fn test_json2() {
    let resp = Response::build(200).json2(&vec!["v1", "v2", "v3"]);
    let ct = resp.headers().get(http::header::CONTENT_TYPE).unwrap();
    assert_eq!(ct, http::header::HeaderValue::from_static("application/json"));
    assert_eq!(resp.body().get_ref(), b"[\"v1\",\"v2\",\"v3\"]");
}

#[test]
fn test_json2_ct() {
    let resp = Response::build(200)
        .header("content-type", "text/json")
        .json2(&vec!["v1", "v2", "v3"]);
    let ct = resp.headers().get(http::header::CONTENT_TYPE).unwrap();
    assert_eq!(ct, http::header::HeaderValue::from_static("text/json"));
    assert_eq!(resp.body().get_ref(), b"[\"v1\",\"v2\",\"v3\"]");
}

#[test]
fn test_into_response() {
    let resp: Response = "test".into();
    assert_eq!(resp.status(), 200);
    assert_eq!(
        resp.headers().get(http::header::CONTENT_TYPE).unwrap(),
        http::header::HeaderValue::from_static("text/plain; charset=utf-8")
    );
    assert_eq!(resp.status(), 200);
    assert_eq!(resp.body().get_ref(), b"test");

    let resp: Response = b"test".as_ref().into();
    assert_eq!(resp.status(), 200);
    assert_eq!(
        resp.headers().get(http::header::CONTENT_TYPE).unwrap(),
        http::header::HeaderValue::from_static("application/octet-stream")
    );
    assert_eq!(resp.status(), 200);
    assert_eq!(resp.body().get_ref(), b"test");

    let resp: Response = "test".to_owned().into();
    assert_eq!(resp.status(), 200);
    assert_eq!(
        resp.headers().get(http::header::CONTENT_TYPE).unwrap(),
        http::header::HeaderValue::from_static("text/plain; charset=utf-8")
    );
    assert_eq!(resp.status(), 200);
    assert_eq!(resp.body().get_ref(), b"test");

    let resp: Response = (&"test".to_owned()).into();
    assert_eq!(resp.status(), 200);
    assert_eq!(
        resp.headers().get(http::header::CONTENT_TYPE).unwrap(),
        http::header::HeaderValue::from_static("text/plain; charset=utf-8")
    );
    assert_eq!(resp.status(), 200);
    assert_eq!(resp.body().get_ref(), b"test");

    let b = Bytes::from_static(b"test");
    let resp: Response = b.into();
    assert_eq!(resp.status(), 200);
    assert_eq!(
        resp.headers().get(http::header::CONTENT_TYPE).unwrap(),
        http::header::HeaderValue::from_static("application/octet-stream")
    );
    assert_eq!(resp.status(), 200);
    assert_eq!(resp.body().get_ref(), b"test");

    let b = Bytes::from_static(b"test");
    let resp: Response = b.into();
    assert_eq!(resp.status(), 200);
    assert_eq!(
        resp.headers().get(http::header::CONTENT_TYPE).unwrap(),
        http::header::HeaderValue::from_static("application/octet-stream")
    );
    assert_eq!(resp.status(), 200);
    assert_eq!(resp.body().get_ref(), b"test");

    let b = BytesMut::from("test");
    let resp: Response = b.into();
    assert_eq!(resp.status(), 200);
    assert_eq!(
        resp.headers().get(http::header::CONTENT_TYPE).unwrap(),
        http::header::HeaderValue::from_static("application/octet-stream")
    );
    assert_eq!(resp.status(), 200);
    assert_eq!(resp.body().get_ref(), b"test");
}

#[test]
fn test_into_builder() {
    let mut resp: Response = "test".into();
    assert_eq!(resp.status(), 200);

    resp.add_cookie(&Cookie::new("cookie1", "val100")).unwrap();

    let builder: ResponseBuilder = resp.into();
    let resp = builder.status(400).finish();
    assert_eq!(resp.status(), 400);

    let cookies = resp.cookies();
    let cookie = &cookies[0];
    assert_eq!((cookie.name_str(), cookie.value_str()), ("cookie1", "val100"));
}
