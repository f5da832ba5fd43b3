//! The deferred-error path, body transforms, the cookie delta engine, and
//! the pull interface of bodies.
use bytes::Bytes;
use http_response::builder::{Header, ResponseBuilder};
use http_response::cookies::{cookie_wire, Cookie, CookieJar};
use http_response::error::Error;
use http_response::payload::{poll_stream, stream_payload, Body, BodySize, ChunkStep};
use http_response::response::{Response, ResponseBody};

#[test]
fn take_body_twice_yields_body_then_empty() {
    let mut resp: Response = "test".into();
    let first = resp.take_body();
    assert_eq!(first.get_ref(), b"test");
    let second = resp.take_body();
    match second {
        ResponseBody::Other(Body::Empty) => {}
        _ => panic!("second take did not leave an empty body"),
    }
}

#[test]
fn latched_header_fault_wins_over_later_mutations() {
    let resp = Response::build(200)
        .header("x-test", "bad\nvalue")
        .header("x-other", "fine")
        .content_type("text/plain")
        .cookie(Cookie::new("a", "1"))
        .finish();
    assert_eq!(resp.status(), 500);
    assert_eq!(resp.error(), Some(Error::InvalidHeaderValue));
    assert!(resp.headers().get("x-other").is_none());
    assert!(resp.headers().get("set-cookie").is_none());
}

#[test]
fn bad_header_name_latches_first() {
    let resp = Response::build(200)
        .header("bad name", "value")
        .header("x-test", "also\nbad")
        .finish();
    assert_eq!(resp.error(), Some(Error::InvalidHeaderName));
}

#[test]
fn delta_emits_addition_and_removal_only() {
    let mut jar = CookieJar::new();
    jar.add_original_name(&"A".to_string());
    jar.add_original_name(&"B".to_string());
    jar.add(Cookie::new("C", "3"));
    jar.remove(Cookie::new("A", "1"));

    let delta = jar.delta();
    assert_eq!(delta.len(), 2);
    assert_eq!((delta[0].name_str(), delta[0].value_str()), ("C", "3"));
    assert_eq!(delta[1].name_str(), "A");
    assert_eq!(delta[1].value_str(), "");
    let removal = cookie_wire(&delta[1]);
    assert!(removal.starts_with("A=; Max-Age=0;"));
}

#[test]
fn removing_unstaged_name_emits_nothing() {
    let mut jar = CookieJar::new();
    jar.add(Cookie::new("C", "3"));
    jar.remove(Cookie::new("C", ""));
    assert_eq!(jar.delta().len(), 0);
}

#[test]
fn invalid_cookie_aborts_merge() {
    let resp = Response::build(200)
        .cookie(Cookie::new("a", "bad\nvalue"))
        .finish();
    assert_eq!(resp.status(), 500);
    assert_eq!(resp.error(), Some(Error::InvalidCookie));
    assert!(resp.headers().get("set-cookie").is_none());
}

#[test]
fn serialization_failure_converts_to_error_response() {
    let mut bad = std::collections::HashMap::new();
    bad.insert((1u32, 2u32), 3u32);
    let resp = Response::build(200).json(&bad);
    assert_eq!(resp.status(), 500);
    assert_eq!(resp.error(), Some(Error::Serialization));
}

#[test]
fn content_length_renders_decimal() {
    let resp = Response::build(200).content_length(86400).finish();
    assert_eq!(resp.headers().get("content-length").unwrap(), "86400");
    let resp = Response::build(200).content_length(0).finish();
    assert_eq!(resp.headers().get("content-length").unwrap(), "0");
}

#[test]
fn header_names_fold_to_lower_case() {
    let resp = Response::build(200).header("X-TEST", "value").finish();
    assert_eq!(resp.headers().get("x-test").unwrap(), "value");
}

#[test]
fn from_error_keeps_the_fault() {
    let resp = Response::from_error(Error::InvalidCookie);
    assert_eq!(resp.status(), 500);
    assert_eq!(resp.error(), Some(Error::InvalidCookie));
    match resp.body() {
        ResponseBody::Body(b) => assert_eq!(b.length(), BodySize::Empty),
        _ => panic!("expected an empty body"),
    }
}

#[test]
fn keep_alive_is_the_default() {
    let resp = Response::build(200).finish();
    assert!(resp.keep_alive());
    assert!(!resp.upgrade());
}

#[test]
fn reason_and_no_chunking_carry_over() {
    let resp = Response::build(200).reason("Because").no_chunking().finish();
    assert_eq!(resp.head().reason(), Some("Because"));
    assert!(resp.head().no_chunking());
}

#[test]
fn status_and_head_mut() {
    let mut resp = Response::new(200);
    assert_eq!(resp.status(), 200);
    resp.set_status(404);
    assert_eq!(resp.status(), 404);
    resp.head_mut().set_status(204);
    assert_eq!(resp.status(), 204);
}

#[test]
fn body_lengths() {
    assert_eq!(Body::Empty.length(), BodySize::Empty);
    assert_eq!(Body::from_text("abcd").length(), BodySize::Sized(4));
    let s = stream_payload(futures::stream::iter(Vec::<Result<Bytes, Error>>::new()));
    assert_eq!(Body::Streaming(s).length(), BodySize::Stream);
}

#[test]
fn sized_body_pulls_once() {
    let mut b = Body::from_text("chunk");
    match b.next_chunk() {
        ChunkStep::Data(d) => assert_eq!(d.as_ref(), b"chunk"),
        _ => panic!("expected the buffer"),
    }
    match b.next_chunk() {
        ChunkStep::End => {}
        _ => panic!("expected the end"),
    }
}

#[test]
fn streaming_body_pulls_chunks_in_order() {
    let chunks: Vec<Result<Bytes, Error>> =
        vec![Ok(Bytes::from_static(b"one")), Ok(Bytes::from_static(b"two"))];
    let mut p = stream_payload(futures::stream::iter(chunks));
    match poll_stream(&mut p) {
        ChunkStep::Data(d) => assert_eq!(d.as_ref(), b"one"),
        _ => panic!("expected the first chunk"),
    }
    let mut b = Body::Streaming(p);
    match b.next_chunk() {
        ChunkStep::Data(d) => assert_eq!(d.as_ref(), b"two"),
        _ => panic!("expected the second chunk"),
    }
    match b.next_chunk() {
        ChunkStep::End => {}
        _ => panic!("expected the end"),
    }
}

#[test]
fn streaming_finish_has_stream_length() {
    let chunks: Vec<Result<Bytes, Error>> = vec![Ok(Bytes::from_static(b"data"))];
    let resp = Response::build(200).streaming(stream_payload(futures::stream::iter(chunks)));
    assert_eq!(resp.status(), 200);
    match resp.body() {
        ResponseBody::Body(b) => assert_eq!(b.length(), BodySize::Stream),
        _ => panic!("expected the stream body"),
    }
}

#[test]
fn body_transforms_preserve_head() {
    let resp: Response = "test".into();
    let (resp2, old) = resp.replace_body(42u32);
    assert_eq!(old.get_ref(), b"test");
    assert_eq!(resp2.status(), 200);

    let resp3 = resp2.set_body("x");
    assert_eq!(resp3.status(), 200);

    let resp4 = resp3.drop_body();
    assert_eq!(resp4.status(), 200);
}

#[test]
fn into_body_carries_the_payload() {
    let resp: Response = "test".into();
    let retyped: Response<u64> = resp.into_body();
    assert_eq!(retyped.status(), 200);
    match retyped.body() {
        ResponseBody::Other(Body::Sized(b)) => assert_eq!(b.as_ref(), b"test"),
        _ => panic!("expected the carried buffer"),
    }
}

#[test]
fn map_body_hands_head_and_payload_through() {
    let resp: Response = "test".into();
    let mapped: Response<u8> = resp.map_body(|h, _b| (h, ResponseBody::Body(7u8)));
    assert_eq!(mapped.status(), 200);
    match mapped.body() {
        ResponseBody::Body(v) => assert_eq!(*v, 7u8),
        _ => panic!("expected the mapped body"),
    }
}

#[test]
fn if_true_and_if_some_apply_conditionally() {
    let resp = Response::build(200)
        .if_true(true, |b| b.header("x-a", "1"))
        .if_true(false, |b| b.header("x-b", "2"))
        .if_some(Some("3"), |v, b| b.header("x-c", v))
        .if_some(None::<&str>, |v, b| b.header("x-d", v))
        .finish();
    assert_eq!(resp.headers().get("x-a").unwrap(), "1");
    assert!(resp.headers().get("x-b").is_none());
    assert_eq!(resp.headers().get("x-c").unwrap(), "3");
    assert!(resp.headers().get("x-d").is_none());
}

#[test]
fn del_cookie_counts_removed_headers() {
    let mut resp = Response::build(200).finish();
    resp.add_cookie(&Cookie::new("a", "1")).unwrap();
    resp.add_cookie(&Cookie::new("a", "2")).unwrap();
    resp.add_cookie(&Cookie::new("b", "3")).unwrap();
    assert_eq!(resp.del_cookie("a"), 2);
    let left = resp.cookies();
    assert_eq!(left.len(), 1);
    assert_eq!(left[0].name_str(), "b");
}

struct TypedHeader;

impl Header for TypedHeader {
    fn header_name(&self) -> String {
        "x-typed".to_string()
    }

    fn header_value(&self) -> String {
        "yes".to_string()
    }
}

#[test]
fn typed_headers_go_through_set() {
    let resp = Response::build(200).set(TypedHeader).finish();
    assert_eq!(resp.headers().get("x-typed").unwrap(), "yes");
}

#[test]
fn full_container_latches_capacity_fault() {
    let mut b = Response::build(200);
    let mut i: usize = 0;
    while i < 4096 {
        b = b.header("x-fill", "v");
        i += 1;
    }
    let resp = b.header("x-fill", "v").finish();
    assert_eq!(resp.error(), Some(Error::HeaderCapacity));
    assert_eq!(resp.status(), 500);
}

#[test]
fn tab_is_a_valid_value_and_delete_is_not() {
    let resp = Response::build(200).header("x-t", "a\tb").finish();
    assert_eq!(resp.error(), None);
    let resp = Response::build(200).header("x-t", "a\x7fb").finish();
    assert_eq!(resp.error(), Some(Error::InvalidHeaderValue));
}

#[test]
fn builder_from_response_emits_removal_for_prior_cookie() {
    let mut resp = Response::build(200).finish();
    resp.add_cookie(&Cookie::new("cookie1", "val100")).unwrap();
    let resp = Response::build_from(resp)
        .del_cookie(&Cookie::new("cookie1", ""))
        .finish();
    let vals: Vec<String> = resp
        .headers()
        .get_all("set-cookie")
        .iter()
        .map(|v| v.to_str().unwrap().to_owned())
        .collect();
    assert_eq!(vals.len(), 2);
    assert!(vals[1].starts_with("cookie1=; Max-Age=0;"));
}
