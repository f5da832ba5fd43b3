//! The deferred-error response builder.
//!
//! Every header-mutating call first encodes its argument; on failure it
//! latches the first fault into a single slot and every later header or
//! cookie mutation becomes a no-op.  The terminal call either synthesizes
//! an error response from the latched fault, or merges the staged cookie
//! intents into `Set-Cookie` headers and attaches the payload.  The builder
//! is an owned, move-only value, consumed by its terminal call, so a
//! consumed builder cannot be used again.
use vstd::prelude::*;

use crate::chars::{
    check_header_value, dec_digits, lemma_dec_digits_valid, lower_name, valid_header_name,
    valid_header_value,
};
use crate::cookies::{
    cookie_wire, delta_model, jar_add, jar_mark_original, jar_remove, wire_of, Cookie, CookieJar,
    CookieModel, JarModel,
};
use crate::error::Error;
use crate::head::{fresh_head, head_wf, ConnectionType, HeadModel, ResponseHead};
use crate::headers::{
    hm_append_model, hn_content_length, hn_content_type, hn_parse, hn_set_cookie, hn_upgrade,
    HEADER_CAP,
};
use crate::payload::{Body, BodyModel, StreamPayload};
use crate::response::{error_resp_model, slot_shape, RBModel, RespModel, Response};

verus! {

/// The mathematical image of a builder: the head under construction with
/// its header-value count, the latched fault, and the cookie engine state.
pub ghost struct BuilderModel {
    pub head: HeadModel,
    pub count: nat,
    pub err: Option<Error>,
    pub jar: JarModel,
}

/// One builder mutation, as staged by the fluent methods.
pub ghost enum BuilderOp {
    Status(u16),
    Reason(Seq<char>),
    KeepAlive,
    ForceClose,
    Upgrade(Seq<char>),
    NoChunking,
    Header(Seq<char>, Seq<char>),
    SetHeader(Seq<char>, Seq<char>),
    ContentType(Seq<char>),
    ContentLength(u64),
    SetCookie(CookieModel),
    UnsetCookie(CookieModel),
}

/// `m` with the fault latched.
pub open spec fn latch(m: BuilderModel, e: Error) -> BuilderModel {
    BuilderModel { err: Some(e), ..m }
}

/// Append `v` under the (already validated, lower-case) name `k`, or latch
/// a capacity fault when the container is full.
pub open spec fn header_append_step(m: BuilderModel, k: Seq<char>, v: Seq<char>) -> BuilderModel {
    if m.count >= HEADER_CAP {
        latch(m, Error::HeaderCapacity)
    } else {
        BuilderModel {
            head: HeadModel { headers: hm_append_model(m.head.headers, k, v), ..m.head },
            count: m.count + 1,
            ..m
        }
    }
}

/// Store `v` as the only value under `k`, or latch a capacity fault.
pub open spec fn header_insert_step(m: BuilderModel, k: Seq<char>, v: Seq<char>) -> BuilderModel {
    if m.count >= HEADER_CAP {
        latch(m, Error::HeaderCapacity)
    } else {
        BuilderModel {
            head: HeadModel { headers: m.head.headers.insert(k, seq![v]), ..m.head },
            count: (m.count + 1 - (if m.head.headers.contains_key(k) {
                m.head.headers[k].len()
            } else {
                0
            })) as nat,
            ..m
        }
    }
}

/// What one builder mutation does to the model.  With a fault latched,
/// every mutation is a no-op.
pub open spec fn apply_op(m: BuilderModel, op: BuilderOp) -> BuilderModel {
    if m.err is Some {
        m
    } else {
        match op {
            BuilderOp::Status(s) => BuilderModel {
                head: HeadModel { status: s, ..m.head },
                ..m
            },
            BuilderOp::Reason(r) => BuilderModel {
                head: HeadModel { reason: Some(r), ..m.head },
                ..m
            },
            BuilderOp::KeepAlive => BuilderModel {
                head: HeadModel { conn: ConnectionType::KeepAlive, ..m.head },
                ..m
            },
            BuilderOp::ForceClose => BuilderModel {
                head: HeadModel { conn: ConnectionType::Close, ..m.head },
                ..m
            },
            BuilderOp::Upgrade(v) => {
                let m2 = BuilderModel {
                    head: HeadModel { conn: ConnectionType::Upgrade, ..m.head },
                    ..m
                };
                if !valid_header_value(v) {
                    latch(m2, Error::InvalidHeaderValue)
                } else {
                    header_insert_step(m2, "upgrade"@, v)
                }
            },
            BuilderOp::NoChunking => BuilderModel {
                head: HeadModel { no_chunking: true, ..m.head },
                ..m
            },
            BuilderOp::Header(k, v) => {
                if !valid_header_name(k) {
                    latch(m, Error::InvalidHeaderName)
                } else if !valid_header_value(v) {
                    latch(m, Error::InvalidHeaderValue)
                } else {
                    header_append_step(m, lower_name(k), v)
                }
            },
            BuilderOp::SetHeader(k, v) => {
                if !valid_header_name(k) {
                    latch(m, Error::InvalidHeaderName)
                } else if !valid_header_value(v) {
                    latch(m, Error::InvalidHeaderValue)
                } else {
                    header_insert_step(m, lower_name(k), v)
                }
            },
            BuilderOp::ContentType(v) => {
                if !valid_header_value(v) {
                    latch(m, Error::InvalidHeaderValue)
                } else {
                    header_insert_step(m, "content-type"@, v)
                }
            },
            BuilderOp::ContentLength(n) => header_append_step(
                m,
                "content-length"@,
                dec_digits(n as nat),
            ),
            BuilderOp::SetCookie(c) => BuilderModel { jar: jar_add(m.jar, c), ..m },
            BuilderOp::UnsetCookie(c) => BuilderModel {
                jar: jar_remove(jar_mark_original(m.jar, c.name), c),
                ..m
            },
        }
    }
}

/// The head after appending the wire entry of each staged cookie in order,
/// or the first fault met: an entry that cannot stand in a header value,
/// or a full container.
pub open spec fn merge_cookies(h: HeadModel, count: nat, d: Seq<CookieModel>) -> Result<
    (HeadModel, nat),
    Error,
>
    decreases d.len(),
{
    if d.len() == 0 {
        Ok((h, count))
    } else {
        let w = wire_of(d[0]);
        if !valid_header_value(w) {
            Err(Error::InvalidCookie)
        } else if count >= HEADER_CAP {
            Err(Error::HeaderCapacity)
        } else {
            merge_cookies(
                HeadModel { headers: hm_append_model(h.headers, "set-cookie"@, w), ..h },
                (count + 1) as nat,
                d.drop_first(),
            )
        }
    }
}

/// How a finished response relates to the builder it came from and the
/// serialized payload text: the fault path yields the error conversion;
/// otherwise the cookie merge either fails into the error conversion or
/// succeeds with the payload attached as the UTF-8 bytes of the text,
/// with `application/json` set as content type only if none was present.
pub open spec fn json_outcome(m: BuilderModel, s: Seq<char>, r: RespModel<Body>) -> bool {
    match m.err {
        Some(e) => r == error_resp_model::<Body>(e),
        None => {
            let m1 = if m.head.headers.contains_key("content-type"@) {
                m
            } else {
                apply_op(m, BuilderOp::Header("content-type"@, "application/json"@))
            };
            match m1.err {
                Some(e) => r == error_resp_model::<Body>(e),
                None => match merge_cookies(m1.head, m1.count, delta_model(m1.jar)) {
                    Ok(hc) => r.head == hc.0 && r.error is None && slot_shape(r.body)
                        == BodyModel::Sized(vstd::utf8::encode_utf8(s)),
                    Err(e) => r == error_resp_model::<Body>(e),
                },
            }
        },
    }
}

/// An in-progress response: head under construction, the latched fault,
/// and the staged cookie intents.
pub struct ResponseBuilder {
    head: ResponseHead,
    err: Option<Error>,
    jar: Option<CookieJar>,
}

/// The model of an engine with nothing staged.
pub open spec fn empty_jar() -> JarModel {
    JarModel { originals: Seq::empty(), staged: Seq::empty() }
}

impl ResponseBuilder {
    /// The mathematical image of this builder.
    pub closed spec fn model(self) -> BuilderModel {
        BuilderModel {
            head: self.head.model(),
            count: self.head.hdr_count(),
            err: self.err,
            jar: match self.jar {
                Some(j) => j.model(),
                None => empty_jar(),
            },
        }
    }

    /// Well-formedness of the head under construction.
    pub open spec fn wf(self) -> bool {
        head_wf(self.model().head, self.model().count)
    }

    /// A builder for a response with the given status.
    pub fn new(status: u16) -> (b: ResponseBuilder)
        requires
            100 <= status < 1000,
        ensures
            b.model() == (BuilderModel {
                head: fresh_head(status),
                count: 0,
                err: None,
                jar: empty_jar(),
            }),
            b.wf(),
    {
        ResponseBuilder { head: ResponseHead::new(status), err: None, jar: None }
    }

    /// Replace the status code.
    pub fn status(self, status: u16) -> (r: Self)
        requires
            self.wf(),
            100 <= status < 1000,
        ensures
            r.model() == apply_op(self.model(), BuilderOp::Status(status)),
            r.wf(),
    {
        if self.err.is_some() {
            return self;
        }
        let mut b = self;
        b.head.set_status(status);
        b
    }

    /// Set the custom reason phrase.
    pub fn reason(self, reason: &'static str) -> (r: Self)
        requires
            self.wf(),
        ensures
            r.model() == apply_op(self.model(), BuilderOp::Reason(reason@)),
            r.wf(),
    {
        if self.err.is_some() {
            return self;
        }
        let mut b = self;
        b.head.set_reason(reason);
        b
    }

    /// Ask for the connection to be kept alive.
    pub fn keep_alive(self) -> (r: Self)
        requires
            self.wf(),
        ensures
            r.model() == apply_op(self.model(), BuilderOp::KeepAlive),
            r.wf(),
    {
        if self.err.is_some() {
            return self;
        }
        let mut b = self;
        b.head.set_connection_type(ConnectionType::KeepAlive);
        b
    }

    /// Force the connection closed, even if it was marked keep-alive.
    pub fn force_close(self) -> (r: Self)
        requires
            self.wf(),
        ensures
            r.model() == apply_op(self.model(), BuilderOp::ForceClose),
            r.wf(),
    {
        if self.err.is_some() {
            return self;
        }
        let mut b = self;
        b.head.set_connection_type(ConnectionType::Close);
        b
    }

    /// Mark the connection upgraded and store the `upgrade` header.
    pub fn upgrade(self, value: &str) -> (r: Self)
        requires
            self.wf(),
        ensures
            r.model() == apply_op(self.model(), BuilderOp::Upgrade(value@)),
            r.wf(),
    {
        if self.err.is_some() {
            return self;
        }
        let mut b = self;
        b.head.set_connection_type(ConnectionType::Upgrade);
        if !check_header_value(value) {
            return ResponseBuilder { err: Some(Error::InvalidHeaderValue), ..b };
        }
        let name = hn_upgrade();
        if b.head.try_insert_header(&name, value) {
            b
        } else {
            ResponseBuilder { err: Some(Error::HeaderCapacity), ..b }
        }
    }

    /// Disable chunked transfer encoding for streaming bodies.
    pub fn no_chunking(self) -> (r: Self)
        requires
            self.wf(),
        ensures
            r.model() == apply_op(self.model(), BuilderOp::NoChunking),
            r.wf(),
    {
        if self.err.is_some() {
            return self;
        }
        let mut b = self;
        b.head.set_no_chunking(true);
        b
    }

    /// Append a header.  A bad name or value, or a full container, latches
    /// the first fault and leaves the head as it was.
    pub fn header(self, key: &str, value: &str) -> (r: Self)
        requires
            self.wf(),
        ensures
            r.model() == apply_op(self.model(), BuilderOp::Header(key@, value@)),
            r.wf(),
    {
        if self.err.is_some() {
            return self;
        }
        match hn_parse(key) {
            None => ResponseBuilder { err: Some(Error::InvalidHeaderName), ..self },
            Some(name) => {
                if !check_header_value(value) {
                    return ResponseBuilder { err: Some(Error::InvalidHeaderValue), ..self };
                }
                let mut b = self;
                if b.head.try_append_header(&name, value) {
                    b
                } else {
                    ResponseBuilder { err: Some(Error::HeaderCapacity), ..b }
                }
            },
        }
    }

    /// Store a header as the only one under its name.  A bad name or
    /// value, or a full container, latches the first fault.
    pub fn set_header(self, key: &str, value: &str) -> (r: Self)
        requires
            self.wf(),
        ensures
            r.model() == apply_op(self.model(), BuilderOp::SetHeader(key@, value@)),
            r.wf(),
    {
        if self.err.is_some() {
            return self;
        }
        match hn_parse(key) {
            None => ResponseBuilder { err: Some(Error::InvalidHeaderName), ..self },
            Some(name) => {
                if !check_header_value(value) {
                    return ResponseBuilder { err: Some(Error::InvalidHeaderValue), ..self };
                }
                let mut b = self;
                if b.head.try_insert_header(&name, value) {
                    b
                } else {
                    ResponseBuilder { err: Some(Error::HeaderCapacity), ..b }
                }
            },
        }
    }

    /// Store the content type as the only `content-type` header.
    pub fn content_type(self, value: &str) -> (r: Self)
        requires
            self.wf(),
        ensures
            r.model() == apply_op(self.model(), BuilderOp::ContentType(value@)),
            r.wf(),
    {
        if self.err.is_some() {
            return self;
        }
        if !check_header_value(value) {
            return ResponseBuilder { err: Some(Error::InvalidHeaderValue), ..self };
        }
        let name = hn_content_type();
        let mut b = self;
        if b.head.try_insert_header(&name, value) {
            b
        } else {
            ResponseBuilder { err: Some(Error::HeaderCapacity), ..b }
        }
    }

    /// Append the content length as its decimal ASCII rendering.
    pub fn content_length(self, len: u64) -> (r: Self)
        requires
            self.wf(),
        ensures
            r.model() == apply_op(self.model(), BuilderOp::ContentLength(len)),
            r.wf(),
    {
        if self.err.is_some() {
            return self;
        }
        let text = crate::chars::u64_to_dec(len);
        proof {
            lemma_dec_digits_valid(len as nat);
        }
        let name = hn_content_length();
        let mut b = self;
        if b.head.try_append_header(&name, text.as_str()) {
            b
        } else {
            ResponseBuilder { err: Some(Error::HeaderCapacity), ..b }
        }
    }

    /// Stage a cookie to be added at the terminal call.
    pub fn cookie(self, cookie: Cookie) -> (r: Self)
        requires
            self.wf(),
        ensures
            r.model() == apply_op(self.model(), BuilderOp::SetCookie(cookie.model())),
            r.wf(),
    {
        if self.err.is_some() {
            return self;
        }
        let ResponseBuilder { head, err, jar } = self;
        let mut j = match jar {
            Some(j) => j,
            None => CookieJar::new(),
        };
        j.add(cookie);
        ResponseBuilder { head, err, jar: Some(j) }
    }

    /// Stage a cookie for removal: it is marked as a baseline cookie and
    /// an immediate-expiry entry will be emitted for its identity.
    pub fn del_cookie(self, cookie: &Cookie) -> (r: Self)
        requires
            self.wf(),
        ensures
            r.model() == apply_op(self.model(), BuilderOp::UnsetCookie(cookie.model())),
            r.wf(),
    {
        if self.err.is_some() {
            return self;
        }
        let ResponseBuilder { head, err, jar } = self;
        let mut j = match jar {
            Some(j) => j,
            None => CookieJar::new(),
        };
        let name = String::from_str(cookie.name_str());
        j.add_original_name(&name);
        j.remove(cookie.duplicate());
        ResponseBuilder { head, err, jar: Some(j) }
    }

    /// Call `f` on the builder if `value` is true; hand the builder on
    /// unchanged otherwise.
    pub fn if_true<F: FnOnce(Self) -> Self>(self, value: bool, f: F) -> (r: Self)
        requires
            value ==> call_requires(f, (self,)),
        ensures
            value ==> call_ensures(f, (self,), r),
            !value ==> r == self,
    {
        if value {
            f(self)
        } else {
            self
        }
    }

    /// Call `f` on the value and the builder if `value` is present; hand
    /// the builder on unchanged otherwise.
    pub fn if_some<T, F: FnOnce(T, Self) -> Self>(self, value: Option<T>, f: F) -> (r: Self)
        requires
            value matches Some(v) ==> call_requires(f, (v, self)),
        ensures
            old_some_call(value, self, f, r),
            value is None ==> r == self,
    {
        match value {
            Some(v) => f(v, self),
            None => self,
        }
    }

    /// Attach a payload and finish: the terminal call.  A latched fault
    /// discards the built head and yields its error conversion; otherwise
    /// the staged cookies are merged into `Set-Cookie` headers, and the
    /// first cookie that fails to encode, or a full container, discards
    /// the work the same way.
    pub fn message_body<B>(self, body: B) -> (r: Response<B>)
        requires
            self.wf(),
        ensures
            r.wf(),
            self.model().err matches Some(e) ==> r.model() == error_resp_model::<B>(e),
            self.model().err is None ==> (match merge_cookies(
                self.model().head,
                self.model().count,
                delta_model(self.model().jar),
            ) {
                Ok(hc) => r.model() == (RespModel {
                    head: hc.0,
                    body: RBModel::Body(body),
                    error: None,
                }),
                Err(e) => r.model() == error_resp_model::<B>(e),
            }),
    {
        if let Some(e) = self.err {
            return Response::from_error(e).into_body();
        }
        let ghost m = self.model();
        let ResponseBuilder { head, err: _, jar } = self;
        let mut head = head;
        let delta: Vec<Cookie> = match &jar {
            Some(j) => j.delta(),
            None => Vec::new(),
        };
        proof {
            assert(crate::cookies::cookie_models(delta@) =~= delta_model(m.jar));
        }
        let ghost dm = delta_model(m.jar);
        let sc = hn_set_cookie();
        let n = delta.len();
        let mut i: usize = 0;
        proof {
            assert(dm.skip(0) =~= dm);
        }
        while i < n
            invariant
                m == self.model(),
                m.err is None,
                dm == delta_model(m.jar),
                n == delta.len(),
                crate::cookies::cookie_models(delta@) == dm,
                crate::headers::hn_chars(sc) == "set-cookie"@,
                i <= n,
                head.wf(),
                merge_cookies(m.head, m.count, dm) == merge_cookies(
                    head.model(),
                    head.hdr_count(),
                    dm.skip(i as int),
                ),
            decreases n - i,
        {
            assert(dm[i as int] == delta@[i as int].model());
            proof {
                assert(dm.skip(i as int).len() > 0);
                assert(dm.skip(i as int)[0] == dm[i as int]);
                assert(dm.skip(i as int).drop_first() =~= dm.skip(i as int + 1));
            }
            let wire = cookie_wire(&delta[i]);
            if !check_header_value(wire.as_str()) {
                return Response::from_error(Error::InvalidCookie).into_body();
            }
            if !head.try_append_header(&sc, wire.as_str()) {
                return Response::from_error(Error::HeaderCapacity).into_body();
            }
            i += 1;
        }
        proof {
            assert(dm.skip(n as int) =~= Seq::<CookieModel>::empty());
        }
        Response::assemble(head, body, None)
    }

    /// Attach a plain payload and finish.
    pub fn body(self, body: Body) -> (r: Response<Body>)
        requires
            self.wf(),
        ensures
            r.wf(),
            self.model().err matches Some(e) ==> r.model() == error_resp_model::<Body>(e),
            self.model().err is None ==> (match merge_cookies(
                self.model().head,
                self.model().count,
                delta_model(self.model().jar),
            ) {
                Ok(hc) => r.model() == (RespModel {
                    head: hc.0,
                    body: RBModel::Body(body),
                    error: None,
                }),
                Err(e) => r.model() == error_resp_model::<Body>(e),
            }),
    {
        self.message_body(body)
    }

    /// Attach an empty payload and finish.
    pub fn finish(self) -> (r: Response<Body>)
        requires
            self.wf(),
        ensures
            r.wf(),
            self.model().err matches Some(e) ==> r.model() == error_resp_model::<Body>(e),
            self.model().err is None ==> (match merge_cookies(
                self.model().head,
                self.model().count,
                delta_model(self.model().jar),
            ) {
                Ok(hc) => r.model() == (RespModel {
                    head: hc.0,
                    body: RBModel::Body(Body::Empty),
                    error: None,
                }),
                Err(e) => r.model() == error_resp_model::<Body>(e),
            }),
    {
        self.message_body(Body::Empty)
    }

    /// Attach a streaming payload and finish.  The payload wraps a caller
    /// stream, erased beforehand through `stream_payload`.
    pub fn streaming(self, stream: StreamPayload) -> (r: Response<Body>)
        requires
            self.wf(),
        ensures
            r.wf(),
            self.model().err matches Some(e) ==> r.model() == error_resp_model::<Body>(e),
            self.model().err is None ==> (match merge_cookies(
                self.model().head,
                self.model().count,
                delta_model(self.model().jar),
            ) {
                Ok(hc) => r.model() == (RespModel {
                    head: hc.0,
                    body: RBModel::Body(Body::Streaming(stream)),
                    error: None,
                }),
                Err(e) => r.model() == error_resp_model::<Body>(e),
            }),
    {
        self.message_body(Body::Streaming(stream))
    }

    /// Attach the given already-serialized text as a JSON payload and
    /// finish, setting `application/json` as content type only if none
    /// was present: a content type the caller set survives unchanged.
    pub fn json_body(self, payload: String) -> (r: Response<Body>)
        requires
            self.wf(),
        ensures
            r.wf(),
            json_outcome(self.model(), payload@, r.model()),
    {
        let has_ct = if self.err.is_some() {
            true
        } else {
            let name = hn_content_type();
            self.head.contains_header(&name)
        };
        let b = if !has_ct {
            self.header("content-type", "application/json")
        } else {
            self
        };
        let body = Body::from_text(payload.as_str());
        b.message_body(body)
    }

    /// Append a typed header.  Its rendered name and value go through the
    /// same encoding checks as a raw pair.
    pub fn set<H: Header>(self, hdr: H) -> (r: Self)
        requires
            self.wf(),
        ensures
            r.wf(),
            exists|k: Seq<char>, v: Seq<char>|
                r.model() == #[trigger] apply_op(self.model(), BuilderOp::Header(k, v)),
    {
        let k = hdr.header_name();
        let v = hdr.header_value();
        let r = self.header(k.as_str(), v.as_str());
        proof {
            assert(r.model() == apply_op(self.model(), BuilderOp::Header(k@, v@)));
        }
        r
    }

    /// A builder seeded from an existing response: the head is reused as
    /// it stands, and the cookies the response already sets are marked as
    /// baseline cookies, so only newly staged intents emit further
    /// `Set-Cookie` entries.
    pub fn from_response<B>(res: Response<B>) -> (b: ResponseBuilder)
        ensures
            b.model() == (BuilderModel {
                head: res.model().head,
                count: res.hdr_count(),
                err: None,
                jar: mark_all(
                    empty_jar(),
                    cookie_names(
                        crate::response::parsed_cookies(
                            crate::response::set_cookie_values(res.model().head),
                        ),
                    ),
                ),
            }),
            res.wf() ==> b.wf(),
    {
        let cookies = res.cookies();
        let (head, _body, _err) = res.into_parts();
        let ghost names = cookie_names(
            crate::response::parsed_cookies(
                crate::response::set_cookie_values(res.model().head),
            ),
        );
        proof {
            assert(crate::cookies::cookie_models(cookies@).map_values(|c: CookieModel| c.name)
                =~= names);
        }
        let mut jar = CookieJar::new();
        let n = cookies.len();
        let mut i: usize = 0;
        proof {
            assert(mark_all(empty_jar(), names.take(0)) == empty_jar()) by {
                assert(names.take(0) =~= Seq::<Seq<char>>::empty());
            }
        }
        while i < n
            invariant
                n == cookies.len(),
                names == crate::cookies::cookie_models(cookies@).map_values(
                    |c: CookieModel| c.name,
                ),
                names.len() == n,
                i <= n,
                jar.model() == mark_all(empty_jar(), names.take(i as int)),
            decreases n - i,
        {
            let name = String::from_str(cookies[i].name_str());
            assert(name@ == names[i as int]);
            jar.add_original_name(&name);
            proof {
                assert(names.take(i as int + 1).drop_last() =~= names.take(i as int));
                assert(names.take(i as int + 1).last() == names[i as int]);
            }
            i += 1;
        }
        proof {
            assert(names.take(n as int) =~= names);
        }
        ResponseBuilder { head, err: None, jar: Some(jar) }
    }

    /// Serialize `value` and finish with the text as a JSON payload.  A
    /// serialization failure converts straight into an error response,
    /// bypassing the cookie merge; otherwise the outcome is that of
    /// `json_body` on the serialized text.
    pub fn json2<T: serde::Serialize>(self, value: &T) -> (r: Response<Body>)
        requires
            self.wf(),
        ensures
            r.wf(),
            r.model() == error_resp_model::<Body>(Error::Serialization) || (exists|s: Seq<char>|
                #[trigger] json_outcome(self.model(), s, r.model())),
    {
        match json_string(value) {
            None => Response::from_error(Error::Serialization).into_body(),
            Some(text) => {
                let ghost tv = text@;
                let r = self.json_body(text);
                proof {
                    assert(json_outcome(self.model(), tv, r.model()));
                }
                r
            },
        }
    }

    /// Serialize `value` and finish with the text as a JSON payload.
    pub fn json<T: serde::Serialize>(self, value: &T) -> (r: Response<Body>)
        requires
            self.wf(),
        ensures
            r.wf(),
            r.model() == error_resp_model::<Body>(Error::Serialization) || (exists|s: Seq<char>|
                #[trigger] json_outcome(self.model(), s, r.model())),
    {
        self.json2(value)
    }
}

/// A caller-defined typed header: a name and a value rendered as text,
/// handed to `set` instead of a raw pair.
pub trait Header {
    /// The header's name.
    fn header_name(&self) -> String;

    /// The header's rendered value.
    fn header_value(&self) -> String;
}

/// The names of the given cookies, in order.
pub open spec fn cookie_names(cs: Seq<CookieModel>) -> Seq<Seq<char>> {
    cs.map_values(|c: CookieModel| c.name)
}

/// `j` after marking each of `names` as a baseline cookie, in order.
pub open spec fn mark_all(j: JarModel, names: Seq<Seq<char>>) -> JarModel
    decreases names.len(),
{
    if names.len() == 0 {
        j
    } else {
        jar_mark_original(mark_all(j, names.drop_last()), names.last())
    }
}

/// The `if_some` outcome when a value is present: `f`'s contract relates
/// the builder handed in to the one handed back.
pub open spec fn old_some_call<T, F: FnOnce(T, ResponseBuilder) -> ResponseBuilder>(
    value: Option<T>,
    b: ResponseBuilder,
    f: F,
    r: ResponseBuilder,
) -> bool {
    value matches Some(v) ==> call_ensures(f, (v, b), r)
}

/// Relies on `serde_json::to_string`.  What it yields depends on the
/// value's `Serialize` impl, so nothing is promised of the text.
#[verifier::external_body]
fn json_string<T: serde::Serialize>(value: &T) -> Option<String> {
    serde_json::to_string(value).ok()
}

impl<B> From<Response<B>> for ResponseBuilder {
    fn from(res: Response<B>) -> ResponseBuilder {
        ResponseBuilder::from_response(res)
    }
}

impl<B> vstd::std_specs::convert::FromSpecImpl<Response<B>> for ResponseBuilder {
    open spec fn obeys_from_spec() -> bool {
        false
    }

    open spec fn from_spec(v: Response<B>) -> ResponseBuilder {
        vstd::pervasive::arbitrary()
    }
}

impl Response<Body> {
    /// A builder made from anything a builder converts from, such as an
    /// existing response.
    pub fn build_from<T>(source: T) -> (b: ResponseBuilder) where ResponseBuilder: From<T>,
        ensures
            call_ensures(<ResponseBuilder as From<T>>::from, (source,), b),
    {
        source.into()
    }

    /// A builder for a response with the given status.
    pub fn build(status: u16) -> (b: ResponseBuilder)
        requires
            100 <= status < 1000,
        ensures
            b.model() == (BuilderModel {
                head: fresh_head(status),
                count: 0,
                err: None,
                jar: empty_jar(),
            }),
            b.wf(),
    {
        ResponseBuilder::new(status)
    }
}

} // verus!
