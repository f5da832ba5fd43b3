//! The immutable response envelope: head, body and the optional fault it
//! was converted from, with the operators that transform body ownership.
use vstd::prelude::*;

use crate::chars::valid_header_value;
use crate::cookies::{cookie_parse, cookie_wire, wire_of, parsed_cookie, Cookie, CookieModel};
use crate::error::Error;
use crate::head::{fresh_head, head_wf, keep_alive_of, upgrade_of, HeadModel, ResponseHead};
use vstd::string::StringExecFns;
use crate::headers::{hm_append_model, hn_set_cookie, HEADER_CAP};
use crate::payload::{bytes_slice, Body, BodyModel};

verus! {

/// The payload slot of a response: either a value of the stage's own body
/// type, or a carried `Body` from an earlier stage.
pub enum ResponseBody<B> {
    Body(B),
    Other(Body),
}

/// The mathematical image of a payload slot: the stage's own value as it
/// is, a carried body by its shape.
pub ghost enum RBModel<B> {
    Body(B),
    Other(BodyModel),
}

impl<B> ResponseBody<B> {
    /// The mathematical image of this slot.
    pub closed spec fn model(self) -> RBModel<B> {
        match self {
            ResponseBody::Body(b) => RBModel::Body(b),
            ResponseBody::Other(b) => RBModel::Other(b.model()),
        }
    }

    /// Take the payload out, leaving an empty carried body.  Idempotent:
    /// taking twice yields the payload, then the empty body, never a fault.
    pub fn take_body(&mut self) -> (r: ResponseBody<B>)
        ensures
            r.model() == old(self).model(),
            final(self).model() == RBModel::<B>::Other(BodyModel::Empty),
    {
        let mut t = ResponseBody::Other(Body::Empty);
        core::mem::swap(self, &mut t);
        t
    }
}

/// The shape of whichever body a slot of `Body` type holds.
pub open spec fn slot_shape(m: RBModel<Body>) -> BodyModel {
    match m {
        RBModel::Body(b) => b.model(),
        RBModel::Other(s) => s,
    }
}

impl ResponseBody<Body> {
    /// The bytes of a fixed payload.
    pub fn get_ref(&self) -> (r: &[u8])
        requires
            slot_shape(self.model()) matches BodyModel::Sized(_),
        ensures
            slot_shape(self.model()) == BodyModel::Sized(r@),
    {
        match self {
            ResponseBody::Body(Body::Sized(b)) => bytes_slice(b),
            ResponseBody::Other(Body::Sized(b)) => bytes_slice(b),
            _ => vstd::pervasive::unreached(),
        }
    }
}

/// The mathematical image of a response.
pub ghost struct RespModel<B> {
    pub head: HeadModel,
    pub body: RBModel<B>,
    pub error: Option<Error>,
}

/// The response a fault converts into, as later stages see it: a fresh
/// error-status head, an empty carried body, and the fault itself.
pub open spec fn error_resp_model<B>(e: Error) -> RespModel<B> {
    RespModel {
        head: fresh_head(500),
        body: RBModel::Other(BodyModel::Empty),
        error: Some(e),
    }
}

/// The cookies parsed out of the given `Set-Cookie` texts, in order;
/// unparsable texts contribute nothing.
pub open spec fn parsed_cookies(vals: Seq<Seq<char>>) -> Seq<CookieModel>
    decreases vals.len(),
{
    if vals.len() == 0 {
        Seq::empty()
    } else {
        let rest = parsed_cookies(vals.drop_last());
        match parsed_cookie(vals.last()) {
            Some(c) => rest.push(c),
            None => rest,
        }
    }
}

/// Whether a `Set-Cookie` text parses to a cookie with the given name.
pub open spec fn is_cookie_named(v: Seq<char>, name: Seq<char>) -> bool {
    match parsed_cookie(v) {
        Some(c) => c.name == name,
        None => false,
    }
}

/// The `Set-Cookie` texts kept when removing cookies named `name`:
/// everything that does not parse to that name, in order.
pub open spec fn kept_values(vals: Seq<Seq<char>>, name: Seq<char>) -> Seq<Seq<char>>
    decreases vals.len(),
{
    if vals.len() == 0 {
        vals
    } else {
        let rest = kept_values(vals.drop_last(), name);
        if is_cookie_named(vals.last(), name) {
            rest
        } else {
            rest.push(vals.last())
        }
    }
}

/// No more is kept than was there.
pub proof fn lemma_kept_len(vals: Seq<Seq<char>>, name: Seq<char>)
    ensures
        kept_values(vals, name).len() <= vals.len(),
    decreases vals.len(),
{
    if vals.len() > 0 {
        lemma_kept_len(vals.drop_last(), name);
    }
}

/// `m` with each of `vs` appended under `k`, in order.
pub open spec fn append_all(
    m: Map<Seq<char>, Seq<Seq<char>>>,
    k: Seq<char>,
    vs: Seq<Seq<char>>,
) -> Map<Seq<char>, Seq<Seq<char>>>
    decreases vs.len(),
{
    if vs.len() == 0 {
        m
    } else {
        hm_append_model(append_all(m, k, vs.drop_last()), k, vs.last())
    }
}

/// An outgoing response: head, payload slot, and the fault it was
/// converted from, if any.
pub struct Response<B = Body> {
    head: ResponseHead,
    body: ResponseBody<B>,
    error: Option<Error>,
}

impl<B> Response<B> {
    /// The mathematical image of this response.
    pub closed spec fn model(self) -> RespModel<B> {
        RespModel { head: self.head.model(), body: self.body.model(), error: self.error }
    }

    /// The number of header values the head stores.
    pub closed spec fn hdr_count(self) -> nat {
        self.head.hdr_count()
    }

    /// Well-formedness of the head.
    pub open spec fn wf(self) -> bool {
        head_wf(self.model().head, self.hdr_count())
    }

    /// A response with the given status and payload.
    pub fn with_body(status: u16, body: B) -> (r: Response<B>)
        requires
            100 <= status < 1000,
        ensures
            r.model() == (RespModel {
                head: fresh_head(status),
                body: RBModel::Body(body),
                error: None,
            }),
            r.wf(),
            r.hdr_count() == 0,
    {
        Response { head: ResponseHead::new(status), body: ResponseBody::Body(body), error: None }
    }

    /// Assemble a response from a finished head and payload.
    pub(crate) fn assemble(head: ResponseHead, body: B, error: Option<Error>) -> (r: Response<B>)
        ensures
            r.model() == (RespModel {
                head: head.model(),
                body: RBModel::Body(body),
                error,
            }),
            r.wf() == head.wf(),
            r.hdr_count() == head.hdr_count(),
    {
        Response { head, body: ResponseBody::Body(body), error }
    }

    /// The head of the response.
    pub fn head(&self) -> (h: &ResponseHead)
        ensures
            h.model() == self.model().head,
            h.wf() == self.wf(),
    {
        &self.head
    }

    /// Mutable access to the head.
    pub fn head_mut(&mut self) -> (h: &mut ResponseHead)
        ensures
            h.model() == old(self).model().head,
            h.wf() == old(self).wf(),
            h.hdr_count() == old(self).hdr_count(),
            final(self).model() == (RespModel { head: final(h).model(), ..old(self).model() }),
            final(self).wf() == final(h).wf(),
            final(self).hdr_count() == final(h).hdr_count(),
    {
        &mut self.head
    }

    /// The fault this response was converted from, if any.
    pub fn error(&self) -> (r: Option<Error>)
        ensures
            r == self.model().error,
    {
        self.error
    }

    /// The status code.
    pub fn status(&self) -> (s: u16)
        ensures
            s == self.model().head.status,
    {
        self.head.status()
    }

    /// Replace the status code.
    pub fn set_status(&mut self, status: u16)
        requires
            100 <= status < 1000,
        ensures
            final(self).model() == (RespModel {
                head: HeadModel { status, ..old(self).model().head },
                ..old(self).model()
            }),
            old(self).wf() ==> final(self).wf(),
            final(self).hdr_count() == old(self).hdr_count(),
    {
        self.head.set_status(status);
    }

    /// The header container, for readers.
    pub fn headers(&self) -> (m: &http::HeaderMap<http::header::HeaderValue>)
        ensures
            crate::headers::hm_model(*m) == self.model().head.headers,
    {
        self.head.headers()
    }

    /// Whether the connection is upgraded to another protocol.
    pub fn upgrade(&self) -> (b: bool)
        ensures
            b == upgrade_of(self.model().head),
    {
        self.head.upgrade()
    }

    /// Whether the connection stays open after this response.
    pub fn keep_alive(&self) -> (b: bool)
        ensures
            b == keep_alive_of(self.model().head),
    {
        self.head.keep_alive()
    }

    /// The payload slot, for readers.
    pub fn body(&self) -> (r: &ResponseBody<B>)
        ensures
            r.model() == self.model().body,
    {
        &self.body
    }

    /// The cookies this response sets, parsed from its `Set-Cookie`
    /// headers, in order.
    pub fn cookies(&self) -> (r: Vec<Cookie>)
        ensures
            crate::cookies::cookie_models(r@) == parsed_cookies(set_cookie_values(self.model().head)),
    {
        let sc = hn_set_cookie();
        let vals = self.head.header_values(&sc);
        let ghost vs = set_cookie_values(self.model().head);
        proof {
            assert(vals.deep_view() =~= vs);
        }
        let n = vals.len();
        let mut out: Vec<Cookie> = Vec::new();
        let mut i: usize = 0;
        while i < n
            invariant
                n == vals.len(),
                vals.deep_view() == vs,
                i <= n,
                crate::cookies::cookie_models(out@) =~= parsed_cookies(vs.take(i as int)),
            decreases n - i,
        {
            assert(vals.deep_view()[i as int] == vals@[i as int]@);
            if let Some(c) = cookie_parse(vals[i].as_str()) {
                let ghost prev = out@;
                out.push(c);
                proof {
                    assert(out@ == prev.push(c));
                    lemma_parsed_take_step(vs, i as int);
                    assert(crate::cookies::cookie_models(out@) =~= parsed_cookies(
                        vs.take(i as int + 1),
                    ));
                }
            } else {
                proof {
                    lemma_parsed_take_step(vs, i as int);
                    assert(crate::cookies::cookie_models(out@) =~= parsed_cookies(
                        vs.take(i as int + 1),
                    ));
                }
            }
            i += 1;
        }
        proof {
            assert(vs.take(n as int) =~= vs);
        }
        out
    }

    /// Format and add one `Set-Cookie` header for `cookie`.  Fails when the
    /// formatted text cannot stand in a header value, or the container is
    /// full; the response is then unchanged.
    pub fn add_cookie(&mut self, cookie: &Cookie) -> (r: Result<(), Error>)
        requires
            old(self).wf(),
        ensures
            final(self).wf(),
            r matches Ok(()) <==> (valid_header_value(wire_of(cookie.model())) && old(
                self,
            ).hdr_count() < HEADER_CAP),
            r matches Ok(()) ==> final(self).model() == (RespModel {
                head: HeadModel {
                    headers: hm_append_model(
                        old(self).model().head.headers,
                        "set-cookie"@,
                        wire_of(cookie.model()),
                    ),
                    ..old(self).model().head
                },
                ..old(self).model()
            }),
            r matches Err(e) ==> *final(self) == *old(self) && (e == Error::InvalidHeaderValue
                || e == Error::HeaderCapacity),
            r == Err::<(), Error>(Error::InvalidHeaderValue) <==> !valid_header_value(
                wire_of(cookie.model()),
            ),
    {
        let wire = cookie_wire(cookie);
        if !crate::chars::check_header_value(wire.as_str()) {
            return Err(Error::InvalidHeaderValue);
        }
        let sc = hn_set_cookie();
        if self.head.try_append_header(&sc, wire.as_str()) {
            Ok(())
        } else {
            Err(Error::HeaderCapacity)
        }
    }

    /// Remove every `Set-Cookie` header whose cookie is named `name`;
    /// yields how many were removed.  Headers that do not parse as cookies
    /// are kept.
    pub fn del_cookie(&mut self, name: &str) -> (r: usize)
        requires
            old(self).wf(),
        ensures
            final(self).wf(),
            ({
                let vals = set_cookie_values(old(self).model().head);
                let kept = kept_values(vals, name@);
                &&& final(self).model() == (RespModel {
                    head: HeadModel {
                        headers: append_all(
                            old(self).model().head.headers.remove("set-cookie"@),
                            "set-cookie"@,
                            kept,
                        ),
                        ..old(self).model().head
                    },
                    ..old(self).model()
                })
                &&& r + kept.len() == vals.len()
            }),
    {
        let target = String::from_str(name);
        let sc = hn_set_cookie();
        let vals = self.head.header_values(&sc);
        let ghost vs = set_cookie_values(old(self).model().head);
        proof {
            assert(vals.deep_view() =~= vs);
            lemma_kept_len(vs, name@);
        }
        let ghost h1 = old(self).model().head.headers.remove("set-cookie"@);
        self.head.remove_header(&sc);
        let n = vals.len();
        let mut count: usize = 0;
        let mut i: usize = 0;
        while i < n
            invariant
                old(self).wf(),
                n == vals.len(),
                vals.deep_view() == vs,
                n == vs.len(),
                vs == set_cookie_values(old(self).model().head),
                target@ == name@,
                crate::headers::hn_chars(sc) == "set-cookie"@,
                h1 == old(self).model().head.headers.remove("set-cookie"@),
                i <= n,
                count <= i,
                self.head.wf(),
                count + kept_values(vs.take(i as int), name@).len() == i,
                self.head.hdr_count() + vals.len() == old(self).hdr_count()
                    + kept_values(vs.take(i as int), name@).len(),
                self.head.model() == (HeadModel {
                    headers: append_all(h1, "set-cookie"@, kept_values(vs.take(i as int), name@)),
                    ..old(self).model().head
                }),
                self.body == old(self).body,
                self.error == old(self).error,
            decreases n - i,
        {
            assert(vals.deep_view()[i as int] == vals@[i as int]@);
            let vtext = vals[i].as_str();
            assert(vtext@ == vs[i as int]);
            proof {
                lemma_kept_take_step(vs, name@, i as int);
                lemma_kept_len(vs.take(i as int), name@);
                let m0 = old(self).model().head.headers;
                if m0.contains_key("set-cookie"@) {
                    assert(m0["set-cookie"@][i as int] == vs[i as int]);
                }
                assert(valid_header_value(vs[i as int]));
            }
            let mut matched = false;
            if let Some(c) = cookie_parse(vtext) {
                if String::from_str(c.name_str()) == target {
                    matched = true;
                }
            }
            assert(matched == is_cookie_named(vs[i as int], name@));
            if matched {
                count += 1;
            } else {
                let ok = self.head.try_append_header(&sc, vtext);
                proof {
                    assert(ok);
                    let kept_i = kept_values(vs.take(i as int), name@);
                    let kept_i1 = kept_values(vs.take(i as int + 1), name@);
                    assert(kept_i1 == kept_i.push(vs[i as int]));
                    assert(kept_i1.drop_last() =~= kept_i);
                    assert(kept_i1.last() == vs[i as int]);
                    assert(append_all(h1, "set-cookie"@, kept_i1) == hm_append_model(
                        append_all(h1, "set-cookie"@, kept_i),
                        "set-cookie"@,
                        vs[i as int],
                    ));
                }
            }
            i += 1;
        }
        proof {
            assert(vs.take(n as int) =~= vs);
        }
        count
    }

    /// Replace the payload, yielding a response of the new body type.  Any
    /// recorded fault is discarded along with the old payload.
    pub fn set_body<B2>(self, body: B2) -> (r: Response<B2>)
        ensures
            r.model() == (RespModel {
                head: self.model().head,
                body: RBModel::Body(body),
                error: None,
            }),
            r.wf() == self.wf(),
            r.hdr_count() == self.hdr_count(),
    {
        Response { head: self.head, body: ResponseBody::Body(body), error: None }
    }

    /// Drop the payload, yielding a bodiless response.
    pub fn drop_body(self) -> (r: Response<()>)
        ensures
            r.model() == (RespModel {
                head: self.model().head,
                body: RBModel::Body(()),
                error: None,
            }),
            r.wf() == self.wf(),
            r.hdr_count() == self.hdr_count(),
    {
        Response { head: self.head, body: ResponseBody::Body(()), error: None }
    }

    /// Replace the payload and hand back the displaced one.  Head and
    /// fault are preserved.
    pub fn replace_body<B2>(self, body: B2) -> (r: (Response<B2>, ResponseBody<B>))
        ensures
            r.0.model() == (RespModel {
                head: self.model().head,
                body: RBModel::Body(body),
                error: self.model().error,
            }),
            r.1.model() == self.model().body,
            r.0.wf() == self.wf(),
            r.0.hdr_count() == self.hdr_count(),
    {
        (
            Response { head: self.head, body: ResponseBody::Body(body), error: self.error },
            self.body,
        )
    }

    /// Hand the head and payload to `f` and wrap what it returns; the
    /// recorded fault is preserved.
    pub fn map_body<F, B2>(self, f: F) -> (r: Response<B2>) where
        F: FnOnce(ResponseHead, ResponseBody<B>) -> (ResponseHead, ResponseBody<B2>),

        requires
            call_requires(f, (self.unwrap_parts().0, self.unwrap_parts().1)),
        ensures
            exists|out: (ResponseHead, ResponseBody<B2>)|
                {
                    &&& call_ensures(f, (self.unwrap_parts().0, self.unwrap_parts().1), out)
                    &&& r.model() == (RespModel {
                        head: out.0.model(),
                        body: out.1.model(),
                        error: self.model().error,
                    })
                    &&& r.wf() == out.0.wf()
                },
    {
        let Response { head, body, error } = self;
        let ghost arg = (head, body);
        let (head2, body2) = f(head, body);
        let ghost outg = (head2, body2);
        let r2 = Response { head: head2, body: body2, error };
        proof {
            assert(arg == (self.unwrap_parts().0, self.unwrap_parts().1));
            assert(call_ensures(f, (self.unwrap_parts().0, self.unwrap_parts().1), outg)
                && r2.model() == (RespModel {
                head: outg.0.model(),
                body: outg.1.model(),
                error: self.model().error,
            }) && r2.wf() == outg.0.wf());
            assert(exists|out: (ResponseHead, ResponseBody<B2>)|
                call_ensures(f, (self.unwrap_parts().0, self.unwrap_parts().1), out)
                    && r2.model() == (RespModel {
                    head: out.0.model(),
                    body: out.1.model(),
                    error: self.model().error,
                }) && r2.wf() == out.0.wf());
        }
        r2
    }

    /// The head and payload values themselves, abstractly.
    pub closed spec fn unwrap_parts(self) -> (ResponseHead, ResponseBody<B>) {
        (self.head, self.body)
    }

    /// Break the response into head, payload slot and recorded fault.
    pub(crate) fn into_parts(self) -> (r: (ResponseHead, ResponseBody<B>, Option<Error>))
        ensures
            r.0.model() == self.model().head,
            r.0.wf() == self.wf(),
            r.0.hdr_count() == self.hdr_count(),
            r.1.model() == self.model().body,
            r.2 == self.model().error,
    {
        (self.head, self.body, self.error)
    }

    /// Extract the payload, leaving an empty carried body in its place.
    /// Idempotent: a second call yields the empty body, never a fault.
    pub fn take_body(&mut self) -> (r: ResponseBody<B>)
        ensures
            r.model() == old(self).model().body,
            final(self).model() == (RespModel {
                body: RBModel::Other(BodyModel::Empty),
                ..old(self).model()
            }),
            final(self).wf() == old(self).wf(),
            final(self).hdr_count() == old(self).hdr_count(),
    {
        self.body.take_body()
    }
}

/// The `Set-Cookie` texts a head stores, in order; empty when none.
pub open spec fn set_cookie_values(m: HeadModel) -> Seq<Seq<char>> {
    if m.headers.contains_key("set-cookie"@) {
        m.headers["set-cookie"@]
    } else {
        Seq::empty()
    }
}

/// One step of `parsed_cookies` over a prefix.
proof fn lemma_parsed_take_step(vs: Seq<Seq<char>>, i: int)
    requires
        0 <= i < vs.len(),
    ensures
        parsed_cookies(vs.take(i + 1)) == (match parsed_cookie(vs[i]) {
            Some(c) => parsed_cookies(vs.take(i)).push(c),
            None => parsed_cookies(vs.take(i)),
        }),
{
    assert(vs.take(i + 1).drop_last() =~= vs.take(i));
    assert(vs.take(i + 1).last() == vs[i]);
}

/// One step of `kept_values` over a prefix.
proof fn lemma_kept_take_step(vs: Seq<Seq<char>>, name: Seq<char>, i: int)
    requires
        0 <= i < vs.len(),
    ensures
        kept_values(vs.take(i + 1), name) == (if is_cookie_named(vs[i], name) {
            kept_values(vs.take(i), name)
        } else {
            kept_values(vs.take(i), name).push(vs[i])
        }),
{
    assert(vs.take(i + 1).drop_last() =~= vs.take(i));
    assert(vs.take(i + 1).last() == vs[i]);
}

impl Response<Body> {
    /// A response with the given status and an empty body.
    pub fn new(status: u16) -> (r: Response<Body>)
        requires
            100 <= status < 1000,
        ensures
            r.model() == (RespModel {
                head: fresh_head(status),
                body: RBModel::Body(Body::Empty),
                error: None,
            }),
            r.wf(),
            r.hdr_count() == 0,
    {
        Response {
            head: ResponseHead::new(status),
            body: ResponseBody::Body(Body::Empty),
            error: None,
        }
    }

    /// Convert a fault into the response the pipeline sends for it: a
    /// fresh error-status head, an empty body, and the fault recorded.
    pub fn from_error(error: Error) -> (r: Response<Body>)
        ensures
            r.model() == (RespModel {
                head: fresh_head(500),
                body: RBModel::Body(Body::Empty),
                error: Some(error),
            }),
            r.wf(),
            r.hdr_count() == 0,
    {
        Response {
            head: ResponseHead::new(500),
            body: ResponseBody::Body(Body::Empty),
            error: Some(error),
        }
    }

    /// Re-type the payload slot: whichever body is held moves to the
    /// carried arm, leaving head and fault unchanged.
    pub fn into_body<B2>(self) -> (r: Response<B2>)
        ensures
            r.model() == (RespModel {
                head: self.model().head,
                body: RBModel::<B2>::Other(slot_shape(self.model().body)),
                error: self.model().error,
            }),
            r.wf() == self.wf(),
            r.hdr_count() == self.hdr_count(),
    {
        let b = match self.body {
            ResponseBody::Body(b) => b,
            ResponseBody::Other(b) => b,
        };
        Response { head: self.head, body: ResponseBody::Other(b), error: self.error }
    }
}

} // verus!
