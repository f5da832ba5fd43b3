//! Direct conversions into complete responses: a text, a byte buffer, or
//! an already-shared buffer each becomes a status-200 response carrying the
//! input as its body and the matching content type.
use vstd::prelude::*;

use crate::chars::{is_value_char, valid_header_value};
use crate::error::Error;
use crate::head::{fresh_head, HeadModel, ResponseHead};
use crate::headers::{hm_empty_model, hn_content_type};
use crate::payload::{bytes_contents, bytes_freeze, bytesmut_contents, Body, BodyModel};
use crate::response::{slot_shape, RBModel, RespModel, Response};
use vstd::string::StringSliceAdditionalSpecFns;

verus! {

/// The literal `text/plain; charset=utf-8` may stand in a header value.
pub proof fn lemma_text_plain_valid()
    ensures
        valid_header_value("text/plain; charset=utf-8"@),
{
    reveal_strlit("text/plain; charset=utf-8");
    assert forall|i: int| 0 <= i < "text/plain; charset=utf-8"@.len() implies is_value_char(
        #[trigger] "text/plain; charset=utf-8"@[i],
    ) by {
        let s = "text/plain; charset=utf-8"@;
        assert(s.len() == 25);
        assert(is_value_char(s[0]));
        assert(is_value_char(s[1]));
        assert(is_value_char(s[2]));
        assert(is_value_char(s[3]));
        assert(is_value_char(s[4]));
        assert(is_value_char(s[5]));
        assert(is_value_char(s[6]));
        assert(is_value_char(s[7]));
        assert(is_value_char(s[8]));
        assert(is_value_char(s[9]));
        assert(is_value_char(s[10]));
        assert(is_value_char(s[11]));
        assert(is_value_char(s[12]));
        assert(is_value_char(s[13]));
        assert(is_value_char(s[14]));
        assert(is_value_char(s[15]));
        assert(is_value_char(s[16]));
        assert(is_value_char(s[17]));
        assert(is_value_char(s[18]));
        assert(is_value_char(s[19]));
        assert(is_value_char(s[20]));
        assert(is_value_char(s[21]));
        assert(is_value_char(s[22]));
        assert(is_value_char(s[23]));
        assert(is_value_char(s[24]));
    }
}

/// The literal `application/octet-stream` may stand in a header value.
pub proof fn lemma_octet_stream_valid()
    ensures
        valid_header_value("application/octet-stream"@),
{
    reveal_strlit("application/octet-stream");
    assert forall|i: int| 0 <= i < "application/octet-stream"@.len() implies is_value_char(
        #[trigger] "application/octet-stream"@[i],
    ) by {
        let s = "application/octet-stream"@;
        assert(s.len() == 24);
        assert(is_value_char(s[0]));
        assert(is_value_char(s[1]));
        assert(is_value_char(s[2]));
        assert(is_value_char(s[3]));
        assert(is_value_char(s[4]));
        assert(is_value_char(s[5]));
        assert(is_value_char(s[6]));
        assert(is_value_char(s[7]));
        assert(is_value_char(s[8]));
        assert(is_value_char(s[9]));
        assert(is_value_char(s[10]));
        assert(is_value_char(s[11]));
        assert(is_value_char(s[12]));
        assert(is_value_char(s[13]));
        assert(is_value_char(s[14]));
        assert(is_value_char(s[15]));
        assert(is_value_char(s[16]));
        assert(is_value_char(s[17]));
        assert(is_value_char(s[18]));
        assert(is_value_char(s[19]));
        assert(is_value_char(s[20]));
        assert(is_value_char(s[21]));
        assert(is_value_char(s[22]));
        assert(is_value_char(s[23]));
    }
}

/// The model of a fresh status-200 head whose only header is the given
/// content type.
pub open spec fn converted_head(ct: Seq<char>) -> HeadModel {
    HeadModel {
        headers: hm_empty_model().insert("content-type"@, seq![ct]),
        ..fresh_head(200)
    }
}

impl Response<Body> {
    /// A status-200 response carrying `val` as a `text/plain` body.
    pub fn from_text(val: &str) -> (r: Response<Body>)
        ensures
            r.model().head == converted_head("text/plain; charset=utf-8"@),
            r.model().error is None,
            slot_shape(r.model().body) == BodyModel::Sized(val.spec_bytes()),
            r.wf(),
    {
        let mut h = ResponseHead::new(200);
        proof {
            lemma_text_plain_valid();
        }
        let name = hn_content_type();
        let ok = h.try_insert_header(&name, "text/plain; charset=utf-8");
        proof {
            assert(ok);
        }
        Response::assemble(h, Body::from_text(val), None)
    }

    /// A status-200 response carrying a copy of `val` as an
    /// `application/octet-stream` body.
    pub fn from_octets(val: &[u8]) -> (r: Response<Body>)
        ensures
            r.model().head == converted_head("application/octet-stream"@),
            r.model().error is None,
            slot_shape(r.model().body) == BodyModel::Sized(val@),
            r.wf(),
    {
        let mut h = ResponseHead::new(200);
        proof {
            lemma_octet_stream_valid();
        }
        let name = hn_content_type();
        let ok = h.try_insert_header(&name, "application/octet-stream");
        proof {
            assert(ok);
        }
        Response::assemble(h, Body::from_bytes_vec(vstd::slice::slice_to_vec(val)), None)
    }

    /// A status-200 response carrying the shared buffer as an
    /// `application/octet-stream` body, without copying it.
    pub fn from_shared(val: bytes::Bytes) -> (r: Response<Body>)
        ensures
            r.model().head == converted_head("application/octet-stream"@),
            r.model().error is None,
            slot_shape(r.model().body) == BodyModel::Sized(bytes_contents(val)),
            r.wf(),
    {
        let mut h = ResponseHead::new(200);
        proof {
            lemma_octet_stream_valid();
        }
        let name = hn_content_type();
        let ok = h.try_insert_header(&name, "application/octet-stream");
        proof {
            assert(ok);
        }
        Response::assemble(h, Body::Sized(val), None)
    }

    /// A status-200 response carrying the frozen buffer as an
    /// `application/octet-stream` body.
    pub fn from_mut_buf(val: bytes::BytesMut) -> (r: Response<Body>)
        ensures
            r.model().head == converted_head("application/octet-stream"@),
            r.model().error is None,
            slot_shape(r.model().body) == BodyModel::Sized(bytesmut_contents(val)),
            r.wf(),
    {
        Response::from_shared(bytes_freeze(val))
    }
}

impl From<&'static str> for Response<Body> {
    fn from(val: &'static str) -> Response<Body> {
        Response::from_text(val)
    }
}

impl vstd::std_specs::convert::FromSpecImpl<&'static str> for Response<Body> {
    open spec fn obeys_from_spec() -> bool {
        false
    }

    open spec fn from_spec(v: &'static str) -> Response<Body> {
        vstd::pervasive::arbitrary()
    }
}

impl From<String> for Response<Body> {
    fn from(val: String) -> Response<Body> {
        Response::from_text(val.as_str())
    }
}

impl vstd::std_specs::convert::FromSpecImpl<String> for Response<Body> {
    open spec fn obeys_from_spec() -> bool {
        false
    }

    open spec fn from_spec(v: String) -> Response<Body> {
        vstd::pervasive::arbitrary()
    }
}

impl<'a> From<&'a String> for Response<Body> {
    fn from(val: &'a String) -> Response<Body> {
        Response::from_text(val.as_str())
    }
}

impl<'a> vstd::std_specs::convert::FromSpecImpl<&'a String> for Response<Body> {
    open spec fn obeys_from_spec() -> bool {
        false
    }

    open spec fn from_spec(v: &'a String) -> Response<Body> {
        vstd::pervasive::arbitrary()
    }
}

impl From<&'static [u8]> for Response<Body> {
    fn from(val: &'static [u8]) -> Response<Body> {
        Response::from_octets(val)
    }
}

impl vstd::std_specs::convert::FromSpecImpl<&'static [u8]> for Response<Body> {
    open spec fn obeys_from_spec() -> bool {
        false
    }

    open spec fn from_spec(v: &'static [u8]) -> Response<Body> {
        vstd::pervasive::arbitrary()
    }
}

impl From<bytes::Bytes> for Response<Body> {
    fn from(val: bytes::Bytes) -> Response<Body> {
        Response::from_shared(val)
    }
}

impl vstd::std_specs::convert::FromSpecImpl<bytes::Bytes> for Response<Body> {
    open spec fn obeys_from_spec() -> bool {
        false
    }

    open spec fn from_spec(v: bytes::Bytes) -> Response<Body> {
        vstd::pervasive::arbitrary()
    }
}

impl From<bytes::BytesMut> for Response<Body> {
    fn from(val: bytes::BytesMut) -> Response<Body> {
        Response::from_mut_buf(val)
    }
}

impl vstd::std_specs::convert::FromSpecImpl<bytes::BytesMut> for Response<Body> {
    open spec fn obeys_from_spec() -> bool {
        false
    }

    open spec fn from_spec(v: bytes::BytesMut) -> Response<Body> {
        vstd::pervasive::arbitrary()
    }
}

} // verus!
