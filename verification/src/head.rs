//! The response head: status line data, headers and connection metadata,
//! independent of the payload.
use vstd::prelude::*;

use crate::chars::valid_header_value;
use crate::headers::{
    hm_all_values_valid, hm_append, hm_append_model, hm_contains, hm_count, hm_empty_model,
    hm_get_all, hm_insert, hm_len, hm_model, hm_new, hm_remove, hn_chars, HEADER_CAP,
};

verus! {

/// The protocol version the response is written for.
#[derive(Clone, Copy, PartialEq, Eq, Structural, Debug)]
pub enum Version {
    Http10,
    Http11,
}

/// How the connection is to be treated once the response is written.
#[derive(Clone, Copy, PartialEq, Eq, Structural, Debug)]
pub enum ConnectionType {
    /// Nothing requested: the version's default applies.
    Unset,
    KeepAlive,
    Close,
    Upgrade,
}

/// Status line, headers and connection metadata.
pub struct ResponseHead {
    status: u16,
    version: Version,
    reason: Option<&'static str>,
    headers: http::HeaderMap<http::header::HeaderValue>,
    conn: ConnectionType,
    no_chunking: bool,
}

/// The mathematical image of a response head.
pub ghost struct HeadModel {
    pub status: u16,
    pub version: Version,
    pub reason: Option<Seq<char>>,
    pub headers: Map<Seq<char>, Seq<Seq<char>>>,
    pub conn: ConnectionType,
    pub no_chunking: bool,
}

/// The model of a fresh head with the given status.
pub open spec fn fresh_head(status: u16) -> HeadModel {
    HeadModel {
        status,
        version: Version::Http11,
        reason: None,
        headers: hm_empty_model(),
        conn: ConnectionType::Unset,
        no_chunking: false,
    }
}

/// Whether the connection stays open after the response: explicitly
/// requested, or the version's default when nothing was requested.
pub open spec fn keep_alive_of(m: HeadModel) -> bool {
    m.conn == ConnectionType::KeepAlive || (m.conn == ConnectionType::Unset && m.version
        == Version::Http11)
}

/// Whether the connection is upgraded to another protocol.
pub open spec fn upgrade_of(m: HeadModel) -> bool {
    m.conn == ConnectionType::Upgrade
}

/// Well-formedness of a head: the status is a three-digit code, the
/// container is within its growth bound, and every stored value reads back
/// as text.
pub open spec fn head_wf(m: HeadModel, count: nat) -> bool {
    &&& 100 <= m.status < 1000
    &&& count <= HEADER_CAP
    &&& hm_all_values_valid(m.headers)
}

impl ResponseHead {
    /// The mathematical image of this head.
    pub closed spec fn model(&self) -> HeadModel {
        HeadModel {
            status: self.status,
            version: self.version,
            reason: match self.reason {
                Some(r) => Some(r@),
                None => None,
            },
            headers: hm_model(self.headers),
            conn: self.conn,
            no_chunking: self.no_chunking,
        }
    }

    /// The number of header values stored, over all names.
    pub closed spec fn hdr_count(&self) -> nat {
        hm_count(self.headers)
    }

    /// Well-formedness, as `head_wf` of this head's model and count.
    pub open spec fn wf(&self) -> bool {
        head_wf(self.model(), self.hdr_count())
    }

    /// A fresh head with the given status and no headers.
    pub fn new(status: u16) -> (h: ResponseHead)
        requires
            100 <= status < 1000,
        ensures
            h.model() == fresh_head(status),
            h.wf(),
            h.hdr_count() == 0,
    {
        ResponseHead {
            status,
            version: Version::Http11,
            reason: None,
            headers: hm_new(),
            conn: ConnectionType::Unset,
            no_chunking: false,
        }
    }

    /// The status code.
    pub fn status(&self) -> (s: u16)
        ensures
            s == self.model().status,
    {
        self.status
    }

    /// Replace the status code.
    pub fn set_status(&mut self, status: u16)
        requires
            100 <= status < 1000,
        ensures
            final(self).model() == (HeadModel { status, ..old(self).model() }),
            old(self).wf() ==> final(self).wf(),
            final(self).hdr_count() == old(self).hdr_count(),
    {
        self.status = status;
    }

    /// The custom reason phrase, if one was set.
    pub fn reason(&self) -> (r: Option<&'static str>)
        ensures
            r matches Some(s) ==> self.model().reason == Some(s@),
            (r is Some) == (self.model().reason is Some),
    {
        self.reason
    }

    /// Set the custom reason phrase.
    pub fn set_reason(&mut self, reason: &'static str)
        ensures
            final(self).model() == (HeadModel { reason: Some(reason@), ..old(self).model() }),
            final(self).wf() == old(self).wf(),
            final(self).hdr_count() == old(self).hdr_count(),
    {
        self.reason = Some(reason);
    }

    /// The connection treatment.
    pub fn connection_type(&self) -> (c: ConnectionType)
        ensures
            c == self.model().conn,
    {
        self.conn
    }

    /// Set the connection treatment.
    pub fn set_connection_type(&mut self, conn: ConnectionType)
        ensures
            final(self).model() == (HeadModel { conn, ..old(self).model() }),
            final(self).wf() == old(self).wf(),
            final(self).hdr_count() == old(self).hdr_count(),
    {
        self.conn = conn;
    }

    /// Whether chunked transfer encoding is disabled for streaming bodies.
    pub fn no_chunking(&self) -> (b: bool)
        ensures
            b == self.model().no_chunking,
    {
        self.no_chunking
    }

    /// Disable or enable chunked transfer encoding for streaming bodies.
    pub fn set_no_chunking(&mut self, b: bool)
        ensures
            final(self).model() == (HeadModel { no_chunking: b, ..old(self).model() }),
            final(self).wf() == old(self).wf(),
            final(self).hdr_count() == old(self).hdr_count(),
    {
        self.no_chunking = b;
    }

    /// The protocol version.
    pub fn version(&self) -> (v: Version)
        ensures
            v == self.model().version,
    {
        self.version
    }

    /// Whether the connection stays open after this response.
    pub fn keep_alive(&self) -> (b: bool)
        ensures
            b == keep_alive_of(self.model()),
    {
        match self.conn {
            ConnectionType::KeepAlive => true,
            ConnectionType::Unset => match self.version {
                Version::Http11 => true,
                Version::Http10 => false,
            },
            ConnectionType::Close => false,
            ConnectionType::Upgrade => false,
        }
    }

    /// Whether the connection is upgraded to another protocol.
    pub fn upgrade(&self) -> (b: bool)
        ensures
            b == upgrade_of(self.model()),
    {
        match self.conn {
            ConnectionType::Upgrade => true,
            _ => false,
        }
    }

    /// The raw header container, for readers.
    pub fn headers(&self) -> (m: &http::HeaderMap<http::header::HeaderValue>)
        ensures
            hm_model(*m) == self.model().headers,
    {
        &self.headers
    }

    /// Whether a value is stored under `name`.
    pub fn contains_header(&self, name: &http::header::HeaderName) -> (b: bool)
        ensures
            b == self.model().headers.contains_key(hn_chars(*name)),
    {
        hm_contains(&self.headers, name)
    }

    /// The texts stored under `name`, in the order they were added.
    pub fn header_values(&self, name: &http::header::HeaderName) -> (r: Vec<String>)
        ensures
            self.model().headers.contains_key(hn_chars(*name)) ==> r.deep_view()
                == self.model().headers[hn_chars(*name)],
            !self.model().headers.contains_key(hn_chars(*name)) ==> r.deep_view() == Seq::<
                Seq<char>,
            >::empty(),
    {
        hm_get_all(&self.headers, name)
    }

    /// Append `value` under `name`; refused only when the container is at
    /// its growth bound.
    pub fn try_append_header(&mut self, name: &http::header::HeaderName, value: &str) -> (ok:
        bool)
        requires
            old(self).wf(),
            valid_header_value(value@),
        ensures
            ok == (old(self).hdr_count() < HEADER_CAP),
            ok ==> final(self).model() == (HeadModel {
                headers: hm_append_model(old(self).model().headers, hn_chars(*name), value@),
                ..old(self).model()
            }),
            ok ==> final(self).hdr_count() == old(self).hdr_count() + 1,
            !ok ==> *final(self) == *old(self),
            final(self).wf(),
    {
        if hm_len(&self.headers) < HEADER_CAP {
            let ghost m0 = hm_model(self.headers);
            hm_append(&mut self.headers, name, value);
            proof {
                let k = hn_chars(*name);
                let m1 = hm_model(self.headers);
                assert forall|k2: Seq<char>, i: int|
                    m1.contains_key(k2) && 0 <= i < m1[k2].len() implies valid_header_value(
                    #[trigger] m1[k2][i],
                ) by {
                    if k2 == k {
                        if m0.contains_key(k) {
                            assert(m1[k] == m0[k].push(value@));
                        } else {
                            assert(m1[k] == seq![value@]);
                        }
                    } else {
                        assert(m1[k2] == m0[k2]);
                    }
                }
            }
            true
        } else {
            false
        }
    }

    /// Store `value` as the only value under `name`; refused only when the
    /// container is at its growth bound.
    pub fn try_insert_header(&mut self, name: &http::header::HeaderName, value: &str) -> (ok:
        bool)
        requires
            old(self).wf(),
            valid_header_value(value@),
        ensures
            ok == (old(self).hdr_count() < HEADER_CAP),
            ok ==> final(self).model() == (HeadModel {
                headers: old(self).model().headers.insert(hn_chars(*name), seq![value@]),
                ..old(self).model()
            }),
            ok ==> final(self).hdr_count() == old(self).hdr_count() + 1 - (if old(
                self,
            ).model().headers.contains_key(hn_chars(*name)) {
                old(self).model().headers[hn_chars(*name)].len()
            } else {
                0
            }),
            !ok ==> *final(self) == *old(self),
            final(self).wf(),
    {
        if hm_len(&self.headers) < HEADER_CAP {
            let ghost m0 = hm_model(self.headers);
            hm_insert(&mut self.headers, name, value);
            proof {
                let k = hn_chars(*name);
                let m1 = hm_model(self.headers);
                assert forall|k2: Seq<char>, i: int|
                    m1.contains_key(k2) && 0 <= i < m1[k2].len() implies valid_header_value(
                    #[trigger] m1[k2][i],
                ) by {
                    if k2 == k {
                        assert(m1[k] == seq![value@]);
                    } else {
                        assert(m1[k2] == m0[k2]);
                    }
                }
            }
            true
        } else {
            false
        }
    }

    /// Drop `name` and every value stored under it.
    pub fn remove_header(&mut self, name: &http::header::HeaderName)
        requires
            old(self).wf(),
        ensures
            final(self).model() == (HeadModel {
                headers: old(self).model().headers.remove(hn_chars(*name)),
                ..old(self).model()
            }),
            final(self).hdr_count() == old(self).hdr_count() - (if old(
                self,
            ).model().headers.contains_key(hn_chars(*name)) {
                old(self).model().headers[hn_chars(*name)].len()
            } else {
                0
            }),
            final(self).wf(),
    {
        let ghost m0 = hm_model(self.headers);
        hm_remove(&mut self.headers, name);
        proof {
            let k = hn_chars(*name);
            let m1 = hm_model(self.headers);
            assert forall|k2: Seq<char>, i: int|
                m1.contains_key(k2) && 0 <= i < m1[k2].len() implies valid_header_value(
                #[trigger] m1[k2][i],
            ) by {
                assert(m1[k2] == m0[k2]);
            }
        }
    }
}

} // verus!
