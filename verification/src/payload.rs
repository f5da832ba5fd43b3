//! The closed body abstraction: no payload, a fixed byte buffer, or a
//! lazily produced stream of byte chunks, under one pull interface.
use vstd::prelude::*;

use crate::error::Error;
use futures::FutureExt;
use futures::StreamExt;
use vstd::string::StringSliceAdditionalSpecFns;
use vstd::string::StrSliceExecFns;

verus! {

#[verifier::external_type_specification]
#[verifier::external_body]
pub struct ExBytes(bytes::Bytes);

#[verifier::external_type_specification]
#[verifier::external_body]
pub struct ExBytesMut(bytes::BytesMut);

/// The bytes a fixed buffer holds.
pub uninterp spec fn bytes_contents(b: bytes::Bytes) -> Seq<u8>;

/// The bytes a mutable buffer holds.
pub uninterp spec fn bytesmut_contents(b: bytes::BytesMut) -> Seq<u8>;

/// Relies on `<bytes::Bytes as From<Vec<u8>>>::from`: the buffer holds
/// exactly the bytes of the vector.
#[verifier::external_body]
pub fn bytes_from_vec(v: Vec<u8>) -> (b: bytes::Bytes)
    ensures
        bytes_contents(b) == v@,
{
    bytes::Bytes::from(v)
}

/// Relies on `bytes::Bytes::len`.
#[verifier::external_body]
pub fn bytes_len(b: &bytes::Bytes) -> (n: usize)
    ensures
        n == bytes_contents(*b).len(),
{
    b.len()
}

/// Relies on `<bytes::Bytes as AsRef<[u8]>>::as_ref`: a view of exactly the
/// held bytes.
#[verifier::external_body]
pub fn bytes_slice(b: &bytes::Bytes) -> (s: &[u8])
    ensures
        s@ == bytes_contents(*b),
{
    b.as_ref()
}

/// Relies on `bytes::BytesMut::freeze`: the frozen buffer holds the same
/// bytes.
#[verifier::external_body]
pub fn bytes_freeze(b: bytes::BytesMut) -> (r: bytes::Bytes)
    ensures
        bytes_contents(r) == bytesmut_contents(b),
{
    b.freeze()
}

/// A single-consumption, not restartable sequence of byte chunks, produced
/// lazily by a stream the caller supplied.  The stream is a lazy collection
/// whose type the verifier cannot carry directly, so it sits in a hidden
/// field and is reached only through `stream_payload` and `poll_stream`.
#[verifier::external_body]
pub struct StreamPayload {
    inner: futures::stream::BoxStream<'static, Result<bytes::Bytes, Error>>,
}

/// One step of pulling a body: a chunk, the end, not ready yet, or a
/// per-chunk fault.
pub enum ChunkStep {
    Data(bytes::Bytes),
    End,
    Pending,
    Failed(Error),
}

/// Relies on boxing a `futures::Stream`: the payload stores the caller's
/// stream and nothing else; no chunk is pulled here.
#[verifier::external_body]
pub fn stream_payload<S>(s: S) -> StreamPayload where
    S: futures::Stream<Item = Result<bytes::Bytes, Error>> + Send + 'static,
 {
    StreamPayload { inner: Box::pin(s) }
}

/// Relies on `futures::StreamExt::next` driven once without waiting: the
/// stream's next outcome if it is immediately ready.  What comes back
/// depends on the stream alone; nothing is promised of it.
#[verifier::external_body]
pub fn poll_stream(p: &mut StreamPayload) -> ChunkStep {
    match p.inner.next().now_or_never() {
        None => ChunkStep::Pending,
        Some(None) => ChunkStep::End,
        Some(Some(Ok(b))) => ChunkStep::Data(b),
        Some(Some(Err(e))) => ChunkStep::Failed(e),
    }
}

/// A response payload source: exactly one variant is active at a time.
pub enum Body {
    /// No payload.
    Empty,
    /// A fixed, fully available byte buffer.
    Sized(bytes::Bytes),
    /// A lazily produced, single-consumption chunk sequence.
    Streaming(StreamPayload),
}

/// The mathematical shape of a `Body`: the fixed variants carry their
/// bytes; a streaming payload is carried as the opaque value itself.
pub ghost enum BodyModel {
    Empty,
    Sized(Seq<u8>),
    Streaming(StreamPayload),
}

/// What the writing layer selects a transfer encoding from: a known byte
/// count, or an unknown length to be sent chunked.
#[derive(Clone, Copy, PartialEq, Eq, Structural, Debug)]
pub enum BodySize {
    /// Known zero length and no payload at all.
    Empty,
    /// Known byte count.
    Sized(usize),
    /// Unknown length: a streaming payload.
    Stream,
}

impl Body {
    /// The mathematical shape of this body.
    pub open spec fn model(self) -> BodyModel {
        match self {
            Body::Empty => BodyModel::Empty,
            Body::Sized(b) => BodyModel::Sized(bytes_contents(b)),
            Body::Streaming(p) => BodyModel::Streaming(p),
        }
    }

    /// A fixed body over the given bytes.
    pub fn from_bytes_vec(v: Vec<u8>) -> (b: Body)
        ensures
            b.model() == BodyModel::Sized(v@),
    {
        Body::Sized(bytes_from_vec(v))
    }

    /// A fixed body over the UTF-8 bytes of the given text.
    pub fn from_text(s: &str) -> (b: Body)
        ensures
            b.model() == BodyModel::Sized(s.spec_bytes()),
    {
        Body::Sized(bytes_from_vec(s.as_bytes_vec()))
    }

    /// The length the writing layer announces: the byte count where it is
    /// known, unknown-chunked for a streaming payload.
    pub fn length(&self) -> (r: BodySize)
        ensures
            match self.model() {
                BodyModel::Empty => r == BodySize::Empty,
                BodyModel::Sized(s) => r == BodySize::Sized(s.len() as usize),
                BodyModel::Streaming(_) => r == BodySize::Stream,
            },
    {
        match self {
            Body::Empty => BodySize::Empty,
            Body::Sized(b) => BodySize::Sized(bytes_len(b)),
            Body::Streaming(_) => BodySize::Stream,
        }
    }

    /// Pull the next chunk.  A fixed buffer is handed out whole and the
    /// body becomes `Empty`; an empty body always answers `End`; what a
    /// streaming payload answers depends on the stream alone.
    pub fn next_chunk(&mut self) -> (r: ChunkStep)
        ensures
            old(self).model() matches BodyModel::Empty ==> r matches ChunkStep::End,
            old(self).model() matches BodyModel::Empty ==> final(self).model() matches
                BodyModel::Empty,
            old(self).model() matches BodyModel::Sized(s) ==> r matches ChunkStep::Data(b)
                && bytes_contents(b) == s,
            old(self).model() matches BodyModel::Sized(_) ==> final(self).model() matches
                BodyModel::Empty,
            old(self).model() matches BodyModel::Streaming(_) ==> final(self).model() matches
                BodyModel::Streaming(_),
    {
        let mut taken = Body::Empty;
        core::mem::swap(self, &mut taken);
        match taken {
            Body::Empty => ChunkStep::End,
            Body::Sized(b) => ChunkStep::Data(b),
            Body::Streaming(mut p) => {
                let r = poll_stream(&mut p);
                *self = Body::Streaming(p);
                r
            },
        }
    }
}

} // verus!
