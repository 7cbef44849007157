//! The body a request carries: either a fully materialized buffer or a
//! descriptor of a chunked stream whose bytes are produced elsewhere.

use vstd::prelude::*;

verus! {

/// The size hint of a chunked stream: a lower bound and an optional upper
/// bound on the number of bytes it will produce, fixed at construction.
#[derive(Clone, Copy, Debug, PartialEq, Eq, Structural)]
pub struct SizeHint {
    pub lower: usize,
    pub upper: Option<usize>,
}

impl SizeHint {
    /// The hint of a fully materialized buffer of `n` bytes: exactly `n`.
    pub fn exact(n: usize) -> (r: SizeHint)
        ensures
            r.lower == n,
            r.upper == Some(n),
    {
        SizeHint { lower: n, upper: Some(n) }
    }

    /// The hint used when a caller supplies a known total out of band: no
    /// lower bound, `n` as the upper bound.
    pub fn bounded(n: usize) -> (r: SizeHint)
        ensures
            r.lower == 0,
            r.upper == Some(n),
    {
        SizeHint { lower: 0, upper: Some(n) }
    }
}

/// A request body: a single buffer sent in one piece, or a chunked stream,
/// of which the signing layer sees only the size hint.
pub enum Payload {
    /// The payload is this buffer.
    Buffer(Vec<u8>),
    /// The payload is a chunked stream with this size hint; its bytes live
    /// with the transport layer.
    Stream(SizeHint),
}

/// The byte count a payload contributes to `content-length`: a buffer's
/// exact length; a stream's upper bound, if it has one.
pub open spec fn spec_payload_len(p: Payload) -> Option<usize> {
    match p {
        Payload::Buffer(b) => Some(b@.len() as usize),
        Payload::Stream(h) => h.upper,
    }
}

impl Payload {
    /// The byte count this payload reports, when one is known.
    pub fn len(&self) -> (r: Option<usize>)
        ensures
            r == spec_payload_len(*self),
    {
        match self {
            Payload::Buffer(b) => Some(b.len()),
            Payload::Stream(h) => h.upper,
        }
    }
}

impl Default for Payload {
    /// The default payload is an empty buffer.
    fn default() -> (r: Payload)
        ensures
            r is Buffer && r->Buffer_0@ == Seq::<u8>::empty(),
    {
        let r = Payload::Buffer(Vec::new());
        proof {
            assert(r->Buffer_0@ =~= Seq::<u8>::empty());
        }
        r
    }
}

} // verus!
