//! The request model: the pieces of one logical call, accumulated until the
//! signer and the transport layer consume them.

use vstd::prelude::*;
use vstd::string::{StrSliceExecFns, StringExecFns};

use crate::errors::{Error, Kind};
use crate::headers::HeaderMap;
use crate::params::Params;
use crate::payload::{spec_payload_len, Payload};
use crate::schema::Schema;
use crate::strmap::{spec_insert, SortedMap};
use crate::text::{is_prefix, lower_chars, str_starts_with, valid_header_name,
    valid_header_value};

verus! {

/// The HTTP verb of a request: the closed set this API uses.
#[derive(Clone, Copy, Debug, PartialEq, Eq, Structural)]
pub enum Method {
    Get,
    Put,
    Head,
    Delete,
}

/// The verb's wire text.
pub open spec fn method_chars(m: Method) -> Seq<char> {
    match m {
        Method::Get => "GET"@,
        Method::Put => "PUT"@,
        Method::Head => "HEAD"@,
        Method::Delete => "DELETE"@,
    }
}

impl Method {
    /// The verb as it appears on the wire and in the signing string.
    pub fn as_str(&self) -> (r: &'static str)
        ensures
            r@ == method_chars(*self),
    {
        match self {
            Method::Get => "GET",
            Method::Put => "PUT",
            Method::Head => "HEAD",
            Method::Delete => "DELETE",
        }
    }
}

/// Caller-supplied object metadata: an ordered map from metadata key to
/// value. Each entry becomes a vendor-prefixed header.
pub type Metas = SortedMap<String>;

/// The fixed vendor prefix of metadata header names.
pub open spec fn oss_meta_prefix() -> Seq<char> {
    "x-oss-meta-"@
}

/// The header name a metadata key maps to: the key itself when it already
/// carries the vendor metadata prefix, otherwise the prefixed key.
pub open spec fn meta_header_name(k: Seq<char>) -> Seq<char> {
    if is_prefix(oss_meta_prefix(), k) {
        k
    } else {
        oss_meta_prefix() + k
    }
}

/// A metadata entry that can be inserted: its (lower-cased, prefixed) header
/// name and its value are legal header syntax.
pub open spec fn meta_entry_ok(e: (Seq<char>, Seq<char>)) -> bool {
    valid_header_name(lower_chars(meta_header_name(e.0))) && valid_header_value(e.1)
}

/// Every metadata entry can be inserted.
pub open spec fn metas_ok(metas: Seq<(Seq<char>, Seq<char>)>) -> bool {
    forall|i: int| 0 <= i < metas.len() ==> meta_entry_ok(#[trigger] metas[i])
}

/// The header map after the metadata entries are folded in, in order,
/// stopping at the first entry that is not legal header syntax.
pub open spec fn apply_metas(
    h: Seq<(Seq<char>, Seq<char>)>,
    metas: Seq<(Seq<char>, Seq<char>)>,
) -> Seq<(Seq<char>, Seq<char>)>
    decreases metas.len(),
{
    if metas.len() == 0 {
        h
    } else if meta_entry_ok(metas[0]) {
        apply_metas(
            spec_insert(h, lower_chars(meta_header_name(metas[0].0)), metas[0].1),
            metas.drop_first(),
        )
    } else {
        h
    }
}

/// Folding in one more entry after an all-legal prefix inserts it at the
/// end of the fold.
proof fn lemma_apply_metas_append_one(
    h: Seq<(Seq<char>, Seq<char>)>,
    metas: Seq<(Seq<char>, Seq<char>)>,
    e: (Seq<char>, Seq<char>),
)
    requires
        metas_ok(metas),
    ensures
        meta_entry_ok(e) ==> apply_metas(h, metas + seq![e]) == spec_insert(
            apply_metas(h, metas),
            lower_chars(meta_header_name(e.0)),
            e.1,
        ),
        !meta_entry_ok(e) ==> apply_metas(h, metas + seq![e]) == apply_metas(h, metas),
    decreases metas.len(),
{
    if metas.len() == 0 {
        assert(metas + seq![e] =~= seq![e]);
        assert(apply_metas(h, metas) == h);
        assert(seq![e][0] == e);
        if meta_entry_ok(e) {
            let h2 = spec_insert(h, lower_chars(meta_header_name(e.0)), e.1);
            assert(seq![e].drop_first() =~= Seq::<(Seq<char>, Seq<char>)>::empty());
            assert(apply_metas(h2, seq![e].drop_first()) == h2);
        }
    } else {
        assert((metas + seq![e])[0] == metas[0]);
        assert(meta_entry_ok(metas[0]));
        assert((metas + seq![e]).drop_first() =~= metas.drop_first() + seq![e]);
        assert forall|i: int| 0 <= i < metas.drop_first().len() implies meta_entry_ok(
            #[trigger] metas.drop_first()[i],
        ) by {
            assert(metas.drop_first()[i] == metas[i + 1]);
        }
        lemma_apply_metas_append_one(
            spec_insert(h, lower_chars(meta_header_name(metas[0].0)), metas[0].1),
            metas.drop_first(),
            e,
        );
    }
}

/// One logical call: verb, addressed resource, scheme, body, query
/// parameters and headers, accumulated until the request is signed and
/// handed to the transport.
pub struct Request {
    /// The HTTP verb.
    pub method: Method,
    /// The bucket containing the object.
    pub bucket: Option<String>,
    /// The key of the object to handle.
    pub object: Option<String>,
    /// The transport scheme.
    pub schema: Schema,
    /// The body, taken out exactly once when the request is dispatched.
    pub payload: Option<Payload>,
    /// The query parameters.
    pub params: Params,
    /// The headers, grown in place by the options layer and the signer.
    pub headers: HeaderMap,
}

/// The `content-length` a request reports: its payload's known byte count,
/// or zero when there is no payload or no known count.
pub open spec fn spec_content_length(p: Option<Payload>) -> usize {
    match p {
        Some(payload) => match spec_payload_len(payload) {
            Some(n) => n,
            None => 0,
        },
        None => 0,
    }
}

impl Request {
    /// The parts a well-formed request keeps ordered and legal.
    pub open spec fn wf(&self) -> bool {
        self.params.wf() && self.headers.wf()
    }

    /// Assembles a request; absent parameter or header maps default to
    /// empty ones.
    pub fn new(
        method: Method,
        bucket: Option<String>,
        object: Option<String>,
        schema: Schema,
        payload: Option<Payload>,
        params: Option<Params>,
        headers: Option<HeaderMap>,
    ) -> (r: Request)
        requires
            match params {
                Some(p) => p.wf(),
                None => true,
            },
            match headers {
                Some(h) => h.wf(),
                None => true,
            },
        ensures
            r.method == method,
            r.bucket == bucket,
            r.object == object,
            r.schema == schema,
            r.payload == payload,
            r.params@ == match params {
                Some(p) => p@,
                None => Seq::<(Seq<char>, Option<Seq<char>>)>::empty(),
            },
            r.headers@ == match headers {
                Some(h) => h@,
                None => Seq::<(Seq<char>, Seq<char>)>::empty(),
            },
            r.wf(),
    {
        let params = match params {
            Some(p) => p,
            None => Params::new(),
        };
        let headers = match headers {
            Some(h) => h,
            None => HeaderMap::new(),
        };
        Request { method, bucket, object, schema, payload, params, headers }
    }

    /// The request's headers.
    pub fn headers(&self) -> (r: &HeaderMap)
        ensures
            r@ == self.headers@,
    {
        &self.headers
    }

    /// The request's verb.
    pub fn get_method(&self) -> (r: Method)
        ensures
            r == self.method,
    {
        self.method
    }

    /// The key of the object the request addresses.
    pub fn get_object(&self) -> (r: Option<&str>)
        ensures
            r.deep_view() == self.object.deep_view(),
    {
        match &self.object {
            Some(o) => Some(o.as_str()),
            None => None,
        }
    }

    /// The request's query parameters.
    pub fn get_params(&self) -> (r: &Params)
        ensures
            r@ == self.params@,
    {
        &self.params
    }

    /// The `content-length` the request will report.
    pub fn content_length(&self) -> (r: usize)
        ensures
            r == spec_content_length(self.payload),
    {
        match &self.payload {
            Some(payload) => match payload.len() {
                Some(n) => n,
                None => 0,
            },
            None => 0,
        }
    }

    /// Moves the payload out. It can be taken exactly once: a later call
    /// yields an empty default buffer, never an error.
    pub fn take_payload(&mut self) -> (r: Payload)
        ensures
            final(self).payload is None,
            final(self).method == old(self).method,
            final(self).bucket == old(self).bucket,
            final(self).object == old(self).object,
            final(self).schema == old(self).schema,
            final(self).params == old(self).params,
            final(self).headers == old(self).headers,
            match old(self).payload {
                Some(p) => r == p,
                None => r is Buffer && r->Buffer_0@ == Seq::<u8>::empty(),
            },
    {
        let p = self.payload.take();
        match p {
            Some(payload) => payload,
            None => Payload::default(),
        }
    }

    /// Consumes the request, keeping its headers.
    pub fn into_headers(self) -> (r: HeaderMap)
        ensures
            r@ == self.headers@,
    {
        self.headers
    }

    /// Folds caller metadata into the headers: each key is given the vendor
    /// metadata prefix unless it already carries it, and inserted with its
    /// value. An entry that does not form legal header syntax aborts the
    /// fold with an error; earlier entries remain inserted.
    pub fn add_metas(&mut self, metas: Option<&Metas>) -> (r: Result<(), Error>)
        requires
            old(self).wf(),
        ensures
            final(self).wf(),
            final(self).method == old(self).method,
            final(self).bucket == old(self).bucket,
            final(self).object == old(self).object,
            final(self).schema == old(self).schema,
            final(self).params == old(self).params,
            final(self).payload == old(self).payload,
            final(self).headers@ == match metas {
                Some(m) => apply_metas(old(self).headers@, m@),
                None => old(self).headers@,
            },
            match r {
                Ok(()) => match metas {
                    Some(m) => metas_ok(m@),
                    None => true,
                },
                Err(e) => metas is Some && !metas_ok(metas->0@) && e.kind == Kind::InvalidHeader,
            },
    {
        let ms = match metas {
            Some(m) => m,
            None => {
                return Ok(());
            },
        };
        let n = ms.len();
        let mut i: usize = 0;
        proof {
            assert(ms@.take(0) =~= Seq::<(Seq<char>, Seq<char>)>::empty());
        }
        while i < n
            invariant
                metas == Some(ms),
                self.wf(),
                n == ms@.len(),
                i <= n,
                metas_ok(ms@.take(i as int)),
                self.headers@ == apply_metas(old(self).headers@, ms@.take(i as int)),
                self.method == old(self).method,
                self.bucket == old(self).bucket,
                self.object == old(self).object,
                self.schema == old(self).schema,
                self.params == old(self).params,
                self.payload == old(self).payload,
            decreases n - i,
        {
            let ghost done = ms@.take(i as int);
            let ghost cur = ms@[i as int];
            proof {
                assert(ms@.take(i + 1) =~= done + seq![cur]);
                lemma_apply_metas_append_one(old(self).headers@, done, cur);
            }
            let e = ms.entry_at(i);
            let name = if str_starts_with(e.0.as_str(), "x-oss-meta-") {
                let n2 = e.0.clone();
                n2
            } else {
                let mut n2 = String::from_str("x-oss-meta-");
                n2.append(e.0.as_str());
                n2
            };
            assert(name@ == meta_header_name(cur.0));
            match self.headers.insert(name.as_str(), e.1.as_str()) {
                Ok(()) => {
                    proof {
                        assert forall|j: int| 0 <= j < i + 1 implies meta_entry_ok(
                            #[trigger] ms@.take(i + 1)[j],
                        ) by {
                            if j < i {
                                assert(ms@.take(i + 1)[j] == done[j]);
                            } else {
                                assert(ms@.take(i + 1)[j] == cur);
                            }
                        }
                    }
                },
                Err(err) => {
                    proof {
                        assert(!meta_entry_ok(cur));
                        assert(!metas_ok(ms@)) by {
                            assert(ms@[i as int] == cur);
                        }
                        assert(apply_metas(old(self).headers@, ms@.take(i + 1)) == self.headers@);
                        lemma_apply_metas_stops(old(self).headers@, ms@, i as int);
                    }
                    return Err(err);
                },
            }
            i += 1;
        }
        proof {
            assert(ms@.take(n as int) =~= ms@);
        }
        Ok(())
    }
}

/// Once the fold hits an illegal entry at position `i`, the remaining
/// entries change nothing: the fold of the whole list equals the fold of
/// the first `i` entries.
proof fn lemma_apply_metas_stops(
    h: Seq<(Seq<char>, Seq<char>)>,
    metas: Seq<(Seq<char>, Seq<char>)>,
    i: int,
)
    requires
        0 <= i < metas.len(),
        metas_ok(metas.take(i)),
        !meta_entry_ok(metas[i]),
    ensures
        apply_metas(h, metas) == apply_metas(h, metas.take(i)),
    decreases i,
{
    if i == 0 {
        assert(metas.take(0) =~= Seq::<(Seq<char>, Seq<char>)>::empty());
        assert(!meta_entry_ok(metas[0]));
    } else {
        assert(meta_entry_ok(metas.take(i)[0]));
        assert(metas.take(i)[0] == metas[0]);
        let h2 = spec_insert(h, lower_chars(meta_header_name(metas[0].0)), metas[0].1);
        assert forall|j: int| 0 <= j < metas.drop_first().take(i - 1).len() implies meta_entry_ok(
            #[trigger] metas.drop_first().take(i - 1)[j],
        ) by {
            assert(metas.drop_first().take(i - 1)[j] == metas[j + 1]);
            assert(metas.take(i)[j + 1] == metas[j + 1]);
        }
        assert(metas.drop_first()[i - 1] == metas[i]);
        lemma_apply_metas_stops(h2, metas.drop_first(), i - 1);
        assert(metas.drop_first().take(i - 1) =~= metas.take(i).drop_first());
    }
}

} // verus!
