//! Canonical-resource construction and request signing.
//!
//! The canonical resource is the normalized path-plus-query text that the
//! signature is computed over: `/bucket/object` (degenerating to `/` when
//! both parts are absent) followed by the recognized sub-resource query
//! parameters in ascending key order.

use vstd::prelude::*;
use vstd::string::{StrSliceExecFns, StringExecFns};

use crate::errors::{Error, Kind};
use crate::headers::HeaderMap;
use crate::oss::OSSClient;
use crate::params::Params;
use crate::request::{method_chars, Method, Request};
use crate::strmap::{spec_get, spec_insert};
use crate::text::{is_prefix, lower_chars, push_char, str_eq, str_starts_with,
    valid_header_name, valid_header_value};

verus! {

/// A query-parameter key from the fixed allow-list of sub-resource names.
/// Only these participate in the canonical resource.
pub open spec fn is_sub_resource(k: Seq<char>) -> bool {
    ||| k == "acl"@
    ||| k == "uploads"@
    ||| k == "location"@
    ||| k == "cors"@
    ||| k == "logging"@
    ||| k == "website"@
    ||| k == "referer"@
    ||| k == "lifecycle"@
    ||| k == "delete"@
    ||| k == "append"@
    ||| k == "tagging"@
    ||| k == "objectMeta"@
    ||| k == "uploadId"@
    ||| k == "partNumber"@
    ||| k == "security-token"@
    ||| k == "position"@
    ||| k == "img"@
    ||| k == "style"@
    ||| k == "styleName"@
    ||| k == "replication"@
    ||| k == "replicationProgress"@
    ||| k == "replicationLocation"@
    ||| k == "cname"@
    ||| k == "bucketInfo"@
    ||| k == "comp"@
    ||| k == "qos"@
    ||| k == "live"@
    ||| k == "status"@
    ||| k == "vod"@
    ||| k == "startTime"@
    ||| k == "endTime"@
    ||| k == "symlink"@
    ||| k == "x-oss-process"@
    ||| k == "response-content-type"@
    ||| k == "response-content-language"@
    ||| k == "response-expires"@
    ||| k == "response-cache-control"@
    ||| k == "response-content-disposition"@
    ||| k == "response-content-encoding"@
    ||| k == "udf"@
    ||| k == "udfName"@
    ||| k == "udfImage"@
    ||| k == "udfId"@
    ||| k == "udfImageDesc"@
    ||| k == "udfApplication"@
    ||| k == "udfApplicationLog"@
    ||| k == "restore"@
    ||| k == "callback"@
    ||| k == "callback-var"@
    ||| k == "continuation-token"@
}

/// Decides [`is_sub_resource`] for a string key.
pub fn is_sub_resource_name(k: &str) -> (r: bool)
    ensures
        r == is_sub_resource(k@),
{
    str_eq(k, "acl") || str_eq(k, "uploads") || str_eq(k, "location") || str_eq(k, "cors")
        || str_eq(k, "logging") || str_eq(k, "website") || str_eq(k, "referer") || str_eq(
        k,
        "lifecycle",
    ) || str_eq(k, "delete") || str_eq(k, "append") || str_eq(k, "tagging") || str_eq(
        k,
        "objectMeta",
    ) || str_eq(k, "uploadId") || str_eq(k, "partNumber") || str_eq(k, "security-token")
        || str_eq(k, "position") || str_eq(k, "img") || str_eq(k, "style") || str_eq(
        k,
        "styleName",
    ) || str_eq(k, "replication") || str_eq(k, "replicationProgress") || str_eq(
        k,
        "replicationLocation",
    ) || str_eq(k, "cname") || str_eq(k, "bucketInfo") || str_eq(k, "comp") || str_eq(k, "qos")
        || str_eq(k, "live") || str_eq(k, "status") || str_eq(k, "vod") || str_eq(k, "startTime")
        || str_eq(k, "endTime") || str_eq(k, "symlink") || str_eq(k, "x-oss-process") || str_eq(
        k,
        "response-content-type",
    ) || str_eq(k, "response-content-language") || str_eq(k, "response-expires") || str_eq(
        k,
        "response-cache-control",
    ) || str_eq(k, "response-content-disposition") || str_eq(k, "response-content-encoding")
        || str_eq(k, "udf") || str_eq(k, "udfName") || str_eq(k, "udfImage") || str_eq(k, "udfId")
        || str_eq(k, "udfImageDesc") || str_eq(k, "udfApplication") || str_eq(
        k,
        "udfApplicationLog",
    ) || str_eq(k, "restore") || str_eq(k, "callback") || str_eq(k, "callback-var") || str_eq(
        k,
        "continuation-token",
    )
}

/// The sub-resource entries of a parameter list, in their original order.
pub open spec fn sub_resource_entries(s: Seq<(Seq<char>, Option<Seq<char>>)>) -> Seq<
    (Seq<char>, Option<Seq<char>>),
>
    decreases s.len(),
{
    if s.len() == 0 {
        Seq::empty()
    } else if is_sub_resource(s[0].0) {
        seq![s[0]] + sub_resource_entries(s.drop_first())
    } else {
        sub_resource_entries(s.drop_first())
    }
}

/// Filtering distributes over concatenation.
pub proof fn lemma_sub_entries_append(
    a: Seq<(Seq<char>, Option<Seq<char>>)>,
    b: Seq<(Seq<char>, Option<Seq<char>>)>,
)
    ensures
        sub_resource_entries(a + b) == sub_resource_entries(a) + sub_resource_entries(b),
    decreases a.len(),
{
    if a.len() == 0 {
        assert(a + b =~= b);
        assert(sub_resource_entries(a) + sub_resource_entries(b) =~= sub_resource_entries(b));
    } else {
        assert((a + b).drop_first() =~= a.drop_first() + b);
        lemma_sub_entries_append(a.drop_first(), b);
        assert((a + b)[0] == a[0]);
        if is_sub_resource(a[0].0) {
            assert(seq![a[0]] + (sub_resource_entries(a.drop_first()) + sub_resource_entries(b))
                =~= (seq![a[0]] + sub_resource_entries(a.drop_first())) + sub_resource_entries(b));
        }
    }
}

/// One rendered query entry: `key=value`, or the bare key when the value is
/// absent.
pub open spec fn render_entry(e: (Seq<char>, Option<Seq<char>>)) -> Seq<char> {
    match e.1 {
        Some(v) => e.0 + seq!['='] + v,
        None => e.0,
    }
}

/// The entries after the first, each prefixed with `&`.
pub open spec fn render_rest(s: Seq<(Seq<char>, Option<Seq<char>>)>) -> Seq<char>
    decreases s.len(),
{
    if s.len() == 0 {
        Seq::empty()
    } else {
        seq!['&'] + render_entry(s[0]) + render_rest(s.drop_first())
    }
}

/// The rendered query string: empty for no entries, otherwise `?` then the
/// entries joined with `&`.
pub open spec fn render_query(s: Seq<(Seq<char>, Option<Seq<char>>)>) -> Seq<char> {
    if s.len() == 0 {
        Seq::empty()
    } else {
        seq!['?'] + render_entry(s[0]) + render_rest(s.drop_first())
    }
}

proof fn lemma_render_rest_append_one(
    s: Seq<(Seq<char>, Option<Seq<char>>)>,
    e: (Seq<char>, Option<Seq<char>>),
)
    ensures
        render_rest(s + seq![e]) == render_rest(s) + (seq!['&'] + render_entry(e)),
    decreases s.len(),
{
    if s.len() == 0 {
        assert(s + seq![e] =~= seq![e]);
        assert(render_rest(Seq::<(Seq<char>, Option<Seq<char>>)>::empty()) == Seq::<
            char,
        >::empty());
        assert(seq![e].drop_first() =~= Seq::<(Seq<char>, Option<Seq<char>>)>::empty());
        assert(render_rest(seq![e]) =~= seq!['&'] + render_entry(e));
        assert(render_rest(s) + (seq!['&'] + render_entry(e)) =~= seq!['&'] + render_entry(e));
    } else {
        assert((s + seq![e]).drop_first() =~= s.drop_first() + seq![e]);
        lemma_render_rest_append_one(s.drop_first(), e);
        assert((s + seq![e])[0] == s[0]);
        assert(seq!['&'] + render_entry(s[0]) + (render_rest(s.drop_first()) + (seq!['&']
            + render_entry(e))) =~= (seq!['&'] + render_entry(s[0]) + render_rest(s.drop_first()))
            + (seq!['&'] + render_entry(e)));
    }
}

/// Appending an entry extends the rendered query: the first entry brings the
/// `?`, every later one a `&`.
pub proof fn lemma_render_query_append_one(
    s: Seq<(Seq<char>, Option<Seq<char>>)>,
    e: (Seq<char>, Option<Seq<char>>),
)
    ensures
        s.len() == 0 ==> render_query(s + seq![e]) == seq!['?'] + render_entry(e),
        s.len() > 0 ==> render_query(s + seq![e]) == render_query(s) + (seq!['&'] + render_entry(
            e,
        )),
{
    if s.len() == 0 {
        assert(s + seq![e] =~= seq![e]);
        assert(render_rest(Seq::<(Seq<char>, Option<Seq<char>>)>::empty()) == Seq::<
            char,
        >::empty());
        assert(seq![e].drop_first() =~= Seq::<(Seq<char>, Option<Seq<char>>)>::empty());
        assert(render_query(seq![e]) =~= seq!['?'] + render_entry(e));
    } else {
        assert((s + seq![e]).drop_first() =~= s.drop_first() + seq![e]);
        assert((s + seq![e])[0] == s[0]);
        lemma_render_rest_append_one(s.drop_first(), e);
        assert(seq!['?'] + render_entry(s[0]) + (render_rest(s.drop_first()) + (seq!['&']
            + render_entry(e))) =~= (seq!['?'] + render_entry(s[0]) + render_rest(s.drop_first()))
            + (seq!['&'] + render_entry(e)));
    }
}

/// The canonical path: `/bucket`, then `/object`, for whichever parts are
/// present; bare `/` when both are absent.
pub open spec fn canonical_path(bucket: Option<Seq<char>>, object: Option<Seq<char>>) -> Seq<
    char,
> {
    let p = (match bucket {
        Some(b) => seq!['/'] + b,
        None => Seq::<char>::empty(),
    }) + (match object {
        Some(o) => seq!['/'] + o,
        None => Seq::<char>::empty(),
    });
    if p.len() == 0 {
        seq!['/']
    } else {
        p
    }
}

/// The canonical resource: the canonical path followed by the rendered
/// sub-resource query entries, in the (ascending) order the parameter list
/// holds them.
pub open spec fn canonical_resource(
    bucket: Option<Seq<char>>,
    object: Option<Seq<char>>,
    params: Seq<(Seq<char>, Option<Seq<char>>)>,
) -> Seq<char> {
    canonical_path(bucket, object) + render_query(sub_resource_entries(params))
}

/// Renders the sub-resource entries of `params` as a query string: the
/// allow-listed entries only, in the list's ascending key order, the first
/// prefixed with `?`, the rest joined with `&`, each `key=value` or a bare
/// key.
pub fn get_resources_str(params: &Params) -> (r: String)
    ensures
        r@ == render_query(sub_resource_entries(params@)),
{
    let n = params.len();
    let mut r = String::new();
    let mut i: usize = 0;
    proof {
        assert(params@.take(0) =~= Seq::<(Seq<char>, Option<Seq<char>>)>::empty());
    }
    while i < n
        invariant
            n == params@.len(),
            i <= n,
            r@ == render_query(sub_resource_entries(params@.take(i as int))),
        decreases n - i,
    {
        let ghost pre = sub_resource_entries(params@.take(i as int));
        let ghost cur = params@[i as int];
        proof {
            assert(params@.take(i + 1) =~= params@.take(i as int) + seq![cur]);
            lemma_sub_entries_append(params@.take(i as int), seq![cur]);
            assert(sub_resource_entries(Seq::<(Seq<char>, Option<Seq<char>>)>::empty()) == Seq::<
                (Seq<char>, Option<Seq<char>>),
            >::empty());
            assert(seq![cur].drop_first() =~= Seq::<(Seq<char>, Option<Seq<char>>)>::empty());
            if is_sub_resource(cur.0) {
                assert(sub_resource_entries(seq![cur]) =~= seq![cur]);
            } else {
                assert(sub_resource_entries(seq![cur]) =~= Seq::<
                    (Seq<char>, Option<Seq<char>>),
                >::empty());
            }
        }
        let e = params.entry_at(i);
        if is_sub_resource_name(e.0.as_str()) {
            proof {
                lemma_render_query_append_one(pre, cur);
            }
            if r.as_str().is_empty() {
                assert(pre.len() == 0);
                push_char(&mut r, '?');
            } else {
                assert(pre.len() > 0);
                push_char(&mut r, '&');
            }
            r.append(e.0.as_str());
            match &e.1 {
                Some(v) => {
                    push_char(&mut r, '=');
                    r.append(v.as_str());
                    assert(r@ =~= render_query(sub_resource_entries(params@.take(i + 1))));
                },
                None => {
                    assert(r@ =~= render_query(sub_resource_entries(params@.take(i + 1))));
                },
            }
        } else {
            proof {
                assert(sub_resource_entries(params@.take(i + 1)) =~= pre);
            }
        }
        i += 1;
    }
    proof {
        assert(params@.take(n as int) =~= params@);
    }
    r
}

/// Builds the canonical resource for `bucket`, `object` and the recognized
/// sub-resource entries of `params`.
pub fn canonicalized_resource(bucket: Option<&str>, object: Option<&str>, params: &Params) -> (r:
    String)
    ensures
        r@ == canonical_resource(bucket.deep_view(), object.deep_view(), params@),
{
    let mut r = String::new();
    if let Some(b) = bucket {
        push_char(&mut r, '/');
        r.append(b);
    }
    if let Some(o) = object {
        push_char(&mut r, '/');
        r.append(o);
    }
    if r.as_str().is_empty() {
        push_char(&mut r, '/');
    }
    assert(r@ =~= canonical_path(bucket.deep_view(), object.deep_view()));
    let q = get_resources_str(params);
    r.append(q.as_str());
    r
}


/// The HMAC-SHA1 tag of a message under a key. What it is takes pages to
/// state; it is a function of key and message alone, which is all the
/// signing contracts rely on.
pub uninterp spec fn hmac_sha1_of(key: Seq<u8>, msg: Seq<u8>) -> Seq<u8>;

/// The base64 text of a byte sequence, standard alphabet with padding; a
/// function of its input alone.
pub uninterp spec fn base64_of(bytes: Seq<u8>) -> Seq<char>;

/// A character of the standard base64 alphabet, or its `=` padding.
pub open spec fn is_base64_char(c: char) -> bool {
    ('A' as u32 <= c as u32 && c as u32 <= 'Z' as u32) || ('a' as u32 <= c as u32 && c as u32
        <= 'z' as u32) || ('0' as u32 <= c as u32 && c as u32 <= '9' as u32) || c == '+' || c
        == '/' || c == '='
}

/// Relies on crypto's `Hmac` over `Sha1`: the tag depends on key and
/// message alone and is 20 bytes long, SHA-1's output size.
#[verifier::external_body]
fn hmac_sha1(key: &[u8], msg: &[u8]) -> (r: Vec<u8>)
    ensures
        r@ == hmac_sha1_of(key@, msg@),
        r@.len() == 20,
{
    let mut mac = crypto::hmac::Hmac::new(crypto::sha1::Sha1::new(), key);
    crypto::mac::Mac::input(&mut mac, msg);
    let out = crypto::mac::Mac::result(&mut mac);
    out.code().to_vec()
}

/// Relies on `base64::encode`: the standard alphabet with `=` padding, so
/// every character of the result is a base64 character, and the result
/// depends on the input alone.
#[verifier::external_body]
fn base64_encode(data: &[u8]) -> (r: String)
    ensures
        r@ == base64_of(data@),
        forall|i: int| 0 <= i < r@.len() ==> is_base64_char(#[trigger] r@[i]),
{
    base64::encode(data)
}

/// The signature text for a signing string: the base64 form of the
/// HMAC-SHA1 tag of the string's UTF-8 bytes under the secret's UTF-8
/// bytes.
pub open spec fn signature_chars(secret: Seq<char>, msg: Seq<char>) -> Seq<char> {
    base64_of(hmac_sha1_of(vstd::utf8::encode_utf8(secret), vstd::utf8::encode_utf8(msg)))
}

/// Computes the signature for a signing string. The result is base64 text,
/// hence always legal as part of a header value.
pub fn compute_signature(access_key_secret: &str, signing_string: &str) -> (r: String)
    ensures
        r@ == signature_chars(access_key_secret@, signing_string@),
        valid_header_value(r@),
{
    let digest = hmac_sha1(access_key_secret.as_bytes(), signing_string.as_bytes());
    let r = base64_encode(digest.as_slice());
    proof {
        assert forall|i: int| 0 <= i < r@.len() implies crate::text::is_value_char(
            #[trigger] r@[i],
        ) by {
            assert(is_base64_char(r@[i]));
        }
    }
    r
}

/// Signature determinism: one secret and one signing string always yield
/// one signature text, however often it is computed.
pub proof fn lemma_signature_deterministic(
    secret: Seq<char>,
    msg: Seq<char>,
    r1: Seq<char>,
    r2: Seq<char>,
)
    requires
        r1 == signature_chars(secret, msg),
        r2 == signature_chars(secret, msg),
    ensures
        r1 == r2,
{
}

/// The fixed vendor prefix of the header names that participate in
/// canonicalization.
pub open spec fn oss_prefix() -> Seq<char> {
    "x-oss-"@
}

/// The headers that participate in canonicalization: those whose name
/// carries the vendor prefix, in their original (ascending) order.
pub open spec fn oss_header_entries(s: Seq<(Seq<char>, Seq<char>)>) -> Seq<(Seq<char>, Seq<char>)>
    decreases s.len(),
{
    if s.len() == 0 {
        Seq::empty()
    } else if is_prefix(oss_prefix(), s[0].0) {
        seq![s[0]] + oss_header_entries(s.drop_first())
    } else {
        oss_header_entries(s.drop_first())
    }
}

/// Filtering the vendor headers distributes over concatenation.
pub proof fn lemma_oss_entries_append(
    a: Seq<(Seq<char>, Seq<char>)>,
    b: Seq<(Seq<char>, Seq<char>)>,
)
    ensures
        oss_header_entries(a + b) == oss_header_entries(a) + oss_header_entries(b),
    decreases a.len(),
{
    if a.len() == 0 {
        assert(a + b =~= b);
        assert(oss_header_entries(a) + oss_header_entries(b) =~= oss_header_entries(b));
    } else {
        assert((a + b).drop_first() =~= a.drop_first() + b);
        lemma_oss_entries_append(a.drop_first(), b);
        assert((a + b)[0] == a[0]);
        if is_prefix(oss_prefix(), a[0].0) {
            assert(seq![a[0]] + (oss_header_entries(a.drop_first()) + oss_header_entries(b))
                =~= (seq![a[0]] + oss_header_entries(a.drop_first())) + oss_header_entries(b));
        }
    }
}

/// One canonicalized header line: `name:value` and a newline.
pub open spec fn render_header_line(e: (Seq<char>, Seq<char>)) -> Seq<char> {
    e.0 + seq![':'] + e.1 + seq!['\n']
}

/// The canonicalized header block: the given entries rendered one line
/// each, in order.
pub open spec fn render_oss_headers(s: Seq<(Seq<char>, Seq<char>)>) -> Seq<char>
    decreases s.len(),
{
    if s.len() == 0 {
        Seq::empty()
    } else {
        render_header_line(s[0]) + render_oss_headers(s.drop_first())
    }
}

proof fn lemma_render_oss_headers_append_one(
    s: Seq<(Seq<char>, Seq<char>)>,
    e: (Seq<char>, Seq<char>),
)
    ensures
        render_oss_headers(s + seq![e]) == render_oss_headers(s) + render_header_line(e),
    decreases s.len(),
{
    if s.len() == 0 {
        assert(s + seq![e] =~= seq![e]);
        assert(seq![e].drop_first() =~= Seq::<(Seq<char>, Seq<char>)>::empty());
        assert(render_oss_headers(Seq::<(Seq<char>, Seq<char>)>::empty()) == Seq::<char>::empty());
        assert(render_oss_headers(seq![e]) =~= render_header_line(e));
        assert(render_oss_headers(s) + render_header_line(e) =~= render_header_line(e));
    } else {
        assert((s + seq![e]).drop_first() =~= s.drop_first() + seq![e]);
        assert((s + seq![e])[0] == s[0]);
        lemma_render_oss_headers_append_one(s.drop_first(), e);
        assert(render_header_line(s[0]) + (render_oss_headers(s.drop_first()) + render_header_line(
            e,
        )) =~= (render_header_line(s[0]) + render_oss_headers(s.drop_first()))
            + render_header_line(e));
    }
}

/// Renders the canonicalized header block of `headers`: every header whose
/// name carries the vendor prefix, one `name:value` line each, in the
/// map's ascending name order.
pub fn oss_canonical_headers(headers: &HeaderMap) -> (r: String)
    ensures
        r@ == render_oss_headers(oss_header_entries(headers@)),
{
    let n = headers.len();
    let mut r = String::new();
    let mut i: usize = 0;
    proof {
        assert(headers@.take(0) =~= Seq::<(Seq<char>, Seq<char>)>::empty());
    }
    while i < n
        invariant
            n == headers@.len(),
            i <= n,
            r@ == render_oss_headers(oss_header_entries(headers@.take(i as int))),
        decreases n - i,
    {
        let ghost pre = oss_header_entries(headers@.take(i as int));
        let ghost cur = headers@[i as int];
        proof {
            assert(headers@.take(i + 1) =~= headers@.take(i as int) + seq![cur]);
            lemma_oss_entries_append(headers@.take(i as int), seq![cur]);
            assert(oss_header_entries(Seq::<(Seq<char>, Seq<char>)>::empty()) == Seq::<
                (Seq<char>, Seq<char>),
            >::empty());
            assert(seq![cur].drop_first() =~= Seq::<(Seq<char>, Seq<char>)>::empty());
            if is_prefix(oss_prefix(), cur.0) {
                assert(oss_header_entries(seq![cur]) =~= seq![cur]);
            } else {
                assert(oss_header_entries(seq![cur]) =~= Seq::<(Seq<char>, Seq<char>)>::empty());
            }
        }
        let e = headers.entry_at(i);
        if str_starts_with(e.0.as_str(), "x-oss-") {
            proof {
                lemma_render_oss_headers_append_one(pre, cur);
            }
            r.append(e.0.as_str());
            push_char(&mut r, ':');
            r.append(e.1.as_str());
            push_char(&mut r, '\n');
            assert(r@ =~= render_oss_headers(oss_header_entries(headers@.take(i + 1))));
        } else {
            proof {
                assert(oss_header_entries(headers@.take(i + 1)) =~= pre);
            }
        }
        i += 1;
    }
    proof {
        assert(headers@.take(n as int) =~= headers@);
    }
    r
}


/// Relies on chrono's `Utc::now`, formatted as `%a, %d %b %Y %T GMT`
/// (RFC-1123, GMT). The result depends on the clock, so nothing is assumed
/// of it; the signer validates it like any caller-supplied header value.
#[verifier::external_body]
fn now_rfc1123_gmt() -> (r: String) {
    chrono::Utc::now().format("%a, %d %b %Y %T GMT").to_string()
}

/// The value of the header named `name`, or the empty string when the
/// header is absent.
pub open spec fn header_or_empty(h: Seq<(Seq<char>, Seq<char>)>, name: Seq<char>) -> Seq<char> {
    match spec_get(h, name) {
        Some(v) => v,
        None => Seq::empty(),
    }
}

/// The `Content-MD5` field of the signing string: the header's value
/// re-encoded in base64 when present, otherwise empty.
pub open spec fn md5_field(h: Seq<(Seq<char>, Seq<char>)>) -> Seq<char> {
    match spec_get(h, lower_chars("content-md5"@)) {
        Some(v) => base64_of(vstd::utf8::encode_utf8(v)),
        None => Seq::empty(),
    }
}

/// The signing string of a request: verb, `Content-MD5`, `Content-Type` and
/// `Date` fields each on a line of their own (absent ones rendered empty),
/// then the canonicalized header block and the canonical resource.
pub open spec fn signing_string_of(
    method: Method,
    h: Seq<(Seq<char>, Seq<char>)>,
    resource: Seq<char>,
) -> Seq<char> {
    method_chars(method) + seq!['\n'] + md5_field(h) + seq!['\n'] + header_or_empty(
        h,
        lower_chars("content-type"@),
    ) + seq!['\n'] + header_or_empty(h, lower_chars("date"@)) + seq!['\n'] + render_oss_headers(
        oss_header_entries(h),
    ) + resource
}

/// The `Authorization` header value: the key id and the signature.
pub open spec fn auth_header_value(id: Seq<char>, sig: Seq<char>) -> Seq<char> {
    "OSS "@ + id + seq![':'] + sig
}

/// The `Authorization` value a request gets: the signature of its signing
/// string, computed over the headers `h` and the client's bucket and key.
pub open spec fn request_auth_value(
    id: Seq<char>,
    secret: Seq<char>,
    bucket: Option<Seq<char>>,
    method: Method,
    object: Option<Seq<char>>,
    params: Seq<(Seq<char>, Option<Seq<char>>)>,
    h: Seq<(Seq<char>, Seq<char>)>,
) -> Seq<char> {
    auth_header_value(
        id,
        signature_chars(secret, signing_string_of(method, h, canonical_resource(bucket, object, params))),
    )
}

/// The header map after signing with a given date: the date inserted first,
/// then the `Authorization` value computed over the headers as they then
/// stand.
pub open spec fn signed_headers(
    id: Seq<char>,
    secret: Seq<char>,
    bucket: Option<Seq<char>>,
    method: Method,
    object: Option<Seq<char>>,
    params: Seq<(Seq<char>, Option<Seq<char>>)>,
    h: Seq<(Seq<char>, Seq<char>)>,
    date: Seq<char>,
) -> Seq<(Seq<char>, Seq<char>)> {
    let h1 = spec_insert(h, lower_chars("date"@), date);
    spec_insert(
        h1,
        lower_chars("authorization"@),
        request_auth_value(id, secret, bucket, method, object, params, h1),
    )
}

impl OSSClient {
    /// Computes the signature over the request's current headers and
    /// inserts the `Authorization` header. Fails exactly when the computed
    /// header entry is not legal header syntax (a key id with characters
    /// illegal in a header value), leaving the request unchanged.
    fn add_authorization_header(&self, rqst: &mut Request) -> (r: Result<(), Error>)
        requires
            old(rqst).wf(),
        ensures
            final(rqst).wf(),
            final(rqst).method == old(rqst).method,
            final(rqst).bucket == old(rqst).bucket,
            final(rqst).object == old(rqst).object,
            final(rqst).schema == old(rqst).schema,
            final(rqst).payload == old(rqst).payload,
            final(rqst).params == old(rqst).params,
            ({
                let auth = request_auth_value(
                    self.access_key_id@,
                    self.access_key_secret@,
                    self.bucket.deep_view(),
                    old(rqst).method,
                    old(rqst).object.deep_view(),
                    old(rqst).params@,
                    old(rqst).headers@,
                );
                match r {
                    Ok(()) => valid_header_name(lower_chars("authorization"@))
                        && valid_header_value(auth) && final(rqst).headers@ == spec_insert(
                        old(rqst).headers@,
                        lower_chars("authorization"@),
                        auth,
                    ),
                    Err(e) => !(valid_header_name(lower_chars("authorization"@))
                        && valid_header_value(auth)) && final(rqst).headers@ == old(rqst).headers@
                        && e.kind == Kind::InvalidHeader,
                }
            }),
    {
        let date = match rqst.headers.get("date") {
            Some(v) => v.clone(),
            None => String::new(),
        };
        let content_type = match rqst.headers.get("content-type") {
            Some(v) => v.clone(),
            None => String::new(),
        };
        let content_md5 = match rqst.headers.get("content-md5") {
            Some(v) => base64_encode(v.as_str().as_bytes()),
            None => String::new(),
        };
        let oss_headers_str = oss_canonical_headers(&rqst.headers);
        let bucket_ref = self.bucket();
        let object_ref = match &rqst.object {
            Some(o) => Some(o.as_str()),
            None => None,
        };
        let oss_resource_str = canonicalized_resource(bucket_ref, object_ref, &rqst.params);
        let ghost resource = canonical_resource(
            self.bucket.deep_view(),
            rqst.object.deep_view(),
            rqst.params@,
        );
        assert(oss_resource_str@ == resource);
        let mut sign_str = String::from_str(rqst.method.as_str());
        push_char(&mut sign_str, '\n');
        sign_str.append(content_md5.as_str());
        push_char(&mut sign_str, '\n');
        sign_str.append(content_type.as_str());
        push_char(&mut sign_str, '\n');
        sign_str.append(date.as_str());
        push_char(&mut sign_str, '\n');
        sign_str.append(oss_headers_str.as_str());
        sign_str.append(oss_resource_str.as_str());
        assert(sign_str@ =~= signing_string_of(rqst.method, rqst.headers@, resource));
        let signature = compute_signature(self.access_key_secret.as_str(), sign_str.as_str());
        let mut auth = String::from_str("OSS ");
        auth.append(self.access_key_id.as_str());
        push_char(&mut auth, ':');
        auth.append(signature.as_str());
        assert(auth@ =~= request_auth_value(
            self.access_key_id@,
            self.access_key_secret@,
            self.bucket.deep_view(),
            rqst.method,
            rqst.object.deep_view(),
            rqst.params@,
            rqst.headers@,
        ));
        match rqst.headers.insert("authorization", auth.as_str()) {
            Ok(()) => Ok(()),
            Err(e) => Err(e),
        }
    }

    /// Signs the request with the given date: inserts the `Date` header,
    /// then computes and inserts the `Authorization` header over the
    /// headers as they then stand. Fails exactly when the date or the
    /// computed `Authorization` entry is not legal header syntax; a date
    /// failure leaves the request unchanged, a later failure leaves the
    /// date inserted.
    pub fn sign_with_date(&self, rqst: &mut Request, date: &str) -> (r: Result<(), Error>)
        requires
            old(rqst).wf(),
        ensures
            final(rqst).wf(),
            final(rqst).method == old(rqst).method,
            final(rqst).bucket == old(rqst).bucket,
            final(rqst).object == old(rqst).object,
            final(rqst).schema == old(rqst).schema,
            final(rqst).payload == old(rqst).payload,
            final(rqst).params == old(rqst).params,
            ({
                let h1 = spec_insert(old(rqst).headers@, lower_chars("date"@), date@);
                let auth = request_auth_value(
                    self.access_key_id@,
                    self.access_key_secret@,
                    self.bucket.deep_view(),
                    old(rqst).method,
                    old(rqst).object.deep_view(),
                    old(rqst).params@,
                    h1,
                );
                let date_ok = valid_header_name(lower_chars("date"@)) && valid_header_value(
                    date@,
                );
                let auth_ok = valid_header_name(lower_chars("authorization"@))
                    && valid_header_value(auth);
                match r {
                    Ok(()) => date_ok && auth_ok && final(rqst).headers@ == signed_headers(
                        self.access_key_id@,
                        self.access_key_secret@,
                        self.bucket.deep_view(),
                        old(rqst).method,
                        old(rqst).object.deep_view(),
                        old(rqst).params@,
                        old(rqst).headers@,
                        date@,
                    ),
                    Err(e) => e.kind == Kind::InvalidHeader && if !date_ok {
                        final(rqst).headers@ == old(rqst).headers@
                    } else {
                        !auth_ok && final(rqst).headers@ == h1
                    },
                }
            }),
    {
        match rqst.headers.insert("date", date) {
            Ok(()) => (),
            Err(e) => {
                return Err(e);
            },
        }
        self.add_authorization_header(rqst)
    }

    /// Signs the request: injects a `Date` header holding the current time
    /// in RFC-1123 GMT form, then computes and inserts the `Authorization`
    /// header. Exactly one signature is computed per request.
    pub fn oss_sign(&self, rqst: &mut Request) -> (r: Result<(), Error>)
        requires
            old(rqst).wf(),
        ensures
            final(rqst).wf(),
            final(rqst).method == old(rqst).method,
            final(rqst).bucket == old(rqst).bucket,
            final(rqst).object == old(rqst).object,
            final(rqst).schema == old(rqst).schema,
            final(rqst).payload == old(rqst).payload,
            final(rqst).params == old(rqst).params,
            match r {
                Ok(()) => exists|date: Seq<char>|
                    valid_header_value(date) && final(rqst).headers@ == #[trigger] signed_headers(
                        self.access_key_id@,
                        self.access_key_secret@,
                        self.bucket.deep_view(),
                        old(rqst).method,
                        old(rqst).object.deep_view(),
                        old(rqst).params@,
                        old(rqst).headers@,
                        date,
                    ),
                Err(e) => e.kind == Kind::InvalidHeader && (final(rqst).headers@ == old(
                    rqst,
                ).headers@ || exists|date: Seq<char>|
                    final(rqst).headers@ == #[trigger] spec_insert(
                        old(rqst).headers@,
                        lower_chars("date"@),
                        date,
                    )),
            },
    {
        let date = now_rfc1123_gmt();
        let r = self.sign_with_date(rqst, date.as_str());
        proof {
            if r is Ok {
                assert(valid_header_value(date@) && final(rqst).headers@ == signed_headers(
                    self.access_key_id@,
                    self.access_key_secret@,
                    self.bucket.deep_view(),
                    old(rqst).method,
                    old(rqst).object.deep_view(),
                    old(rqst).params@,
                    old(rqst).headers@,
                    date@,
                ));
            }
        }
        r
    }
}


/// Renders the canonicalized header block of a caller-supplied header map:
/// every entry whose key carries the vendor prefix, one `key:value` line
/// each, in the map's ascending key order.
pub fn oss_canonical_metas(m: &crate::request::Metas) -> (r: String)
    ensures
        r@ == render_oss_headers(oss_header_entries(m@)),
{
    let n = m.len();
    let mut r = String::new();
    let mut i: usize = 0;
    proof {
        assert(m@.take(0) =~= Seq::<(Seq<char>, Seq<char>)>::empty());
    }
    while i < n
        invariant
            n == m@.len(),
            i <= n,
            r@ == render_oss_headers(oss_header_entries(m@.take(i as int))),
        decreases n - i,
    {
        let ghost pre = oss_header_entries(m@.take(i as int));
        let ghost cur = m@[i as int];
        proof {
            assert(m@.take(i + 1) =~= m@.take(i as int) + seq![cur]);
            lemma_oss_entries_append(m@.take(i as int), seq![cur]);
            assert(oss_header_entries(Seq::<(Seq<char>, Seq<char>)>::empty()) == Seq::<
                (Seq<char>, Seq<char>),
            >::empty());
            assert(seq![cur].drop_first() =~= Seq::<(Seq<char>, Seq<char>)>::empty());
            if is_prefix(oss_prefix(), cur.0) {
                assert(oss_header_entries(seq![cur]) =~= seq![cur]);
            } else {
                assert(oss_header_entries(seq![cur]) =~= Seq::<(Seq<char>, Seq<char>)>::empty());
            }
        }
        let e = m.entry_at(i);
        if str_starts_with(e.0.as_str(), "x-oss-") {
            proof {
                lemma_render_oss_headers_append_one(pre, cur);
            }
            r.append(e.0.as_str());
            push_char(&mut r, ':');
            r.append(e.1.as_str());
            push_char(&mut r, '\n');
            assert(r@ =~= render_oss_headers(oss_header_entries(m@.take(i + 1))));
        } else {
            proof {
                assert(oss_header_entries(m@.take(i + 1)) =~= pre);
            }
        }
        i += 1;
    }
    proof {
        assert(m@.take(n as int) =~= m@);
    }
    r
}


/// Canonicalization is insensitive to the order parameters were added:
/// inserting two distinct keys in either order yields the same parameter
/// map, hence the same canonical resource.
pub proof fn lemma_canonicalize_insert_order(
    bucket: Option<Seq<char>>,
    object: Option<Seq<char>>,
    s: Seq<(Seq<char>, Option<Seq<char>>)>,
    k1: Seq<char>,
    v1: Option<Seq<char>>,
    k2: Seq<char>,
    v2: Option<Seq<char>>,
)
    requires
        k1 != k2,
    ensures
        canonical_resource(bucket, object, spec_insert(spec_insert(s, k1, v1), k2, v2))
            == canonical_resource(bucket, object, spec_insert(spec_insert(s, k2, v2), k1, v1)),
{
    crate::strmap::lemma_insert_commutes(s, k1, v1, k2, v2);
}

} // verus!
