//! The client: the region, scheme, bucket and credentials a caller signs
//! requests with, and the host text its requests are addressed to.

use vstd::prelude::*;
use vstd::string::{StrSliceExecFns, StringExecFns};

use crate::auth::{canonical_resource, header_or_empty, oss_header_entries, render_oss_headers,
    signature_chars, signed_headers, compute_signature, oss_canonical_metas};
use crate::errors::{Error, Kind};
use crate::headers::HeaderMap;
use crate::params::Params;
use crate::payload::Payload;
use crate::region::{region_endpoint_chars, region_of_chars, Region};
use crate::request::{spec_content_length, Metas, Method, Request};
use crate::schema::{schema_chars, Schema};
use crate::strmap::spec_insert;
use crate::text::{dec_chars, lemma_dec_chars_valid, lower_chars, push_char, u64_to_dec_string,
    valid_header_value};

verus! {

/// The region a region name parses to: the named region, or the default for
/// an unknown name.
pub open spec fn parsed_region(s: Seq<char>) -> Region {
    match region_of_chars(lower_chars(s)) {
        Some(r) => r,
        None => Region::Hangzhou,
    }
}

/// The scheme a scheme name parses to: the named scheme, or the default for
/// an absent or unknown name.
pub open spec fn parsed_schema(s: Option<Seq<char>>) -> Schema {
    match s {
        Some(x) => if lower_chars(x) == "http"@ {
            Schema::Http
        } else {
            Schema::Https
        },
        None => Schema::Https,
    }
}

/// The host text a request is addressed to:
/// `scheme://[bucket.]endpoint[/object]` followed by a query-parameter
/// suffix.
pub open spec fn host_chars(
    schema: Schema,
    bucket: Option<Seq<char>>,
    region: Region,
    object: Option<Seq<char>>,
    params: Seq<char>,
) -> Seq<char> {
    schema_chars(schema) + "://"@ + (match bucket {
        Some(b) => b + seq!['.'],
        None => Seq::<char>::empty(),
    }) + region_endpoint_chars(region) + (match object {
        Some(o) => seq!['/'] + o,
        None => Seq::<char>::empty(),
    }) + params
}

/// A client of the storage service: the region and scheme it talks to, the
/// bucket it addresses, and the access key it signs with. The transport that
/// dispatches its requests lives with the caller.
pub struct OSSClient {
    /// The service region.
    pub region: Region,
    /// The transport scheme of this client's requests.
    pub schema: Schema,
    /// The bucket requests address, as a host subdomain.
    pub bucket: Option<String>,
    /// The public half of the access key.
    pub access_key_id: String,
    /// The secret half of the access key.
    pub access_key_secret: String,
}

impl OSSClient {
    /// Creates a client. An unknown region name falls back to the default
    /// region, an absent or unknown scheme to HTTPS.
    pub fn new(
        region: &str,
        schema: Option<&str>,
        bucket: Option<&str>,
        access_key_id: &str,
        access_key_secret: &str,
    ) -> (r: OSSClient)
        ensures
            r.region == parsed_region(region@),
            r.schema == parsed_schema(schema.deep_view()),
            r.bucket.deep_view() == bucket.deep_view(),
            r.access_key_id@ == access_key_id@,
            r.access_key_secret@ == access_key_secret@,
    {
        proof {
            reveal_strlit("http");
            reveal_strlit("https");
        }
        let region = match Region::parse(region) {
            Some(r) => r,
            None => Region::Hangzhou,
        };
        let schema = match schema {
            Some(s) => match Schema::parse(s) {
                Ok(x) => {
                    assert(lower_chars(s@) == schema_chars(x));
                    assert("http"@.len() == 4);
                    assert("https"@.len() == 5);
                    assert("http"@ != "https"@);
                    x
                },
                Err(_) => Schema::Https,
            },
            None => Schema::Https,
        };
        let bucket = match bucket {
            Some(b) => Some(String::from_str(b)),
            None => None,
        };
        OSSClient {
            region,
            schema,
            bucket,
            access_key_id: String::from_str(access_key_id),
            access_key_secret: String::from_str(access_key_secret),
        }
    }

    /// The bucket this client addresses.
    pub fn bucket(&self) -> (r: Option<&str>)
        ensures
            r.deep_view() == self.bucket.deep_view(),
    {
        match &self.bucket {
            Some(b) => Some(b.as_str()),
            None => None,
        }
    }

    /// The two halves of the access key.
    pub fn get_access_key(&self) -> (r: (&str, &str))
        ensures
            r.0@ == self.access_key_id@,
            r.1@ == self.access_key_secret@,
    {
        (self.access_key_id.as_str(), self.access_key_secret.as_str())
    }

    /// The scheme this client's requests use.
    pub fn get_schema(&self) -> (r: Schema)
        ensures
            r == self.schema,
    {
        self.schema
    }

    /// Builds the host text for an object, with a ready-rendered query
    /// suffix appended verbatim.
    pub(crate) fn host(&self, object: Option<&str>, params_str: &str) -> (r: String)
        ensures
            r@ == host_chars(
                self.schema,
                self.bucket.deep_view(),
                self.region,
                object.deep_view(),
                params_str@,
            ),
    {
        let mut h = String::from_str(self.schema.as_str());
        h.append("://");
        if let Some(b) = &self.bucket {
            h.append(b.as_str());
            push_char(&mut h, '.');
        }
        h.append(self.region.endpoint());
        if let Some(o) = object {
            push_char(&mut h, '/');
            h.append(o);
        }
        h.append(params_str);
        proof {
            assert(h@ =~= host_chars(
                self.schema,
                self.bucket.deep_view(),
                self.region,
                object.deep_view(),
                params_str@,
            ));
        }
        h
    }
}


/// The signing string of a presigned URL: like a request's, but with the
/// expiry timestamp in the date position and the caller-supplied header
/// map in place of live request headers.
pub open spec fn signed_url_signing_string(
    verb: Seq<char>,
    m: Seq<(Seq<char>, Seq<char>)>,
    expires: nat,
    resource: Seq<char>,
) -> Seq<char> {
    verb + seq!['\n'] + header_or_empty(m, "content-md5"@) + seq!['\n'] + header_or_empty(
        m,
        "content-type"@,
    ) + seq!['\n'] + dec_chars(expires) + seq!['\n'] + render_oss_headers(oss_header_entries(m))
        + resource
}

/// The query suffix of a presigned URL: the key id, the expiry and the
/// signature, as literal query parameters.
pub open spec fn signed_url_query(id: Seq<char>, expires: nat, sig: Seq<char>) -> Seq<char> {
    "?OSSAccessKeyId="@ + id + "&Expires="@ + dec_chars(expires) + "&Signature="@ + sig
}

/// The headers of a request after the signer has prepared it for dispatch:
/// `content-length` inserted, then the date and `Authorization` headers.
pub open spec fn prepared_headers(
    id: Seq<char>,
    secret: Seq<char>,
    bucket: Option<Seq<char>>,
    rqst: Request,
    date: Seq<char>,
) -> Seq<(Seq<char>, Seq<char>)> {
    signed_headers(
        id,
        secret,
        bucket,
        rqst.method,
        rqst.object.deep_view(),
        rqst.params@,
        spec_insert(
            rqst.headers@,
            lower_chars("content-length"@),
            dec_chars(spec_content_length(rqst.payload) as nat),
        ),
        date,
    )
}

/// A signed request, reduced to what a transport needs: verb, host text,
/// query parameters, headers and body.
pub struct RequestParts {
    /// The HTTP verb.
    pub method: Method,
    /// The host text, `scheme://[bucket.]endpoint[/object]`; the query
    /// parameters travel separately.
    pub url: String,
    /// The query parameters to append to the URL.
    pub params: Params,
    /// The signed headers.
    pub headers: HeaderMap,
    /// The body.
    pub payload: Payload,
}

impl OSSClient {
    /// Builds a presigned URL: the signing string substitutes the expiry
    /// timestamp for the date, no header is injected anywhere, and the key
    /// id, expiry and signature ride as literal query parameters on the
    /// fully qualified host URL.
    pub fn get_signed_url(
        &self,
        object: Option<&str>,
        verb: &str,
        expires: u64,
        params: &Params,
        headers: Option<&Metas>,
    ) -> (r: String)
        ensures
            ({
                let m = match headers {
                    Some(h) => h@,
                    None => Seq::<(Seq<char>, Seq<char>)>::empty(),
                };
                let resource = canonical_resource(
                    self.bucket.deep_view(),
                    object.deep_view(),
                    params@,
                );
                let sig = signature_chars(
                    self.access_key_secret@,
                    signed_url_signing_string(verb@, m, expires as nat, resource),
                );
                r@ == host_chars(
                    self.schema,
                    self.bucket.deep_view(),
                    self.region,
                    object.deep_view(),
                    signed_url_query(self.access_key_id@, expires as nat, sig),
                )
            }),
    {
        let empty_metas = Metas::new();
        let m: &Metas = match headers {
            Some(h) => h,
            None => &empty_metas,
        };
        let content_type = match m.get("content-type") {
            Some(v) => v.clone(),
            None => String::new(),
        };
        let content_md5 = match m.get("content-md5") {
            Some(v) => v.clone(),
            None => String::new(),
        };
        let oss_headers_str = oss_canonical_metas(m);
        let oss_resource_str = crate::auth::canonicalized_resource(self.bucket(), object, params);
        let expires_str = u64_to_dec_string(expires);
        let mut sign_str = String::from_str(verb);
        push_char(&mut sign_str, '\n');
        sign_str.append(content_md5.as_str());
        push_char(&mut sign_str, '\n');
        sign_str.append(content_type.as_str());
        push_char(&mut sign_str, '\n');
        sign_str.append(expires_str.as_str());
        push_char(&mut sign_str, '\n');
        sign_str.append(oss_headers_str.as_str());
        sign_str.append(oss_resource_str.as_str());
        let ghost mview = match headers {
            Some(h) => h@,
            None => Seq::<(Seq<char>, Seq<char>)>::empty(),
        };
        assert(sign_str@ =~= signed_url_signing_string(
            verb@,
            mview,
            expires as nat,
            canonical_resource(self.bucket.deep_view(), object.deep_view(), params@),
        ));
        let signature = compute_signature(self.access_key_secret.as_str(), sign_str.as_str());
        let mut auth_params = String::from_str("?OSSAccessKeyId=");
        auth_params.append(self.access_key_id.as_str());
        auth_params.append("&Expires=");
        auth_params.append(expires_str.as_str());
        auth_params.append("&Signature=");
        auth_params.append(signature.as_str());
        assert(auth_params@ =~= signed_url_query(
            self.access_key_id@,
            expires as nat,
            signature@,
        ));
        self.host(object, auth_params.as_str())
    }

    /// Prepares a request for dispatch: inserts its `content-length`,
    /// signs it, and reduces it to the parts a transport needs. The body
    /// is moved out here; the request is consumed and cannot be re-signed.
    pub fn signed_request_parts(&self, rqst: Request) -> (r: Result<RequestParts, Error>)
        requires
            rqst.wf(),
        ensures
            match r {
                Ok(parts) => {
                    &&& parts.method == rqst.method
                    &&& parts.url@ == host_chars(
                        self.schema,
                        self.bucket.deep_view(),
                        self.region,
                        rqst.object.deep_view(),
                        Seq::<char>::empty(),
                    )
                    &&& parts.params@ == rqst.params@
                    &&& parts.params.wf()
                    &&& parts.headers.wf()
                    &&& (match rqst.payload {
                        Some(p) => parts.payload == p,
                        None => parts.payload is Buffer && parts.payload->Buffer_0@ == Seq::<
                            u8,
                        >::empty(),
                    })
                    &&& exists|date: Seq<char>|
                        valid_header_value(date) && parts.headers@ == #[trigger] prepared_headers(
                            self.access_key_id@,
                            self.access_key_secret@,
                            self.bucket.deep_view(),
                            rqst,
                            date,
                        )
                },
                Err(e) => e.kind == Kind::InvalidHeader,
            },
    {
        let mut rqst = rqst;
        let ghost rqst0 = rqst;
        let len = rqst.content_length();
        let lenstr = u64_to_dec_string(len as u64);
        proof {
            lemma_dec_chars_valid(len as nat);
        }
        match rqst.headers.insert("content-length", lenstr.as_str()) {
            Ok(()) => (),
            Err(e) => {
                return Err(e);
            },
        }
        let ghost mid = rqst;
        match self.oss_sign(&mut rqst) {
            Ok(()) => (),
            Err(e) => {
                return Err(e);
            },
        }
        let object_ref = match &rqst.object {
            Some(o) => Some(o.as_str()),
            None => None,
        };
        let url = self.host(object_ref, "");
        proof {
            reveal_strlit("");
            assert(""@ =~= Seq::<char>::empty());
        }
        proof {
            let h1 = spec_insert(
                rqst0.headers@,
                lower_chars("content-length"@),
                dec_chars(spec_content_length(rqst0.payload) as nat),
            );
            assert((len as u64) as nat == len as nat);
            assert(mid.headers@ == h1);
            let date = choose|date: Seq<char>|
                valid_header_value(date) && rqst.headers@ == #[trigger] signed_headers(
                    self.access_key_id@,
                    self.access_key_secret@,
                    self.bucket.deep_view(),
                    mid.method,
                    mid.object.deep_view(),
                    mid.params@,
                    mid.headers@,
                    date,
                );
            assert(valid_header_value(date) && rqst.headers@ == prepared_headers(
                self.access_key_id@,
                self.access_key_secret@,
                self.bucket.deep_view(),
                rqst0,
                date,
            ));
        }
        let payload = rqst.take_payload();
        let Request { method, bucket: _, object: _, schema: _, payload: _, params, headers } =
            rqst;
        Ok(RequestParts { method, url, params, headers, payload })
    }
}

} // verus!
