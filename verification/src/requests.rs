//! A declarative form of the bucket-creation call, converted into a request
//! ready for signing.

use vstd::prelude::*;

use crate::headers::HeaderMap;
use crate::request::{Method, Request};
use crate::schema::Schema;
use crate::strmap::spec_insert;
use crate::text::{lower_chars, valid_header_name, valid_header_value};

verus! {

/// The headers a bucket-creation request carries: the ACL and the
/// namespace-status options, each inserted when present and legal header
/// syntax, silently skipped otherwise.
pub open spec fn put_bucket_header_entries(
    acl: Option<Seq<char>>,
    status: Option<Seq<char>>,
) -> Seq<(Seq<char>, Seq<char>)> {
    let h0 = Seq::<(Seq<char>, Seq<char>)>::empty();
    let h1 = match acl {
        Some(v) => if valid_header_name(lower_chars("x-oss-acl"@)) && valid_header_value(v) {
            spec_insert(h0, lower_chars("x-oss-acl"@), v)
        } else {
            h0
        },
        None => h0,
    };
    match status {
        Some(v) => if valid_header_name(lower_chars("x-oss-hns-status"@)) && valid_header_value(
            v,
        ) {
            spec_insert(h1, lower_chars("x-oss-hns-status"@), v)
        } else {
            h1
        },
        None => h1,
    }
}

/// The bucket-creation call as plain data.
#[derive(Clone, Debug, Default, PartialEq)]
pub struct PutBucketRequest {
    /// The name of the bucket to create.
    pub bucket: String,
    /// The access control list of the bucket.
    pub acl: Option<String>,
    /// Whether the hierarchical namespace feature is enabled at creation.
    pub status: Option<String>,
    /// The storage class of the bucket.
    pub storage_class: Option<String>,
    /// The disaster-recovery type of the bucket.
    pub data_redundancy_type: Option<String>,
}

impl PutBucketRequest {
    /// Turns the call into a request ready for signing: a PUT on the
    /// bucket, with the ACL and namespace-status options as headers (an
    /// option that is not legal header syntax is skipped) and an empty
    /// body.
    pub fn into_request(self) -> (r: Request)
        ensures
            r.method == Method::Put,
            r.bucket == Some(self.bucket),
            r.object is None,
            r.payload is None,
            r.params@ == Seq::<(Seq<char>, Option<Seq<char>>)>::empty(),
            r.headers@ == put_bucket_header_entries(self.acl.deep_view(), self.status.deep_view()),
            r.wf(),
    {
        let mut headers = HeaderMap::new();
        match &self.acl {
            Some(v) => match headers.insert("x-oss-acl", v.as_str()) {
                Ok(()) => (),
                Err(_) => (),
            },
            None => (),
        }
        match &self.status {
            Some(v) => match headers.insert("x-oss-hns-status", v.as_str()) {
                Ok(()) => (),
                Err(_) => (),
            },
            None => (),
        }
        Request::new(
            Method::Put,
            Some(self.bucket),
            None,
            Schema::Https,
            None,
            None,
            Some(headers),
        )
    }
}

} // verus!
