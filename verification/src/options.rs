//! Per-operation option sets: pure data whose present fields become
//! request headers, each under its fixed header name.

use vstd::prelude::*;
use vstd::string::StringExecFns;

use crate::request::Metas;

verus! {

/// The header entries an optional field contributes: one name/value pair
/// when the value is present, nothing otherwise.
pub open spec fn opt_entry(name: Seq<char>, v: Option<String>) -> Seq<(Seq<char>, Seq<char>)> {
    match v {
        Some(s) => seq![(name, s@)],
        None => Seq::empty(),
    }
}

/// Appends an optional field's header entry to the list being built.
fn push_opt(r: &mut Vec<(String, String)>, name: &str, v: &Option<String>)
    ensures
        final(r).deep_view() == old(r).deep_view() + opt_entry(name@, *v),
{
    match v {
        Some(s) => {
            r.push((String::from_str(name), s.clone()));
            assert(r.deep_view() =~= old(r).deep_view() + opt_entry(name@, *v));
        },
        None => {
            assert(r.deep_view() =~= old(r).deep_view() + opt_entry(name@, *v));
        },
    }
}

/// Options of the bucket-listing operation.
#[derive(Clone, Debug, Default, PartialEq)]
pub struct GetBucketOptions {
    /// The character that groups object names into common prefixes.
    pub delimiter: Option<String>,
    /// The name the listing starts after.
    pub marker: Option<String>,
    /// The maximum number of objects returned.
    pub max_keys: Option<String>,
    /// The prefix returned object names must carry.
    pub prefix: Option<String>,
    /// The encoding applied to object names in the response.
    pub encoding_type: Option<String>,
}

impl GetBucketOptions {
    /// The header entries these options contribute, in field order.
    pub open spec fn spec_to_opts(&self) -> Seq<(Seq<char>, Seq<char>)> {
        opt_entry("delimiter"@, self.delimiter) + opt_entry("marker"@, self.marker) + opt_entry(
            "max-keys"@,
            self.max_keys,
        ) + opt_entry("prefix"@, self.prefix) + opt_entry("encoding-type"@, self.encoding_type)
    }

    /// Renders the present fields as header name/value pairs.
    pub fn to_opts(&self) -> (r: Vec<(String, String)>)
        ensures
            r.deep_view() == self.spec_to_opts(),
    {
        let mut r: Vec<(String, String)> = Vec::new();
        proof {
            assert(r.deep_view() =~= Seq::<(Seq<char>, Seq<char>)>::empty());
        }
        push_opt(&mut r, "delimiter", &self.delimiter);
        push_opt(&mut r, "marker", &self.marker);
        push_opt(&mut r, "max-keys", &self.max_keys);
        push_opt(&mut r, "prefix", &self.prefix);
        push_opt(&mut r, "encoding-type", &self.encoding_type);
        proof {
            assert(r.deep_view() =~= self.spec_to_opts());
        }
        r
    }
}

/// Options of the bucket-creation operation.
#[derive(Clone, Debug, Default, PartialEq)]
pub struct PutBucketOptions {
    /// The access control list of the bucket to create.
    pub x_oss_acl: Option<String>,
    /// Whether the hierarchical namespace feature is enabled at creation.
    pub x_oss_hns_status: Option<String>,
}

impl PutBucketOptions {
    /// The header entries these options contribute, in field order.
    pub open spec fn spec_to_opts(&self) -> Seq<(Seq<char>, Seq<char>)> {
        opt_entry("x-oss-acl"@, self.x_oss_acl) + opt_entry(
            "x-oss-hns-status"@,
            self.x_oss_hns_status,
        )
    }

    /// Renders the present fields as header name/value pairs.
    pub fn to_opts(&self) -> (r: Vec<(String, String)>)
        ensures
            r.deep_view() == self.spec_to_opts(),
    {
        let mut r: Vec<(String, String)> = Vec::new();
        proof {
            assert(r.deep_view() =~= Seq::<(Seq<char>, Seq<char>)>::empty());
        }
        push_opt(&mut r, "x-oss-acl", &self.x_oss_acl);
        push_opt(&mut r, "x-oss-hns-status", &self.x_oss_hns_status);
        proof {
            assert(r.deep_view() =~= self.spec_to_opts());
        }
        r
    }
}

/// Options of the object-download operation.
#[derive(Clone, Debug, Default, PartialEq)]
pub struct GetObjectOptions {
    /// The content-type header the response should carry.
    pub response_content_type: Option<String>,
    /// The content-language header the response should carry.
    pub response_content_language: Option<String>,
    /// The expires header the response should carry.
    pub response_expires: Option<String>,
    /// The cache-control header the response should carry.
    pub response_cache_control: Option<String>,
    /// The content-disposition header the response should carry.
    pub response_content_disposition: Option<String>,
    /// The content-encoding header the response should carry.
    pub response_content_encoding: Option<String>,
    /// The byte range of the object to return.
    pub range: Option<String>,
    /// Return the object only if modified since this time.
    pub if_modified_since: Option<String>,
    /// Return the object only if unmodified since this time.
    pub if_unmodified_since: Option<String>,
    /// Return the object only if its ETag matches.
    pub if_match: Option<String>,
    /// Return the object only if its ETag does not match.
    pub if_none_match: Option<String>,
    /// The content encoding the client accepts.
    pub accept_encoding: Option<String>,
    /// Caller metadata, folded into the headers under the vendor metadata
    /// prefix.
    pub metas: Option<Metas>,
}

impl GetObjectOptions {
    /// The header entries these options contribute, in field order; the
    /// metadata map travels separately.
    pub open spec fn spec_to_opts(&self) -> Seq<(Seq<char>, Seq<char>)> {
        opt_entry("response-content-type"@, self.response_content_type) + opt_entry(
            "response-content-language"@,
            self.response_content_language,
        ) + opt_entry("response-expires"@, self.response_expires) + opt_entry(
            "response-cache-control"@,
            self.response_cache_control,
        ) + opt_entry("response-content-disposition"@, self.response_content_disposition)
            + opt_entry("response-content-encoding"@, self.response_content_encoding) + opt_entry(
            "range"@,
            self.range,
        ) + opt_entry("if-modified-since"@, self.if_modified_since) + opt_entry(
            "if-unmodified-since"@,
            self.if_unmodified_since,
        ) + opt_entry("if-match"@, self.if_match) + opt_entry("if-none-match"@, self.if_none_match)
            + opt_entry("accept-encoding"@, self.accept_encoding)
    }

    /// Renders the present fields as header name/value pairs.
    pub fn to_opts(&self) -> (r: Vec<(String, String)>)
        ensures
            r.deep_view() == self.spec_to_opts(),
    {
        let mut r: Vec<(String, String)> = Vec::new();
        proof {
            assert(r.deep_view() =~= Seq::<(Seq<char>, Seq<char>)>::empty());
        }
        push_opt(&mut r, "response-content-type", &self.response_content_type);
        push_opt(&mut r, "response-content-language", &self.response_content_language);
        push_opt(&mut r, "response-expires", &self.response_expires);
        push_opt(&mut r, "response-cache-control", &self.response_cache_control);
        push_opt(&mut r, "response-content-disposition", &self.response_content_disposition);
        push_opt(&mut r, "response-content-encoding", &self.response_content_encoding);
        push_opt(&mut r, "range", &self.range);
        push_opt(&mut r, "if-modified-since", &self.if_modified_since);
        push_opt(&mut r, "if-unmodified-since", &self.if_unmodified_since);
        push_opt(&mut r, "if-match", &self.if_match);
        push_opt(&mut r, "if-none-match", &self.if_none_match);
        push_opt(&mut r, "accept-encoding", &self.accept_encoding);
        proof {
            assert(r.deep_view() =~= self.spec_to_opts());
        }
        r
    }
}

/// Options of the object-metadata query.
#[derive(Clone, Debug, Default, PartialEq)]
pub struct HeadObjectOptions {
    /// Answer only if the object was modified since this time.
    pub if_modified_since: Option<String>,
    /// Answer only if the object was unmodified since this time.
    pub if_unmodified_since: Option<String>,
    /// Answer only if the object's ETag matches.
    pub if_match: Option<String>,
    /// Answer only if the object's ETag does not match.
    pub if_none_match: Option<String>,
}

impl HeadObjectOptions {
    /// The header entries these options contribute, in field order.
    pub open spec fn spec_to_opts(&self) -> Seq<(Seq<char>, Seq<char>)> {
        opt_entry("if-modified-since"@, self.if_modified_since) + opt_entry(
            "if-unmodified-since"@,
            self.if_unmodified_since,
        ) + opt_entry("if-match"@, self.if_match) + opt_entry("if-none-match"@, self.if_none_match)
    }

    /// Renders the present fields as header name/value pairs.
    pub fn to_opts(&self) -> (r: Vec<(String, String)>)
        ensures
            r.deep_view() == self.spec_to_opts(),
    {
        let mut r: Vec<(String, String)> = Vec::new();
        proof {
            assert(r.deep_view() =~= Seq::<(Seq<char>, Seq<char>)>::empty());
        }
        push_opt(&mut r, "if-modified-since", &self.if_modified_since);
        push_opt(&mut r, "if-unmodified-since", &self.if_unmodified_since);
        push_opt(&mut r, "if-match", &self.if_match);
        push_opt(&mut r, "if-none-match", &self.if_none_match);
        proof {
            assert(r.deep_view() =~= self.spec_to_opts());
        }
        r
    }
}

/// Options of the object-upload operation.
#[derive(Clone, Debug, Default, PartialEq)]
pub struct PutObjectOptions {
    /// The web-page caching behaviour when the object is downloaded.
    pub cache_control: Option<String>,
    /// The content-disposition of the object when downloaded.
    pub content_disposition: Option<String>,
    /// The content encoding of the object during download.
    pub content_encoding: Option<String>,
    /// The MD5 hash of the object being uploaded, for integrity checking.
    pub content_md5: Option<String>,
    /// The ETag identifying the object's content.
    pub e_tag: Option<String>,
    /// The time after which the response is considered expired.
    pub expires: Option<String>,
    /// Whether uploading may overwrite an object of the same name.
    pub x_oss_forbid_overwrite: Option<String>,
    /// The server-side encryption method used for the object.
    pub x_oss_server_side_encryption: Option<String>,
    /// The customer master key id, when KMS encryption is used.
    pub x_oss_server_side_encryption_key_id: Option<String>,
    /// The access control list of the object being created.
    pub x_oss_object_acl: Option<String>,
    /// The storage class of the object.
    pub x_oss_storage_class: Option<String>,
    /// The object's tags.
    pub x_oss_tagging: Option<String>,
    /// Caller metadata, folded into the headers under the vendor metadata
    /// prefix.
    pub metas: Option<Metas>,
}

impl PutObjectOptions {
    /// The header entries these options contribute, in field order; the
    /// metadata map travels separately.
    pub open spec fn spec_to_opts(&self) -> Seq<(Seq<char>, Seq<char>)> {
        opt_entry("cache-control"@, self.cache_control) + opt_entry(
            "content-disposition"@,
            self.content_disposition,
        ) + opt_entry("content-encoding"@, self.content_encoding) + opt_entry(
            "content-md5"@,
            self.content_md5,
        ) + opt_entry("e-tag"@, self.e_tag) + opt_entry("expires"@, self.expires) + opt_entry(
            "x-oss-forbid-overwrite"@,
            self.x_oss_forbid_overwrite,
        ) + opt_entry("x-oss-server-side-encryption"@, self.x_oss_server_side_encryption)
            + opt_entry(
            "x-oss-server-side-encryption-key-id"@,
            self.x_oss_server_side_encryption_key_id,
        ) + opt_entry("x-oss-object-acl"@, self.x_oss_object_acl) + opt_entry(
            "x-oss-storage-class"@,
            self.x_oss_storage_class,
        ) + opt_entry("x-oss-tagging"@, self.x_oss_tagging)
    }

    /// Renders the present fields as header name/value pairs.
    pub fn to_opts(&self) -> (r: Vec<(String, String)>)
        ensures
            r.deep_view() == self.spec_to_opts(),
    {
        let mut r: Vec<(String, String)> = Vec::new();
        proof {
            assert(r.deep_view() =~= Seq::<(Seq<char>, Seq<char>)>::empty());
        }
        push_opt(&mut r, "cache-control", &self.cache_control);
        push_opt(&mut r, "content-disposition", &self.content_disposition);
        push_opt(&mut r, "content-encoding", &self.content_encoding);
        push_opt(&mut r, "content-md5", &self.content_md5);
        push_opt(&mut r, "e-tag", &self.e_tag);
        push_opt(&mut r, "expires", &self.expires);
        push_opt(&mut r, "x-oss-forbid-overwrite", &self.x_oss_forbid_overwrite);
        push_opt(&mut r, "x-oss-server-side-encryption", &self.x_oss_server_side_encryption);
        push_opt(
            &mut r,
            "x-oss-server-side-encryption-key-id",
            &self.x_oss_server_side_encryption_key_id,
        );
        push_opt(&mut r, "x-oss-object-acl", &self.x_oss_object_acl);
        push_opt(&mut r, "x-oss-storage-class", &self.x_oss_storage_class);
        push_opt(&mut r, "x-oss-tagging", &self.x_oss_tagging);
        proof {
            assert(r.deep_view() =~= self.spec_to_opts());
        }
        r
    }
}

} // verus!
