//! Client-side request-authentication core for a bucket/object storage HTTP
//! API: canonical-resource construction, HMAC-SHA1 request signing, a request
//! model, and a single-consumption byte-stream reader.

pub mod auth;
pub mod errors;
pub mod headers;
pub mod options;
pub mod oss;
pub mod params;
pub mod payload;
pub mod region;
pub mod request;
pub mod requests;
pub mod schema;
pub mod stream;
pub mod strmap;
pub mod text;

pub use auth::canonicalized_resource;
pub use auth::compute_signature;
pub use auth::get_resources_str;
pub use errors::Error;
pub use errors::Kind;
pub use headers::HeaderMap;
pub use options::GetBucketOptions;
pub use options::GetObjectOptions;
pub use options::HeadObjectOptions;
pub use options::PutBucketOptions;
pub use options::PutObjectOptions;
pub use oss::OSSClient;
pub use oss::RequestParts;
pub use params::Params;
pub use payload::Payload;
pub use payload::SizeHint;
pub use region::Region;
pub use request::Metas;
pub use request::Method;
pub use request::Request;
pub use requests::PutBucketRequest;
pub use schema::ParseSchemaError;
pub use schema::Schema;
pub use stream::ByteReader;
pub use stream::ReadAdapter;
pub use stream::StreamError;
pub use text::u64_to_dec_string;
