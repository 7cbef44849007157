use oss_sdk::{GetBucketOptions, HeadObjectOptions, Method, OSSClient, Payload, PutBucketOptions,
    PutBucketRequest, PutObjectOptions, Region, Request, Schema, SizeHint, u64_to_dec_string};

#[test]
fn schema_parses_case_insensitively() {
    assert_eq!(Schema::parse("http").unwrap(), Schema::Http);
    assert_eq!(Schema::parse("HTTPS").unwrap(), Schema::Https);
    let err = Schema::parse("ftp").unwrap_err();
    assert_eq!(err.message(), "Invalid OSS Schema: ftp, ");
}

#[test]
fn schema_defaults_to_https() {
    assert_eq!(Schema::default(), Schema::Https);
    assert_eq!(Schema::Http.as_str(), "http");
    assert_eq!(Schema::Https.as_str(), "https");
}

#[test]
fn region_parses_and_names_endpoint() {
    assert_eq!(Region::parse("Beijing").unwrap(), Region::Beijing);
    assert_eq!(Region::parse("cn-shanghai").unwrap(), Region::Shanghai);
    assert!(Region::parse("atlantis").is_none());
    assert_eq!(Region::Beijing.endpoint(), "oss-cn-beijing.aliyuncs.com");
    assert_eq!(Region::default(), Region::Hangzhou);
}

#[test]
fn client_falls_back_to_defaults() {
    let cli = OSSClient::new("atlantis", Some("gopher"), None, "id", "secret");
    assert_eq!(cli.region, Region::Hangzhou);
    assert_eq!(cli.schema, Schema::Https);
    assert!(cli.bucket().is_none());
}

#[test]
fn content_length_comes_from_the_payload() {
    let mut rqst = Request::new(
        Method::Put,
        None,
        None,
        Schema::Https,
        Some(Payload::Buffer(b"hello".to_vec())),
        None,
        None,
    );
    assert_eq!(rqst.content_length(), 5);
    let taken = rqst.take_payload();
    assert!(matches!(taken, Payload::Buffer(v) if v == b"hello".to_vec()));
    // a second extraction yields an empty default buffer, never an error
    let again = rqst.take_payload();
    assert!(matches!(again, Payload::Buffer(v) if v.is_empty()));
}

#[test]
fn content_length_of_unsized_stream_is_zero() {
    // a stream without an upper bound reports length zero
    let rqst = Request::new(
        Method::Put,
        None,
        None,
        Schema::Https,
        Some(Payload::Stream(SizeHint { lower: 7, upper: None })),
        None,
        None,
    );
    assert_eq!(rqst.content_length(), 0);
    let sized = Request::new(
        Method::Put,
        None,
        None,
        Schema::Https,
        Some(Payload::Stream(SizeHint::bounded(9))),
        None,
        None,
    );
    assert_eq!(sized.content_length(), 9);
}

#[test]
fn size_hint_of_buffer_is_exact() {
    let hint = SizeHint::exact(12);
    assert_eq!(hint.lower, 12);
    assert_eq!(hint.upper, Some(12));
}

#[test]
fn put_bucket_options_render_in_field_order() {
    let opts = PutBucketOptions {
        x_oss_acl: Some("private".to_string()),
        x_oss_hns_status: None,
    };
    let pairs = opts.to_opts();
    assert_eq!(pairs.len(), 1);
    assert_eq!(pairs[0].0.as_str(), "x-oss-acl");
    assert_eq!(pairs[0].1.as_str(), "private");
}

#[test]
fn get_bucket_options_render_in_field_order() {
    let opts = GetBucketOptions {
        prefix: Some("photos/".to_string()),
        marker: Some("m".to_string()),
        ..Default::default()
    };
    let pairs = opts.to_opts();
    assert_eq!(pairs.len(), 2);
    assert_eq!(pairs[0].0.as_str(), "marker");
    assert_eq!(pairs[0].1.as_str(), "m");
    assert_eq!(pairs[1].0.as_str(), "prefix");
    assert_eq!(pairs[1].1.as_str(), "photos/");
}

#[test]
fn head_and_put_object_options_render() {
    let head = HeadObjectOptions {
        if_match: Some("etag".to_string()),
        ..Default::default()
    };
    let pairs = head.to_opts();
    assert_eq!(pairs.len(), 1);
    assert_eq!(pairs[0].0.as_str(), "if-match");

    let put = PutObjectOptions {
        cache_control: Some("no-cache".to_string()),
        x_oss_object_acl: Some("public-read".to_string()),
        ..Default::default()
    };
    let pairs = put.to_opts();
    assert_eq!(pairs.len(), 2);
    assert_eq!(pairs[0].0.as_str(), "cache-control");
    assert_eq!(pairs[1].0.as_str(), "x-oss-object-acl");
}

#[test]
fn put_bucket_request_becomes_signed_put() {
    let rqst = PutBucketRequest {
        bucket: "mybucket".to_string(),
        acl: Some("private".to_string()),
        status: None,
        storage_class: None,
        data_redundancy_type: None,
    };
    let r = rqst.into_request();
    assert_eq!(r.method, Method::Put);
    assert_eq!(r.bucket.as_deref(), Some("mybucket"));
    assert!(r.object.is_none());
    assert_eq!(r.content_length(), 0);
    assert_eq!(r.headers().get("x-oss-acl").unwrap().as_str(), "private");
    assert!(r.headers().get("x-oss-hns-status").is_none());
}

#[test]
fn decimal_rendering() {
    assert_eq!(u64_to_dec_string(0).as_str(), "0");
    assert_eq!(u64_to_dec_string(42).as_str(), "42");
    assert_eq!(u64_to_dec_string(1600000000).as_str(), "1600000000");
}
