use oss_sdk::{compute_signature, HeaderMap, Kind, Metas, Method, OSSClient, Params, Request,
    Schema};

fn client() -> OSSClient {
    OSSClient::new("beijing", None, Some("mybucket"), "myid", "mysecret")
}

#[test]
fn signature_known_vector() {
    let s = compute_signature("key", "The quick brown fox jumps over the lazy dog");
    assert_eq!(s.as_str(), "3nybhbi3iqa8ino29wqQcBydtNk=");
}

#[test]
fn signature_deterministic() {
    // two independent invocations over the same signing string and secret
    // produce byte-identical signatures
    let s1 = compute_signature("mysecret", "PUT\n\n\nWed, 07 Oct 2020 14:47:53 GMT\n/");
    let s2 = compute_signature("mysecret", "PUT\n\n\nWed, 07 Oct 2020 14:47:53 GMT\n/");
    assert_eq!(s1, s2);
}

#[test]
fn sign_with_date_exact_authorization() {
    let cli = client();
    let mut headers = HeaderMap::new();
    headers.insert("Content-Type", "text/plain").unwrap();
    let mut params = Params::new();
    params.insert("acl".to_string(), Some("x".to_string()));
    let mut rqst = Request::new(
        Method::Put,
        Some("mybucket".to_string()),
        Some("obj.txt".to_string()),
        Schema::Https,
        None,
        Some(params),
        Some(headers),
    );
    let mut metas = Metas::new();
    metas.insert("test-meta-key".to_string(), "test-meta-val".to_string());
    rqst.add_metas(Some(&metas)).unwrap();
    cli.sign_with_date(&mut rqst, "Wed, 07 Oct 2020 14:47:53 GMT").unwrap();

    let date = rqst.headers().get("date").unwrap();
    assert_eq!(date.as_str(), "Wed, 07 Oct 2020 14:47:53 GMT");
    let meta = rqst.headers().get("x-oss-meta-test-meta-key").unwrap();
    assert_eq!(meta.as_str(), "test-meta-val");
    let auth = rqst.headers().get("authorization").unwrap();
    assert_eq!(auth.as_str(), "OSS myid:cdOM3XVVsIYCUOBXPZrfBXWqJ20=");
}

#[test]
fn different_requests_different_signatures() {
    // a PUT and a GET of the same object, signed under the same key with
    // different dates, carry different authorization headers
    let cli = client();
    let mut params = Params::new();
    params.insert("acl".to_string(), Some("x".to_string()));

    let mut headers = HeaderMap::new();
    headers.insert("Content-Type", "text/plain").unwrap();
    let mut put = Request::new(
        Method::Put,
        Some("mybucket".to_string()),
        Some("obj.txt".to_string()),
        Schema::Https,
        None,
        Some(params.clone()),
        Some(headers),
    );
    let mut metas = Metas::new();
    metas.insert("test-meta-key".to_string(), "test-meta-val".to_string());
    put.add_metas(Some(&metas)).unwrap();
    cli.sign_with_date(&mut put, "Wed, 07 Oct 2020 14:47:53 GMT").unwrap();

    let mut get = Request::new(
        Method::Get,
        Some("mybucket".to_string()),
        Some("obj.txt".to_string()),
        Schema::Https,
        None,
        Some(params),
        None,
    );
    cli.sign_with_date(&mut get, "Thu, 08 Oct 2020 14:47:53 GMT").unwrap();

    let a1 = put.headers().get("authorization").unwrap().clone();
    let a2 = get.headers().get("authorization").unwrap().clone();
    assert_ne!(a1, a2);
    assert_eq!(a2.as_str(), "OSS myid:Ou6lJi2YSH6CNvQEY1eiX7wmAkQ=");
}

#[test]
fn sign_with_invalid_date_fails() {
    let cli = client();
    let mut rqst = Request::new(Method::Get, None, None, Schema::Https, None, None, None);
    let err = cli.sign_with_date(&mut rqst, "bad\u{7f}date").unwrap_err();
    assert_eq!(err.kind, Kind::InvalidHeader);
    // nothing was inserted
    assert!(rqst.headers().get("date").is_none());
    assert!(rqst.headers().get("authorization").is_none());
}

#[test]
fn add_metas_rejects_illegal_key() {
    let mut rqst = Request::new(Method::Put, None, None, Schema::Https, None, None, None);
    let mut metas = Metas::new();
    metas.insert("bad key".to_string(), "v".to_string());
    let err = rqst.add_metas(Some(&metas)).unwrap_err();
    assert_eq!(err.kind, Kind::InvalidHeader);
}

#[test]
fn header_map_validates_and_lowercases() {
    let mut h = HeaderMap::new();
    h.insert("X-OSS-Meta-A", "1").unwrap();
    assert_eq!(h.get("x-oss-meta-a").unwrap().as_str(), "1");
    assert_eq!(h.get("X-OSS-META-A").unwrap().as_str(), "1");
    let err = h.insert("x-test", "del\u{7f}ete").unwrap_err();
    assert_eq!(err.kind, Kind::InvalidHeader);
    assert!(h.get("x-test").is_none());
}

#[test]
fn signed_url_exact() {
    let cli = client();
    let mut params = Params::new();
    params.insert("acl".to_string(), Some("x".to_string()));
    let url = cli.get_signed_url(Some("obj.txt"), "GET", 1600000000, &params, None);
    assert_eq!(
        url.as_str(),
        "https://mybucket.oss-cn-beijing.aliyuncs.com/obj.txt?OSSAccessKeyId=myid&Expires=1600000000&Signature=0aJ8FXnwjy8zdwUPzzgf56egIr4="
    );
}
