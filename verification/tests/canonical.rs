use oss_sdk::{canonicalized_resource, get_resources_str, Params};

fn params_of(pairs: &[(&str, Option<&str>)]) -> Params {
    let mut p = Params::new();
    for (k, v) in pairs {
        p.insert(k.to_string(), v.map(|s| s.to_string()));
    }
    p
}

#[test]
fn canonical_selects_and_orders_sub_resources() {
    // only allow-listed keys participate, sorted ascending; a bare key
    // renders without `=`
    let p = params_of(&[("foo", Some("bar")), ("uploads", None), ("acl", Some("x"))]);
    let r = canonicalized_resource(Some("b"), Some("o"), &p);
    assert_eq!(r.as_str(), "/b/o?acl=x&uploads");
}

#[test]
fn canonical_empty_is_root() {
    let p = params_of(&[]);
    let r = canonicalized_resource(None, None, &p);
    assert_eq!(r.as_str(), "/");
}

#[test]
fn canonical_is_insertion_order_independent() {
    let p1 = params_of(&[("uploads", None), ("acl", Some("x")), ("foo", Some("bar"))]);
    let p2 = params_of(&[("foo", Some("bar")), ("acl", Some("x")), ("uploads", None)]);
    let r1 = canonicalized_resource(Some("b"), Some("o"), &p1);
    let r2 = canonicalized_resource(Some("b"), Some("o"), &p2);
    assert_eq!(r1, r2);
}

#[test]
fn canonical_pure_function() {
    let p = params_of(&[("acl", Some("x"))]);
    let r1 = canonicalized_resource(Some("b"), None, &p);
    let r2 = canonicalized_resource(Some("b"), None, &p);
    assert_eq!(r1, r2);
    assert_eq!(r1.as_str(), "/b?acl=x");
}

#[test]
fn resources_str_empty_without_matches() {
    // no matching sub-resource yields no query string at all, not `?`
    let p = params_of(&[("foo", Some("bar")), ("marker", Some("m"))]);
    assert_eq!(get_resources_str(&p).as_str(), "");
}

#[test]
fn resources_str_value_replaced_on_equal_key() {
    let mut p = Params::new();
    p.insert("acl".to_string(), Some("first".to_string()));
    p.insert("acl".to_string(), Some("second".to_string()));
    assert_eq!(get_resources_str(&p).as_str(), "?acl=second");
}

#[test]
fn canonical_bucket_only_and_object_only() {
    let p = params_of(&[]);
    assert_eq!(canonicalized_resource(Some("b"), None, &p).as_str(), "/b");
    assert_eq!(canonicalized_resource(None, Some("o"), &p).as_str(), "/o");
}
