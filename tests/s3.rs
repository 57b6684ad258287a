use opendal::error::{Error, Kind};
use opendal::ops::{range_header, resolve_window, OpRead};
use opendal::s3::{
    check_ranged, delete_outcome, get_abs_path, normalize_endpoint, parse_error, plan_read,
    probe_result, Builder, Credential, ReadPlan, RequestFailure,
};

#[test]
fn abs_path_rules() {
    assert_eq!(get_abs_path("root", "a/b"), "root/a/b");
    assert_eq!(get_abs_path("", "a/b"), "a/b");
    assert_eq!(get_abs_path("root", "/a/b"), "a/b");
}

#[test]
fn endpoint_gets_defaults() {
    assert_eq!(normalize_endpoint("s3.amazonaws.com").unwrap(), "https://s3.amazonaws.com/");
    assert_eq!(normalize_endpoint("http://127.0.0.1:3000").unwrap(), "http://127.0.0.1:3000/");
    assert_eq!(
        normalize_endpoint("https://s3.amazonaws.com/x").unwrap(),
        "https://s3.amazonaws.com/x"
    );
}

#[test]
fn endpoint_without_authority_is_invalid() {
    match normalize_endpoint("/only/path") {
        Err(Error::BackendConfigurationInvalid { key, value }) => {
            assert_eq!(key, "endpoint");
            assert_eq!(value, "/only/path");
        }
        _ => panic!("expected a configuration error"),
    }
}

#[test]
fn prepare_requires_bucket() {
    let b = Builder::default();
    match b.prepare() {
        Err(Error::BackendConfigurationInvalid { key, value }) => {
            assert_eq!(key, "bucket");
            assert_eq!(value, "");
        }
        _ => panic!("expected a configuration error"),
    }
}

#[test]
fn prepare_refuses_token() {
    let mut b = Builder::default();
    b.bucket("data");
    b.credential(Credential::Token("t".to_string()));
    match b.prepare() {
        Err(Error::BackendConfigurationInvalid { key, .. }) => assert_eq!(key, "credential"),
        _ => panic!("expected a configuration error"),
    }
}

#[test]
fn prepare_collects_settings() {
    let mut b = Builder::default();
    b.bucket("data");
    b.root("/base");
    b.region("");
    b.endpoint("minio.local:9000");
    b.credential(Credential::HMAC {
        access_key_id: "id".to_string(),
        secret_access_key: "SECRET-REDACTED".to_string(),
    });
    let s = b.prepare().unwrap();
    assert_eq!(s.bucket, "data");
    assert_eq!(s.root, "base");
    assert_eq!(s.region, None);
    assert_eq!(s.keys, Some(("id".to_string(), "SECRET-REDACTED".to_string())));
    assert_eq!(s.endpoint, Some("https://minio.local:9000/".to_string()));
}

#[test]
fn prepare_without_root() {
    let mut b = Builder::default();
    b.bucket("data");
    b.region("us-east-1");
    let s = b.prepare().unwrap();
    assert_eq!(s.root, "");
    assert_eq!(s.region, Some("us-east-1".to_string()));
    assert_eq!(s.endpoint, None);
    assert_eq!(s.keys, None);
}

#[test]
fn request_failures_classified() {
    assert_eq!(parse_error(RequestFailure::NotFound, "p").kind(), Kind::ObjectNotExist);
    match parse_error(RequestFailure::Service, "p") {
        Error::Unexpected(m) => assert_eq!(m, "p"),
        _ => panic!("expected unexpected"),
    }
    match parse_error(RequestFailure::Transport("timed out".to_string()), "p") {
        Error::Unexpected(m) => assert_eq!(m, "timed out"),
        _ => panic!("expected unexpected"),
    }
}

#[test]
fn windows_resolve() {
    assert_eq!(resolve_window(13, None, None), Some((0, 13)));
    assert_eq!(resolve_window(13, Some(7), None), Some((7, 13)));
    assert_eq!(resolve_window(13, Some(14), None), None);
    assert_eq!(resolve_window(13, None, Some(5)), Some((0, 5)));
    assert_eq!(resolve_window(13, None, Some(50)), Some((0, 13)));
    assert_eq!(resolve_window(13, Some(7), Some(5)), Some((7, 12)));
    assert_eq!(resolve_window(13, Some(7), Some(7)), None);
    assert_eq!(resolve_window(u64::MAX, Some(u64::MAX), Some(1)), None);
    let op = OpRead::new("p", Some(1), None);
    assert_eq!(op.path, "p");
    assert_eq!(op.offset, Some(1));
}

#[test]
fn range_headers() {
    assert_eq!(range_header(None, None), None);
    assert_eq!(range_header(Some(7), None), Some("bytes=7-".to_string()));
    assert_eq!(range_header(None, Some(5)), Some("bytes=0-4".to_string()));
    assert_eq!(range_header(Some(7), Some(5)), Some("bytes=7-11".to_string()));
    assert_eq!(range_header(Some(1234567), Some(1)), Some("bytes=1234567-1234567".to_string()));
    assert_eq!(range_header(Some(3), Some(0)), None);
    assert_eq!(range_header(Some(u64::MAX), Some(2)), None);
    assert_eq!(
        range_header(Some(0), Some(u64::MAX)),
        Some(format!("bytes=0-{}", u64::MAX - 1))
    );
}

#[test]
fn builder_setters_chain() {
    let mut b = Builder::default();
    b.bucket("data").root("").region("eu").endpoint("");
    let s = b.prepare().unwrap();
    assert_eq!(s.root, "");
    assert_eq!(s.region, Some("eu".to_string()));
    assert_eq!(s.endpoint, None);
}

#[test]
fn delete_outcomes() {
    assert!(delete_outcome(None, "p").is_ok());
    assert!(delete_outcome(Some(RequestFailure::NotFound), "p").is_ok());
    assert_eq!(delete_outcome(Some(RequestFailure::Service), "p").unwrap_err().kind(), Kind::Unexpected);
    match delete_outcome(Some(RequestFailure::Transport("reset".to_string())), "p") {
        Err(Error::Unexpected(m)) => assert_eq!(m, "reset"),
        _ => panic!("expected the failure"),
    }
}

#[test]
fn read_plans() {
    assert!(matches!(plan_read(None, None), ReadPlan::Whole));
    assert!(matches!(plan_read(Some(3), Some(0)), ReadPlan::Probe));
    assert!(matches!(plan_read(None, Some(0)), ReadPlan::Probe));
    assert!(matches!(plan_read(Some(u64::MAX), Some(2)), ReadPlan::OutOfRange));
    match plan_read(Some(7), Some(5)) {
        ReadPlan::Range(h) => assert_eq!(h, "bytes=7-11"),
        _ => panic!("expected a range"),
    }
    match plan_read(Some(7), None) {
        ReadPlan::Range(h) => assert_eq!(h, "bytes=7-"),
        _ => panic!("expected a range"),
    }
}

#[test]
fn probe_and_range_checks() {
    assert_eq!(probe_result(Some(13), 13, "p").unwrap(), Vec::<u8>::new());
    assert_eq!(probe_result(None, 0, "p").unwrap(), Vec::<u8>::new());
    assert_eq!(probe_result(Some(14), 13, "p").unwrap_err().kind(), Kind::Unexpected);
    assert_eq!(check_ranged(Some(7), Some(5), b"World".to_vec(), "p").unwrap(), b"World".to_vec());
    assert_eq!(check_ranged(Some(7), Some(10), b"World!".to_vec(), "p").unwrap_err().kind(), Kind::Unexpected);
    assert_eq!(check_ranged(None, Some(10), b"abc".to_vec(), "p").unwrap(), b"abc".to_vec());
}
