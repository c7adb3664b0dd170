use postero::protocol::{
    classify_delete_status, classify_redirect, classify_simple_status, classify_upload_auth,
    classify_write_status, is_success_status, next_default_backoff, rate_limit_waits,
    upload_method, version_from_header, write_failure_error, RedirectOutcome, UploadMethod,
    WriteOutcome,
};
use postero::error::Error;
use postero::types::{SyncStatus, UploadAuthorizationResponse};

#[test]
fn write_status_success_takes_header_version() {
    let r = classify_write_status(200, Some(42), 10);
    assert_eq!(r, WriteOutcome::Accepted { new_version: 42 });
}

#[test]
fn write_status_success_without_header_increments_baseline() {
    let r = classify_write_status(201, None, 10);
    assert_eq!(r, WriteOutcome::Accepted { new_version: 11 });
}

#[test]
fn write_status_not_modified_keeps_version() {
    assert_eq!(classify_write_status(304, Some(99), 10), WriteOutcome::NotModified);
}

#[test]
fn write_status_precondition_failure_is_conflict() {
    assert_eq!(classify_write_status(412, None, 10), WriteOutcome::Conflict);
}

#[test]
fn write_status_payload_too_large() {
    assert_eq!(classify_write_status(413, None, 10), WriteOutcome::TooLarge);
}

#[test]
fn write_status_rate_limited() {
    assert_eq!(classify_write_status(429, None, 10), WriteOutcome::RateLimited);
    assert_eq!(classify_write_status(503, None, 10), WriteOutcome::RateLimited);
}

#[test]
fn write_status_other_codes_are_rejected() {
    assert_eq!(classify_write_status(500, None, 10), WriteOutcome::Rejected { code: 500 });
}

#[test]
fn delete_status_takes_204() {
    assert_eq!(classify_delete_status(204, Some(21), 20), WriteOutcome::Accepted {
        new_version: 21
    });
    assert_eq!(classify_delete_status(204, None, 20), WriteOutcome::Accepted { new_version: 21 });
    assert_eq!(classify_delete_status(412, None, 20), WriteOutcome::Conflict);
}

#[test]
fn redirect_302_with_location() {
    let r = classify_redirect(302, Some("https://files.example/x".to_string()));
    assert_eq!(r, RedirectOutcome::Redirect { url: "https://files.example/x".to_string() });
}

#[test]
fn redirect_302_without_location_is_bad() {
    assert_eq!(classify_redirect(302, None), RedirectOutcome::BadRedirect);
}

#[test]
fn redirect_404_is_missing_blob() {
    assert_eq!(classify_redirect(404, None), RedirectOutcome::Missing);
}

#[test]
fn redirect_other_rejected() {
    assert_eq!(classify_redirect(400, None), RedirectOutcome::Rejected { code: 400 });
}

#[test]
fn simple_status_success_range() {
    assert!(classify_simple_status(200, String::new()).is_ok());
    assert!(classify_simple_status(204, String::new()).is_ok());
    assert!(is_success_status(299));
    assert!(!is_success_status(300));
    match classify_simple_status(500, "boom".to_string()) {
        Err(Error::Api { code, message }) => {
            assert_eq!(code, 500);
            assert_eq!(message, "boom");
        }
        other => panic!("expected an API error, got {:?}", other),
    }
}

#[test]
fn upload_auth_200_means_content_exists() {
    let a = classify_upload_auth(200, None, String::new()).unwrap();
    assert!(a.exists);
    assert!(a.upload_url.is_none());
}

#[test]
fn upload_auth_201_hands_back_parameters() {
    let body = UploadAuthorizationResponse {
        url: "https://store.example/put".to_string(),
        upload_key: "k1".to_string(),
        params: vec![("acl".to_string(), "private".to_string())],
    };
    let a = classify_upload_auth(201, Some(body), String::new()).unwrap();
    assert!(!a.exists);
    assert_eq!(a.upload_url.unwrap(), "https://store.example/put");
    assert_eq!(a.upload_key.unwrap(), "k1");
    assert_eq!(a.params.unwrap()[0].1, "private");
}

#[test]
fn upload_auth_201_without_body_is_validation_error() {
    match classify_upload_auth(201, None, String::new()) {
        Err(Error::Validation(_)) => {}
        other => panic!("expected a validation error, got {:?}", other),
    }
}

#[test]
fn upload_auth_other_codes_fail() {
    match classify_upload_auth(413, None, "too large".to_string()) {
        Err(Error::Api { code, .. }) => assert_eq!(code, 413),
        other => panic!("expected an API error, got {:?}", other),
    }
}

#[test]
fn rate_limit_waits_read_both_headers() {
    assert_eq!(rate_limit_waits(Some(7), Some(3)), (7, 3));
    assert_eq!(rate_limit_waits(None, None), (0, 0));
}

#[test]
fn default_backoff_doubles_and_caps_at_sixty() {
    assert_eq!(next_default_backoff(0), 1);
    assert_eq!(next_default_backoff(1), 2);
    assert_eq!(next_default_backoff(8), 16);
    assert_eq!(next_default_backoff(30), 60);
    assert_eq!(next_default_backoff(40), 60);
}

#[test]
fn version_header_falls_back_to_caller() {
    assert_eq!(version_from_header(Some(12), 5), 12);
    assert_eq!(version_from_header(None, 5), 5);
}

#[test]
fn upload_method_post_only_for_new() {
    assert_eq!(upload_method(SyncStatus::New), UploadMethod::Post);
    assert_eq!(upload_method(SyncStatus::Modified), UploadMethod::Put);
    assert_eq!(upload_method(SyncStatus::Synced), UploadMethod::Put);
}

#[test]
fn failing_outcomes_surface_their_errors() {
    assert!(write_failure_error(&WriteOutcome::Accepted { new_version: 5 }).is_none());
    assert!(write_failure_error(&WriteOutcome::NotModified).is_none());
    match write_failure_error(&WriteOutcome::Conflict) {
        Some(Error::Api { code, .. }) => assert_eq!(code, 412),
        other => panic!("expected a 412 API error, got {:?}", other),
    }
    match write_failure_error(&WriteOutcome::TooLarge) {
        Some(Error::Api { code, .. }) => assert_eq!(code, 413),
        other => panic!("expected a 413 API error, got {:?}", other),
    }
    match write_failure_error(&WriteOutcome::RateLimited) {
        Some(Error::RateLimit { retry_after }) => assert!(retry_after.is_none()),
        other => panic!("expected a rate-limit error, got {:?}", other),
    }
    match write_failure_error(&WriteOutcome::Rejected { code: 500 }) {
        Some(Error::Api { code, .. }) => assert_eq!(code, 500),
        other => panic!("expected a 500 API error, got {:?}", other),
    }
}
