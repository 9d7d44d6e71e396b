use backlog_sync::errors::AppError;
use backlog_sync::status::{classify, map_status_code, Outcome};

#[test]
fn status_mapping_works() {
    let err = map_status_code(429).expect_err("should map to error");
    assert!(matches!(err, AppError::RateLimit));
}

#[test]
fn status_401_maps_to_auth_invalid() {
    let err = map_status_code(401).expect_err("should map to error");
    assert!(matches!(err, AppError::AuthInvalid));
}

#[test]
fn status_403_maps_to_forbidden() {
    let err = map_status_code(403).expect_err("should map to error");
    assert!(matches!(err, AppError::Forbidden));
}

#[test]
fn status_200_is_ok() {
    assert!(map_status_code(200).is_ok());
}

#[test]
fn status_404_maps_to_not_found() {
    let err = map_status_code(404).expect_err("should map to error");
    assert!(matches!(err, AppError::NotFound));
}

#[test]
fn server_errors_map_to_network() {
    for status in [500u16, 503, 599] {
        let err = map_status_code(status).expect_err("should map to error");
        assert!(matches!(err, AppError::Network(_)));
    }
    match map_status_code(500) {
        Err(AppError::Network(detail)) => assert_eq!(detail, "server error: 500"),
        other => panic!("unexpected mapping: {:?}", other),
    }
}

#[test]
fn other_statuses_map_to_unknown() {
    for status in [100u16, 201, 302, 418, 499, 600] {
        let err = map_status_code(status).expect_err("should map to error");
        assert!(matches!(err, AppError::Unknown(_)));
    }
    match map_status_code(302) {
        Err(AppError::Unknown(detail)) => assert_eq!(detail, "unexpected status: 302"),
        other => panic!("unexpected mapping: {:?}", other),
    }
}

#[test]
fn classify_success_carries_body() {
    match classify(200, "payload".to_string()) {
        Outcome::Success(body) => assert_eq!(body, "payload"),
        other => panic!("unexpected outcome: {:?}", other),
    }
}

#[test]
fn classify_is_deterministic() {
    for status in 0u16..700 {
        let a = classify(status, String::new());
        let b = classify(status, String::new());
        assert_eq!(format!("{:?}", a), format!("{:?}", b));
    }
}
