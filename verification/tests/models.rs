use relay_hub::models::{ApiError, JobEvent};

#[test]
fn status_codes_follow_the_taxonomy() {
    assert_eq!(ApiError::YamlParseError("x".to_string()).status_code(), 400);
    assert_eq!(ApiError::FileNotFound("x".to_string()).status_code(), 404);
    assert_eq!(ApiError::NotFound("x".to_string()).status_code(), 404);
    assert_eq!(ApiError::BadRequest("x".to_string()).status_code(), 400);
    assert_eq!(ApiError::IoError("x".to_string()).status_code(), 500);
    assert_eq!(ApiError::SerializationError("x".to_string()).status_code(), 500);
    assert_eq!(ApiError::DeserializationError("x".to_string()).status_code(), 400);
    assert_eq!(ApiError::WebSocketError("x".to_string()).status_code(), 500);
    assert_eq!(ApiError::ValidationError("x".to_string()).status_code(), 400);
    assert_eq!(ApiError::InternalError("x".to_string()).status_code(), 500);
    assert_eq!(ApiError::ExecutionError("x".to_string()).status_code(), 500);
    assert_eq!(ApiError::JobExecutionError("x".to_string()).status_code(), 500);
}

#[test]
fn detail_prefixes_the_error_class() {
    assert_eq!(
        ApiError::YamlParseError("bad indent".to_string()).detail(),
        "YAML parsing error: bad indent"
    );
    assert_eq!(ApiError::FileNotFound("f.yaml".to_string()).detail(), "File not found: f.yaml");
    assert_eq!(ApiError::ValidationError("v".to_string()).detail(), "Validation error: v");
}

#[test]
fn public_message_masks_internal_failures() {
    assert_eq!(ApiError::IoError("secret path".to_string()).public_message(), "Internal server error");
    assert_eq!(
        ApiError::SerializationError("x".to_string()).public_message(),
        "Serialization failed"
    );
    assert_eq!(
        ApiError::DeserializationError("x".to_string()).public_message(),
        "Invalid request format"
    );
    assert_eq!(ApiError::WebSocketError("x".to_string()).public_message(), "WebSocket error");
    assert_eq!(
        ApiError::InternalError("x".to_string()).public_message(),
        "Internal server error"
    );
    // client-caused failures keep their detail
    assert_eq!(
        ApiError::NotFound("thing".to_string()).public_message(),
        "Not found: thing"
    );
    assert_eq!(
        ApiError::BadRequest("why".to_string()).public_message(),
        "Bad request: why"
    );
}

#[test]
fn job_event_new_sets_fields() {
    let e = JobEvent::new("j1", "dev", "backup", "started", "running", "{}".to_string(), 1700000000);
    assert_eq!(e.job_id, "j1");
    assert_eq!(e.device, "dev");
    assert_eq!(e.job_type, "backup");
    assert_eq!(e.event_type, "started");
    assert_eq!(e.status, "running");
    assert_eq!(e.timestamp, 1700000000);
    assert_eq!(e.data, "{}");
    assert!(e.error.is_none());
}

#[test]
fn job_event_with_error_marks_failure() {
    let e = JobEvent::with_error("j1", "dev", "restore", "boom", "{}".to_string(), 1700000001);
    assert_eq!(e.event_type, "failed");
    assert_eq!(e.status, "failed");
    assert_eq!(e.error, Some("boom".to_string()));
}

#[test]
fn request_and_response_documents_hold_their_fields() {
    let sub = relay_hub::models::JobSubscriptionRequest {
        device_filter: Some("router-1".to_string()),
        job_type_filter: None,
    };
    assert_eq!(sub.device_filter.as_deref(), Some("router-1"));

    let resp = relay_hub::models::JobSubscriptionResponse {
        subscription_id: "s1".to_string(),
        topics: vec!["job:1".to_string(), "job:2".to_string()],
    };
    assert_eq!(resp.topics.len(), 2);

    let nav = relay_hub::models::NavigationSettings {
        theme: Some("dark".to_string()),
        layout: None,
        collapsible: Some(true),
    };
    assert_eq!(nav.collapsible, Some(true));

    let backup = relay_hub::models::BackupRequest {
        hostname: "h".to_string(),
        username: "u".to_string(),
        password: "pw".to_string(),
        inventory_file: None,
    };
    assert_eq!(backup.hostname, "h");

    let restore = relay_hub::models::RestoreRequest {
        hostname: "h".to_string(),
        username: "u".to_string(),
        password: "pw".to_string(),
        backup_file: "b.cfg".to_string(),
    };
    assert_eq!(restore.backup_file, "b.cfg");

    let outcome = relay_hub::models::RestoreResponse {
        status: "ok".to_string(),
        message: "restored".to_string(),
        logs: None,
    };
    assert_eq!(outcome.status, "ok");
}
