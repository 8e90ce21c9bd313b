//! Data models shared by the hub: the API error taxonomy with its status-code
//! mapping, job events, and the request/response documents of the
//! configuration endpoints.

use vstd::prelude::*;
use vstd::string::StringExecFns;

verus! {

/// The error taxonomy of the service. Each variant carries a human-readable
/// detail message; `status_code` and `public_message` give the exact
/// HTTP-facing mapping.
#[derive(Debug, Clone)]
pub enum ApiError {
    YamlParseError(String),
    FileNotFound(String),
    NotFound(String),
    BadRequest(String),
    IoError(String),
    SerializationError(String),
    DeserializationError(String),
    WebSocketError(String),
    ValidationError(String),
    InternalError(String),
    ExecutionError(String),
    JobExecutionError(String),
}

impl ApiError {
    /// The full detail text of the error: a fixed prefix naming the error
    /// class, followed by the carried message.
    pub open spec fn spec_detail(&self) -> Seq<char> {
        match self {
            ApiError::YamlParseError(m) => "YAML parsing error: "@ + m@,
            ApiError::FileNotFound(m) => "File not found: "@ + m@,
            ApiError::NotFound(m) => "Not found: "@ + m@,
            ApiError::BadRequest(m) => "Bad request: "@ + m@,
            ApiError::IoError(m) => "IO error: "@ + m@,
            ApiError::SerializationError(m) => "Serialization error: "@ + m@,
            ApiError::DeserializationError(m) => "Deserialization error: "@ + m@,
            ApiError::WebSocketError(m) => "WebSocket error: "@ + m@,
            ApiError::ValidationError(m) => "Validation error: "@ + m@,
            ApiError::InternalError(m) => "Internal server error: "@ + m@,
            ApiError::ExecutionError(m) => "Execution error: "@ + m@,
            ApiError::JobExecutionError(m) => "Job execution error: "@ + m@,
        }
    }

    /// The HTTP status code this error maps to.
    pub open spec fn spec_status_code(&self) -> u16 {
        match self {
            ApiError::YamlParseError(_) => 400,
            ApiError::FileNotFound(_) => 404,
            ApiError::NotFound(_) => 404,
            ApiError::BadRequest(_) => 400,
            ApiError::IoError(_) => 500,
            ApiError::SerializationError(_) => 500,
            ApiError::DeserializationError(_) => 400,
            ApiError::WebSocketError(_) => 500,
            ApiError::ValidationError(_) => 400,
            ApiError::InternalError(_) => 500,
            ApiError::ExecutionError(_) => 500,
            ApiError::JobExecutionError(_) => 500,
        }
    }

    /// The message exposed to API clients. Internal failures are masked with
    /// a generic text; client-caused failures carry their full detail.
    pub open spec fn spec_public_message(&self) -> Seq<char> {
        match self {
            ApiError::IoError(_) => "Internal server error"@,
            ApiError::SerializationError(_) => "Serialization failed"@,
            ApiError::DeserializationError(_) => "Invalid request format"@,
            ApiError::WebSocketError(_) => "WebSocket error"@,
            ApiError::InternalError(_) => "Internal server error"@,
            _ => self.spec_detail(),
        }
    }

    pub fn detail(&self) -> (text: String)
        ensures
            text@ == self.spec_detail(),
    {
        match self {
            ApiError::YamlParseError(m) => "YAML parsing error: ".to_owned().concat(m.as_str()),
            ApiError::FileNotFound(m) => "File not found: ".to_owned().concat(m.as_str()),
            ApiError::NotFound(m) => "Not found: ".to_owned().concat(m.as_str()),
            ApiError::BadRequest(m) => "Bad request: ".to_owned().concat(m.as_str()),
            ApiError::IoError(m) => "IO error: ".to_owned().concat(m.as_str()),
            ApiError::SerializationError(m) => "Serialization error: ".to_owned().concat(
                m.as_str(),
            ),
            ApiError::DeserializationError(m) => "Deserialization error: ".to_owned().concat(
                m.as_str(),
            ),
            ApiError::WebSocketError(m) => "WebSocket error: ".to_owned().concat(m.as_str()),
            ApiError::ValidationError(m) => "Validation error: ".to_owned().concat(m.as_str()),
            ApiError::InternalError(m) => "Internal server error: ".to_owned().concat(m.as_str()),
            ApiError::ExecutionError(m) => "Execution error: ".to_owned().concat(m.as_str()),
            ApiError::JobExecutionError(m) => "Job execution error: ".to_owned().concat(
                m.as_str(),
            ),
        }
    }

    pub fn status_code(&self) -> (code: u16)
        ensures
            code == self.spec_status_code(),
    {
        match self {
            ApiError::YamlParseError(_) => 400,
            ApiError::FileNotFound(_) => 404,
            ApiError::NotFound(_) => 404,
            ApiError::BadRequest(_) => 400,
            ApiError::IoError(_) => 500,
            ApiError::SerializationError(_) => 500,
            ApiError::DeserializationError(_) => 400,
            ApiError::WebSocketError(_) => 500,
            ApiError::ValidationError(_) => 400,
            ApiError::InternalError(_) => 500,
            ApiError::ExecutionError(_) => 500,
            ApiError::JobExecutionError(_) => 500,
        }
    }

    pub fn public_message(&self) -> (text: String)
        ensures
            text@ == self.spec_public_message(),
    {
        match self {
            ApiError::IoError(_) => "Internal server error".to_owned(),
            ApiError::SerializationError(_) => "Serialization failed".to_owned(),
            ApiError::DeserializationError(_) => "Invalid request format".to_owned(),
            ApiError::WebSocketError(_) => "WebSocket error".to_owned(),
            ApiError::InternalError(_) => "Internal server error".to_owned(),
            _ => self.detail(),
        }
    }
}

/// A standardized job event for real-time progress tracking. The timestamp is
/// supplied by the caller as seconds since the Unix epoch; the payload is an
/// opaque document carried verbatim.
#[derive(Debug, Clone)]
pub struct JobEvent {
    pub job_id: String,
    pub device: String,
    pub job_type: String,
    pub event_type: String,
    pub status: String,
    pub timestamp: i64,
    pub data: String,
    pub error: Option<String>,
}

impl JobEvent {
    pub fn new(
        job_id: &str,
        device: &str,
        job_type: &str,
        event_type: &str,
        status: &str,
        data: String,
        timestamp: i64,
    ) -> (e: JobEvent)
        ensures
            e.job_id@ == job_id@,
            e.device@ == device@,
            e.job_type@ == job_type@,
            e.event_type@ == event_type@,
            e.status@ == status@,
            e.timestamp == timestamp,
            e.data == data,
            e.error is None,
    {
        JobEvent {
            job_id: job_id.to_owned(),
            device: device.to_owned(),
            job_type: job_type.to_owned(),
            event_type: event_type.to_owned(),
            status: status.to_owned(),
            timestamp,
            data,
            error: None,
        }
    }

    /// A failed job event: both the event type and the status are `"failed"`,
    /// and the error text is carried alongside.
    pub fn with_error(
        job_id: &str,
        device: &str,
        job_type: &str,
        error: &str,
        data: String,
        timestamp: i64,
    ) -> (e: JobEvent)
        ensures
            e.job_id@ == job_id@,
            e.device@ == device@,
            e.job_type@ == job_type@,
            e.event_type@ == "failed"@,
            e.status@ == "failed"@,
            e.timestamp == timestamp,
            e.data == data,
            e.error matches Some(t) && t@ == error@,
    {
        JobEvent {
            job_id: job_id.to_owned(),
            device: device.to_owned(),
            job_type: job_type.to_owned(),
            event_type: "failed".to_owned(),
            status: "failed".to_owned(),
            timestamp,
            data,
            error: Some(error.to_owned()),
        }
    }
}

/// Request to subscribe to job events, optionally filtered.
#[derive(Debug, Clone)]
pub struct JobSubscriptionRequest {
    pub device_filter: Option<String>,
    pub job_type_filter: Option<String>,
}

/// Confirmation of a job subscription.
#[derive(Debug, Clone)]
pub struct JobSubscriptionResponse {
    pub subscription_id: String,
    pub topics: Vec<String>,
}

/// Display settings of the navigation document.
#[derive(Debug, Clone)]
pub struct NavigationSettings {
    pub theme: Option<String>,
    pub layout: Option<String>,
    pub collapsible: Option<bool>,
}

/// One entry of the navigation document; entries nest.
#[derive(Debug)]
pub struct NavigationItem {
    pub id: String,
    pub label: String,
    pub icon: Option<String>,
    pub path: Option<String>,
    pub children: Option<Vec<NavigationItem>>,
    pub metadata: Option<serde_json::Value>,
}

/// The whole navigation document.
#[derive(Debug)]
pub struct NavigationConfig {
    pub items: Vec<NavigationItem>,
    pub settings: Option<NavigationSettings>,
}

/// Request to back up a device configuration.
#[derive(Debug, Clone)]
pub struct BackupRequest {
    pub hostname: String,
    pub username: String,
    pub password: String,
    pub inventory_file: Option<String>,
}

/// Outcome of a backup run.
#[derive(Debug, Clone)]
pub struct BackupResponse {
    pub status: String,
    pub message: String,
    pub logs: Option<String>,
    pub files: Option<serde_json::Value>,
}

/// Request to restore a device configuration from a backup file.
#[derive(Debug, Clone)]
pub struct RestoreRequest {
    pub hostname: String,
    pub username: String,
    pub password: String,
    pub backup_file: String,
}

/// Outcome of a restore run.
#[derive(Debug, Clone)]
pub struct RestoreResponse {
    pub status: String,
    pub message: String,
    pub logs: Option<String>,
}

} // verus!
