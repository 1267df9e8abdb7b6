//! Data exchanged with the user interface: collections, environments, request
//! definitions and the results of sending requests.
use vstd::prelude::*;
use std::collections::HashMap;

verus! {

/// A header of a request definition.
#[derive(Debug, Clone, PartialEq, Eq)]
pub struct HeaderEntry {
    pub name: String,
    pub value: String,
    pub enabled: bool,
}

/// Settings of a workspace.
#[derive(Debug, Clone, Default)]
pub struct WorkspaceSettings {
    pub verify_tls: bool,
    pub timeout_ms: Option<u64>,
}

/// A query parameter of a request definition.
#[derive(Debug, Clone, PartialEq, Eq)]
pub struct KeyValueEntry {
    pub key: String,
    pub value: String,
    pub enabled: bool,
}

/// The body of a request definition.
#[derive(Debug, Clone, Default)]
pub enum RequestBody {
    /// No body (serialised as `none`).
    #[default]
    NoBody,
    Raw { content_type: String, text: String },
}

/// Authentication of a request definition.
#[derive(Debug, Clone, Default)]
pub enum AuthConfig {
    /// No authentication (serialised as `none`).
    #[default]
    NoAuth,
    Basic { username: String, password: String },
    Bearer { token: String },
    /// An API key sent as a header, or as a query parameter when `add_to` is `query`.
    ApiKey { key_name: String, key_value: String, add_to: String },
}

/// A variable of an environment.
#[derive(Debug, Clone, PartialEq, Eq)]
pub struct EnvVariable {
    pub key: String,
    pub value: String,
    pub secret: bool,
    pub enabled: bool,
}

#[derive(Debug, Clone)]
pub struct WorkspaceDto {
    pub id: String,
    pub name: String,
    pub base_headers: Vec<HeaderEntry>,
    pub settings: WorkspaceSettings,
    pub created_at: i64,
    pub updated_at: i64,
}

#[derive(Debug, Clone)]
pub struct EnvironmentDto {
    pub id: String,
    pub workspace_id: String,
    pub name: String,
    pub variables: Vec<EnvVariable>,
}

#[derive(Debug, Clone)]
pub struct CreateWorkspaceInput {
    pub name: String,
    pub base_headers: Vec<HeaderEntry>,
    pub settings: WorkspaceSettings,
}

#[derive(Debug, Clone)]
pub struct UpdateWorkspaceInput {
    pub name: Option<String>,
    pub base_headers: Option<Vec<HeaderEntry>>,
    pub settings: Option<WorkspaceSettings>,
}

#[derive(Debug, Clone)]
pub struct CreateFolderInput {
    pub workspace_id: String,
    pub parent_folder_id: Option<String>,
    pub name: String,
}

#[derive(Debug, Clone)]
pub struct CreateRequestInput {
    pub workspace_id: String,
    pub folder_id: Option<String>,
    pub name: String,
    pub method: String,
    pub url: String,
    pub headers: Vec<HeaderEntry>,
    pub query_params: Vec<KeyValueEntry>,
    pub body: RequestBody,
    pub auth: AuthConfig,
}

#[derive(Debug, Clone)]
pub struct CreateEnvironmentInput {
    pub workspace_id: String,
    pub name: String,
    pub variables: Vec<EnvVariable>,
}

#[derive(Debug, Clone)]
pub struct UpdateEnvironmentInput {
    pub name: Option<String>,
    pub variables: Option<Vec<EnvVariable>>,
}

/// Input of `send_request`: a stored request or an ad-hoc one, an optional environment,
/// and whether to send it through the local proxy.
#[derive(Debug, Clone)]
pub struct SendRequestInput {
    pub request_id: Option<String>,
    pub ad_hoc: Option<AdHocRequest>,
    pub environment_id: Option<String>,
    pub via_proxy: Option<bool>,
}

/// A request sent without being stored.
#[derive(Debug, Clone)]
pub struct AdHocRequest {
    pub method: String,
    pub url: String,
    pub headers: Vec<HeaderEntry>,
    pub query_params: Vec<KeyValueEntry>,
    pub body: RequestBody,
    pub auth: AuthConfig,
}

/// A request ready to be sent (variables already substituted).
#[derive(Debug, Clone)]
pub struct ExecuteRequestInput {
    pub method: String,
    pub url: String,
    pub headers: Vec<HeaderEntry>,
    pub query_params: Vec<KeyValueEntry>,
    pub body: RequestBody,
    pub auth: AuthConfig,
}

/// The outcome of sending a request.
#[derive(Debug, Clone)]
pub struct ExecutionResult {
    pub status: u16,
    pub status_text: String,
    pub headers: HashMap<String, String>,
    pub body: String,
    pub body_size: usize,
    pub content_type: Option<String>,
    pub total_time_ms: u64,
    pub success: bool,
    pub error: Option<String>,
}

/// Answer of `ping()`.
#[derive(Debug, Clone)]
pub struct PongResponse {
    pub message: String,
    pub server_time_ms: i64,
}

/// The root certificate, for the user to install.
#[derive(Debug, Clone)]
pub struct CaCertInfo {
    pub pem: String,
    pub fingerprint: String,
    pub common_name: String,
}

/// Input of `start_proxy()`: the port to listen on (absent or 0: any free port).
#[derive(Debug, Clone)]
pub struct StartProxyInput {
    pub port: Option<u16>,
}

} // verus!
