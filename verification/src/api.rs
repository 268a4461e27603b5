//! The messages exchanged with the control plane, as plain values.
//!
//! The transport (HTTP and JSON field names) lives with the program that talks
//! to the server; the library only builds and reads these values.
use vstd::prelude::*;
use vstd::string::StringExecFns;

verus! {

/// Asks the control plane to start a device authorization flow.
#[derive(Debug)]
pub struct StartAuthRequest {
    pub device_name: String,
}

/// The codes of a device authorization flow.
#[derive(Debug)]
pub struct StartAuthResponse {
    pub device_code: String,
    pub user_code: String,
    pub verification_url: String,
    pub expires_in: u64,
}

/// Approves a device authorization flow on behalf of an account.
#[derive(Debug)]
pub struct ApproveDeviceAuthRequest {
    pub device_code: String,
    pub actor_email: String,
}

/// Exchanges an approved device code for a token.
#[derive(Debug)]
pub struct ExchangeDeviceAuthRequest {
    pub device_code: String,
}

/// The token issued for an approved device.
#[derive(Debug)]
pub struct DeviceTokenResponse {
    pub token: String,
    pub actor_email: String,
}

/// Registers a device's public keys.
#[derive(Debug)]
pub struct RegisterDeviceRequest {
    pub name: String,
    pub encryption_public_key: String,
    pub signing_public_key: String,
}

/// A registered device.
#[derive(Debug, Clone)]
pub struct DeviceResponse {
    pub id: String,
    pub name: String,
    pub encryption_public_key: String,
    pub signing_public_key: String,
    pub created_at: String,
}

/// Creates a workspace owned through the given device.
#[derive(Debug)]
pub struct CreateWorkspaceRequest {
    pub name: String,
    pub device_id: String,
}

/// A workspace and its members.
#[derive(Debug, Clone)]
pub struct WorkspaceResponse {
    pub id: String,
    pub name: String,
    pub created_at: String,
    pub members: Vec<MemberResponse>,
}

/// A member of a workspace.
#[derive(Debug, Clone)]
pub struct MemberResponse {
    pub id: String,
    pub email: String,
    pub role: String,
}

/// The snapshot's data key, wrapped for one device.
#[derive(Debug, Clone)]
pub struct KeyEnvelope {
    pub device_id: String,
    pub recipient: String,
    pub encrypted_key: String,
}

/// One encrypted secret of a snapshot, with the metadata that travels in clear.
#[derive(Debug, Clone)]
pub struct SecretItem {
    pub name: String,
    pub ciphertext: String,
    pub nonce: String,
    pub aad_hash: String,
    pub value_checksum: String,
}

/// Uploads a signed snapshot.
#[derive(Debug, Clone)]
pub struct CreateSnapshotRequest {
    pub workspace_id: String,
    pub environment: String,
    pub created_by_device: String,
    pub manifest_signature: String,
    pub key_envelopes: Vec<KeyEnvelope>,
    pub secrets: Vec<SecretItem>,
}

/// A stored snapshot.
#[derive(Debug, Clone)]
pub struct SnapshotResponse {
    pub snapshot_id: String,
    pub workspace_id: String,
    pub environment: String,
    pub version: u64,
    pub created_by_device: String,
    pub created_at: String,
    pub manifest_signature: String,
    pub key_envelopes: Vec<KeyEnvelope>,
    pub secrets: Vec<SecretItem>,
}

/// How a local snapshot version compares with the latest one on the server.
#[derive(Debug)]
pub struct EnvironmentStatusResponse {
    pub workspace_id: String,
    pub environment: String,
    pub latest_version: u64,
    pub local_version: u64,
    pub out_of_date: bool,
}

} // verus!

verus! {

/// The address of an endpoint: the base address without its trailing slashes,
/// followed by the path.
pub fn endpoint_url(base_url: &str, path: &str) -> (url: String)
    ensures
        url@ == crate::text::trimmed_end(base_url@, '/') + path@,
{
    let mut url = crate::text::trim_trailing_slashes(base_url);
    url.append(path);
    url
}

/// The path of a workspace.
pub fn workspace_path(workspace_id: &str) -> (path: String)
    ensures
        path@ == "/v1/workspaces/"@ + workspace_id@,
{
    let mut path = "/v1/workspaces/".to_owned();
    path.append(workspace_id);
    path
}

/// The path of the latest snapshot of an environment.
pub fn latest_snapshot_path(workspace_id: &str, environment: &str) -> (path: String)
    ensures
        path@ == "/v1/workspaces/"@ + workspace_id@ + "/environments/"@ + environment@
            + "/snapshots/latest"@,
{
    let mut path = "/v1/workspaces/".to_owned();
    path.append(workspace_id);
    path.append("/environments/");
    path.append(environment);
    path.append("/snapshots/latest");
    path
}

/// The path that asks how a local version of an environment compares with the latest.
pub fn environment_status_path(workspace_id: &str, environment: &str, local_version: u64) -> (path: String)
    ensures
        path@ == "/v1/workspaces/"@ + workspace_id@ + "/environments/"@ + environment@
            + "/status?local_version="@ + crate::text::decimal(local_version as nat),
{
    let mut path = "/v1/workspaces/".to_owned();
    path.append(workspace_id);
    path.append("/environments/");
    path.append(environment);
    path.append("/status?local_version=");
    let digits = crate::text::decimal_text(local_version);
    path.append(digits.as_str());
    path
}

/// How the body of a control plane response is read.
#[derive(Debug)]
pub enum ResponseKind {
    /// A success with a JSON body to decode.
    Body,
    /// A success without content: decoded from an empty JSON object.
    Empty,
    /// A failure, whose JSON body may carry an error text.
    Failure,
}

/// Classifies a response by its HTTP status code: 2xx is a success, 204 one
/// without content.
pub fn response_kind(status: u16) -> (k: ResponseKind)
    ensures
        status == 204 ==> k is Empty,
        (200 <= status <= 299 && status != 204) ==> k is Body,
        !(200 <= status <= 299) ==> k is Failure,
{
    if status == 204 {
        ResponseKind::Empty
    } else if 200 <= status && status <= 299 {
        ResponseKind::Body
    } else {
        ResponseKind::Failure
    }
}

/// The error text of a failed request, from the status as displayed and the
/// `error` text of the response body, if it has one.
pub fn failure_message(status: &str, error: Option<&str>) -> (m: String)
    ensures
        m@ == "control plane request failed ("@ + status@ + "): "@ + match error {
            Some(e) => e@,
            None => "unknown error"@,
        },
{
    let mut m = "control plane request failed (".to_owned();
    m.append(status);
    m.append("): ");
    match error {
        Some(e) => m.append(e),
        None => m.append("unknown error"),
    }
    m
}

} // verus!
