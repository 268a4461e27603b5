use shield_cli::api::{
    endpoint_url, environment_status_path, failure_message, latest_snapshot_path, response_kind,
    workspace_path, KeyEnvelope, ResponseKind, SecretItem,
};
use shield_cli::json::{aad_bytes, manifest_payload, push_bytes, push_json_string};
use shield_cli::text::{decimal_text, text_contains, trim_trailing_slashes};

#[test]
fn json_strings_are_escaped_like_serde_json() {
    let mut out = Vec::new();
    push_json_string(&mut out, "a\"b\\c\n\t\r\u{1}\u{8}\u{c}/é");
    assert_eq!(
        String::from_utf8(out).unwrap(),
        "\"a\\\"b\\\\c\\n\\t\\r\\u0001\\b\\f/é\""
    );
}

#[test]
fn push_bytes_appends() {
    let mut out = vec![1u8, 2];
    push_bytes(&mut out, &[3, 4]);
    assert_eq!(out, vec![1, 2, 3, 4]);
}

#[test]
fn manifest_payload_has_fixed_field_order() {
    let envelopes = vec![KeyEnvelope {
        device_id: "device-1".to_string(),
        recipient: "age1xyz".to_string(),
        encrypted_key: "a2V5".to_string(),
    }];
    let secrets = vec![SecretItem {
        name: "DATABASE_URL".to_string(),
        ciphertext: "Y3Q=".to_string(),
        nonce: "bm9uY2U=".to_string(),
        aad_hash: "aa".to_string(),
        value_checksum: "bb".to_string(),
    }];
    let payload = manifest_payload("workspace-1", "development", "device-1", &envelopes, &secrets);
    assert_eq!(
        String::from_utf8(payload).unwrap(),
        [
            "{\"workspace_id\":\"workspace-1\",\"environment\":\"development\",",
            "\"created_by_device\":\"device-1\",",
            "\"key_envelopes\":[{\"deviceId\":\"device-1\",\"recipient\":\"age1xyz\",\"encryptedKey\":\"a2V5\"}],",
            "\"secrets\":[{\"name\":\"DATABASE_URL\",\"ciphertext\":\"Y3Q=\",\"nonce\":\"bm9uY2U=\",",
            "\"aadHash\":\"aa\",\"valueChecksum\":\"bb\"}]}"
        ]
        .concat()
    );
}

#[test]
fn manifest_payload_of_empty_lists() {
    let payload = manifest_payload("w", "e", "d", &[], &[]);
    assert_eq!(
        String::from_utf8(payload).unwrap(),
        "{\"workspace_id\":\"w\",\"environment\":\"e\",\"created_by_device\":\"d\",\"key_envelopes\":[],\"secrets\":[]}"
    );
}

#[test]
fn aad_joins_with_colons() {
    assert_eq!(
        aad_bytes("workspace-1", "development", "DATABASE_URL"),
        b"workspace-1:development:DATABASE_URL".to_vec()
    );
    assert_eq!(aad_bytes("", "", ""), b"::".to_vec());
}

#[test]
fn text_contains_finds_substrings() {
    assert!(text_contains("control plane request failed (409 Conflict): pending", "409"));
    assert!(!text_contains("control plane request failed (404 Not Found)", "409"));
    assert!(text_contains("abc", ""));
    assert!(!text_contains("", "a"));
    assert!(text_contains("40409", "409"));
}

#[test]
fn trailing_slashes_are_trimmed() {
    assert_eq!(trim_trailing_slashes("http://host:8080///"), "http://host:8080");
    assert_eq!(trim_trailing_slashes("http://host"), "http://host");
    assert_eq!(trim_trailing_slashes("///"), "");
    assert_eq!(trim_trailing_slashes("a/b"), "a/b");
}

#[test]
fn decimal_text_writes_numbers() {
    assert_eq!(decimal_text(0), "0");
    assert_eq!(decimal_text(7), "7");
    assert_eq!(decimal_text(10), "10");
    assert_eq!(decimal_text(1234567890), "1234567890");
    assert_eq!(decimal_text(u64::MAX), "18446744073709551615");
}

#[test]
fn endpoint_urls_and_paths() {
    assert_eq!(
        endpoint_url("http://127.0.0.1:8080/", "/v1/devices"),
        "http://127.0.0.1:8080/v1/devices"
    );
    assert_eq!(endpoint_url("http://api", "/v1/snapshots"), "http://api/v1/snapshots");
    assert_eq!(workspace_path("ws-1"), "/v1/workspaces/ws-1");
    assert_eq!(
        latest_snapshot_path("ws-1", "prod"),
        "/v1/workspaces/ws-1/environments/prod/snapshots/latest"
    );
    assert_eq!(
        environment_status_path("ws-1", "prod", 42),
        "/v1/workspaces/ws-1/environments/prod/status?local_version=42"
    );
    assert_eq!(
        environment_status_path("ws-1", "prod", 0),
        "/v1/workspaces/ws-1/environments/prod/status?local_version=0"
    );
}

#[test]
fn responses_are_classified_by_status() {
    assert!(matches!(response_kind(200), ResponseKind::Body));
    assert!(matches!(response_kind(201), ResponseKind::Body));
    assert!(matches!(response_kind(204), ResponseKind::Empty));
    assert!(matches!(response_kind(299), ResponseKind::Body));
    assert!(matches!(response_kind(199), ResponseKind::Failure));
    assert!(matches!(response_kind(300), ResponseKind::Failure));
    assert!(matches!(response_kind(409), ResponseKind::Failure));
}

#[test]
fn failure_messages_carry_status_and_error() {
    assert_eq!(
        failure_message("409 Conflict", Some("authorization pending")),
        "control plane request failed (409 Conflict): authorization pending"
    );
    assert_eq!(
        failure_message("500 Internal Server Error", None),
        "control plane request failed (500 Internal Server Error): unknown error"
    );
}
