use codex_control::hooks;
use codex_control::hooks::{
    HookManagementError, HookMetadata, HookTrustUpdate, HooksListEntry, HooksListResponse,
};
use codex_control::json::Json;
use codex_control::path::FilePath;
use codex_control::rpc::RequestError;

fn hook() -> HookMetadata {
    HookMetadata {
        key: "hook-key".to_owned(),
        event_name: "userPromptSubmit".to_owned(),
        command: Some("python3 bridge.py".to_owned()),
        source_path: FilePath::from_text("/tmp/hooks.json"),
        enabled: true,
        current_hash: "sha256:abc".to_owned(),
        trust_status: "untrusted".to_owned(),
        execution_mode: "sync".to_owned(),
    }
}

fn update(key: &str, hash: &str) -> HookTrustUpdate {
    HookTrustUpdate {
        key: key.to_owned(),
        current_hash: hash.to_owned(),
    }
}

#[test]
fn lists_and_trusts_hooks_through_typed_operations() {
    let mut requests: Vec<(String, Json)> = Vec::new();
    let params = hooks::list(&vec![FilePath::from_text("/tmp/project")]);
    requests.push((hooks::LIST.to_owned(), params));
    let listed = hooks::list_after(Ok(Ok(HooksListResponse {
        data: vec![HooksListEntry {
            cwd: FilePath::from_text("/tmp/project"),
            hooks: vec![hook()],
            warnings: Vec::new(),
            errors: Vec::new(),
        }],
    })))
    .unwrap();
    assert_eq!(listed.data[0].hooks[0].key, "hook-key");

    let params = hooks::trust(&vec![update("hook-key", "sha256:abc")]);
    requests.push((hooks::WRITE.to_owned(), params));
    hooks::trust_after(&Ok(Json::object())).unwrap();

    assert_eq!(requests[0].0, "hooks/list");
    assert_eq!(requests[0].1.to_text(), "{\"cwds\":[\"/tmp/project\"]}");
    assert_eq!(requests[1].0, "config/batchWrite");
    assert_eq!(
        requests[1].1.get_items("edits").unwrap()[0]
            .get("value")
            .unwrap()
            .get("hook-key")
            .unwrap()
            .get_text("trusted_hash")
            .unwrap(),
        "sha256:abc"
    );
    assert_eq!(
        requests[1].1.to_text(),
        "{\"edits\":[{\"keyPath\":\"hooks.state\",\"mergeStrategy\":\"upsert\",\"value\":{\"hook-key\":{\"trusted_hash\":\"sha256:abc\"}}}],\"expectedVersion\":null,\"filePath\":null,\"reloadUserConfig\":true}"
    );
}

#[test]
fn reports_malformed_list_and_trust_responses() {
    assert!(matches!(
        hooks::list_after(Ok(Err("invalid type".to_owned()))),
        Err(HookManagementError::InvalidResponse {
            method: "hooks/list",
            ..
        })
    ));
    let params = hooks::trust(&vec![update("key", "sha256:value")]);
    assert!(params.get_items("edits").is_some());
    assert!(matches!(
        hooks::trust_after(&Ok(Json::array())),
        Err(HookManagementError::InvalidResponse {
            method: "config/batchWrite",
            ..
        })
    ));
    assert_eq!(
        hooks::trust_after(&Ok(Json::array())).unwrap_err().message(),
        "invalid response from config/batchWrite: invalid type: sequence, expected a map"
    );
}

#[test]
fn preserves_app_server_rejections() {
    let error = Json::object()
        .with("code", Json::Negative(-32601))
        .with("message", Json::text("unsupported"));
    let rejected = hooks::list_after(Err(RequestError::Rejected {
        method: "hooks/list".to_owned(),
        error,
    }));
    assert!(matches!(
        &rejected,
        Err(HookManagementError::Request(RequestError::Rejected { .. }))
    ));
    assert_eq!(
        rejected.unwrap_err().message(),
        "request hooks/list was rejected: {\"code\":-32601,\"message\":\"unsupported\"}"
    );
    assert!(matches!(
        hooks::trust_after(&Err(RequestError::Closed)),
        Err(HookManagementError::Request(RequestError::Closed))
    ));
}

#[test]
fn the_last_hash_of_a_hook_is_the_one_that_is_trusted() {
    let params = hooks::trust(&vec![update("a", "1"), update("b", "2"), update("a", "3")]);
    let values = params.get_items("edits").unwrap()[0].get("value").unwrap();
    assert_eq!(
        values.to_text(),
        "{\"a\":{\"trusted_hash\":\"3\"},\"b\":{\"trusted_hash\":\"2\"}}"
    );
}
