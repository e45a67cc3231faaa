use codex_control::json;
use codex_control::json::Json;
use codex_control::path::FilePath;
use codex_control::rpc::RequestError;
use codex_control::skills;
use codex_control::skills::{
    RootsReply, SkillController, SkillLoadError, SkillManagementError, SkillMetadata,
    SkillsListEntry, SkillsListResponse,
};

fn value(text: &str) -> Json {
    json::parse_text(text).unwrap()
}

fn paths(texts: &[&str]) -> Vec<FilePath> {
    texts.iter().map(|text| FilePath::from_text(text)).collect()
}

fn marker() -> SkillMetadata {
    SkillMetadata {
        name: "marker".to_owned(),
        description: "Warden marker".to_owned(),
        path: FilePath::from_text("/tmp/skills/marker/SKILL.md"),
        scope: "user".to_owned(),
        enabled: true,
        short_description: None,
        interface: None,
        dependencies: None,
    }
}

#[test]
fn operations_use_only_the_typed_skill_contract() {
    let mut requests: Vec<(String, String)> = Vec::new();
    let mut controller = SkillController::new();
    let roots = paths(&["/tmp/skills"]);
    let params = controller.set_extra_roots(&roots).unwrap();
    requests.push((skills::SET_ROOTS.to_owned(), params.to_text()));
    controller
        .set_extra_roots_after(roots, RootsReply::Done)
        .unwrap();
    let params = SkillController::force_refresh(&paths(&["/tmp/project"])).unwrap();
    requests.push((skills::LIST.to_owned(), params.to_text()));
    let response = SkillController::force_refresh_after(Ok(Ok(SkillsListResponse {
        data: vec![SkillsListEntry {
            cwd: FilePath::from_text("/tmp/project"),
            skills: vec![marker()],
            errors: Vec::<SkillLoadError>::new(),
        }],
    })))
    .unwrap();

    assert_eq!(response.data[0].skills[0].name, "marker");
    assert_eq!(response.data[0].skills[0], marker());
    assert_eq!(
        requests,
        vec![
            (
                "skills/extraRoots/set".to_owned(),
                value("{\"extraRoots\":[\"/tmp/skills\"]}").to_text(),
            ),
            (
                "skills/list".to_owned(),
                value("{\"cwds\":[\"/tmp/project\"],\"forceReload\":true}").to_text(),
            ),
        ]
    );
}

#[test]
fn relative_or_unnormalized_extra_roots_are_rejected_before_rpc() {
    let controller = SkillController::new();
    for invalid in ["relative", "/tmp/../skills", "/tmp/./skills"] {
        assert!(matches!(
            controller.set_extra_roots(&paths(&[invalid])),
            Err(SkillManagementError::InvalidPath { .. })
        ));
    }
    assert!(controller.reapply_extra_roots().is_none());
}

#[test]
fn the_first_bad_root_is_blamed() {
    let controller = SkillController::new();
    match controller.set_extra_roots(&paths(&["/ok", "bad/", "/worse/.."])) {
        Err(error) => {
            assert_eq!(
                error.message("\"bad/\""),
                "skill extra root path \"bad/\" must be absolute and lexically normalized"
            );
            assert!(
                matches!(error, SkillManagementError::InvalidPath { path, .. } if path.to_text().unwrap() == "bad/")
            );
        }
        Ok(_) => panic!("accepted"),
    }
    let odd = vec![FilePath {
        bytes: vec![b'/', 0xff],
    }];
    match controller.set_extra_roots(&odd) {
        Err(error) => assert_eq!(
            error.message("\"/\\xFF\""),
            "skill extra root path \"/\\xFF\" must be valid UTF-8 for the JSON-RPC protocol"
        ),
        Ok(_) => panic!("accepted"),
    }
    match SkillController::force_refresh(&odd) {
        Err(error) => assert_eq!(
            error.message("p"),
            "skill-list cwd path p must be valid UTF-8 for the JSON-RPC protocol"
        ),
        Ok(_) => panic!("accepted"),
    }
}

#[test]
fn roots_are_remembered_only_when_their_success_was_seen() {
    let mut controller = SkillController::new();
    let failed = controller.set_extra_roots_after(
        paths(&["/a"]),
        RootsReply::Failed(RequestError::Closed),
    );
    assert_eq!(failed.unwrap_err().message(""), "transport is shut down");
    assert!(controller.reapply_extra_roots().is_none());
    controller
        .set_extra_roots_after(paths(&["/a"]), RootsReply::Done)
        .unwrap();
    let malformed = controller.set_extra_roots_after(
        paths(&["/b"]),
        RootsReply::Malformed("not a map".to_owned()),
    );
    assert_eq!(
        malformed.unwrap_err().message(""),
        "invalid response from skills/extraRoots/set: not a map"
    );
    assert_eq!(
        controller.reapply_extra_roots().unwrap().to_text(),
        "{\"extraRoots\":[\"/a\"]}"
    );
    controller
        .set_extra_roots_after(Vec::new(), RootsReply::Done)
        .unwrap();
    assert_eq!(
        controller.reapply_extra_roots().unwrap().to_text(),
        "{\"extraRoots\":[]}"
    );
}

#[test]
fn giving_roots_again_says_whether_there_were_any() {
    assert!(matches!(
        SkillController::reapply_extra_roots_after(None),
        Ok(false)
    ));
    assert!(matches!(
        SkillController::reapply_extra_roots_after(Some(RootsReply::Done)),
        Ok(true)
    ));
    assert!(matches!(
        SkillController::reapply_extra_roots_after(Some(RootsReply::Failed(RequestError::Closed))),
        Err(SkillManagementError::Request(RequestError::Closed))
    ));
}

#[test]
fn a_failed_refresh_says_why() {
    assert_eq!(
        SkillController::force_refresh_after(Ok(Err("missing field".to_owned())))
            .unwrap_err()
            .message(""),
        "invalid response from skills/list: missing field"
    );
}
