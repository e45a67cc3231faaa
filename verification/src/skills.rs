//! Skills: where the daemon looks for them, and what it finds.

use crate::json;
use crate::json::{Json, JsonView};
use crate::path;
use crate::path::FilePath;
use crate::rpc;
use crate::rpc::RequestError;
use crate::text;
use vstd::prelude::*;
use vstd::utf8::*;

verus! {

/// What the daemon says of the skills of some directories.
#[derive(Clone, Debug, PartialEq)]
pub struct SkillsListResponse {
    pub data: Vec<SkillsListEntry>,
}

/// The skills of one directory, and those that could not be loaded.
#[derive(Clone, Debug, PartialEq)]
pub struct SkillsListEntry {
    pub cwd: FilePath,
    pub skills: Vec<SkillMetadata>,
    pub errors: Vec<SkillLoadError>,
}

/// What is known of a skill.
#[derive(Clone, Debug, PartialEq)]
pub struct SkillMetadata {
    pub name: String,
    pub description: String,
    pub path: FilePath,
    pub scope: String,
    pub enabled: bool,
    pub short_description: Option<String>,
    pub interface: Option<Json>,
    pub dependencies: Option<Json>,
}

/// A skill file that the daemon could not load.
#[derive(Clone, Debug, PartialEq, Eq)]
pub struct SkillLoadError {
    pub path: FilePath,
    pub message: String,
}

/// Why something about skills could not be done.
#[derive(Debug)]
pub enum SkillManagementError {
    InvalidPath { field: &'static str, path: FilePath, requirement: &'static str },
    Request(RequestError),
    InvalidResponse { method: &'static str, source: String },
}

/// What an extra root is called in an error.
pub const EXTRA_ROOT: &'static str = "skill extra root";

/// What a directory whose skills are asked for is called in an error.
pub const LIST_CWD: &'static str = "skill-list cwd";

/// What an extra root must be.
pub const NORMAL: &'static str = "absolute and lexically normalized";

/// What every path must be that is sent to the daemon.
pub const UTF8: &'static str = "valid UTF-8 for the JSON-RPC protocol";

/// The method that replaces the extra roots.
pub const SET_ROOTS: &'static str = "skills/extraRoots/set";

/// The method that lists skills.
pub const LIST: &'static str = "skills/list";

/// The words of a failure, with `shown_path` for the path that it speaks of.
pub open spec fn skill_words(error: SkillManagementError, shown_path: Seq<char>) -> Seq<char> {
    match error {
        SkillManagementError::InvalidPath { field, path, requirement } => field@ + " path "@
            + shown_path + " must be "@ + requirement@,
        SkillManagementError::Request(error) => rpc::failure_words(error@),
        SkillManagementError::InvalidResponse { method, source } => "invalid response from "@
            + method@ + ": "@ + source@,
    }
}

impl SkillManagementError {
    /// The words of this failure, with `shown_path` for the path that it speaks of.
    pub fn message(&self, shown_path: &str) -> (words: String)
        ensures
            words@ == skill_words(*self, shown_path@),
    {
        match self {
            SkillManagementError::InvalidPath { field, requirement, .. } => {
                let mut words = text::joined(field, " path ");
                words.append(shown_path);
                words.append(" must be ");
                words.append(requirement);
                words
            },
            SkillManagementError::Request(error) => error.message(),
            SkillManagementError::InvalidResponse { method, source } => {
                let mut words = text::joined("invalid response from ", method);
                words.append(": ");
                words.append(source.as_str());
                words
            },
        }
    }
}

/// The bytes of the paths in a row.
pub open spec fn path_row(paths: Seq<FilePath>) -> Seq<Seq<u8>> {
    paths.map_values(|path: FilePath| path@)
}

/// The texts that a row of paths encodes.
pub open spec fn decoded(paths: Seq<Seq<u8>>) -> Seq<Seq<char>> {
    paths.map_values(|path: Seq<u8>| decode_utf8(path))
}

/// Paths that can be sent to the daemon.
pub open spec fn all_utf8(paths: Seq<Seq<u8>>) -> bool {
    forall|i: int| 0 <= i < paths.len() ==> valid_utf8(#[trigger] paths[i])
}

/// Paths that are absolute and in lexically normal form.
pub open spec fn all_normal(paths: Seq<Seq<u8>>) -> bool {
    forall|i: int| 0 <= i < paths.len() ==> path::is_normal_root(#[trigger] paths[i])
}

/// The first path of a row that cannot be sent.
pub open spec fn first_not_utf8(paths: Seq<Seq<u8>>, i: int) -> bool {
    0 <= i < paths.len() && !valid_utf8(paths[i]) && all_utf8(paths.take(i))
}

/// The first path of a row that is not absolute and in lexically normal form.
pub open spec fn first_not_normal(paths: Seq<Seq<u8>>, i: int) -> bool {
    0 <= i < paths.len() && !path::is_normal_root(paths[i]) && all_normal(paths.take(i))
}

/// An error that blames a path.
pub open spec fn blames(
    error: SkillManagementError,
    field: Seq<char>,
    path: Seq<u8>,
    requirement: Seq<char>,
) -> bool {
    &&& error matches SkillManagementError::InvalidPath {
        field: named,
        path: blamed,
        requirement: missed,
    }
    &&& named@ == field
    &&& blamed@ == path
    &&& missed@ == requirement
}

/// What becomes of a row of paths that is to be sent to the daemon.
pub open spec fn encodes(
    paths: Seq<Seq<u8>>,
    field: Seq<char>,
    encoded: Result<Vec<String>, SkillManagementError>,
) -> bool {
    match encoded {
        Ok(row) => all_utf8(paths) && text::texts(row@) == decoded(paths),
        Err(error) => exists|i: int| #[trigger]
            first_not_utf8(paths, i) && blames(error, field, paths[i], UTF8@),
    }
}

/// A path as a text that can be sent to the daemon.
pub fn encode_path(path: &FilePath, field: &'static str) -> (encoded: Result<
    String,
    SkillManagementError,
>)
    ensures
        match encoded {
            Ok(text) => valid_utf8(path@) && text@ == decode_utf8(path@),
            Err(error) => !valid_utf8(path@) && blames(error, field@, path@, UTF8@),
        },
{
    match path.to_text() {
        Some(text) => Ok(text),
        None => Err(
            SkillManagementError::InvalidPath { field, path: path.clone(), requirement: UTF8 },
        ),
    }
}

/// Paths as texts that can be sent to the daemon, or the first that cannot.
pub fn encode_paths(paths: &Vec<FilePath>, field: &'static str) -> (encoded: Result<
    Vec<String>,
    SkillManagementError,
>)
    ensures
        encodes(path_row(paths@), field@, encoded),
{
    let ghost row = path_row(paths@);
    let mut encoded: Vec<String> = Vec::new();
    let mut i: usize = 0;
    while i < paths.len()
        invariant
            i <= paths@.len(),
            row == path_row(paths@),
            encoded@.len() == i,
            forall|k: int|
                0 <= k < i ==> valid_utf8(#[trigger] row[k]) && encoded@[k]@ == decode_utf8(row[k]),
        decreases paths@.len() - i,
    {
        assert(row[i as int] == paths@[i as int]@);
        match encode_path(&paths[i], field) {
            Ok(text) => {
                encoded.push(text);
            },
            Err(error) => {
                proof {
                    assert forall|k: int| 0 <= k < row.take(i as int).len() implies valid_utf8(
                        #[trigger] row.take(i as int)[k],
                    ) by {
                        assert(valid_utf8(row[k]));
                    }
                    assert(first_not_utf8(row, i as int));
                }
                return Err(error);
            },
        }
        i += 1;
    }
    assert(text::texts(encoded@) =~= decoded(row));
    Ok(encoded)
}

/// What becomes of extra roots that are to be sent to the daemon.
pub open spec fn encodes_roots(
    roots: Seq<Seq<u8>>,
    encoded: Result<Vec<String>, SkillManagementError>,
) -> bool {
    if all_normal(roots) {
        encodes(roots, EXTRA_ROOT@, encoded)
    } else {
        &&& encoded matches Err(error)
        &&& exists|i: int| #[trigger]
            first_not_normal(roots, i) && blames(error, EXTRA_ROOT@, roots[i], NORMAL@)
    }
}

/// Extra roots as texts that can be sent to the daemon, or the first that is not absolute and in
/// lexically normal form, or else the first that cannot be sent.
pub fn encode_extra_roots(paths: &Vec<FilePath>) -> (encoded: Result<
    Vec<String>,
    SkillManagementError,
>)
    ensures
        encodes_roots(path_row(paths@), encoded),
{
    let ghost row = path_row(paths@);
    let mut i: usize = 0;
    while i < paths.len()
        invariant
            i <= paths@.len(),
            row == path_row(paths@),
            forall|k: int| 0 <= k < i ==> path::is_normal_root(#[trigger] row[k]),
        decreases paths@.len() - i,
    {
        assert(row[i as int] == paths@[i as int]@);
        if !path::check_normal_root(&paths[i]) {
            proof {
                assert forall|k: int| 0 <= k < row.take(i as int).len() implies path::is_normal_root(
                    #[trigger] row.take(i as int)[k],
                ) by {
                    assert(path::is_normal_root(row[k]));
                }
                assert(first_not_normal(row, i as int));
                assert(!all_normal(row));
            }
            return Err(
                SkillManagementError::InvalidPath {
                    field: EXTRA_ROOT,
                    path: paths[i].clone(),
                    requirement: NORMAL,
                },
            );
        }
        i += 1;
    }
    encode_paths(paths, EXTRA_ROOT)
}

/// The parameters that replace the extra roots.
pub open spec fn roots_request(roots: Seq<Seq<u8>>) -> JsonView {
    JsonView::object().with("extraRoots"@, json::array_of_texts(decoded(roots)))
}

/// The parameters that list the skills of directories, past the daemon's cache.
pub open spec fn refresh_request(cwds: Seq<Seq<u8>>) -> JsonView {
    JsonView::object().with("cwds"@, json::array_of_texts(decoded(cwds))).with(
        "forceReload"@,
        JsonView::Bool(true),
    )
}

/// Extra roots that the daemon can be given.
pub open spec fn acceptable(roots: Seq<Seq<u8>>) -> bool {
    all_normal(roots) && all_utf8(roots)
}

/// What sending the extra roots to the daemon came to.
#[derive(Debug)]
pub enum RootsReply {
    Failed(RequestError),
    /// The daemon's answer was not what it should be.
    Malformed(String),
    Done,
}

/// What a reply to the extra roots comes to.
pub open spec fn roots_result(reply: RootsReply, result: Result<(), SkillManagementError>) -> bool {
    match reply {
        RootsReply::Failed(error) => result == Err::<(), SkillManagementError>(
            SkillManagementError::Request(error),
        ),
        RootsReply::Malformed(words) => {
            &&& result matches Err(SkillManagementError::InvalidResponse { method, source })
            &&& method@ == SET_ROOTS@
            &&& source == words
        },
        RootsReply::Done => result is Ok,
    }
}

fn conclude_roots(reply: RootsReply) -> (result: Result<(), SkillManagementError>)
    ensures
        roots_result(reply, result),
{
    match reply {
        RootsReply::Failed(error) => Err(SkillManagementError::Request(error)),
        RootsReply::Malformed(source) => Err(
            SkillManagementError::InvalidResponse { method: SET_ROOTS, source },
        ),
        RootsReply::Done => Ok(()),
    }
}

/// The extra roots that the daemon has been given, so that they can be given to it again after a
/// reconnection. An empty set counts: it clears what was set before.
#[derive(Debug)]
pub struct SkillController {
    extra_roots: Option<Vec<FilePath>>,
}

impl SkillController {
    /// The roots that were last set with success, if any were.
    pub closed spec fn remembered(&self) -> Option<Seq<Seq<u8>>> {
        match self.extra_roots {
            Some(roots) => Some(path_row(roots@)),
            None => None,
        }
    }

    /// What is remembered can be sent again.
    pub open spec fn valid(&self) -> bool {
        self.remembered() matches Some(roots) ==> acceptable(roots)
    }

    /// Nothing has been set yet.
    pub fn new() -> (controller: Self)
        ensures
            controller.valid(),
            controller.remembered() is None,
    {
        SkillController { extra_roots: None }
    }

    /// What to send to the daemon to replace the extra roots. Roots that are not acceptable are
    /// refused, and nothing is sent.
    pub fn set_extra_roots(&self, extra_roots: &Vec<FilePath>) -> (params: Result<
        Json,
        SkillManagementError,
    >)
        ensures
            match params {
                Ok(params) => acceptable(path_row(extra_roots@)) && params@ == roots_request(
                    path_row(extra_roots@),
                ),
                Err(error) => !acceptable(path_row(extra_roots@)) && encodes_roots(
                    path_row(extra_roots@),
                    Err(error),
                ),
            },
    {
        match encode_extra_roots(extra_roots) {
            Ok(encoded) => Ok(Json::object().with("extraRoots", Json::array_of_texts(&encoded))),
            Err(error) => {
                assert(!acceptable(path_row(extra_roots@)));
                Err(error)
            },
        }
    }

    /// Concludes the replacement of the extra roots: they are remembered if, and only if, the
    /// daemon's success was seen.
    pub fn set_extra_roots_after(&mut self, extra_roots: Vec<FilePath>, reply: RootsReply) -> (result:
        Result<(), SkillManagementError>)
        requires
            old(self).valid(),
            acceptable(path_row(extra_roots@)),
        ensures
            final(self).valid(),
            roots_result(reply, result),
            final(self).remembered() == (if reply is Done {
                Some(path_row(extra_roots@))
            } else {
                old(self).remembered()
            }),
    {
        match conclude_roots(reply) {
            Ok(()) => {
                self.extra_roots = Some(extra_roots);
                Ok(())
            },
            Err(error) => Err(error),
        }
    }

    /// What to send to the daemon to give it the extra roots again; nothing, if none were ever
    /// set.
    pub fn reapply_extra_roots(&self) -> (params: Option<Json>)
        requires
            self.valid(),
        ensures
            match self.remembered() {
                Some(roots) => {
                    &&& params matches Some(params)
                    &&& params@ == roots_request(roots)
                },
                None => params is None,
            },
    {
        match &self.extra_roots {
            Some(roots) => match self.set_extra_roots(roots) {
                Ok(params) => Some(params),
                Err(_) => vstd::pervasive::unreached(),
            },
            None => None,
        }
    }

    /// Concludes the giving again of the extra roots: whether there were any, or why that failed.
    /// `reply` is missing where nothing was sent.
    pub fn reapply_extra_roots_after(reply: Option<RootsReply>) -> (result: Result<
        bool,
        SkillManagementError,
    >)
        ensures
            match reply {
                None => result == Ok::<bool, SkillManagementError>(false),
                Some(reply) => match result {
                    Ok(restored) => restored && reply is Done,
                    Err(error) => roots_result(reply, Err(error)),
                },
            },
    {
        match reply {
            None => Ok(false),
            Some(reply) => match conclude_roots(reply) {
                Ok(()) => Ok(true),
                Err(error) => Err(error),
            },
        }
    }

    /// What to send to the daemon to have it look for the skills of directories anew.
    pub fn force_refresh(cwds: &Vec<FilePath>) -> (params: Result<Json, SkillManagementError>)
        ensures
            match params {
                Ok(params) => all_utf8(path_row(cwds@)) && params@ == refresh_request(
                    path_row(cwds@),
                ),
                Err(error) => encodes(path_row(cwds@), LIST_CWD@, Err(error)),
            },
    {
        match encode_paths(cwds, LIST_CWD) {
            Ok(encoded) => Ok(
                Json::object().with("cwds", Json::array_of_texts(&encoded)).with(
                    "forceReload",
                    Json::Bool(true),
                ),
            ),
            Err(error) => Err(error),
        }
    }

    /// What looking for skills came to, from what the daemon replied and, where it did, what the
    /// answer was as its typed value.
    pub fn force_refresh_after(
        reply: Result<Result<SkillsListResponse, String>, RequestError>,
    ) -> (listed: Result<SkillsListResponse, SkillManagementError>)
        ensures
            match reply {
                Ok(Ok(response)) => listed == Ok::<SkillsListResponse, SkillManagementError>(
                    response,
                ),
                Ok(Err(words)) => {
                    &&& listed matches Err(SkillManagementError::InvalidResponse { method, source })
                    &&& method@ == LIST@
                    &&& source == words
                },
                Err(error) => listed == Err::<SkillsListResponse, SkillManagementError>(
                    SkillManagementError::Request(error),
                ),
            },
    {
        match reply {
            Ok(Ok(response)) => Ok(response),
            Ok(Err(source)) => Err(SkillManagementError::InvalidResponse { method: LIST, source }),
            Err(error) => Err(SkillManagementError::Request(error)),
        }
    }
}

/// A row of roots is refused exactly when one of them is not acceptable, and then the first such
/// root is blamed.
pub proof fn law_unacceptable_roots_are_refused(
    roots: Seq<Seq<u8>>,
    encoded: Result<Vec<String>, SkillManagementError>,
)
    requires
        encodes_roots(roots, encoded),
    ensures
        encoded is Ok <==> acceptable(roots),
        encoded matches Err(error) ==> exists|i: int|
            0 <= i < roots.len() && !(path::is_normal_root(roots[i]) && valid_utf8(roots[i])) && (
            error matches SkillManagementError::InvalidPath { path, .. } && path@
                == #[trigger] roots[i]),
{
    if all_normal(roots) {
        if let Err(error) = encoded {
            let i = choose|i: int| #[trigger]
                first_not_utf8(roots, i) && blames(error, EXTRA_ROOT@, roots[i], UTF8@);
            assert(!valid_utf8(roots[i]));
        }
    } else {
        if let Err(error) = encoded {
            let i = choose|i: int| #[trigger]
                first_not_normal(roots, i) && blames(error, EXTRA_ROOT@, roots[i], NORMAL@);
            assert(!path::is_normal_root(roots[i]));
        }
    }
}

} // verus!
