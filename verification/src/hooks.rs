//! Hooks: what the daemon knows of them, and which of them it is told to trust.

use crate::json;
use crate::json::{Json, JsonView};
use crate::path::FilePath;
use crate::rpc;
use crate::rpc::{Reply, RequestError};
use crate::skills;
use crate::text;
use vstd::prelude::*;
use vstd::utf8::*;

verus! {

/// What the daemon says of the hooks of some directories.
#[derive(Clone, Debug, PartialEq)]
pub struct HooksListResponse {
    pub data: Vec<HooksListEntry>,
}

/// The hooks of one directory.
#[derive(Clone, Debug, PartialEq)]
pub struct HooksListEntry {
    pub cwd: FilePath,
    pub hooks: Vec<HookMetadata>,
    pub warnings: Vec<String>,
    pub errors: Vec<Json>,
}

/// What is known of a hook.
#[derive(Clone, Debug, PartialEq)]
pub struct HookMetadata {
    pub key: String,
    pub event_name: String,
    pub command: Option<String>,
    pub source_path: FilePath,
    pub enabled: bool,
    pub current_hash: String,
    pub trust_status: String,
    pub execution_mode: String,
}

/// A hook that is to be trusted as it is now.
#[derive(Clone, Debug, PartialEq, Eq)]
pub struct HookTrustUpdate {
    pub key: String,
    pub current_hash: String,
}

/// Why something about hooks could not be done.
#[derive(Debug)]
pub enum HookManagementError {
    Request(RequestError),
    InvalidResponse { method: &'static str, source: String },
}

/// The method that lists hooks.
pub const LIST: &'static str = "hooks/list";

/// The method that writes the configuration.
pub const WRITE: &'static str = "config/batchWrite";

/// The words of a failure.
pub open spec fn hook_words(error: HookManagementError) -> Seq<char> {
    match error {
        HookManagementError::Request(error) => rpc::failure_words(error@),
        HookManagementError::InvalidResponse { method, source } => "invalid response from "@
            + method@ + ": "@ + source@,
    }
}

impl HookManagementError {
    /// The words of this failure.
    pub fn message(&self) -> (words: String)
        ensures
            words@ == hook_words(*self),
    {
        match self {
            HookManagementError::Request(error) => error.message(),
            HookManagementError::InvalidResponse { method, source } => {
                let mut words = text::joined("invalid response from ", method);
                words.append(": ");
                words.append(source.as_str());
                words
            },
        }
    }
}

/// The hash under which each hook is to be trusted: where a hook occurs twice, the later one.
pub open spec fn trusted_hashes(updates: Seq<HookTrustUpdate>) -> Map<Seq<char>, JsonView>
    decreases updates.len(),
{
    if updates.len() == 0 {
        Map::empty()
    } else {
        trusted_hashes(updates.drop_last()).insert(
            updates.last().key@,
            JsonView::object().with(
                "trusted_hash"@,
                JsonView::Text(updates.last().current_hash@),
            ),
        )
    }
}

/// The parameters that list the hooks of directories.
pub open spec fn list_request(cwds: Seq<Seq<u8>>) -> JsonView {
    JsonView::object().with("cwds"@, json::array_of_texts(skills::decoded(cwds)))
}

/// The parameters that write the trusted hashes into the user's configuration.
pub open spec fn trust_request(hashes: Map<Seq<char>, JsonView>) -> JsonView {
    JsonView::object().with(
        "edits"@,
        JsonView::Array(
            seq![
                JsonView::object().with("keyPath"@, JsonView::Text("hooks.state"@)).with(
                    "value"@,
                    JsonView::Object(hashes),
                ).with("mergeStrategy"@, JsonView::Text("upsert"@)),
            ],
        ),
    ).with("filePath"@, JsonView::Null).with("expectedVersion"@, JsonView::Null).with(
        "reloadUserConfig"@,
        JsonView::Bool(true),
    )
}

/// What to send to the daemon to list the hooks of directories.
pub fn list(cwds: &Vec<FilePath>) -> (params: Json)
    requires
        skills::all_utf8(skills::path_row(cwds@)),
    ensures
        params@ == list_request(skills::path_row(cwds@)),
{
    let ghost row = skills::path_row(cwds@);
    let mut encoded: Vec<String> = Vec::new();
    let mut i: usize = 0;
    while i < cwds.len()
        invariant
            i <= cwds@.len(),
            row == skills::path_row(cwds@),
            skills::all_utf8(row),
            encoded@.len() == i,
            forall|k: int| 0 <= k < i ==> (#[trigger] encoded@[k])@ == decode_utf8(row[k]),
        decreases cwds@.len() - i,
    {
        assert(row[i as int] == cwds@[i as int]@);
        match cwds[i].to_text() {
            Some(text) => {
                encoded.push(text);
            },
            None => vstd::pervasive::unreached(),
        }
        i += 1;
    }
    assert(text::texts(encoded@) =~= skills::decoded(row));
    Json::object().with("cwds", Json::array_of_texts(&encoded))
}

/// What listing hooks came to, from what the daemon replied and, where it did, what the answer was
/// as its typed value.
pub fn list_after(reply: Result<Result<HooksListResponse, String>, RequestError>) -> (listed: Result<
    HooksListResponse,
    HookManagementError,
>)
    ensures
        match reply {
            Ok(Ok(response)) => listed == Ok::<HooksListResponse, HookManagementError>(response),
            Ok(Err(words)) => {
                &&& listed matches Err(HookManagementError::InvalidResponse { method, source })
                &&& method@ == LIST@
                &&& source == words
            },
            Err(error) => listed == Err::<HooksListResponse, HookManagementError>(
                HookManagementError::Request(error),
            ),
        },
{
    match reply {
        Ok(Ok(response)) => Ok(response),
        Ok(Err(source)) => Err(HookManagementError::InvalidResponse { method: LIST, source }),
        Err(error) => Err(HookManagementError::Request(error)),
    }
}

/// What to send to the daemon to have it trust hooks as they are now.
pub fn trust(updates: &Vec<HookTrustUpdate>) -> (params: Json)
    ensures
        params@ == trust_request(trusted_hashes(updates@)),
{
    let mut hashes = Json::object();
    let mut i: usize = 0;
    assert(updates@.take(0) =~= Seq::<HookTrustUpdate>::empty());
    while i < updates.len()
        invariant
            i <= updates@.len(),
            hashes@ == JsonView::Object(trusted_hashes(updates@.take(i as int))),
        decreases updates@.len() - i,
    {
        let update = &updates[i];
        assert(updates@.take(i + 1).drop_last() =~= updates@.take(i as int));
        hashes = hashes.with(
            update.key.as_str(),
            Json::object().with("trusted_hash", Json::text(update.current_hash.as_str())),
        );
        i += 1;
    }
    assert(updates@.take(i as int) =~= updates@);
    let edit = Json::object().with("keyPath", Json::text("hooks.state")).with("value", hashes).with(
        "mergeStrategy",
        Json::text("upsert"),
    );
    let ghost one = edit@;
    let edits = Json::array().and(edit);
    assert(edits@ == JsonView::Array(seq![one])) by {
        assert(Seq::<JsonView>::empty().push(one) =~= seq![one]);
    }
    Json::object().with("edits", edits).with("filePath", Json::Null).with(
        "expectedVersion",
        Json::Null,
    ).with("reloadUserConfig", Json::Bool(true))
}

/// What trusting hooks came to: the daemon has to answer with an object.
pub fn trust_after(reply: &Reply) -> (result: Result<(), HookManagementError>)
    ensures
        match *reply {
            Ok(value) => match result {
                Ok(()) => value@ is Object,
                Err(error) => {
                    &&& !(value@ is Object)
                    &&& error matches HookManagementError::InvalidResponse { method, source }
                    &&& method@ == WRITE@
                    &&& source@ == json::not_an_object(value@)
                },
            },
            Err(failure) => {
                &&& result matches Err(HookManagementError::Request(error))
                &&& error@ == failure@
            },
        },
{
    match reply {
        Ok(value) => match json::require_object(value) {
            Ok(()) => Ok(()),
            Err(source) => Err(HookManagementError::InvalidResponse { method: WRITE, source }),
        },
        Err(error) => Err(HookManagementError::Request(error.clone())),
    }
}

/// A hook that is to be trusted is trusted under the last hash that was given for it.
pub proof fn law_last_hash_is_trusted(updates: Seq<HookTrustUpdate>, i: int)
    requires
        0 <= i < updates.len(),
        forall|k: int| i < k < updates.len() ==> (#[trigger] updates[k]).key@ != updates[i].key@,
    ensures
        trusted_hashes(updates).contains_key(updates[i].key@),
        trusted_hashes(updates)[updates[i].key@].member_text("trusted_hash"@) == Some(
            updates[i].current_hash@,
        ),
    decreases updates.len(),
{
    if i < updates.len() - 1 {
        let rest = updates.drop_last();
        assert forall|k: int| i < k < rest.len() implies (#[trigger] rest[k]).key@ != rest[i].key@ by {
            assert(updates[k].key@ != updates[i].key@);
        }
        law_last_hash_is_trusted(rest, i);
        assert(updates[updates.len() - 1].key@ != updates[i].key@);
    }
}

/// Only hooks that were named are trusted.
pub proof fn law_only_named_hooks_are_trusted(updates: Seq<HookTrustUpdate>, key: Seq<char>)
    requires
        trusted_hashes(updates).contains_key(key),
    ensures
        exists|i: int| 0 <= i < updates.len() && (#[trigger] updates[i]).key@ == key,
    decreases updates.len(),
{
    if updates.len() > 0 {
        if updates.last().key@ == key {
            assert(updates[updates.len() - 1].key@ == key);
        } else {
            let rest = updates.drop_last();
            law_only_named_hooks_are_trusted(rest, key);
            let i = choose|i: int| 0 <= i < rest.len() && (#[trigger] rest[i]).key@ == key;
            assert(updates[i].key@ == key);
        }
    }
}

} // verus!
