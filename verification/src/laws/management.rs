//! What the management of skills and hooks promises.

use crate::hooks;
use crate::hooks::{HookManagementError, HookTrustUpdate, HooksListResponse};
use crate::json;
use crate::json::{Json, JsonView};
use crate::path;
use crate::path::FilePath;
use crate::rpc;
use crate::rpc::{Reply, RequestError};
use crate::skills;
use crate::skills::{RootsReply, SkillController, SkillManagementError, SkillsListResponse};
use crate::text;
use vstd::prelude::*;
use vstd::utf8::*;

verus! {

/// An array of texts, each of which encodes to the path at its place.
pub open spec fn sends_paths(value: JsonView, paths: Seq<FilePath>) -> bool {
    &&& value matches JsonView::Array(items)
    &&& items.len() == paths.len()
    &&& forall|i: int|
        0 <= i < items.len() ==> {
            &&& (#[trigger] items[i]) matches JsonView::Text(sent)
            &&& encode_utf8(sent) == paths[i]@
        }
}

proof fn lemma_sends_paths(paths: Seq<FilePath>)
    requires
        skills::all_utf8(skills::path_row(paths)),
    ensures
        sends_paths(json::array_of_texts(skills::decoded(skills::path_row(paths))), paths),
{
    let row = skills::path_row(paths);
    let items = skills::decoded(row).map_values(|text: Seq<char>| JsonView::Text(text));
    assert(items.len() == paths.len());
    assert forall|i: int| 0 <= i < items.len() implies {
        &&& (#[trigger] items[i]) matches JsonView::Text(sent)
        &&& encode_utf8(sent) == paths[i]@
    } by {
        assert(row[i] == paths[i]@);
        assert(valid_utf8(row[i]));
        decode_utf8_encode_utf8(row[i]);
    }
}

/// An error that blames the path at `i`, under a name, for not being what it must be.
pub open spec fn blames_path(
    error: SkillManagementError,
    paths: Seq<FilePath>,
    i: int,
    name: Seq<char>,
    requirement: Seq<char>,
) -> bool {
    match error {
        SkillManagementError::InvalidPath { field, path, requirement: missed } => 0 <= i
            < paths.len() && path@ == paths[i]@ && field@ == name && missed@ == requirement,
        _ => false,
    }
}

/// The path at `i` is the first that is not absolute and in lexically normal form.
pub open spec fn first_abnormal(paths: Seq<FilePath>, i: int) -> bool {
    &&& 0 <= i < paths.len()
    &&& !path::is_normal_root(paths[i]@)
    &&& forall|j: int| 0 <= j < i ==> path::is_normal_root((#[trigger] paths[j])@)
}

/// The path at `i` is the first that is no text.
pub open spec fn first_untextual(paths: Seq<FilePath>, i: int) -> bool {
    &&& 0 <= i < paths.len()
    &&& !valid_utf8(paths[i]@)
    &&& forall|j: int| 0 <= j < i ==> valid_utf8((#[trigger] paths[j])@)
}

/// Every path is absolute and in lexically normal form.
pub open spec fn each_normal(paths: Seq<FilePath>) -> bool {
    forall|i: int| 0 <= i < paths.len() ==> path::is_normal_root((#[trigger] paths[i])@)
}

/// Every path is a text.
pub open spec fn each_textual(paths: Seq<FilePath>) -> bool {
    forall|i: int| 0 <= i < paths.len() ==> valid_utf8((#[trigger] paths[i])@)
}

proof fn lemma_rows(paths: Seq<FilePath>)
    ensures
        skills::all_normal(skills::path_row(paths)) == each_normal(paths),
        skills::all_utf8(skills::path_row(paths)) == each_textual(paths),
        forall|i: int| #[trigger]
            skills::first_not_normal(skills::path_row(paths), i) ==> first_abnormal(paths, i),
        forall|i: int| #[trigger]
            skills::first_not_utf8(skills::path_row(paths), i) ==> first_untextual(paths, i),
{
    let row = skills::path_row(paths);
    assert(row.len() == paths.len());
    assert forall|i: int| 0 <= i < paths.len() implies (#[trigger] row[i]) == paths[i]@ by {}
    if each_normal(paths) {
        assert forall|i: int| 0 <= i < row.len() implies path::is_normal_root(#[trigger] row[i]) by {
            assert(path::is_normal_root(paths[i]@));
        }
    }
    if each_textual(paths) {
        assert forall|i: int| 0 <= i < row.len() implies valid_utf8(#[trigger] row[i]) by {
            assert(valid_utf8(paths[i]@));
        }
    }
    if skills::all_normal(row) {
        assert forall|i: int| 0 <= i < paths.len() implies path::is_normal_root(
            (#[trigger] paths[i])@,
        ) by {
            assert(path::is_normal_root(row[i]));
        }
    }
    if skills::all_utf8(row) {
        assert forall|i: int| 0 <= i < paths.len() implies valid_utf8((#[trigger] paths[i])@) by {
            assert(valid_utf8(row[i]));
        }
    }
    assert forall|i: int| #[trigger] skills::first_not_normal(row, i) implies first_abnormal(
        paths,
        i,
    ) by {
        assert forall|j: int| 0 <= j < i implies path::is_normal_root((#[trigger] paths[j])@) by {
            assert(path::is_normal_root(row.take(i)[j]));
        }
    }
    assert forall|i: int| #[trigger] skills::first_not_utf8(row, i) implies first_untextual(
        paths,
        i,
    ) by {
        assert forall|j: int| 0 <= j < i implies valid_utf8((#[trigger] paths[j])@) by {
            assert(valid_utf8(row.take(i)[j]));
        }
    }
}

/// A path can be sent exactly if it is a text, which encodes to it; else it is blamed.
pub proof fn law_paths_are_sent_as_texts(
    path: FilePath,
    field: &'static str,
    encoded: Result<String, SkillManagementError>,
)
    requires
        call_ensures(skills::encode_path, (&path, field), encoded),
    ensures
        encoded is Ok <==> valid_utf8(path@),
        encoded matches Ok(sent) ==> encode_utf8(sent@) == path@,
        encoded matches Err(error) ==> blames_path(
            error,
            seq![path],
            0,
            field@,
            "valid UTF-8 for the JSON-RPC protocol"@,
        ),
{
    if encoded is Ok {
        decode_utf8_encode_utf8(path@);
    }
}

/// Paths can be sent exactly if each of them is a text; else the first that is none is blamed.
pub proof fn law_first_path_that_is_no_text_is_blamed(
    paths: Vec<FilePath>,
    field: &'static str,
    encoded: Result<Vec<String>, SkillManagementError>,
)
    requires
        call_ensures(skills::encode_paths, (&paths, field), encoded),
    ensures
        encoded is Ok <==> each_textual(paths@),
        encoded matches Ok(sent) ==> sent@.len() == paths@.len() && forall|i: int|
            0 <= i < sent@.len() ==> encode_utf8((#[trigger] sent@[i])@) == paths@[i]@,
        encoded matches Err(error) ==> exists|i: int| #[trigger]
            first_untextual(paths@, i) && blames_path(
                error,
                paths@,
                i,
                field@,
                "valid UTF-8 for the JSON-RPC protocol"@,
            ),
{
    let row = skills::path_row(paths@);
    lemma_rows(paths@);
    match encoded {
        Ok(sent) => {
            assert(text::texts(sent@).len() == skills::decoded(row).len());
            assert(sent@.len() == paths@.len());
            assert forall|i: int| 0 <= i < sent@.len() implies encode_utf8((#[trigger] sent@[i])@)
                == paths@[i]@ by {
                assert(text::texts(sent@)[i] == skills::decoded(row)[i]);
                assert(row[i] == paths@[i]@);
                decode_utf8_encode_utf8(row[i]);
            }
        },
        Err(error) => {
            let i = choose|i: int| #[trigger]
                skills::first_not_utf8(row, i) && skills::blames(
                    error,
                    field@,
                    row[i],
                    skills::UTF8@,
                );
            assert(first_untextual(paths@, i));
            assert(row[i] == paths@[i]@);
        },
    }
}

/// Extra roots are sent exactly if each is absolute, in lexically normal form and a text. Else the
/// first that is not absolute and in normal form is blamed, wherever it stands, and, where there is
/// none, the first that is no text.
pub proof fn law_bad_roots_are_blamed(
    controller: SkillController,
    roots: Vec<FilePath>,
    params: Result<Json, SkillManagementError>,
)
    requires
        call_ensures(SkillController::set_extra_roots, (&controller, &roots), params),
    ensures
        params is Ok <==> each_normal(roots@) && each_textual(roots@),
        params matches Ok(sent) ==> {
            &&& sent@ matches JsonView::Object(members)
            &&& members.dom() =~= set!["extraRoots"@]
            &&& sends_paths(members["extraRoots"@], roots@)
        },
        params matches Err(error) ==> if each_normal(roots@) {
            exists|i: int| #[trigger]
                first_untextual(roots@, i) && blames_path(
                    error,
                    roots@,
                    i,
                    "skill extra root"@,
                    "valid UTF-8 for the JSON-RPC protocol"@,
                )
        } else {
            exists|i: int| #[trigger]
                first_abnormal(roots@, i) && blames_path(
                    error,
                    roots@,
                    i,
                    "skill extra root"@,
                    "absolute and lexically normalized"@,
                )
        },
{
    let row = skills::path_row(roots@);
    lemma_rows(roots@);
    match params {
        Ok(_) => lemma_sends_paths(roots@),
        Err(error) => {
            if each_normal(roots@) {
                let i = choose|i: int| #[trigger]
                    skills::first_not_utf8(row, i) && skills::blames(
                        error,
                        skills::EXTRA_ROOT@,
                        row[i],
                        skills::UTF8@,
                    );
                assert(first_untextual(roots@, i));
                assert(row[i] == roots@[i]@);
            } else {
                let i = choose|i: int| #[trigger]
                    skills::first_not_normal(row, i) && skills::blames(
                        error,
                        skills::EXTRA_ROOT@,
                        row[i],
                        skills::NORMAL@,
                    );
                assert(first_abnormal(roots@, i));
                assert(row[i] == roots@[i]@);
            }
        },
    }
}

/// The result of giving roots to the daemon: its own error, an answer that was none, or success.
pub open spec fn tells_roots_reply(
    reply: RootsReply,
    result: Result<(), SkillManagementError>,
) -> bool {
    match reply {
        RootsReply::Done => result is Ok,
        RootsReply::Failed(error) => result matches Err(SkillManagementError::Request(said)) && said
            == error,
        RootsReply::Malformed(words) => result matches Err(SkillManagementError::InvalidResponse {
            method,
            source,
        }) && method@ == "skills/extraRoots/set"@ && source@ == words@,
    }
}

/// The bytes of the paths, in order.
pub open spec fn bytes_of(paths: Seq<FilePath>) -> Seq<Seq<u8>> {
    paths.map_values(|path: FilePath| path@)
}

/// Roots are remembered exactly if the daemon took them; a failure leaves what was remembered.
pub proof fn law_roots_are_remembered_once_taken(
    controller: &mut SkillController,
    roots: Vec<FilePath>,
    reply: RootsReply,
    result: Result<(), SkillManagementError>,
)
    requires
        controller.valid(),
        each_normal(roots@),
        each_textual(roots@),
        call_ensures(
            SkillController::set_extra_roots_after,
            (controller, roots, reply),
            result,
        ),
    ensures
        tells_roots_reply(reply, result),
        reply is Done ==> final(controller).remembered() == Some(bytes_of(roots@)),
        !(reply is Done) ==> final(controller).remembered() == old(controller).remembered(),
{
    lemma_rows(roots@);
    assert(skills::path_row(roots@) =~= bytes_of(roots@));
}

/// After a reconnection the daemon is given exactly the roots that it last took, and nothing where it
/// never took any; so the same is sent as when they were set.
pub proof fn law_roots_are_given_again(
    controller: &mut SkillController,
    roots: Vec<FilePath>,
    sent: Result<Json, SkillManagementError>,
    result: Result<(), SkillManagementError>,
    again: Option<Json>,
)
    requires
        controller.valid(),
        call_ensures(SkillController::set_extra_roots, (&*old(controller), &roots), sent),
        sent is Ok,
        call_ensures(
            SkillController::set_extra_roots_after,
            (controller, roots, RootsReply::Done),
            result,
        ),
        call_ensures(SkillController::reapply_extra_roots, (final(controller),), again),
    ensures
        again is Some,
        again->Some_0@ == sent->Ok_0@,
{
}

/// A controller begins with nothing, and then has nothing to give.
pub proof fn law_nothing_is_given_before_it_was_set(
    controller: SkillController,
    again: Option<Json>,
)
    requires
        call_ensures(SkillController::new, (), controller),
        call_ensures(SkillController::reapply_extra_roots, (&controller,), again),
    ensures
        controller.remembered() is None,
        again is None,
{
}

/// Giving roots again says whether there were any, or why the daemon did not take them.
pub proof fn law_giving_again_says_whether_there_was_anything(
    reply: Option<RootsReply>,
    result: Result<bool, SkillManagementError>,
)
    requires
        call_ensures(SkillController::reapply_extra_roots_after, (reply,), result),
    ensures
        result == Ok::<bool, SkillManagementError>(false) <==> reply is None,
        result == Ok::<bool, SkillManagementError>(true) <==> reply is Some && reply->Some_0 is Done,
        result matches Err(error) ==> tells_roots_reply(reply->Some_0, Err(error)),
{
}

/// Skills are looked for anew, past the daemon's cache, in the directories that are given; one that
/// is no text is refused.
pub proof fn law_refresh_reloads_the_directories(
    cwds: Vec<FilePath>,
    params: Result<Json, SkillManagementError>,
)
    requires
        call_ensures(SkillController::force_refresh, (&cwds,), params),
    ensures
        params is Ok <==> each_textual(cwds@),
        params matches Ok(sent) ==> {
            &&& sent@ matches JsonView::Object(members)
            &&& members.dom() =~= set!["cwds"@, "forceReload"@]
            &&& sends_paths(members["cwds"@], cwds@)
            &&& members["forceReload"@] == JsonView::Bool(true)
        },
        params matches Err(error) ==> exists|i: int| #[trigger]
            first_untextual(cwds@, i) && blames_path(
                error,
                cwds@,
                i,
                "skill-list cwd"@,
                "valid UTF-8 for the JSON-RPC protocol"@,
            ),
{
    let row = skills::path_row(cwds@);
    lemma_rows(cwds@);
    reveal_strlit("cwds");
    reveal_strlit("forceReload");
    match params {
        Ok(_) => {
            lemma_sends_paths(cwds@);
            assert("cwds"@.len() != "forceReload"@.len());
        },
        Err(error) => {
            let i = choose|i: int| #[trigger]
                skills::first_not_utf8(row, i) && skills::blames(
                    error,
                    skills::LIST_CWD@,
                    row[i],
                    skills::UTF8@,
                );
            assert(first_untextual(cwds@, i));
            assert(row[i] == cwds@[i]@);
        },
    }
}

/// What was found of skills is what the daemon answered; an error says whether the request failed
/// or the answer was none.
pub proof fn law_refresh_gives_what_was_found(
    reply: Result<Result<SkillsListResponse, String>, RequestError>,
    listed: Result<SkillsListResponse, SkillManagementError>,
)
    requires
        call_ensures(SkillController::force_refresh_after, (reply,), listed),
    ensures
        match reply {
            Ok(Ok(answer)) => listed matches Ok(found) && found == answer,
            Ok(Err(words)) => listed matches Err(SkillManagementError::InvalidResponse {
                method,
                source,
            }) && method@ == "skills/list"@ && source@ == words@,
            Err(error) => listed matches Err(SkillManagementError::Request(said)) && said == error,
        },
{
}

/// The words of a failure about skills.
pub proof fn law_skill_errors_say_what_happened(
    error: SkillManagementError,
    shown: &str,
    words: String,
)
    requires
        call_ensures(SkillManagementError::message, (&error, shown), words),
    ensures
        words@ == match error {
            SkillManagementError::InvalidPath { field, requirement, .. } => field@ + " path "@
                + shown@ + " must be "@ + requirement@,
            SkillManagementError::Request(error) => rpc::failure_words(error@),
            SkillManagementError::InvalidResponse { method, source } => "invalid response from "@
                + method@ + ": "@ + source@,
        },
{
}

/// The hooks of exactly the directories that are given are asked for.
pub proof fn law_hooks_are_listed_by_directory(cwds: Vec<FilePath>, params: Json)
    requires
        each_textual(cwds@),
        call_ensures(hooks::list, (&cwds,), params),
    ensures
        params@ matches JsonView::Object(members) && members.dom() =~= set!["cwds"@] && sends_paths(
            members["cwds"@],
            cwds@,
        ),
{
    lemma_rows(cwds@);
    lemma_sends_paths(cwds@);
}

/// What was found of hooks is what the daemon answered; an error says whether the request failed or
/// the answer was none.
pub proof fn law_listing_hooks_gives_what_was_found(
    reply: Result<Result<HooksListResponse, String>, RequestError>,
    listed: Result<HooksListResponse, HookManagementError>,
)
    requires
        call_ensures(hooks::list_after, (reply,), listed),
    ensures
        match reply {
            Ok(Ok(answer)) => listed matches Ok(found) && found == answer,
            Ok(Err(words)) => listed matches Err(HookManagementError::InvalidResponse {
                method,
                source,
            }) && method@ == "hooks/list"@ && source@ == words@,
            Err(error) => listed matches Err(HookManagementError::Request(said)) && said == error,
        },
{
}

/// The hash at `i` is the last that is given for its hook.
pub open spec fn is_last_hash(updates: Seq<HookTrustUpdate>, i: int) -> bool {
    &&& 0 <= i < updates.len()
    &&& forall|j: int| i < j < updates.len() ==> (#[trigger] updates[j]).key@ != updates[i].key@
}

/// An object with the one member `trusted_hash`.
pub open spec fn trusts(value: JsonView, hash: Seq<char>) -> bool {
    value == JsonView::Object(map!["trusted_hash"@ => JsonView::Text(hash)])
}

proof fn lemma_trusted(updates: Seq<HookTrustUpdate>)
    ensures
        forall|i: int| #[trigger]
            is_last_hash(updates, i) ==> hooks::trusted_hashes(updates).contains_key(updates[i].key@)
                && trusts(
                hooks::trusted_hashes(updates)[updates[i].key@],
                updates[i].current_hash@,
            ),
        forall|key: Seq<char>| #[trigger]
            hooks::trusted_hashes(updates).contains_key(key) ==> exists|i: int|
                0 <= i < updates.len() && (#[trigger] updates[i]).key@ == key,
    decreases updates.len(),
{
    if updates.len() > 0 {
        let rest = updates.drop_last();
        let last = updates.len() - 1;
        lemma_trusted(rest);
        assert forall|i: int| #[trigger] is_last_hash(updates, i) implies hooks::trusted_hashes(
            updates,
        ).contains_key(updates[i].key@) && trusts(
            hooks::trusted_hashes(updates)[updates[i].key@],
            updates[i].current_hash@,
        ) by {
            if i < last {
                assert(updates[last].key@ != updates[i].key@);
                assert forall|j: int| i < j < rest.len() implies (#[trigger] rest[j]).key@
                    != rest[i].key@ by {
                    assert(updates[j].key@ != updates[i].key@);
                }
                assert(is_last_hash(rest, i));
            }
        }
        assert forall|key: Seq<char>| #[trigger]
            hooks::trusted_hashes(updates).contains_key(key) implies exists|i: int|
            0 <= i < updates.len() && (#[trigger] updates[i]).key@ == key by {
            if updates[last].key@ != key {
                assert(hooks::trusted_hashes(rest).contains_key(key));
                let i = choose|i: int| 0 <= i < rest.len() && (#[trigger] rest[i]).key@ == key;
                assert(updates[i].key@ == key);
            }
        }
    }
}

/// Parameters that merge `hashes` into the state of the hooks in the user's configuration, and have
/// it loaded again.
pub open spec fn writes_trust(params: JsonView, hashes: Map<Seq<char>, JsonView>) -> bool {
    params == JsonView::Object(
        map![
            "edits"@ => JsonView::Array(seq![
                JsonView::Object(map![
                    "keyPath"@ => JsonView::Text("hooks.state"@),
                    "value"@ => JsonView::Object(hashes),
                    "mergeStrategy"@ => JsonView::Text("upsert"@),
                ]),
            ]),
            "filePath"@ => JsonView::Null,
            "expectedVersion"@ => JsonView::Null,
            "reloadUserConfig"@ => JsonView::Bool(true),
        ],
    )
}

/// The user's configuration is told to trust exactly the hooks that are named, each under the last
/// hash that is given for it; the trust is merged into what is there, and the configuration is
/// loaded again.
pub proof fn law_named_hooks_are_trusted_under_their_last_hash(
    updates: Vec<HookTrustUpdate>,
    params: Json,
)
    requires
        call_ensures(hooks::trust, (&updates,), params),
    ensures
        exists|hashes: Map<Seq<char>, JsonView>|
            {
                &&& #[trigger] writes_trust(params@, hashes)
                &&& forall|i: int| #[trigger]
                    is_last_hash(updates@, i) ==> hashes.contains_key(updates@[i].key@) && trusts(
                        hashes[updates@[i].key@],
                        updates@[i].current_hash@,
                    )
                &&& forall|key: Seq<char>| #[trigger]
                    hashes.contains_key(key) ==> exists|j: int|
                        0 <= j < updates@.len() && (#[trigger] updates@[j]).key@ == key
            },
{
    lemma_trusted(updates@);
    assert(writes_trust(params@, hooks::trusted_hashes(updates@)));
}

/// Trusting hooks succeeds exactly if the daemon answers with an object; else the error says whether
/// the request failed or the answer was none.
pub proof fn law_trusting_needs_an_object_for_an_answer(
    reply: Reply,
    result: Result<(), HookManagementError>,
)
    requires
        call_ensures(hooks::trust_after, (&reply,), result),
    ensures
        result is Ok <==> reply is Ok && reply->Ok_0@ is Object,
        result matches Err(error) ==> match reply {
            Err(failure) => error matches HookManagementError::Request(said) && said@ == failure@,
            Ok(value) => error matches HookManagementError::InvalidResponse { method, source }
                && method@ == "config/batchWrite"@ && source@ == json::not_an_object(value@),
        },
{
}

/// The words of a failure about hooks.
pub proof fn law_hook_errors_say_what_happened(error: HookManagementError, words: String)
    requires
        call_ensures(HookManagementError::message, (&error,), words),
    ensures
        words@ == match error {
            HookManagementError::Request(error) => rpc::failure_words(error@),
            HookManagementError::InvalidResponse { method, source } => "invalid response from "@
                + method@ + ": "@ + source@,
        },
{
}

/// Extra roots can be sent exactly where they can be set, and what is blamed is blamed alike.
pub proof fn law_roots_are_sent_where_they_can_be_set(
    controller: SkillController,
    roots: Vec<FilePath>,
    encoded: Result<Vec<String>, SkillManagementError>,
    params: Result<Json, SkillManagementError>,
)
    requires
        call_ensures(skills::encode_extra_roots, (&roots,), encoded),
        call_ensures(SkillController::set_extra_roots, (&controller, &roots), params),
    ensures
        encoded is Ok <==> params is Ok,
        encoded is Ok <==> each_normal(roots@) && each_textual(roots@),
        encoded matches Ok(sent) ==> sent@.len() == roots@.len() && forall|i: int|
            0 <= i < sent@.len() ==> encode_utf8((#[trigger] sent@[i])@) == roots@[i]@,
{
    let row = skills::path_row(roots@);
    lemma_rows(roots@);
    skills::law_unacceptable_roots_are_refused(row, encoded);
    law_bad_roots_are_blamed(controller, roots, params);
    if let Ok(sent) = encoded {
        assert(text::texts(sent@).len() == skills::decoded(row).len());
        assert forall|i: int| 0 <= i < sent@.len() implies encode_utf8((#[trigger] sent@[i])@)
            == roots@[i]@ by {
            assert(text::texts(sent@)[i] == skills::decoded(row)[i]);
            assert(row[i] == roots@[i]@);
            decode_utf8_encode_utf8(row[i]);
        }
    }
}

} // verus!
