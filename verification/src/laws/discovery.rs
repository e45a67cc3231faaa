//! What discovery, reconciliation and release of threads promise.

use crate::ingest;
use crate::ingest::{
    AuthoritativeIngress, Consumer, Discovery, DiscoveryEvent, DiscoveryOutcome, DiscoverySource,
    DiscoveryStage, DiscoveryStep, IngestConfig, IngestError, Reconciliation, ReconcileEvent,
    ReconcileStage, ReconcileStep, Signal, SubscriptionState, ThreadIngestor,
};
use crate::json;
use crate::json::{Json, JsonView};
use crate::laws::listing;
use crate::laws::supervision;
use crate::rpc;
use crate::rpc::{Reply, RequestError};
use crate::table::Table;
use crate::text;
use vstd::prelude::*;

verus! {

/// The text under `key` of an object.
pub open spec fn says(value: JsonView, key: Seq<char>, words: Seq<char>) -> bool {
    value matches JsonView::Object(members) && members.contains_key(key) && members[key]
        == JsonView::Text(words)
}

/// A turn has come to an end: its status is that it was completed, that it failed, or that it was
/// interrupted. Any other status, and none, leaves it open.
pub open spec fn has_ended(turn: JsonView) -> bool {
    says(turn, "status"@, "completed"@) || says(turn, "status"@, "failed"@) || says(
        turn,
        "status"@,
        "interrupted"@,
    )
}

proof fn lemma_has_ended(turn: JsonView)
    ensures
        ingest::turn_over(turn) <==> has_ended(turn),
{
}

/// The turns of a thread.
pub open spec fn turns_of(thread: JsonView) -> Option<Seq<JsonView>> {
    match thread {
        JsonView::Object(members) => if members.contains_key("turns"@) {
            match members["turns"@] {
                JsonView::Array(turns) => Some(turns),
                _ => None,
            }
        } else {
            None
        },
        _ => None,
    }
}

/// The text that a value holds under `key`.
pub open spec fn text_under(value: JsonView, key: Seq<char>) -> Option<Seq<char>> {
    match value {
        JsonView::Object(members) => if members.contains_key(key) {
            match members[key] {
                JsonView::Text(words) => Some(words),
                _ => None,
            }
        } else {
            None
        },
        _ => None,
    }
}

/// What a text that may be missing says.
pub open spec fn words_of(text: Option<String>) -> Option<Seq<char>> {
    match text {
        Some(text) => Some(text@),
        None => None,
    }
}

/// The turn at `i` is the last that has not come to an end.
pub open spec fn is_last_open(turns: Seq<JsonView>, i: int) -> bool {
    &&& 0 <= i < turns.len()
    &&& !has_ended(turns[i])
    &&& forall|j: int| i < j < turns.len() ==> has_ended(#[trigger] turns[j])
}

proof fn lemma_last_open_turn(turns: Seq<JsonView>)
    ensures
        forall|i: int| #[trigger]
            is_last_open(turns, i) ==> ingest::last_open_turn(turns) == text_under(
                turns[i],
                "id"@,
            ),
        (forall|i: int| 0 <= i < turns.len() ==> has_ended(#[trigger] turns[i]))
            ==> ingest::last_open_turn(turns) is None,
    decreases turns.len(),
{
    if turns.len() > 0 {
        let rest = turns.drop_last();
        lemma_last_open_turn(rest);
        lemma_has_ended(turns.last());
        assert forall|i: int| #[trigger] is_last_open(turns, i) implies ingest::last_open_turn(
            turns,
        ) == text_under(turns[i], "id"@) by {
            if i < turns.len() - 1 {
                assert(has_ended(turns[turns.len() - 1]));
                assert forall|j: int| i < j < rest.len() implies has_ended(#[trigger] rest[j]) by {
                    assert(rest[j] == turns[j]);
                }
                assert(is_last_open(rest, i));
            }
        }
        if forall|i: int| 0 <= i < turns.len() ==> has_ended(#[trigger] turns[i]) {
            assert(has_ended(turns[turns.len() - 1]));
            assert forall|i: int| 0 <= i < rest.len() implies has_ended(#[trigger] rest[i]) by {
                assert(rest[i] == turns[i]);
            }
        }
    }
}

/// A turn is over exactly if its status is one of the three texts for an end. So the turn in flight
/// is the last whose status is any other text or missing, under its identity; and there is none
/// where every turn has ended, or where there are no turns.
pub proof fn law_turn_in_flight_is_the_last_open_one(thread: Json, id: Option<String>, i: int)
    requires
        call_ensures(ingest::in_flight_turn_id, (&thread,), id),
    ensures
        match turns_of(thread@) {
            None => id is None,
            Some(turns) => {
                &&& is_last_open(turns, i) ==> words_of(id) == text_under(turns[i], "id"@)
                &&& (forall|j: int| 0 <= j < turns.len() ==> has_ended(#[trigger] turns[j])) ==> id
                    is None
            },
        },
{
    if let Some(turns) = turns_of(thread@) {
        lemma_last_open_turn(turns);
    }
}

/// Something is happening in a thread: its status is of the active kind, or one of its turns has not
/// come to an end.
pub open spec fn something_happens(thread: JsonView) -> bool {
    ||| thread matches JsonView::Object(members) && members.contains_key("status"@) && says(
        members["status"@],
        "type"@,
        "active"@,
    )
    ||| turns_of(thread) matches Some(turns) && exists|i: int|
        0 <= i < turns.len() && !has_ended(#[trigger] turns[i])
}

proof fn lemma_something_happens(thread: JsonView)
    ensures
        ingest::is_active(thread) == something_happens(thread),
{
    if let Some(turns) = turns_of(thread) {
        assert forall|i: int| 0 <= i < turns.len() implies ingest::turn_over(#[trigger] turns[i])
            == has_ended(turns[i]) by {
            lemma_has_ended(turns[i]);
        }
    }
}

/// A thread is active exactly if its status is of the active kind, or one of its turns has not come
/// to an end, wherever it stands.
pub proof fn law_threads_with_an_open_turn_are_active(thread: Json, yes: bool)
    requires
        call_ensures(ingest::thread_is_active, (&thread,), yes),
    ensures
        yes <==> something_happens(thread@),
{
    lemma_something_happens(thread@);
}

/// A thread with a turn in flight is active.
pub proof fn law_turn_in_flight_makes_a_thread_active(
    thread: Json,
    id: Option<String>,
    active: bool,
)
    requires
        call_ensures(ingest::in_flight_turn_id, (&thread,), id),
        call_ensures(ingest::thread_is_active, (&thread,), active),
        id is Some,
    ensures
        active,
{
    law_threads_with_an_open_turn_are_active(thread, active);
    if let Some(turns) = turns_of(thread@) {
        lemma_last_open_turn(turns);
        assert(exists|i: int| 0 <= i < turns.len() && !has_ended(#[trigger] turns[i]));
    }
}

/// A time is a number, or a text that spells one; anything else is none.
pub proof fn law_times_are_numbers_or_spell_them(value: Option<&Json>, time: Option<u64>)
    requires
        call_ensures(ingest::numeric_timestamp, (value,), time),
    ensures
        time == match value {
            None => None,
            Some(value) => match value@ {
                JsonView::Number(n) => Some(n),
                JsonView::Text(words) => text::spelled_number(words),
                _ => None,
            },
        },
{
}

/// An error says that a thread is not there, or not there yet, exactly if one of three phrases
/// stands in it, in capitals or not.
pub proof fn law_missing_threads_are_known_by_three_phrases(words: &str, yes: bool)
    requires
        call_ensures(ingest::is_ephemeral_text, (words,), yes),
    ensures
        yes <==> supervision::holds(text::lower(words@), "ephemeral"@) || supervision::holds(
            text::lower(words@),
            "rollout"@,
        ) || supervision::holds(text::lower(words@), "not found"@),
{
    supervision::lemma_holds(text::lower(words@), "ephemeral"@);
    supervision::lemma_holds(text::lower(words@), "rollout"@);
    supervision::lemma_holds(text::lower(words@), "not found"@);
}

/// What an error says is judged by its text.
pub proof fn law_errors_are_judged_by_their_text(
    error: Json,
    yes: bool,
    words: &str,
    of_words: bool,
)
    requires
        call_ensures(ingest::is_ephemeral_error, (&error,), yes),
        words@ == json::text_of_json(error@),
        call_ensures(ingest::is_ephemeral_text, (words,), of_words),
    ensures
        yes == of_words,
{
}

/// An event goes to the reducer first, to the store next and to the fan-out last, and then to nobody
/// more.
pub proof fn law_authoritative_consumers_come_first(
    ingress: AuthoritativeIngress,
    done: Option<Consumer>,
    next: Option<Consumer>,
)
    requires
        call_ensures(AuthoritativeIngress::process, (&ingress, done), next),
    ensures
        next == Some(Consumer::Reducer) <==> done is None,
        next == Some(Consumer::Store) <==> done == Some(Consumer::Reducer),
        next == Some(Consumer::Hub) <==> done == Some(Consumer::Store),
        next is None <==> done == Some(Consumer::Hub),
{
}

/// The kind of status that parameters speak of is the text under `type` of their status, or else the
/// status itself, where it is a text.
pub open spec fn kind_spoken_of(params: JsonView) -> Option<Seq<char>> {
    match params {
        JsonView::Object(members) => if members.contains_key("status"@) {
            match text_under(members["status"@], "type"@) {
                Some(kind) => Some(kind),
                None => match members["status"@] {
                    JsonView::Text(kind) => Some(kind),
                    _ => None,
                },
            }
        } else {
            None
        },
        _ => None,
    }
}

/// The kind of status is read from the parameters, and there is none without them.
pub proof fn law_status_is_read_from_the_parameters(params: Option<&Json>, kind: Option<&String>)
    requires
        call_ensures(ingest::status_type, (params,), kind),
    ensures
        (match kind {
            Some(kind) => Some(kind@),
            None => None,
        }) == match params {
            Some(params) => kind_spoken_of(params@),
            None => None,
        },
{
}

/// What brings a thread to attention: that it was started, whatever its parameters say, or that its
/// status changed to active; nothing else does.
pub open spec fn attention(method: Seq<char>, params: Option<JsonView>) -> Option<DiscoverySource> {
    if method == "thread/started"@ {
        Some(DiscoverySource::ThreadStarted)
    } else if method == "thread/status/changed"@ && (params matches Some(params) && kind_spoken_of(
        params,
    ) == Some("active"@)) {
        Some(DiscoverySource::ActivationStatus)
    } else {
        None
    }
}

/// Only a start and a change to active bring a thread to attention.
pub proof fn law_starts_and_activations_bring_attention(
    method: &str,
    params: Option<&Json>,
    source: Option<DiscoverySource>,
)
    requires
        call_ensures(ingest::signal_source, (method, params), source),
    ensures
        source == attention(
            method@,
            match params {
                Some(params) => Some(params@),
                None => None,
            },
        ),
{
}

/// A thread takes a place: it is subscribed to, being subscribed to, or about to be again.
pub open spec fn has_place(states: Map<Seq<char>, SubscriptionState>, id: Seq<char>) -> bool {
    states.contains_key(id) && match states[id] {
        SubscriptionState::Subscribed => true,
        SubscriptionState::Subscribing { .. } => true,
        SubscriptionState::RetryWait { .. } => true,
        _ => false,
    }
}

/// The threads that take a place.
pub open spec fn with_place(states: Map<Seq<char>, SubscriptionState>) -> Set<Seq<char>> {
    states.dom().filter(|id: Seq<char>| has_place(states, id))
}

/// Only the state of `id` differs, and everything but the states is as it was.
pub open spec fn only_touches(before: ThreadIngestor, after: ThreadIngestor, id: Seq<char>) -> bool {
    &&& after.config == before.config
    &&& after.watermark == before.watermark
    &&& after.reactivation_verified == before.reactivation_verified
    &&& after.has_store == before.has_store
    &&& forall|other: Seq<char>|
        other != id ==> (#[trigger] after.states@.contains_key(other)
            <==> before.states@.contains_key(other))
    &&& forall|other: Seq<char>|
        other != id && before.states@.contains_key(other) ==> #[trigger] after.states@[other]
            == before.states@[other]
}

/// How a discovery of the thread `id` begins. One that has a place is left alone; where no place is
/// left, the thread is marked so and nothing is asked; and else a subscription begins with the first
/// attempt. No other thread is touched.
pub open spec fn begins(
    before: ThreadIngestor,
    id: Seq<char>,
    source: DiscoverySource,
    after: ThreadIngestor,
    run: Discovery,
    step: DiscoveryStep,
) -> bool {
    &&& run.thread_id@ == id
    &&& run.source == source
    &&& only_touches(before, after, id)
    &&& step is Begin <==> !has_place(before.states@, id) && with_place(before.states@).len()
        < before.config.subscription_cap
    &&& step == DiscoveryStep::Done(DiscoveryOutcome::AlreadyManaged) <==> has_place(
        before.states@,
        id,
    )
    &&& step == DiscoveryStep::Done(DiscoveryOutcome::CapacityDegraded) <==> !has_place(
        before.states@,
        id,
    ) && with_place(before.states@).len() >= before.config.subscription_cap
    &&& match step {
        DiscoveryStep::Begin => {
            &&& run.stage is Beginning
            &&& after.states@.contains_key(id)
            &&& after.states@[id] == SubscriptionState::Subscribing { source, attempt: 1 }
        },
        DiscoveryStep::Done(DiscoveryOutcome::AlreadyManaged) => {
            &&& run.stage is Ended
            &&& after.states@.contains_key(id)
            &&& after.states@[id] == before.states@[id]
        },
        DiscoveryStep::Done(DiscoveryOutcome::CapacityDegraded) => {
            &&& run.stage is Ended
            &&& after.states@.contains_key(id)
            &&& after.states@[id] is CapacityDegraded
        },
        _ => false,
    }
}

proof fn lemma_begins(
    before: ThreadIngestor,
    id: Seq<char>,
    source: DiscoverySource,
    after: ThreadIngestor,
    run: Discovery,
    step: DiscoveryStep,
)
    requires
        ingest::discovery_starts(before, id, source, after, run, step),
    ensures
        begins(before, id, source, after, run, step),
{
    assert(ingest::retained(before.states@) =~= with_place(before.states@));
}

/// A discovery begins a subscription exactly where the thread has no place and there is one.
pub proof fn law_discovery_begins_where_there_is_a_place(
    ingestor: &mut ThreadIngestor,
    id: &str,
    source: DiscoverySource,
    run: Discovery,
    step: DiscoveryStep,
)
    requires
        ingestor.valid(),
        call_ensures(ThreadIngestor::discover, (ingestor, id, source), (run, step)),
    ensures
        begins(*old(ingestor), id@, source, *final(ingestor), run, step),
{
    lemma_begins(*old(ingestor), id@, source, *final(ingestor), run, step);
}

/// An event begins a discovery exactly if it names a thread and a method that brings it to
/// attention; any other event changes nothing.
pub proof fn law_signals_begin_discoveries(
    ingestor: &mut ThreadIngestor,
    signal: Signal,
    begun: Option<(Discovery, DiscoveryStep)>,
)
    requires
        ingestor.valid(),
        call_ensures(ThreadIngestor::handle_signal, (ingestor, &signal), begun),
    ensures
        match (signal.thread_id, signal.method) {
            (Some(id), Some(method)) => match attention(
                method@,
                match signal.params {
                    Some(params) => Some(params@),
                    None => None,
                },
            ) {
                Some(source) => begun matches Some((run, step)) && begins(
                    *old(ingestor),
                    id@,
                    source,
                    *final(ingestor),
                    run,
                    step,
                ),
                None => begun is None && *final(ingestor) == *old(ingestor),
            },
            _ => begun is None && *final(ingestor) == *old(ingestor),
        },
{
    if let Some((run, step)) = begun {
        if let (Some(id), Some(method)) = (signal.thread_id, signal.method) {
            if let Some(source) = ingest::signal_in(method@, json::optional_json(signal.params)) {
                lemma_begins(*old(ingestor), id@, source, *final(ingestor), run, step);
            }
        }
    }
}

/// A step of a discovery.
pub open spec fn discovery_step(
    ingestor: &mut ThreadIngestor,
    run: Discovery,
    event: DiscoveryEvent,
    went: Discovery,
    step: DiscoveryStep,
) -> bool {
    &&& ingestor.valid()
    &&& ingest::discovery_expects(run.stage, event)
    &&& call_ensures(ThreadIngestor::discover_after, (ingestor, run, event), (went, step))
}

/// A request for `method`, with the parameters `params`.
pub open spec fn requests(step: DiscoveryStep, method: Seq<char>, params: JsonView) -> bool {
    match step {
        DiscoveryStep::Request { method: asked, params: said } => asked@ == method && said@
            == params,
        _ => false,
    }
}

/// What a discovery does next is what the stage where it stands waits for: the daemon is asked to
/// resume its thread, or to read it with its turns, and to nothing else. It has ended exactly if it
/// is done. It stays with its thread and its source, and touches no other thread.
pub proof fn law_discovery_asks_for_what_it_waits_for(
    ingestor: &mut ThreadIngestor,
    run: Discovery,
    event: DiscoveryEvent,
    went: Discovery,
    step: DiscoveryStep,
)
    requires
        discovery_step(ingestor, run, event, went, step),
    ensures
        went.thread_id == run.thread_id,
        went.source == run.source,
        only_touches(*old(ingestor), *final(ingestor), run.thread_id@),
        match went.stage {
            DiscoveryStage::Beginning => false,
            DiscoveryStage::Resuming { .. } => requests(
                step,
                "thread/resume"@,
                JsonView::Object(map!["threadId"@ => JsonView::Text(run.thread_id@)]),
            ),
            DiscoveryStage::Pausing { .. } => step == DiscoveryStep::Sleep(
                old(ingestor).config.retry_delay,
            ),
            DiscoveryStage::Finishing => step is Finish,
            DiscoveryStage::Reading => requests(
                step,
                "thread/read"@,
                JsonView::Object(
                    map![
                        "threadId"@ => JsonView::Text(run.thread_id@),
                        "includeTurns"@ => JsonView::Bool(true),
                    ],
                ),
            ),
            DiscoveryStage::Restoring => step is Restore,
            DiscoveryStage::Cancelling { .. } => step is Cancel,
            DiscoveryStage::Ended => step is Done,
        },
{
}

/// The state that the thread of a discovery has.
pub open spec fn state_is(
    ingestor: ThreadIngestor,
    id: Seq<char>,
    state: SubscriptionState,
) -> bool {
    ingestor.states@.contains_key(id) && ingestor.states@[id] == state
}

/// The states of all threads are as they were.
pub open spec fn no_state_changes(before: ThreadIngestor, after: ThreadIngestor) -> bool {
    before.states@ == after.states@
}

/// A failure that leaves hope: the request was not written, or the daemon said that the thread is
/// not there, or not there yet.
pub open spec fn leaves_hope(error: RequestError) -> bool {
    match error {
        RequestError::NotWritten(_) => true,
        RequestError::Rejected { error, .. } => ingest::says_ephemeral(json::text_of_json(error@)),
        _ => false,
    }
}

/// The daemon is asked to resume a thread once more exactly after a failure that leaves hope and as
/// long as there are attempts left: after a pause, with the next attempt, and with the thread's state
/// saying so. A failure that ends the discovery is that the thread is ephemeral exactly if the daemon
/// said so, and else carries the words of the failure, in the thread's state too. An answer of any
/// other kind means that the thread was resumed.
pub proof fn law_resuming_is_tried_again_while_there_is_hope(
    ingestor: &mut ThreadIngestor,
    run: Discovery,
    event: DiscoveryEvent,
    went: Discovery,
    step: DiscoveryStep,
)
    requires
        discovery_step(ingestor, run, event, went, step),
    ensures
        run.stage is Beginning ==> went.stage == (DiscoveryStage::Resuming { attempt: 1 })
            && no_state_changes(*old(ingestor), *final(ingestor)),
        match (run.stage, event) {
            (DiscoveryStage::Resuming { attempt }, DiscoveryEvent::Replied(Err(error))) => {
                if leaves_hope(error) && attempt < old(ingestor).config.resume_retry_limit {
                    &&& went.stage matches DiscoveryStage::Pausing { attempt: next }
                    &&& next == attempt + 1
                    &&& state_is(
                        *final(ingestor),
                        run.thread_id@,
                        SubscriptionState::RetryWait { attempt: next },
                    )
                } else if leaves_hope(error) && !(error is NotWritten) {
                    &&& went.stage matches DiscoveryStage::Cancelling { outcome }
                    &&& outcome is Ephemeral
                    &&& state_is(*final(ingestor), run.thread_id@, SubscriptionState::Ephemeral)
                } else {
                    &&& went.stage matches DiscoveryStage::Cancelling { outcome }
                    &&& outcome matches DiscoveryOutcome::Failed(words)
                    &&& words@ == rpc::failure_words(error@)
                    &&& state_is(
                        *final(ingestor),
                        run.thread_id@,
                        SubscriptionState::Failed(words),
                    )
                }
            },
            (DiscoveryStage::Resuming { .. }, _) => went.stage is Finishing && no_state_changes(
                *old(ingestor),
                *final(ingestor),
            ),
            _ => true,
        },
        run.stage matches DiscoveryStage::Pausing { attempt } ==> went.stage
            == (DiscoveryStage::Resuming { attempt }) && state_is(
            *final(ingestor),
            run.thread_id@,
            SubscriptionState::Subscribing { source: run.source, attempt },
        ),
        went.stage is Pausing ==> run.stage is Resuming,
        went.stage is Finishing ==> run.stage is Resuming,
        went.stage is Cancelling ==> run.stage is Resuming,
{
}

/// The thread that a reply holds.
pub open spec fn thread_of(reply: Reply) -> Option<JsonView> {
    match reply {
        Ok(value) => match value@ {
            JsonView::Object(members) => if members.contains_key("thread"@) {
                Some(members["thread"@])
            } else {
                None
            },
            _ => None,
        },
        Err(_) => None,
    }
}

/// A thread that was resumed is subscribed to, and then read. What was read is shown exactly if the
/// reply holds a thread; with a store, and only then, the anchor is the identity of the last turn
/// that has not come to an end. The discovery then succeeds, and it succeeds as well where nothing
/// could be read.
pub proof fn law_resumed_threads_are_subscribed_and_read(
    ingestor: &mut ThreadIngestor,
    run: Discovery,
    event: DiscoveryEvent,
    went: Discovery,
    step: DiscoveryStep,
    i: int,
)
    requires
        discovery_step(ingestor, run, event, went, step),
    ensures
        run.stage is Finishing ==> went.stage is Reading && state_is(
            *final(ingestor),
            run.thread_id@,
            SubscriptionState::Subscribed,
        ),
        went.stage is Reading ==> run.stage is Finishing,
        run.stage is Reading ==> {
            &&& event matches DiscoveryEvent::Replied(reply)
            &&& no_state_changes(*old(ingestor), *final(ingestor))
            &&& match thread_of(reply) {
                None => step == DiscoveryStep::Done(DiscoveryOutcome::Subscribed),
                Some(read) => {
                    &&& step matches DiscoveryStep::Restore { thread, anchor }
                    &&& thread@ == read
                    &&& if !old(ingestor).has_store {
                        anchor is None
                    } else {
                        match turns_of(read) {
                            None => anchor is None,
                            Some(turns) => {
                                &&& is_last_open(turns, i) ==> words_of(anchor) == text_under(
                                    turns[i],
                                    "id"@,
                                )
                                &&& (forall|j: int|
                                    0 <= j < turns.len() ==> has_ended(#[trigger] turns[j]))
                                    ==> anchor is None
                            },
                        }
                    }
                },
            }
        },
        step == DiscoveryStep::Done(DiscoveryOutcome::Subscribed) <==> run.stage is Restoring || (
        run.stage is Reading && thread_of(event->Replied_0) is None) || (run.stage
            matches DiscoveryStage::Cancelling { outcome } && outcome is Subscribed),
        run.stage matches DiscoveryStage::Cancelling { outcome } ==> step == DiscoveryStep::Done(
            outcome,
        ),
        run.stage is Restoring || run.stage is Cancelling ==> no_state_changes(
            *old(ingestor),
            *final(ingestor),
        ),
{
    if run.stage is Reading {
        if let DiscoveryEvent::Replied(reply) = event {
            if let Some(read) = thread_of(reply) {
                if let Some(turns) = turns_of(read) {
                    lemma_last_open_turn(turns);
                }
            }
        }
    }
}

/// When a listed thread last changed, as far as it says so.
pub open spec fn changed_at(thread: JsonView) -> int {
    match thread {
        JsonView::Object(members) => if members.contains_key("updatedAt"@) {
            match members["updatedAt"@] {
                JsonView::Number(n) => n as int,
                JsonView::Text(words) => match text::spelled_number(words) {
                    Some(n) => n as int,
                    None => 0,
                },
                _ => 0,
            }
        } else {
            0
        },
        _ => 0,
    }
}

/// A listed thread had been seen before: it has an identity, threads have been seen before, and it
/// has not changed since.
pub open spec fn was_seen(thread: JsonView, previous: u64) -> bool {
    text_under(thread, "id"@) is Some && previous > 0 && changed_at(thread) <= previous
}

/// The identities of those threads of a page that had not been seen before, in order.
pub open spec fn unseen(page: Seq<JsonView>, previous: u64) -> Seq<Seq<char>>
    decreases page.len(),
{
    if page.len() == 0 {
        Seq::empty()
    } else {
        let before = unseen(page.drop_last(), previous);
        match text_under(page.last(), "id"@) {
            Some(id) => if was_seen(page.last(), previous) {
                before
            } else {
                before.push(id)
            },
            None => before,
        }
    }
}

/// The first `n` threads of a page were looked at, and no others: a thread that had been seen before
/// is the last to be looked at, and so is the one that makes the candidates as many as the limit. The
/// candidates grew by those that had not been seen before, in order. The latest time is the latest of
/// what it was and of the times of those that were looked at.
pub open spec fn looks_at_first(
    page: Seq<JsonView>,
    previous: u64,
    limit: usize,
    newest: u64,
    candidates: Seq<Seq<char>>,
    latest: u64,
    grown: Seq<Seq<char>>,
    n: int,
) -> bool {
    &&& 0 <= n <= page.len()
    &&& grown =~= candidates + unseen(page.take(n), previous)
    &&& grown.len() <= limit
    &&& forall|i: int| 0 <= i < n - 1 ==> !was_seen(#[trigger] page[i], previous)
    &&& n < page.len() ==> n > 0 && (was_seen(page[n - 1], previous) || grown.len() == limit)
    &&& newest <= latest
    &&& forall|i: int|
        0 <= i < n && text_under(#[trigger] page[i], "id"@) is Some ==> changed_at(page[i])
            <= latest
    &&& latest == newest || exists|i: int|
        0 <= i < n && text_under(#[trigger] page[i], "id"@) is Some && changed_at(page[i]) == latest
}

proof fn lemma_unseen_from_the_front(page: Seq<JsonView>, previous: u64)
    requires
        page.len() > 0,
    ensures
        unseen(page, previous) == unseen(page.take(1), previous) + unseen(page.skip(1), previous),
    decreases page.len(),
{
    let rest = page.drop_last();
    if page.len() == 1 {
        assert(page.take(1) =~= page);
        assert(page.skip(1) =~= Seq::<JsonView>::empty());
        assert(unseen(page, previous) =~= unseen(page.take(1), previous) + unseen(
            page.skip(1),
            previous,
        ));
    } else {
        lemma_unseen_from_the_front(rest, previous);
        assert(rest.take(1) =~= page.take(1));
        assert(page.skip(1).drop_last() =~= rest.skip(1));
        assert(page.skip(1).last() == page.last());
        assert(unseen(page, previous) =~= unseen(page.take(1), previous) + unseen(
            page.skip(1),
            previous,
        ));
    }
}

#[verifier::rlimit(30)]
proof fn lemma_page_scan(
    page: Seq<JsonView>,
    previous: u64,
    limit: usize,
    newest: u64,
    candidates: Seq<Seq<char>>,
) -> (n: int)
    requires
        candidates.len() < limit,
    ensures
        ({
            let scan = ingest::page_scan(page, previous, limit, newest, candidates);
            &&& looks_at_first(
                page,
                previous,
                limit,
                newest,
                candidates,
                scan.newest,
                scan.candidates,
                n,
            )
            &&& scan.reached <==> n > 0 && was_seen(page[n - 1], previous)
        }),
    decreases page.len(),
{
    if page.len() == 0 {
        assert(page.take(0) =~= Seq::<JsonView>::empty());
        0
    } else {
        let first = page[0];
        let one = page.take(1);
        assert(one.drop_last() =~= Seq::<JsonView>::empty());
        assert(one.last() == first);
        reveal_with_fuel(unseen, 2);
        let rest = page.skip(1);
        assert(text_under(first, "id"@) == first.member_text("id"@));
        assert(changed_at(first) == ingest::updated_at(first));
        let time = if text_under(first, "id"@) is Some {
            ingest::later(newest, ingest::updated_at(first))
        } else {
            newest
        };
        let more = if text_under(first, "id"@) is Some {
            candidates.push(text_under(first, "id"@).unwrap())
        } else {
            candidates
        };
        if was_seen(first, previous) || more.len() >= limit {
            1
        } else {
            assert(more =~= candidates + unseen(one, previous));
            let m = lemma_page_scan(rest, previous, limit, time, more);
            let n = m + 1;
            let scan = ingest::page_scan(page, previous, limit, newest, candidates);
            assert(scan == ingest::page_scan(rest, previous, limit, time, more));
            let taken = page.take(n);
            assert(taken.take(1) =~= one);
            assert(taken.skip(1) =~= rest.take(m));
            lemma_unseen_from_the_front(taken, previous);
            assert(scan.candidates =~= candidates + unseen(taken, previous));
            assert forall|i: int| 0 <= i < n - 1 implies !was_seen(#[trigger] page[i], previous) by {
                if i > 0 {
                    assert(rest[i - 1] == page[i]);
                }
            }
            assert forall|i: int|
                0 <= i < n && text_under(#[trigger] page[i], "id"@) is Some implies changed_at(
                page[i],
            ) <= scan.newest by {
                if i > 0 {
                    assert(rest[i - 1] == page[i]);
                }
            }
            if scan.newest != newest {
                if scan.newest == time {
                    assert(changed_at(page[0]) == scan.newest);
                } else {
                    let i = choose|i: int|
                        0 <= i < m && text_under(#[trigger] rest[i], "id"@) is Some && changed_at(
                            rest[i],
                        ) == scan.newest;
                    assert(page[i + 1] == rest[i]);
                }
            }
            if m > 0 {
                assert(rest[m - 1] == page[n - 1]);
            }
            n
        }
    }
}

/// A reconciliation begins at the time up to which threads have been seen, and asks for the first
/// page; where it may ask for no page, or take no candidate, it ends at once with nothing.
pub proof fn law_reconciliation_begins_with_the_first_page(
    ingestor: ThreadIngestor,
    run: Reconciliation,
    step: ReconcileStep,
)
    requires
        call_ensures(ThreadIngestor::reconcile, (&ingestor,), (run, step)),
    ensures
        run.previous == ingestor.watermark,
        run.newest == ingestor.watermark,
        run.pages_left == ingestor.config.reconcile_page_bound,
        run.candidates@.len() == 0,
        run.outcomes@.len() == 0,
        run.looked == 0,
        if ingestor.config.reconcile_page_bound == 0 || ingestor.config.reconcile_candidate_limit
            == 0 {
            run.stage is Ended && (step matches ReconcileStep::Done(Ok(outcomes)) && outcomes@.len()
                == 0)
        } else {
            run.stage is Listing && asks_daemon(
                step,
                "thread/list"@,
                listing::page_parameters(None, ingestor.config.reconcile_page_size as u64),
            )
        },
{
}

/// A request for `method`, with the parameters `params`.
pub open spec fn asks_daemon(step: ReconcileStep, method: Seq<char>, params: JsonView) -> bool {
    match step {
        ReconcileStep::Request { method: asked, params: said } => asked@ == method && said@
            == params,
        _ => false,
    }
}

/// A step of a reconciliation.
pub open spec fn reconciliation_step(
    ingestor: &mut ThreadIngestor,
    run: Reconciliation,
    event: ReconcileEvent,
    went: Reconciliation,
    step: ReconcileStep,
) -> bool {
    &&& run.valid()
    &&& ingest::reconcile_expects(run.stage, event)
    &&& run.stage is Listing ==> run.candidates@.len() < ingestor.config.reconcile_candidate_limit
    &&& call_ensures(ThreadIngestor::reconcile_after, (ingestor, run, event), (went, step))
}

/// The identities in a row of texts.
pub open spec fn ids(row: Seq<String>) -> Seq<Seq<char>> {
    row.map_values(|id: String| id@)
}

/// The page that a reply holds.
pub open spec fn page_of(value: JsonView) -> Option<Seq<JsonView>> {
    match value {
        JsonView::Object(members) => if members.contains_key("data"@) {
            match members["data"@] {
                JsonView::Array(page) => Some(page),
                _ => None,
            }
        } else {
            None
        },
        _ => None,
    }
}

/// Every thread of a page that had not been seen before becomes a candidate, in order, up to the
/// limit, and no other thread does. The next page is asked for exactly if this one reached no thread
/// that had been seen before and names a cursor, and there are pages and candidates left. Else the
/// candidates are looked at, and the time up to which threads have been seen becomes the latest that
/// was met.
pub proof fn law_changed_threads_become_candidates(
    ingestor: &mut ThreadIngestor,
    run: Reconciliation,
    value: Json,
    went: Reconciliation,
    step: ReconcileStep,
)
    requires
        reconciliation_step(ingestor, run, ReconcileEvent::Replied(Ok(value)), went, step),
        run.stage is Listing,
        page_of(value@) is Some,
    ensures
        exists|n: int| #[trigger]
            looks_at_first(
                page_of(value@).unwrap(),
                run.previous,
                old(ingestor).config.reconcile_candidate_limit,
                run.newest,
                ids(run.candidates@),
                went.newest,
                ids(went.candidates@),
                n,
            ) && (went.stage is Listing <==> {
                &&& !(n > 0 && was_seen(page_of(value@).unwrap()[n - 1], run.previous))
                &&& text_under(value@, "nextCursor"@) is Some
                &&& run.pages_left > 1
                &&& went.candidates@.len() < old(ingestor).config.reconcile_candidate_limit
            }),
        went.pages_left == run.pages_left - 1,
        went.previous == run.previous,
        went.stage is Listing ==> asks_daemon(
            step,
            "thread/list"@,
            listing::page_parameters(
                text_under(value@, "nextCursor"@),
                old(ingestor).config.reconcile_page_size as u64,
            ),
        ),
        final(ingestor).watermark == if went.stage is Listing {
            old(ingestor).watermark
        } else {
            went.newest
        },
        final(ingestor).states == old(ingestor).states,
        final(ingestor).config == old(ingestor).config,
        final(ingestor).reactivation_verified == old(ingestor).reactivation_verified,
        final(ingestor).has_store == old(ingestor).has_store,
        went.looked == run.looked,
        went.stage is Listing ==> went.outcomes@ == run.outcomes@,
{
    let page = page_of(value@).unwrap();
    let limit = old(ingestor).config.reconcile_candidate_limit;
    assert(value@.member_items("data"@) == Some(page));
    assert(text::texts(run.candidates@) =~= ids(run.candidates@));
    assert(text::texts(went.candidates@) =~= ids(went.candidates@));
    let n = lemma_page_scan(page, run.previous, limit, run.newest, ids(run.candidates@));
    assert(looks_at_first(
        page,
        run.previous,
        limit,
        run.newest,
        ids(run.candidates@),
        went.newest,
        ids(went.candidates@),
        n,
    ));
}

/// The candidates of a reconciliation are looked at in order: one that has not been looked at is
/// read next, with its turns, and when there is none left the reconciliation ends with the outcomes.
pub open spec fn looks_at_next(
    outcomes: Seq<(String, DiscoveryOutcome)>,
    went: Reconciliation,
    step: ReconcileStep,
) -> bool {
    if went.looked < went.candidates@.len() {
        &&& went.stage is Reading
        &&& went.outcomes@ == outcomes
        &&& asks_daemon(
            step,
            "thread/read"@,
            JsonView::Object(
                map![
                    "threadId"@ => JsonView::Text(went.candidates@[went.looked as int]@),
                    "includeTurns"@ => JsonView::Bool(true),
                ],
            ),
        )
    } else {
        &&& went.stage is Ended
        &&& step matches ReconcileStep::Done(Ok(ended))
        &&& ended@ == outcomes
    }
}

/// A candidate is shown and discovered exactly if it could be read and something is happening in it:
/// its status is active, or a turn of it has not come to an end. Every other candidate is passed
/// over. What a discovery came to is noted under its thread, behind what was noted before; and so
/// each candidate is looked at once, in order.
pub proof fn law_active_candidates_are_discovered(
    ingestor: &mut ThreadIngestor,
    run: Reconciliation,
    event: ReconcileEvent,
    went: Reconciliation,
    step: ReconcileStep,
)
    requires
        reconciliation_step(ingestor, run, event, went, step),
        !(run.stage is Listing),
    ensures
        *final(ingestor) == *old(ingestor),
        went.candidates == run.candidates,
        went.previous == run.previous,
        went.newest == run.newest,
        went.pages_left == run.pages_left,
        match run.stage {
            ReconcileStage::Reading => {
                let read = thread_of(event->Replied_0);
                if read is Some && something_happens(read.unwrap()) {
                    &&& went.stage is Restoring
                    &&& went.looked == run.looked
                    &&& went.outcomes@ == run.outcomes@
                    &&& step matches ReconcileStep::Restore { thread }
                    &&& thread@ == read.unwrap()
                } else {
                    &&& went.looked == run.looked + 1
                    &&& looks_at_next(run.outcomes@, went, step)
                }
            },
            ReconcileStage::Restoring => {
                &&& went.stage is Discovering
                &&& went.looked == run.looked
                &&& went.outcomes@ == run.outcomes@
                &&& step matches ReconcileStep::Discover { thread_id }
                &&& thread_id@ == run.candidates@[run.looked as int]@
            },
            ReconcileStage::Discovering => {
                &&& went.looked == run.looked + 1
                &&& looks_at_next(
                    run.outcomes@.push(
                        (run.candidates@[run.looked as int], event->Discovered_0),
                    ),
                    went,
                    step,
                )
            },
            ReconcileStage::Listing | ReconcileStage::Ended => false,
        },
{
    if let ReconcileEvent::Replied(reply) = event {
        if let Some(read) = thread_of(reply) {
            lemma_something_happens(read);
        }
    }
}

/// A reconciliation fails exactly if a page cannot be had or is no page, and then nothing changes; a
/// candidate that cannot be read does not make it fail. After the last page it goes on to the first
/// candidate, or ends.
pub proof fn law_reconciliation_fails_only_over_a_page(
    ingestor: &mut ThreadIngestor,
    run: Reconciliation,
    event: ReconcileEvent,
    went: Reconciliation,
    step: ReconcileStep,
)
    requires
        reconciliation_step(ingestor, run, event, went, step),
    ensures
        (step matches ReconcileStep::Done(Err(_))) <==> run.stage is Listing && (event
            matches ReconcileEvent::Replied(reply) && (reply matches Ok(value) ==> page_of(value@)
            is None)),
        step matches ReconcileStep::Done(Err(error)) ==> *final(ingestor)
            == *old(ingestor) && match event->Replied_0 {
            Err(failure) => error matches IngestError::Request(said) && said == failure,
            Ok(_) => error is MalformedList,
        },
        run.stage is Listing && !(went.stage is Listing) && !(step matches ReconcileStep::Done(
            Err(_),
        )) ==> went.looked == run.looked && looks_at_next(run.outcomes@, went, step),
{
    if let ReconcileEvent::Replied(Ok(value)) = event {
        assert(value@.member_items("data"@) == page_of(value@));
    }
}

/// A subscription may be released exactly if that is configured, reactivation has been verified, and
/// the thread is not known to be anything but idle; the daemon is then asked to end it.
pub proof fn law_only_idle_threads_are_released(
    ingestor: ThreadIngestor,
    id: &str,
    status: Option<&str>,
    asked: Option<(String, Json)>,
)
    requires
        call_ensures(ThreadIngestor::release_if_idle, (&ingestor, id, status), asked),
    ensures
        asked is Some <==> ingestor.config.release_idle_subscriptions
            && ingestor.reactivation_verified && (status is None || status->Some_0@ == "idle"@),
        asked matches Some((method, params)) ==> method@ == "thread/unsubscribe"@ && params@
            == JsonView::Object(map!["threadId"@ => JsonView::Text(id@)]),
{
}

/// A thread is released exactly if the daemon ended its subscription; else nothing changes.
pub proof fn law_released_is_what_the_daemon_ended(
    ingestor: &mut ThreadIngestor,
    id: &str,
    reply: Reply,
    released: bool,
)
    requires
        ingestor.valid(),
        call_ensures(ThreadIngestor::release_after, (ingestor, id, &reply), released),
    ensures
        released <==> reply is Ok,
        released ==> state_is(*final(ingestor), id@, SubscriptionState::Released) && only_touches(
            *old(ingestor),
            *final(ingestor),
            id@,
        ),
        !released ==> *final(ingestor) == *old(ingestor),
{
}

/// When this observer leaves, it ends the subscriptions of exactly the threads that are subscribed
/// to, each once.
pub proof fn law_leaving_ends_every_subscription(
    ingestor: ThreadIngestor,
    leaving: Vec<String>,
)
    requires
        ingestor.valid(),
        call_ensures(ThreadIngestor::unsubscribe_all_best_effort, (&ingestor,), leaving),
    ensures
        forall|i: int|
            0 <= i < leaving@.len() ==> state_is(
                ingestor,
                (#[trigger] leaving@[i])@,
                SubscriptionState::Subscribed,
            ),
        forall|i: int, j: int|
            0 <= i < j < leaving@.len() ==> (#[trigger] leaving@[i])@ != (#[trigger] leaving@[j])@,
        forall|id: Seq<char>|
            #[trigger] ingestor.states@.contains_key(id) && ingestor.states@[id] is Subscribed
                ==> exists|i: int| 0 <= i < leaving@.len() && (#[trigger] leaving@[i])@ == id,
{
    let row = text::texts(leaving@);
    assert(row.len() == leaving@.len());
    assert forall|i: int| 0 <= i < leaving@.len() implies state_is(
        ingestor,
        (#[trigger] leaving@[i])@,
        SubscriptionState::Subscribed,
    ) by {
        assert(row[i] == leaving@[i]@);
        assert(row.contains(leaving@[i]@));
    }
    assert forall|i: int, j: int| 0 <= i < j < leaving@.len() implies (#[trigger] leaving@[i])@ != (
    #[trigger] leaving@[j])@ by {
        assert(row[i] != row[j]);
    }
    assert forall|id: Seq<char>|
        #[trigger] ingestor.states@.contains_key(id) && ingestor.states@[id]
            is Subscribed implies exists|i: int|
        0 <= i < leaving@.len() && (#[trigger] leaving@[i])@ == id by {
        assert(row.contains(id));
        let i = choose|i: int| 0 <= i < row.len() && row[i] == id;
        assert(leaving@[i]@ == id);
    }
}

/// The state of a thread is the one that it was given, and unseen where it was given none.
pub proof fn law_threads_are_unseen_until_discovered(
    ingestor: ThreadIngestor,
    id: &str,
    state: SubscriptionState,
)
    requires
        ingestor.valid(),
        call_ensures(ThreadIngestor::state, (&ingestor, id), state),
    ensures
        ingestor.states@.contains_key(id@) ==> state == ingestor.states@[id@],
        !ingestor.states@.contains_key(id@) ==> state is Unseen,
{
}

/// The states that are handed out are the states of all threads.
pub proof fn law_all_states_are_handed_out(
    ingestor: ThreadIngestor,
    states: Table<String, SubscriptionState>,
    id: Seq<char>,
)
    requires
        ingestor.valid(),
        call_ensures(ThreadIngestor::states, (&ingestor,), states),
    ensures
        states@.contains_key(id) <==> ingestor.states@.contains_key(id),
        states@.contains_key(id) ==> states@[id] == ingestor.states@[id],
{
}

/// An observer begins with no thread, at time zero, without a store, and with reactivation verified
/// exactly if its configuration says so.
pub proof fn law_observers_begin_with_nothing(
    config: IngestConfig,
    ingestor: ThreadIngestor,
    stored: ThreadIngestor,
)
    requires
        call_ensures(ThreadIngestor::new, (config,), ingestor),
        call_ensures(ThreadIngestor::with_store, (ingestor,), stored),
    ensures
        forall|id: Seq<char>| !(#[trigger] ingestor.states@.contains_key(id)),
        ingestor.watermark == 0,
        ingestor.config == config,
        ingestor.reactivation_verified == config.reactivation_verified,
        !ingestor.has_store,
        stored.has_store,
        stored.states == ingestor.states,
        stored.watermark == ingestor.watermark,
        stored.config == ingestor.config,
        stored.reactivation_verified == ingestor.reactivation_verified,
{
}

/// Whether reactivation has been verified is what was last said, and saying it changes nothing else.
pub proof fn law_reactivation_is_verified_when_said_so(
    ingestor: &mut ThreadIngestor,
    verified: bool,
)
    requires
        call_ensures(ThreadIngestor::set_reactivation_verified, (ingestor, verified), ()),
    ensures
        final(ingestor).reactivation_verified == verified,
        final(ingestor).states == old(ingestor).states,
        final(ingestor).watermark == old(ingestor).watermark,
        final(ingestor).config == old(ingestor).config,
        final(ingestor).has_store == old(ingestor).has_store,
{
}

/// The bounds that hold unless others are set.
pub proof fn law_default_bounds(config: IngestConfig)
    requires
        call_ensures(IngestConfig::default, (), config),
    ensures
        config.reconcile_page_size == 50,
        config.reconcile_page_bound == 4,
        config.reconcile_candidate_limit == 200,
        config.subscription_cap == 512,
        config.resume_retry_limit == 8,
        config.retry_delay == 250_000_000,
        !config.release_idle_subscriptions,
        !config.reactivation_verified,
{
}

/// The words of a failed reconciliation say which of the two it was.
pub proof fn law_reconciliation_errors_say_what_happened(error: IngestError, words: String)
    requires
        call_ensures(IngestError::message, (&error,), words),
    ensures
        words@ == match error {
            IngestError::Request(error) => "reconciliation request failed: "@ + rpc::failure_words(
                error@,
            ),
            IngestError::MalformedList => "malformed thread/list response"@,
        },
{
}

} // verus!
