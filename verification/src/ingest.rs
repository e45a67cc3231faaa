//! Discovery of threads, reconciliation with the daemon, and the subscriptions that result.

use crate::clock::{Nanos, MILLISECOND};
use crate::json;
use crate::json::{Json, JsonView};
use crate::rpc;
use crate::rpc::{Reply, RequestError};
use crate::table;
use crate::table::{Key, Table};
use crate::text;
use crate::threads;
use vstd::prelude::*;

verus! {

/// The bounds of discovery and reconciliation.
#[derive(Clone, Copy, Debug)]
pub struct IngestConfig {
    pub reconcile_page_size: usize,
    pub reconcile_page_bound: usize,
    pub reconcile_candidate_limit: usize,
    pub subscription_cap: usize,
    pub resume_retry_limit: usize,
    pub retry_delay: Nanos,
    pub release_idle_subscriptions: bool,
    /// Must only be set after the live two-client status spike succeeds on this host/version.
    pub reactivation_verified: bool,
}

/// The bounds that hold unless others are set.
pub open spec fn default_bounds() -> IngestConfig {
    IngestConfig {
        reconcile_page_size: 50,
        reconcile_page_bound: 4,
        reconcile_candidate_limit: 200,
        subscription_cap: 512,
        resume_retry_limit: 8,
        retry_delay: (250 * MILLISECOND) as Nanos,
        release_idle_subscriptions: false,
        reactivation_verified: false,
    }
}

impl Default for IngestConfig {
    fn default() -> (config: Self)
        ensures
            config == default_bounds(),
    {
        IngestConfig {
            reconcile_page_size: 50,
            reconcile_page_bound: 4,
            reconcile_candidate_limit: 200,
            subscription_cap: 512,
            resume_retry_limit: 8,
            retry_delay: 250 * MILLISECOND,
            release_idle_subscriptions: false,
            reactivation_verified: false,
        }
    }
}

/// What brought a thread to attention.
#[derive(Clone, Copy, Debug, PartialEq, Eq, Structural)]
pub enum DiscoverySource {
    ThreadStarted,
    ActivationStatus,
    Reconciliation,
}

/// How far the subscription to a thread has come.
#[derive(Debug, PartialEq, Eq)]
pub enum SubscriptionState {
    Unseen,
    Subscribing { source: DiscoverySource, attempt: usize },
    Subscribed,
    RetryWait { attempt: usize },
    Ephemeral,
    CapacityDegraded,
    Released,
    Failed(String),
}

/// What a discovery came to.
#[derive(Clone, Debug, PartialEq, Eq)]
pub enum DiscoveryOutcome {
    Subscribed,
    AlreadyManaged,
    Ephemeral,
    CapacityDegraded,
    Failed(String),
}

/// Why a reconciliation failed.
#[derive(Debug)]
pub enum IngestError {
    Request(RequestError),
    MalformedList,
}

impl Clone for SubscriptionState {
    fn clone(&self) -> (copy: Self)
        ensures
            copy == *self,
    {
        match self {
            SubscriptionState::Unseen => SubscriptionState::Unseen,
            SubscriptionState::Subscribing { source, attempt } => SubscriptionState::Subscribing {
                source: *source,
                attempt: *attempt,
            },
            SubscriptionState::Subscribed => SubscriptionState::Subscribed,
            SubscriptionState::RetryWait { attempt } => SubscriptionState::RetryWait {
                attempt: *attempt,
            },
            SubscriptionState::Ephemeral => SubscriptionState::Ephemeral,
            SubscriptionState::CapacityDegraded => SubscriptionState::CapacityDegraded,
            SubscriptionState::Released => SubscriptionState::Released,
            SubscriptionState::Failed(detail) => SubscriptionState::Failed(detail.clone()),
        }
    }
}

/// The words of a failed reconciliation.
pub open spec fn ingest_words(error: IngestError) -> Seq<char> {
    match error {
        IngestError::Request(error) => "reconciliation request failed: "@ + rpc::failure_words(
            error@,
        ),
        IngestError::MalformedList => "malformed thread/list response"@,
    }
}

impl IngestError {
    /// The words of this failure.
    pub fn message(&self) -> (words: String)
        ensures
            words@ == ingest_words(*self),
    {
        match self {
            IngestError::Request(error) => text::joined(
                "reconciliation request failed: ",
                error.message().as_str(),
            ),
            IngestError::MalformedList => "malformed thread/list response".to_owned(),
        }
    }
}

/// Those who take in an event.
#[derive(Clone, Copy, Debug, PartialEq, Eq, Structural)]
pub enum Consumer {
    /// The reducer, which keeps the current state.
    Reducer,
    /// The store, which keeps the history.
    Store,
    /// The hub, which fans out to observers and may drop events.
    Hub,
}

/// The way of an event to those who take it in.
#[derive(Clone, Copy, Debug)]
pub struct AuthoritativeIngress;

impl AuthoritativeIngress {
    /// Who takes an event in after `done`: the authoritative consumers, and the lossy fan-out
    /// last.
    pub fn process(&self, done: Option<Consumer>) -> (next: Option<Consumer>)
        ensures
            next == (match done {
                None => Some(Consumer::Reducer),
                Some(Consumer::Reducer) => Some(Consumer::Store),
                Some(Consumer::Store) => Some(Consumer::Hub),
                Some(Consumer::Hub) => None,
            }),
    {
        match done {
            None => Some(Consumer::Reducer),
            Some(Consumer::Reducer) => Some(Consumer::Store),
            Some(Consumer::Store) => Some(Consumer::Hub),
            Some(Consumer::Hub) => None,
        }
    }
}

/// The kind of status that parameters speak of: the `type` of `status`, or `status` itself.
pub open spec fn status_in(params: Option<JsonView>) -> Option<Seq<char>> {
    match params {
        Some(params) => match params.member("status"@) {
            Some(status) => match status.member_text("type"@) {
                Some(kind) => Some(kind),
                None => status.text(),
            },
            None => None,
        },
        None => None,
    }
}

/// The kind of status that parameters speak of.
pub fn status_type<'a>(params: Option<&'a Json>) -> (kind: Option<&'a String>)
    ensures
        match kind {
            Some(kind) => status_in(params_view(params)) == Some(kind@),
            None => status_in(params_view(params)) is None,
        },
{
    match params {
        Some(params) => match params.get("status") {
            Some(status) => match status.get_text("type") {
                Some(kind) => Some(kind),
                None => status.as_text(),
            },
            None => None,
        },
        None => None,
    }
}

/// The meaning of parameters that may be missing.
pub open spec fn params_view(params: Option<&Json>) -> Option<JsonView> {
    match params {
        Some(params) => Some(params@),
        None => None,
    }
}

/// A turn that has come to an end.
pub open spec fn turn_over(turn: JsonView) -> bool {
    turn.member_text("status"@) == Some("completed"@) || turn.member_text("status"@) == Some(
        "failed"@,
    ) || turn.member_text("status"@) == Some("interrupted"@)
}

fn is_turn_over(turn: &Json) -> (yes: bool)
    ensures
        yes == turn_over(turn@),
{
    match turn.get_text("status") {
        Some(status) => {
            let status = status.as_str();
            text::same(status, "completed") || text::same(status, "failed") || text::same(
                status,
                "interrupted",
            )
        },
        None => false,
    }
}

/// The identity of the last of `turns` that has not come to an end.
pub open spec fn last_open_turn(turns: Seq<JsonView>) -> Option<Seq<char>>
    decreases turns.len(),
{
    if turns.len() == 0 {
        None
    } else if turn_over(turns.last()) {
        last_open_turn(turns.drop_last())
    } else {
        turns.last().member_text("id"@)
    }
}

/// The identity of a thread's turn in flight.
pub open spec fn turn_in_flight(thread: JsonView) -> Option<Seq<char>> {
    match thread.member_items("turns"@) {
        Some(turns) => last_open_turn(turns),
        None => None,
    }
}

/// The identity of a thread's turn in flight: the last one that has not come to an end.
pub fn in_flight_turn_id(thread: &Json) -> (id: Option<String>)
    ensures
        json::optional_text(id) == turn_in_flight(thread@),
{
    match thread.get_items("turns") {
        Some(turns) => {
            let ghost all = json::items_view(turns@);
            proof {
                json::lemma_items_view(turns@);
            }
            let mut left: usize = turns.len();
            assert(all.take(left as int) =~= all);
            while left > 0
                invariant
                    left <= turns@.len(),
                    all == json::items_view(turns@),
                    all.len() == turns@.len(),
                    forall|i: int| 0 <= i < all.len() ==> #[trigger] all[i] == turns@[i]@,
                    last_open_turn(all) == last_open_turn(all.take(left as int)),
                    turn_in_flight(thread@) == last_open_turn(all),
                decreases left,
            {
                proof {
                    assert(all.take(left as int).drop_last() =~= all.take(left - 1));
                    assert(all.take(left as int).last() == turns@[left - 1]@);
                }
                let turn = &turns[left - 1];
                if !is_turn_over(turn) {
                    return match turn.get_text("id") {
                        Some(id) => Some(id.clone()),
                        None => None,
                    };
                }
                left -= 1;
            }
            None
        },
        None => None,
    }
}

/// Whether one of `turns` has not come to an end.
pub open spec fn has_open_turn(turns: Seq<JsonView>) -> bool {
    exists|i: int| 0 <= i < turns.len() && !turn_over(#[trigger] turns[i])
}

/// A thread that something is happening in: its status says so, or a turn has not come to an end.
pub open spec fn is_active(thread: JsonView) -> bool {
    ||| match thread.member("status"@) {
        Some(status) => status.member_text("type"@) == Some("active"@),
        None => false,
    }
    ||| match thread.member_items("turns"@) {
        Some(turns) => has_open_turn(turns),
        None => false,
    }
}

/// Whether something is happening in a thread.
pub fn thread_is_active(thread: &Json) -> (yes: bool)
    ensures
        yes == is_active(thread@),
{
    if let Some(status) = thread.get("status") {
        if let Some(kind) = status.get_text("type") {
            if text::same(kind.as_str(), "active") {
                return true;
            }
        }
    }
    match thread.get_items("turns") {
        Some(turns) => {
            let ghost all = json::items_view(turns@);
            proof {
                json::lemma_items_view(turns@);
            }
            let mut i: usize = 0;
            while i < turns.len()
                invariant
                    i <= turns@.len(),
                    all == json::items_view(turns@),
                    all.len() == turns@.len(),
                    forall|k: int| 0 <= k < all.len() ==> #[trigger] all[k] == turns@[k]@,
                    forall|k: int| 0 <= k < i ==> turn_over(#[trigger] all[k]),
                    thread@.member_items("turns"@) == Some(all),
                decreases turns@.len() - i,
            {
                assert(all[i as int] == turns@[i as int]@);
                if !is_turn_over(&turns[i]) {
                    assert(!turn_over(all[i as int]));
                    assert(has_open_turn(all));
                    return true;
                }
                i += 1;
            }
            false
        },
        None => false,
    }
}

/// A time that is a number, or a text that spells one.
pub open spec fn timestamp_in(value: Option<JsonView>) -> Option<u64> {
    match value {
        Some(value) => match value.number() {
            Some(n) => Some(n),
            None => match value.text() {
                Some(text) => text::spelled_number(text),
                None => None,
            },
        },
        None => None,
    }
}

/// A time that is a number, or a text that spells one.
pub fn numeric_timestamp(value: Option<&Json>) -> (time: Option<u64>)
    ensures
        time == timestamp_in(params_view(value)),
{
    match value {
        Some(value) => match value.as_number() {
            Some(n) => Some(n),
            None => match value.as_text() {
                Some(text) => text::parse_number(text.as_str()),
                None => None,
            },
        },
        None => None,
    }
}

/// The text of an error that says that a thread is not there, or not there yet.
pub open spec fn says_ephemeral(words: Seq<char>) -> bool {
    text::occurs_in(text::lower(words), "ephemeral"@) || text::occurs_in(
        text::lower(words),
        "rollout"@,
    ) || text::occurs_in(text::lower(words), "not found"@)
}

/// Whether the text of an error says that a thread is not there, or not there yet.
pub fn is_ephemeral_text(words: &str) -> (yes: bool)
    ensures
        yes == says_ephemeral(words@),
{
    let lowered = text::to_lower(words);
    let lowered = lowered.as_str();
    text::contains(lowered, "ephemeral") || text::contains(lowered, "rollout") || text::contains(
        lowered,
        "not found",
    )
}

/// Whether an error says that a thread is not there, or not there yet.
pub fn is_ephemeral_error(error: &Json) -> (yes: bool)
    ensures
        yes == says_ephemeral(json::text_of_json(error@)),
{
    is_ephemeral_text(error.to_text().as_str())
}

/// The subscriptions of this observer, and how far reconciliation has looked.
#[derive(Debug)]
pub struct ThreadIngestor {
    pub config: IngestConfig,
    pub states: Table<String, SubscriptionState>,
    /// The time up to which threads have been seen.
    pub watermark: u64,
    pub reactivation_verified: bool,
    /// Whether there is a store, which wants to know of turns that were in flight at a
    /// subscription.
    pub has_store: bool,
}

/// A state in which a thread takes one of the places that there are for subscriptions.
pub open spec fn takes_place(state: SubscriptionState) -> bool {
    state is Subscribed || state is Subscribing || state is RetryWait
}

/// The threads that take a place.
pub open spec fn retained(states: Map<Seq<char>, SubscriptionState>) -> Set<Seq<char>> {
    states.dom().filter(|id: Seq<char>| takes_place(states[id]))
}

/// A discovery under way.
#[derive(Debug)]
pub struct Discovery {
    pub thread_id: String,
    pub source: DiscoverySource,
    pub stage: DiscoveryStage,
}

/// What a discovery waits for.
#[derive(Debug)]
pub enum DiscoveryStage {
    /// The reducer learns that a subscription begins.
    Beginning,
    /// The daemon is asked to resume the thread.
    Resuming { attempt: usize },
    /// A pause before the daemon is asked again.
    Pausing { attempt: usize },
    /// The reducer learns that the subscription stands.
    Finishing,
    /// The thread is read.
    Reading,
    /// The reducer, and the store, learn what was read.
    Restoring,
    /// The reducer learns that the subscription does not come about.
    Cancelling { outcome: DiscoveryOutcome },
    Ended,
}

/// What happened to a discovery.
#[derive(Debug)]
pub enum DiscoveryEvent {
    /// The reducer, and the store, have learned what they had to.
    Told,
    Replied(Reply),
    Slept,
}

/// What a discovery does next.
#[derive(Debug)]
pub enum DiscoveryStep {
    /// Tell the reducer that a subscription begins.
    Begin,
    /// Ask the daemon.
    Request { method: String, params: Json },
    /// Let time pass.
    Sleep(Nanos),
    /// Tell the reducer that the subscription stands.
    Finish,
    /// Tell the reducer what the thread is, and the store of the turn whose start was missed.
    Restore { thread: Json, anchor: Option<String> },
    /// Tell the reducer that the subscription does not come about.
    Cancel,
    Done(DiscoveryOutcome),
}

/// A request of the daemon.
pub open spec fn asks(step: DiscoveryStep, method: Seq<char>, params: JsonView) -> bool {
    &&& step matches DiscoveryStep::Request { method: asked, params: said }
    &&& asked@ == method
    &&& said@ == params
}

/// Everything but the states is as it was.
pub open spec fn only_states_change(before: ThreadIngestor, after: ThreadIngestor) -> bool {
    after.config == before.config && after.watermark == before.watermark
        && after.reactivation_verified == before.reactivation_verified && after.has_store
        == before.has_store
}

/// One thread's state changes, to one that `state` allows.
pub open spec fn state_set(
    before: ThreadIngestor,
    thread_id: Seq<char>,
    state: SubscriptionState,
    after: ThreadIngestor,
) -> bool {
    only_states_change(before, after) && after.states@ == before.states@.insert(thread_id, state)
}

/// Nothing changes.
pub open spec fn nothing_set(before: ThreadIngestor, after: ThreadIngestor) -> bool {
    only_states_change(before, after) && after.states@ == before.states@
}

/// Whether a thread takes a place.
pub open spec fn is_managed(states: Map<Seq<char>, SubscriptionState>, id: Seq<char>) -> bool {
    states.contains_key(id) && takes_place(states[id])
}

/// How a discovery begins.
pub open spec fn discovery_starts(
    before: ThreadIngestor,
    thread_id: Seq<char>,
    source: DiscoverySource,
    after: ThreadIngestor,
    run: Discovery,
    step: DiscoveryStep,
) -> bool {
    &&& run.thread_id@ == thread_id
    &&& run.source == source
    &&& if is_managed(before.states@, thread_id) {
        &&& nothing_set(before, after)
        &&& run.stage is Ended
        &&& step == DiscoveryStep::Done(DiscoveryOutcome::AlreadyManaged)
    } else if retained(before.states@).len() >= before.config.subscription_cap {
        &&& state_set(before, thread_id, SubscriptionState::CapacityDegraded, after)
        &&& run.stage is Ended
        &&& step == DiscoveryStep::Done(DiscoveryOutcome::CapacityDegraded)
    } else {
        &&& state_set(
            before,
            thread_id,
            SubscriptionState::Subscribing { source, attempt: 1 },
            after,
        )
        &&& run.stage is Beginning
        &&& step is Begin
    }
}

/// A failure after which the daemon is asked again, if there are attempts left.
pub open spec fn worth_retrying(error: RequestError) -> bool {
    error is NotWritten || not_there_yet(error)
}

/// A failure that says that a thread is not there, or not there yet.
pub open spec fn not_there_yet(error: RequestError) -> bool {
    error matches RequestError::Rejected { error, .. } && says_ephemeral(
        json::text_of_json(error@),
    )
}

/// An event that can happen at a stage.
pub open spec fn discovery_expects(stage: DiscoveryStage, event: DiscoveryEvent) -> bool {
    match stage {
        DiscoveryStage::Beginning | DiscoveryStage::Finishing | DiscoveryStage::Restoring => {
            event is Told
        },
        DiscoveryStage::Cancelling { .. } => event is Told,
        DiscoveryStage::Resuming { .. } | DiscoveryStage::Reading => event is Replied,
        DiscoveryStage::Pausing { .. } => event is Slept,
        DiscoveryStage::Ended => false,
    }
}

/// How a refusal to resume a thread is met.
pub open spec fn refusal_follows(
    before: ThreadIngestor,
    run: Discovery,
    attempt: usize,
    error: RequestError,
    after: ThreadIngestor,
    went: Discovery,
    step: DiscoveryStep,
) -> bool {
    let id = run.thread_id@;
    if worth_retrying(error) && attempt < before.config.resume_retry_limit {
        let next = (attempt + 1) as usize;
        &&& state_set(before, id, SubscriptionState::RetryWait { attempt: next }, after)
        &&& went.stage == DiscoveryStage::Pausing { attempt: next }
        &&& step == DiscoveryStep::Sleep(before.config.retry_delay)
    } else if not_there_yet(error) {
        &&& state_set(before, id, SubscriptionState::Ephemeral, after)
        &&& went.stage == DiscoveryStage::Cancelling { outcome: DiscoveryOutcome::Ephemeral }
        &&& step is Cancel
    } else {
        &&& went.stage matches DiscoveryStage::Cancelling {
            outcome: DiscoveryOutcome::Failed(words),
        }
        &&& words@ == rpc::failure_words(error@)
        &&& state_set(before, id, SubscriptionState::Failed(words), after)
        &&& step is Cancel
    }
}

/// What an event changes, and what is done about it.
pub open spec fn discovery_follows(
    before: ThreadIngestor,
    run: Discovery,
    event: DiscoveryEvent,
    after: ThreadIngestor,
    went: Discovery,
    step: DiscoveryStep,
) -> bool {
    let id = run.thread_id@;
    &&& went.thread_id == run.thread_id
    &&& went.source == run.source
    &&& match run.stage {
        DiscoveryStage::Beginning => {
            &&& nothing_set(before, after)
            &&& went.stage == DiscoveryStage::Resuming { attempt: 1 }
            &&& asks(step, "thread/resume"@, threads::thread_request(id))
        },
        DiscoveryStage::Resuming { attempt } => match event {
            DiscoveryEvent::Replied(Err(error)) => refusal_follows(
                before,
                run,
                attempt,
                error,
                after,
                went,
                step,
            ),
            _ => nothing_set(before, after) && went.stage is Finishing && step is Finish,
        },
        DiscoveryStage::Pausing { attempt } => {
            &&& state_set(
                before,
                id,
                SubscriptionState::Subscribing { source: run.source, attempt },
                after,
            )
            &&& went.stage == DiscoveryStage::Resuming { attempt }
            &&& asks(step, "thread/resume"@, threads::thread_request(id))
        },
        DiscoveryStage::Finishing => {
            &&& state_set(before, id, SubscriptionState::Subscribed, after)
            &&& went.stage is Reading
            &&& asks(step, "thread/read"@, threads::reading_request(id))
        },
        DiscoveryStage::Reading => {
            &&& nothing_set(before, after)
            &&& match read_thread(event) {
                Some(read) => {
                    &&& went.stage is Restoring
                    &&& step matches DiscoveryStep::Restore { thread, anchor }
                    &&& thread@ == read
                    &&& json::optional_text(anchor) == if before.has_store {
                        turn_in_flight(read)
                    } else {
                        None
                    }
                },
                None => went.stage is Ended && step == DiscoveryStep::Done(
                    DiscoveryOutcome::Subscribed,
                ),
            }
        },
        DiscoveryStage::Restoring => {
            &&& nothing_set(before, after)
            &&& went.stage is Ended
            &&& step == DiscoveryStep::Done(DiscoveryOutcome::Subscribed)
        },
        DiscoveryStage::Cancelling { outcome } => {
            &&& nothing_set(before, after)
            &&& went.stage is Ended
            &&& step == DiscoveryStep::Done(outcome)
        },
        DiscoveryStage::Ended => true,
    }
}

/// The thread in a reply.
pub open spec fn thread_in(reply: Reply) -> Option<JsonView> {
    match reply {
        Ok(value) => value@.member("thread"@),
        Err(_) => None,
    }
}

/// The thread in the reply that an event is.
pub open spec fn read_thread(event: DiscoveryEvent) -> Option<JsonView> {
    match event {
        DiscoveryEvent::Replied(reply) => thread_in(reply),
        _ => None,
    }
}

proof fn lemma_retained_grows(
    rows: Seq<(String, SubscriptionState)>,
    i: int,
)
    requires
        table::distinct_keys(rows),
        0 <= i < rows.len(),
    ensures
        ({
            let before = retained(table::entries_map(rows.take(i)));
            let after = retained(table::entries_map(rows.take(i + 1)));
            &&& before.finite()
            &&& after.len() == before.len() + (if takes_place(rows[i].1) {
                1int
            } else {
                0
            })
        }),
{
    let short = rows.take(i);
    let long = rows.take(i + 1);
    assert(long.drop_last() =~= short);
    assert(long.last() == rows[i]);
    table::lemma_entries_map(short);
    let id = rows[i].0@;
    assert(!table::entries_map(short).contains_key(id)) by {
        if table::entries_map(short).contains_key(id) {
            let k = choose|k: int| 0 <= k < short.len() && (#[trigger] short[k]).0.form() == id;
            assert(rows[k].0.form() == rows[i].0.form());
        }
    }
    let before = retained(table::entries_map(short));
    let after = retained(table::entries_map(long));
    if takes_place(rows[i].1) {
        assert(after =~= before.insert(id));
    } else {
        assert(after =~= before);
    }
}

impl ThreadIngestor {
    /// No thread has two states.
    pub open spec fn valid(&self) -> bool {
        self.states.valid()
    }

    /// An observer of nothing.
    pub fn new(config: IngestConfig) -> (ingestor: Self)
        ensures
            ingestor.valid(),
            ingestor.config == config,
            ingestor.states@ == Map::<Seq<char>, SubscriptionState>::empty(),
            ingestor.watermark == 0,
            ingestor.reactivation_verified == config.reactivation_verified,
            !ingestor.has_store,
    {
        ThreadIngestor {
            config,
            states: Table::new(),
            watermark: 0,
            reactivation_verified: config.reactivation_verified,
            has_store: false,
        }
    }

    /// Attaches a store, so that turns that are in flight at a subscription get an anchor.
    pub fn with_store(self) -> (ingestor: Self)
        ensures
            ingestor == (ThreadIngestor { has_store: true, ..self }),
    {
        ThreadIngestor {
            config: self.config,
            states: self.states,
            watermark: self.watermark,
            reactivation_verified: self.reactivation_verified,
            has_store: true,
        }
    }

    /// The state of a thread.
    pub fn state(&self, thread_id: &str) -> (state: SubscriptionState)
        requires
            self.valid(),
        ensures
            state == (if self.states@.contains_key(thread_id@) {
                self.states@[thread_id@]
            } else {
                SubscriptionState::Unseen
            }),
    {
        match self.states.get(&thread_id.to_owned()) {
            Some(state) => state.clone(),
            None => SubscriptionState::Unseen,
        }
    }

    /// The states of all threads.
    pub fn states(&self) -> (states: Table<String, SubscriptionState>)
        requires
            self.valid(),
        ensures
            states.valid(),
            states@ == self.states@,
    {
        let mut states: Table<String, SubscriptionState> = Table::new();
        let ghost rows = self.states.rows();
        proof {
            self.states.lemma_rows();
            assert(rows.take(0) =~= Seq::<(String, SubscriptionState)>::empty());
        }
        let mut i: usize = 0;
        let len = self.states.len();
        while i < len
            invariant
                i <= len,
                rows == self.states.rows(),
                len == rows.len(),
                states.valid(),
                states@ == table::entries_map(rows.take(i as int)),
            decreases len - i,
        {
            proof {
                assert(rows.take(i + 1).drop_last() =~= rows.take(i as int));
            }
            states.insert(self.states.key_at(i).clone(), self.states.value_at(i).clone());
            i += 1;
        }
        assert(rows.take(i as int) =~= rows);
        states
    }

    /// Notes whether reactivation has been verified.
    pub fn set_reactivation_verified(&mut self, verified: bool)
        ensures
            *final(self) == (ThreadIngestor { reactivation_verified: verified, ..*old(self) }),
    {
        self.reactivation_verified = verified;
    }

    /// How many threads take a place.
    fn count_retained(&self) -> (count: usize)
        requires
            self.valid(),
        ensures
            count == retained(self.states@).len(),
    {
        let ghost rows = self.states.rows();
        proof {
            self.states.lemma_rows();
            assert(rows.take(0) =~= Seq::<(String, SubscriptionState)>::empty());
            assert(retained(table::entries_map(rows.take(0))) =~= Set::empty());
        }
        let mut count: usize = 0;
        let mut i: usize = 0;
        let len = self.states.len();
        while i < len
            invariant
                i <= len,
                count <= i,
                rows == self.states.rows(),
                len == rows.len(),
                table::distinct_keys(rows),
                count == retained(table::entries_map(rows.take(i as int))).len(),
            decreases len - i,
        {
            proof {
                lemma_retained_grows(rows, i as int);
            }
            match self.states.value_at(i) {
                SubscriptionState::Subscribed => {
                    count += 1;
                },
                SubscriptionState::Subscribing { .. } => {
                    count += 1;
                },
                SubscriptionState::RetryWait { .. } => {
                    count += 1;
                },
                _ => {},
            }
            i += 1;
        }
        assert(rows.take(i as int) =~= rows);
        count
    }

    /// Begins to subscribe to a thread, unless it is subscribed to already, or there is no place
    /// left.
    pub fn discover(&mut self, thread_id: &str, source: DiscoverySource) -> (begun: (
        Discovery,
        DiscoveryStep,
    ))
        requires
            old(self).valid(),
        ensures
            final(self).valid(),
            discovery_starts(*old(self), thread_id@, source, *final(self), begun.0, begun.1),
    {
        let id = thread_id.to_owned();
        let managed = match self.states.get(&id) {
            Some(SubscriptionState::Subscribed) => true,
            Some(SubscriptionState::Subscribing { .. }) => true,
            Some(SubscriptionState::RetryWait { .. }) => true,
            _ => false,
        };
        if managed {
            let run = Discovery { thread_id: id, source, stage: DiscoveryStage::Ended };
            return (run, DiscoveryStep::Done(DiscoveryOutcome::AlreadyManaged));
        }
        if self.count_retained() >= self.config.subscription_cap {
            self.states.insert(id.clone(), SubscriptionState::CapacityDegraded);
            let run = Discovery { thread_id: id, source, stage: DiscoveryStage::Ended };
            return (run, DiscoveryStep::Done(DiscoveryOutcome::CapacityDegraded));
        }
        self.states.insert(id.clone(), SubscriptionState::Subscribing { source, attempt: 1 });
        let run = Discovery { thread_id: id, source, stage: DiscoveryStage::Beginning };
        (run, DiscoveryStep::Begin)
    }

    fn discover_after_refusal(
        &mut self,
        run: Discovery,
        attempt: usize,
        error: RequestError,
    ) -> (went: (Discovery, DiscoveryStep))
        requires
            old(self).valid(),
        ensures
            final(self).valid(),
            went.0.thread_id == run.thread_id,
            went.0.source == run.source,
            refusal_follows(*old(self), run, attempt, error, *final(self), went.0, went.1),
    {
        let not_there = match &error {
            RequestError::Rejected { error, .. } => is_ephemeral_error(error),
            _ => false,
        };
        let unwritten = match &error {
            RequestError::NotWritten(_) => true,
            _ => false,
        };
        let id = run.thread_id;
        let source = run.source;
        if (not_there || unwritten) && attempt < self.config.resume_retry_limit {
            let attempt = attempt + 1;
            self.states.insert(id.clone(), SubscriptionState::RetryWait { attempt });
            let stage = DiscoveryStage::Pausing { attempt };
            return (
                Discovery { thread_id: id, source, stage },
                DiscoveryStep::Sleep(self.config.retry_delay),
            );
        }
        if not_there {
            self.states.insert(id.clone(), SubscriptionState::Ephemeral);
            let stage = DiscoveryStage::Cancelling { outcome: DiscoveryOutcome::Ephemeral };
            return (Discovery { thread_id: id, source, stage }, DiscoveryStep::Cancel);
        }
        let words = error.message();
        self.states.insert(id.clone(), SubscriptionState::Failed(words.clone()));
        let stage = DiscoveryStage::Cancelling { outcome: DiscoveryOutcome::Failed(words) };
        (Discovery { thread_id: id, source, stage }, DiscoveryStep::Cancel)
    }

    /// Takes an event of a discovery in.
    pub fn discover_after(&mut self, run: Discovery, event: DiscoveryEvent) -> (went: (
        Discovery,
        DiscoveryStep,
    ))
        requires
            old(self).valid(),
            discovery_expects(run.stage, event),
        ensures
            final(self).valid(),
            discovery_follows(*old(self), run, event, *final(self), went.0, went.1),
    {
        let Discovery { thread_id, source, stage } = run;
        match stage {
            DiscoveryStage::Beginning => {
                let step = resume_request(&thread_id);
                let stage = DiscoveryStage::Resuming { attempt: 1 };
                (Discovery { thread_id, source, stage }, step)
            },
            DiscoveryStage::Resuming { attempt } => match event {
                DiscoveryEvent::Replied(Err(error)) => {
                    let run = Discovery {
                        thread_id,
                        source,
                        stage: DiscoveryStage::Resuming { attempt },
                    };
                    self.discover_after_refusal(run, attempt, error)
                },
                _ => {
                    let stage = DiscoveryStage::Finishing;
                    (Discovery { thread_id, source, stage }, DiscoveryStep::Finish)
                },
            },
            DiscoveryStage::Pausing { attempt } => {
                self.states.insert(
                    thread_id.clone(),
                    SubscriptionState::Subscribing { source, attempt },
                );
                let step = resume_request(&thread_id);
                let stage = DiscoveryStage::Resuming { attempt };
                (Discovery { thread_id, source, stage }, step)
            },
            DiscoveryStage::Finishing => {
                self.states.insert(thread_id.clone(), SubscriptionState::Subscribed);
                let params = threads::reading_params(thread_id.as_str());
                let step = DiscoveryStep::Request { method: "thread/read".to_owned(), params };
                (Discovery { thread_id, source, stage: DiscoveryStage::Reading }, step)
            },
            DiscoveryStage::Reading => {
                let found: Option<&Json> = match &event {
                    DiscoveryEvent::Replied(Ok(value)) => value.get("thread"),
                    _ => None,
                };
                match found {
                    Some(thread) => {
                        let anchor = if self.has_store {
                            in_flight_turn_id(thread)
                        } else {
                            None
                        };
                        let step = DiscoveryStep::Restore { thread: thread.clone(), anchor };
                        (Discovery { thread_id, source, stage: DiscoveryStage::Restoring }, step)
                    },
                    None => {
                        let step = DiscoveryStep::Done(DiscoveryOutcome::Subscribed);
                        (Discovery { thread_id, source, stage: DiscoveryStage::Ended }, step)
                    },
                }
            },
            DiscoveryStage::Restoring => {
                let step = DiscoveryStep::Done(DiscoveryOutcome::Subscribed);
                (Discovery { thread_id, source, stage: DiscoveryStage::Ended }, step)
            },
            DiscoveryStage::Cancelling { outcome } => {
                let stage = DiscoveryStage::Ended;
                (Discovery { thread_id, source, stage }, DiscoveryStep::Done(outcome))
            },
            DiscoveryStage::Ended => vstd::pervasive::unreached(),
        }
    }
}

fn resume_request(thread_id: &String) -> (step: DiscoveryStep)
    ensures
        asks(step, "thread/resume"@, threads::thread_request(thread_id@)),
{
    DiscoveryStep::Request {
        method: "thread/resume".to_owned(),
        params: threads::thread_params(thread_id.as_str()),
    }
}

/// What brings a thread to attention, in a notification of `method` with `params`.
pub open spec fn signal_in(method: Seq<char>, params: Option<JsonView>) -> Option<DiscoverySource> {
    if method == "thread/started"@ {
        Some(DiscoverySource::ThreadStarted)
    } else if method == "thread/status/changed"@ && status_in(params) == Some("active"@) {
        Some(DiscoverySource::ActivationStatus)
    } else {
        None
    }
}

/// What brings a thread to attention, in a notification of `method` with `params`.
pub fn signal_source(method: &str, params: Option<&Json>) -> (source: Option<DiscoverySource>)
    ensures
        source == signal_in(method@, params_view(params)),
{
    if text::same(method, "thread/started") {
        return Some(DiscoverySource::ThreadStarted);
    }
    if text::same(method, "thread/status/changed") {
        if let Some(kind) = status_type(params) {
            if text::same(kind.as_str(), "active") {
                return Some(DiscoverySource::ActivationStatus);
            }
        }
    }
    None
}

/// What an event says that can bring a thread to attention.
#[derive(Debug)]
pub struct Signal {
    pub thread_id: Option<String>,
    pub method: Option<String>,
    pub params: Option<Json>,
}

/// The thread that an event brings to attention, and why.
pub open spec fn signal_of(signal: Signal) -> Option<(Seq<char>, DiscoverySource)> {
    match (signal.thread_id, signal.method) {
        (Some(thread_id), Some(method)) => match signal_in(
            method@,
            json::optional_json(signal.params),
        ) {
            Some(source) => Some((thread_id@, source)),
            None => None,
        },
        _ => None,
    }
}

/// A reconciliation under way: what it has found, and what it waits for.
#[derive(Debug)]
pub struct Reconciliation {
    /// The time up to which threads had been seen before.
    pub previous: u64,
    /// The latest time that was seen.
    pub newest: u64,
    /// How many more pages may be asked for.
    pub pages_left: usize,
    /// The threads that changed since.
    pub candidates: Vec<String>,
    /// What was done about the first of them.
    pub outcomes: Vec<(String, DiscoveryOutcome)>,
    /// How many of them have been looked at.
    pub looked: usize,
    pub stage: ReconcileStage,
}

/// What a reconciliation waits for.
#[derive(Debug, Clone, Copy, PartialEq, Eq, Structural)]
pub enum ReconcileStage {
    /// A page of threads.
    Listing,
    /// A candidate is read.
    Reading,
    /// The reducer learns what was read.
    Restoring,
    /// The candidate is discovered.
    Discovering,
    Ended,
}

/// What happened to a reconciliation.
#[derive(Debug)]
pub enum ReconcileEvent {
    Replied(Reply),
    /// The reducer has learned what it had to.
    Told,
    Discovered(DiscoveryOutcome),
}

/// What a reconciliation does next.
#[derive(Debug)]
pub enum ReconcileStep {
    /// Ask the daemon.
    Request { method: String, params: Json },
    /// Tell the reducer what a thread is.
    Restore { thread: Json },
    /// Discover a thread.
    Discover { thread_id: String },
    Done(Result<Vec<(String, DiscoveryOutcome)>, IngestError>),
}

/// What the threads of a page come to: the latest time, the candidates, and whether a thread was
/// reached that had been seen before.
pub struct PageScan {
    pub newest: u64,
    pub candidates: Seq<Seq<char>>,
    pub reached: bool,
}

/// The later of two times.
pub open spec fn later(left: u64, right: u64) -> u64 {
    if left >= right {
        left
    } else {
        right
    }
}

/// When a listed thread last changed.
pub open spec fn updated_at(thread: JsonView) -> u64 {
    match timestamp_in(thread.member("updatedAt"@)) {
        Some(time) => time,
        None => 0,
    }
}

/// Goes through the threads of a page, from the newest on, until one is reached that had been seen
/// before or there are enough candidates. What has no identity is passed over.
pub open spec fn page_scan(
    page: Seq<JsonView>,
    previous: u64,
    limit: usize,
    newest: u64,
    candidates: Seq<Seq<char>>,
) -> PageScan
    decreases page.len(),
{
    if page.len() == 0 {
        PageScan { newest, candidates, reached: false }
    } else {
        match page[0].member_text("id"@) {
            None => page_scan(page.skip(1), previous, limit, newest, candidates),
            Some(id) => {
                let updated = updated_at(page[0]);
                let newest = later(newest, updated);
                if previous > 0 && updated <= previous {
                    PageScan { newest, candidates, reached: true }
                } else {
                    let candidates = candidates.push(id);
                    if candidates.len() >= limit {
                        PageScan { newest, candidates, reached: false }
                    } else {
                        page_scan(page.skip(1), previous, limit, newest, candidates)
                    }
                }
            },
        }
    }
}

/// A request of the daemon.
pub open spec fn reconcile_asks(step: ReconcileStep, method: Seq<char>, params: JsonView) -> bool {
    &&& step matches ReconcileStep::Request { method: asked, params: said }
    &&& asked@ == method
    &&& said@ == params
}

/// Goes on to the next candidate, or ends with the outcomes.
pub open spec fn looks_on(
    outcomes: Seq<(String, DiscoveryOutcome)>,
    run: Reconciliation,
    step: ReconcileStep,
) -> bool {
    if run.looked < run.candidates@.len() {
        &&& run.stage is Reading
        &&& run.outcomes@ == outcomes
        &&& reconcile_asks(
            step,
            "thread/read"@,
            threads::reading_request(run.candidates@[run.looked as int]@),
        )
    } else {
        &&& run.stage is Ended
        &&& step matches ReconcileStep::Done(Ok(ended))
        &&& ended@ == outcomes
    }
}

/// Nothing of what a reconciliation has found changes.
pub open spec fn same_findings(before: Reconciliation, after: Reconciliation) -> bool {
    after.previous == before.previous && after.newest == before.newest && after.pages_left
        == before.pages_left && after.candidates == before.candidates
}

/// An event that can happen at a stage.
pub open spec fn reconcile_expects(stage: ReconcileStage, event: ReconcileEvent) -> bool {
    match stage {
        ReconcileStage::Listing | ReconcileStage::Reading => event is Replied,
        ReconcileStage::Restoring => event is Told,
        ReconcileStage::Discovering => event is Discovered,
        ReconcileStage::Ended => false,
    }
}

/// What a page of threads does to a reconciliation.
pub open spec fn page_follows(
    before: ThreadIngestor,
    run: Reconciliation,
    value: JsonView,
    after: ThreadIngestor,
    went: Reconciliation,
    step: ReconcileStep,
) -> bool {
    match value.member_items("data"@) {
        None => {
            &&& after == before
            &&& went.stage is Ended
            &&& step == ReconcileStep::Done(Err(IngestError::MalformedList))
        },
        Some(page) => {
            let limit = before.config.reconcile_candidate_limit;
            let scan = page_scan(
                page,
                run.previous,
                limit,
                run.newest,
                text::texts(run.candidates@),
            );
            let cursor = value.member_text("nextCursor"@);
            &&& went.previous == run.previous
            &&& went.newest == scan.newest
            &&& went.pages_left == run.pages_left - 1
            &&& text::texts(went.candidates@) == scan.candidates
            &&& went.looked == run.looked
            &&& if !scan.reached && cursor is Some && went.pages_left > 0 && scan.candidates.len()
                < limit {
                &&& after == before
                &&& went.stage is Listing
                &&& went.outcomes@ == run.outcomes@
                &&& reconcile_asks(
                    step,
                    "thread/list"@,
                    threads::page_request(cursor, before.config.reconcile_page_size as u64),
                )
            } else {
                &&& after == ThreadIngestor { watermark: scan.newest, ..before }
                &&& looks_on(run.outcomes@, went, step)
            }
        },
    }
}

/// What an event changes, and what is done about it.
pub open spec fn reconcile_follows(
    before: ThreadIngestor,
    run: Reconciliation,
    event: ReconcileEvent,
    after: ThreadIngestor,
    went: Reconciliation,
    step: ReconcileStep,
) -> bool {
    match event {
        ReconcileEvent::Replied(reply) => if run.stage is Listing {
            match reply {
                Err(error) => {
                    &&& after == before
                    &&& went.stage is Ended
                    &&& step == ReconcileStep::Done(Err(IngestError::Request(error)))
                },
                Ok(value) => page_follows(before, run, value@, after, went, step),
            }
        } else {
            &&& after == before
            &&& same_findings(run, went)
            &&& match thread_in(reply) {
                Some(read) if is_active(read) => {
                    &&& went.outcomes@ == run.outcomes@
                    &&& went.looked == run.looked
                    &&& went.stage is Restoring
                    &&& step matches ReconcileStep::Restore { thread }
                    &&& thread@ == read
                },
                _ => went.looked == run.looked + 1 && looks_on(run.outcomes@, went, step),
            }
        },
        ReconcileEvent::Told => {
            &&& after == before
            &&& same_findings(run, went)
            &&& went.outcomes@ == run.outcomes@
            &&& went.looked == run.looked
            &&& went.stage is Discovering
            &&& step == ReconcileStep::Discover { thread_id: run.candidates@[run.looked as int] }
        },
        ReconcileEvent::Discovered(outcome) => {
            &&& after == before
            &&& same_findings(run, went)
            &&& went.looked == run.looked + 1
            &&& looks_on(
                run.outcomes@.push((run.candidates@[run.looked as int], outcome)),
                went,
                step,
            )
        },
    }
}

impl Reconciliation {
    /// Counts that fit the stage.
    pub open spec fn valid(&self) -> bool {
        match self.stage {
            ReconcileStage::Listing => self.pages_left > 0 && self.looked == 0
                && self.outcomes@.len() == 0,
            ReconcileStage::Ended => true,
            _ => self.looked < self.candidates@.len(),
        }
    }

    fn look_on(&mut self) -> (step: ReconcileStep)
        ensures
            final(self).previous == old(self).previous,
            final(self).newest == old(self).newest,
            final(self).pages_left == old(self).pages_left,
            final(self).candidates == old(self).candidates,
            final(self).looked == old(self).looked,
            final(self).valid(),
            looks_on(old(self).outcomes@, *final(self), step),
    {
        if self.looked < self.candidates.len() {
            self.stage = ReconcileStage::Reading;
            let params = threads::reading_params(self.candidates[self.looked].as_str());
            return ReconcileStep::Request { method: "thread/read".to_owned(), params };
        }
        self.stage = ReconcileStage::Ended;
        let mut outcomes: Vec<(String, DiscoveryOutcome)> = Vec::new();
        std::mem::swap(&mut outcomes, &mut self.outcomes);
        ReconcileStep::Done(Ok(outcomes))
    }

    fn scan(&mut self, page: &Vec<Json>, limit: usize) -> (reached: bool)
        requires
            old(self).candidates@.len() < limit,
        ensures
            final(self).previous == old(self).previous,
            final(self).pages_left == old(self).pages_left,
            final(self).looked == old(self).looked,
            final(self).outcomes == old(self).outcomes,
            final(self).stage == old(self).stage,
            ({
                let scan = page_scan(
                    json::items_view(page@),
                    old(self).previous,
                    limit,
                    old(self).newest,
                    text::texts(old(self).candidates@),
                );
                &&& reached == scan.reached
                &&& final(self).newest == scan.newest
                &&& text::texts(final(self).candidates@) =~= scan.candidates
            }),
    {
        let ghost all = json::items_view(page@);
        let ghost scan = page_scan(
            all,
            self.previous,
            limit,
            self.newest,
            text::texts(self.candidates@),
        );
        proof {
            json::lemma_items_view(page@);
            assert(all.skip(0) =~= all);
        }
        let mut i: usize = 0;
        while i < page.len()
            invariant
                i <= page@.len(),
                all == json::items_view(page@),
                all.len() == page@.len(),
                forall|k: int| 0 <= k < all.len() ==> #[trigger] all[k] == page@[k]@,
                self.candidates@.len() < limit,
                self.previous == old(self).previous,
                self.pages_left == old(self).pages_left,
                self.looked == old(self).looked,
                self.outcomes == old(self).outcomes,
                self.stage == old(self).stage,
                scan == page_scan(
                    all,
                    old(self).previous,
                    limit,
                    old(self).newest,
                    text::texts(old(self).candidates@),
                ),
                scan == page_scan(
                    all.skip(i as int),
                    self.previous,
                    limit,
                    self.newest,
                    text::texts(self.candidates@),
                ),
            decreases page@.len() - i,
        {
            proof {
                assert(all.skip(i as int)[0] == page@[i as int]@);
                assert(all.skip(i as int).skip(1) =~= all.skip(i + 1));
            }
            let thread = &page[i];
            if let Some(id) = thread.get_text("id") {
                let updated: u64 = match numeric_timestamp(thread.get("updatedAt")) {
                    Some(time) => time,
                    None => 0,
                };
                if updated > self.newest {
                    self.newest = updated;
                }
                if self.previous > 0 && updated <= self.previous {
                    return true;
                }
                let ghost before = self.candidates@;
                self.candidates.push(id.clone());
                assert(text::texts(self.candidates@) =~= text::texts(before).push(id@));
                if self.candidates.len() >= limit {
                    return false;
                }
            }
            i += 1;
        }
        assert(all.skip(i as int) =~= Seq::empty());
        false
    }
}

impl ThreadIngestor {
    /// Takes in an event that can bring a thread to attention: begins a discovery, if it does.
    pub fn handle_signal(&mut self, signal: &Signal) -> (begun: Option<(Discovery, DiscoveryStep)>)
        requires
            old(self).valid(),
        ensures
            final(self).valid(),
            match signal_of(*signal) {
                Some((thread_id, source)) => {
                    &&& begun matches Some((run, step))
                    &&& discovery_starts(*old(self), thread_id, source, *final(self), run, step)
                },
                None => begun is None && *final(self) == *old(self),
            },
    {
        match (&signal.thread_id, &signal.method) {
            (Some(thread_id), Some(method)) => {
                let params: Option<&Json> = match &signal.params {
                    Some(params) => Some(params),
                    None => None,
                };
                match signal_source(method.as_str(), params) {
                    Some(source) => Some(self.discover(thread_id.as_str(), source)),
                    None => None,
                }
            },
            _ => None,
        }
    }

    /// Begins a reconciliation: the threads that changed since the last one are found, page by
    /// page, and those that something is happening in are discovered.
    pub fn reconcile(&self) -> (begun: (Reconciliation, ReconcileStep))
        ensures
            begun.0.valid(),
            begun.0.previous == self.watermark,
            begun.0.newest == self.watermark,
            begun.0.pages_left == self.config.reconcile_page_bound,
            begun.0.candidates@.len() == 0,
            begun.0.outcomes@.len() == 0,
            begun.0.looked == 0,
            if self.config.reconcile_page_bound > 0 && self.config.reconcile_candidate_limit > 0 {
                &&& begun.0.stage is Listing
                &&& reconcile_asks(
                    begun.1,
                    "thread/list"@,
                    threads::page_request(None, self.config.reconcile_page_size as u64),
                )
            } else {
                &&& begun.0.stage is Ended
                &&& begun.1 matches ReconcileStep::Done(Ok(outcomes))
                &&& outcomes@.len() == 0
            },
    {
        let mut run = Reconciliation {
            previous: self.watermark,
            newest: self.watermark,
            pages_left: self.config.reconcile_page_bound,
            candidates: Vec::new(),
            outcomes: Vec::new(),
            looked: 0,
            stage: ReconcileStage::Listing,
        };
        if self.config.reconcile_page_bound > 0 && self.config.reconcile_candidate_limit > 0 {
            let params = threads::page_params(&None, self.config.reconcile_page_size);
            return (run, ReconcileStep::Request { method: "thread/list".to_owned(), params });
        }
        run.stage = ReconcileStage::Ended;
        (run, ReconcileStep::Done(Ok(Vec::new())))
    }

    fn reconcile_after_page(&mut self, run: Reconciliation, value: &Json) -> (went: (
        Reconciliation,
        ReconcileStep,
    ))
        requires
            run.valid(),
            run.stage is Listing,
            run.candidates@.len() < old(self).config.reconcile_candidate_limit,
        ensures
            went.0.valid(),
            went.0.stage is Listing ==> went.0.candidates@.len()
                < final(self).config.reconcile_candidate_limit,
            page_follows(*old(self), run, value@, *final(self), went.0, went.1),
    {
        let mut run = run;
        match value.get_items("data") {
            None => {
                run.stage = ReconcileStage::Ended;
                (run, ReconcileStep::Done(Err(IngestError::MalformedList)))
            },
            Some(page) => {
                let limit = self.config.reconcile_candidate_limit;
                let reached = run.scan(page, limit);
                run.pages_left -= 1;
                if !reached && run.pages_left > 0 && run.candidates.len() < limit {
                    if let Some(cursor) = value.get_text("nextCursor") {
                        let params = threads::page_params(
                            &Some(cursor.clone()),
                            self.config.reconcile_page_size,
                        );
                        return (
                            run,
                            ReconcileStep::Request { method: "thread/list".to_owned(), params },
                        );
                    }
                }
                self.watermark = run.newest;
                let step = run.look_on();
                (run, step)
            },
        }
    }

    /// Takes an event of a reconciliation in.
    pub fn reconcile_after(&mut self, run: Reconciliation, event: ReconcileEvent) -> (went: (
        Reconciliation,
        ReconcileStep,
    ))
        requires
            run.valid(),
            reconcile_expects(run.stage, event),
            run.stage is Listing ==> run.candidates@.len()
                < old(self).config.reconcile_candidate_limit,
        ensures
            went.0.valid(),
            went.0.stage is Listing ==> went.0.candidates@.len()
                < final(self).config.reconcile_candidate_limit,
            reconcile_follows(*old(self), run, event, *final(self), went.0, went.1),
    {
        let mut run = run;
        match event {
            ReconcileEvent::Replied(reply) => match run.stage {
                ReconcileStage::Listing => match reply {
                    Err(error) => {
                        run.stage = ReconcileStage::Ended;
                        (run, ReconcileStep::Done(Err(IngestError::Request(error))))
                    },
                    Ok(value) => self.reconcile_after_page(run, &value),
                },
                _ => {
                    let found: Option<&Json> = match &reply {
                        Ok(value) => value.get("thread"),
                        Err(_) => None,
                    };
                    if let Some(thread) = found {
                        if thread_is_active(thread) {
                            run.stage = ReconcileStage::Restoring;
                            return (run, ReconcileStep::Restore { thread: thread.clone() });
                        }
                    }
                    assert(run.looked < run.candidates.len());
                    run.looked += 1;
                    let step = run.look_on();
                    (run, step)
                },
            },
            ReconcileEvent::Told => {
                run.stage = ReconcileStage::Discovering;
                let thread_id = run.candidates[run.looked].clone();
                (run, ReconcileStep::Discover { thread_id })
            },
            ReconcileEvent::Discovered(outcome) => {
                let thread_id = run.candidates[run.looked].clone();
                run.outcomes.push((thread_id, outcome));
                assert(run.looked < run.candidates.len());
                run.looked += 1;
                let step = run.look_on();
                (run, step)
            },
        }
    }

    /// What to ask of the daemon to release an idle thread's subscription, where that may be done:
    /// only if it is configured, and reactivation has been verified, and the thread is not known to
    /// be anything but idle. `status` is what is known of the thread.
    pub fn release_if_idle(&self, thread_id: &str, status: Option<&str>) -> (asked: Option<
        (String, Json),
    >)
        ensures
            match asked {
                Some((method, params)) => releasable(*self, status) && method@
                    == "thread/unsubscribe"@ && params@ == threads::thread_request(thread_id@),
                None => !releasable(*self, status),
            },
    {
        if !self.config.release_idle_subscriptions || !self.reactivation_verified {
            return None;
        }
        if let Some(status) = status {
            if !text::same(status, "idle") {
                return None;
            }
        }
        Some(("thread/unsubscribe".to_owned(), threads::thread_params(thread_id)))
    }

    /// Concludes a release: a subscription that the daemon has ended is released.
    pub fn release_after(&mut self, thread_id: &str, reply: &Reply) -> (released: bool)
        requires
            old(self).valid(),
        ensures
            final(self).valid(),
            released == (*reply is Ok),
            if released {
                state_set(*old(self), thread_id@, SubscriptionState::Released, *final(self))
            } else {
                *final(self) == *old(self)
            },
    {
        match reply {
            Ok(_) => {
                self.states.insert(thread_id.to_owned(), SubscriptionState::Released);
                true
            },
            Err(_) => false,
        }
    }

    /// The threads whose subscriptions are to be ended when this observer leaves.
    pub fn unsubscribe_all_best_effort(&self) -> (ids: Vec<String>)
        requires
            self.valid(),
        ensures
            text::texts(ids@).no_duplicates(),
            forall|id: Seq<char>| #[trigger]
                text::texts(ids@).contains(id) <==> self.states@.contains_key(id)
                    && self.states@[id] is Subscribed,
    {
        let ghost rows = self.states.rows();
        proof {
            self.states.lemma_rows();
        }
        let mut ids: Vec<String> = Vec::new();
        let mut i: usize = 0;
        let len = self.states.len();
        while i < len
            invariant
                i <= len,
                rows == self.states.rows(),
                len == rows.len(),
                table::distinct_keys(rows),
                text::texts(ids@).no_duplicates(),
                forall|k: int|
                    0 <= k < i && (#[trigger] rows[k]).1 is Subscribed ==> text::texts(
                        ids@,
                    ).contains(rows[k].0@),
                forall|id: Seq<char>| #[trigger]
                    text::texts(ids@).contains(id) ==> exists|k: int|
                        0 <= k < i && (#[trigger] rows[k]).1 is Subscribed && rows[k].0@ == id,
            decreases len - i,
        {
            let ghost before = ids@;
            if let SubscriptionState::Subscribed = self.states.value_at(i) {
                ids.push(self.states.key_at(i).clone());
                proof {
                    let id = rows[i as int].0@;
                    assert(text::texts(ids@) =~= text::texts(before).push(id));
                    assert(!text::texts(before).contains(id)) by {
                        if text::texts(before).contains(id) {
                            let k = choose|k: int|
                                0 <= k < i && (#[trigger] rows[k]).1 is Subscribed && rows[k].0@
                                    == id;
                            assert(rows[k].0.form() == rows[i as int].0.form());
                        }
                    }
                    assert forall|other: Seq<char>|
                        text::texts(before).contains(other) || other == id implies #[trigger] text::texts(
                        ids@,
                    ).contains(other) by {
                        if other == id {
                            assert(text::texts(ids@)[before.len() as int] == id);
                        } else {
                            let k = choose|k: int|
                                0 <= k < before.len() && text::texts(before)[k] == other;
                            assert(text::texts(ids@)[k] == other);
                        }
                    }
                    assert forall|other: Seq<char>| #[trigger]
                        text::texts(ids@).contains(other) implies exists|k: int|
                        0 <= k < i + 1 && (#[trigger] rows[k]).1 is Subscribed && rows[k].0@
                            == other by {
                        if other == id {
                            assert(rows[i as int].0@ == other);
                        } else {
                            let k = choose|k: int|
                                0 <= k < ids@.len() && text::texts(ids@)[k] == other;
                            assert(text::texts(before)[k] == other);
                            assert(text::texts(before).contains(other));
                        }
                    }
                }
            }
            i += 1;
        }
        proof {
            assert forall|id: Seq<char>| #[trigger]
                text::texts(ids@).contains(id) <==> self.states@.contains_key(id)
                    && self.states@[id] is Subscribed by {
                if text::texts(ids@).contains(id) {
                    let k = choose|k: int|
                        0 <= k < len && (#[trigger] rows[k]).1 is Subscribed && rows[k].0@ == id;
                    assert(self.states@.contains_key(rows[k].0.form()));
                }
                if self.states@.contains_key(id) && self.states@[id] is Subscribed {
                    let k = choose|k: int|
                        0 <= k < self.states.rows().len() && (
                        #[trigger] self.states.rows()[k]).0.form() == id;
                    assert(rows[k].1 is Subscribed);
                }
            }
        }
        ids
    }
}

/// Whether a thread's subscription may be released, with `status` known of it.
pub open spec fn releasable(ingestor: ThreadIngestor, status: Option<&str>) -> bool {
    &&& ingestor.config.release_idle_subscriptions
    &&& ingestor.reactivation_verified
    &&& status matches Some(status) ==> status@ == "idle"@
}

/// A thread that is subscribed to, or is about to be, is left alone: discovering it again changes
/// nothing and asks nothing of the daemon.
pub proof fn law_managed_threads_are_left_alone(
    before: ThreadIngestor,
    thread_id: Seq<char>,
    source: DiscoverySource,
    after: ThreadIngestor,
    run: Discovery,
    step: DiscoveryStep,
)
    requires
        is_managed(before.states@, thread_id),
        discovery_starts(before, thread_id, source, after, run, step),
    ensures
        after.states@ == before.states@,
        step == DiscoveryStep::Done(DiscoveryOutcome::AlreadyManaged),
{
}

proof fn lemma_one_state_changes(
    before: Map<Seq<char>, SubscriptionState>,
    id: Seq<char>,
    state: SubscriptionState,
)
    requires
        before.dom().finite(),
    ensures
        retained(before).finite(),
        retained(before.insert(id, state)).finite(),
        is_managed(before, id) ==> retained(before.insert(id, state)).len() <= retained(
            before,
        ).len(),
        !is_managed(before, id) ==> retained(before.insert(id, state)).len() == retained(
            before,
        ).len() + (if takes_place(state) {
            1int
        } else {
            0
        }),
{
    let after = before.insert(id, state);
    if takes_place(state) {
        assert(retained(after) =~= retained(before).insert(id));
    } else {
        assert(retained(after) =~= retained(before).remove(id));
    }
}

/// A discovery takes a place only where there is one: it leaves no more threads retained than
/// there were, or than there are places.
pub proof fn law_discovery_keeps_to_the_places(
    before: ThreadIngestor,
    thread_id: Seq<char>,
    source: DiscoverySource,
    after: ThreadIngestor,
    run: Discovery,
    step: DiscoveryStep,
)
    requires
        before.valid(),
        discovery_starts(before, thread_id, source, after, run, step),
    ensures
        retained(after.states@).len() <= retained(before.states@).len() || retained(
            after.states@,
        ).len() <= before.config.subscription_cap,
        run.stage !is Ended ==> is_managed(after.states@, thread_id),
{
    before.states.lemma_rows();
    lemma_one_state_changes(before.states@, thread_id, SubscriptionState::CapacityDegraded);
    lemma_one_state_changes(
        before.states@,
        thread_id,
        SubscriptionState::Subscribing { source, attempt: 1 },
    );
}

/// A discovery whose thread has a place keeps to that place: whatever happens, no more threads are
/// retained than before.
pub proof fn law_discovery_keeps_its_place(
    before: ThreadIngestor,
    run: Discovery,
    event: DiscoveryEvent,
    after: ThreadIngestor,
    went: Discovery,
    step: DiscoveryStep,
)
    requires
        before.valid(),
        is_managed(before.states@, run.thread_id@),
        discovery_expects(run.stage, event),
        discovery_follows(before, run, event, after, went, step),
    ensures
        retained(after.states@).len() <= retained(before.states@).len(),
        is_managed(after.states@, run.thread_id@) || went.stage is Cancelling,
{
    before.states.lemma_rows();
    let id = run.thread_id@;
    lemma_one_state_changes(before.states@, id, after.states@[id]);
    assert(after.states@ == before.states@ || after.states@ == before.states@.insert(
        id,
        after.states@[id],
    ));
}

/// A release takes no place: no more threads are retained than before, and the released thread is
/// not among them.
pub proof fn law_release_frees_its_place(
    before: ThreadIngestor,
    thread_id: Seq<char>,
    after: ThreadIngestor,
)
    requires
        before.valid(),
        state_set(before, thread_id, SubscriptionState::Released, after),
    ensures
        retained(after.states@).len() <= retained(before.states@).len(),
        !is_managed(after.states@, thread_id),
{
    before.states.lemma_rows();
    lemma_one_state_changes(before.states@, thread_id, SubscriptionState::Released);
}

/// A discovery changes the state of its own thread and of no other.
pub proof fn law_discovery_touches_one_thread(
    before: ThreadIngestor,
    run: Discovery,
    event: DiscoveryEvent,
    after: ThreadIngestor,
    went: Discovery,
    step: DiscoveryStep,
    other: Seq<char>,
)
    requires
        discovery_expects(run.stage, event),
        discovery_follows(before, run, event, after, went, step),
        other != run.thread_id@,
    ensures
        after.states@.contains_key(other) == before.states@.contains_key(other),
        after.states@.contains_key(other) ==> after.states@[other] == before.states@[other],
        after.watermark == before.watermark,
{
}

/// The attempts of a discovery that are within its bound.
pub open spec fn attempts_bounded(run: Discovery, limit: usize) -> bool {
    match run.stage {
        DiscoveryStage::Resuming { attempt } => attempt == 1 || 1 < attempt <= limit,
        DiscoveryStage::Pausing { attempt } => 1 < attempt <= limit,
        _ => true,
    }
}

/// A thread is resumed at most as often as the limit says, and at least once: the attempts start
/// with the first, each pause leads to the next, and the last that the limit allows is never
/// followed by another.
pub proof fn law_attempts_are_bounded(
    before: ThreadIngestor,
    run: Discovery,
    event: DiscoveryEvent,
    after: ThreadIngestor,
    went: Discovery,
    step: DiscoveryStep,
)
    requires
        attempts_bounded(run, before.config.resume_retry_limit),
        discovery_expects(run.stage, event),
        discovery_follows(before, run, event, after, went, step),
    ensures
        attempts_bounded(went, after.config.resume_retry_limit),
        (run.stage matches DiscoveryStage::Resuming { attempt } && attempt
            >= before.config.resume_retry_limit) ==> went.stage !is Pausing,
        (run.stage matches DiscoveryStage::Resuming { attempt: was } && went.stage matches
            DiscoveryStage::Pausing { attempt: is }) ==> went.stage->Pausing_attempt
            == run.stage->Resuming_attempt + 1,
        run.stage is Pausing ==> went.stage is Resuming && went.stage->Resuming_attempt
            == run.stage->Pausing_attempt,
{
}

/// A thread is subscribed to only after the daemon has resumed it, and is read after that, so that
/// no turn that was in flight is missed.
pub proof fn law_subscribed_threads_were_resumed(
    before: ThreadIngestor,
    run: Discovery,
    event: DiscoveryEvent,
    after: ThreadIngestor,
    went: Discovery,
    step: DiscoveryStep,
)
    requires
        discovery_expects(run.stage, event),
        discovery_follows(before, run, event, after, went, step),
    ensures
        went.stage is Finishing ==> run.stage is Resuming && event matches DiscoveryEvent::Replied(
            Ok(_),
        ),
        went.stage is Reading ==> run.stage is Finishing && after.states@[run.thread_id@]
            is Subscribed && asks(
            step,
            "thread/read"@,
            threads::reading_request(run.thread_id@),
        ),
{
}

proof fn lemma_scan(
    page: Seq<JsonView>,
    previous: u64,
    limit: usize,
    newest: u64,
    candidates: Seq<Seq<char>>,
)
    requires
        candidates.len() < limit,
    ensures
        ({
            let scan = page_scan(page, previous, limit, newest, candidates);
            &&& newest <= scan.newest
            &&& candidates.is_prefix_of(scan.candidates)
            &&& scan.candidates.len() <= limit
            &&& scan.candidates.len() <= candidates.len() + page.len()
        }),
    decreases page.len(),
{
    if page.len() > 0 {
        match page[0].member_text("id"@) {
            None => lemma_scan(page.skip(1), previous, limit, newest, candidates),
            Some(id) => {
                let updated = updated_at(page[0]);
                let longer = candidates.push(id);
                if !(previous > 0 && updated <= previous) && longer.len() < limit {
                    lemma_scan(page.skip(1), previous, limit, later(newest, updated), longer);
                    let scan = page_scan(
                        page.skip(1),
                        previous,
                        limit,
                        later(newest, updated),
                        longer,
                    );
                    assert(candidates =~= scan.candidates.take(candidates.len() as int));
                }
            },
        }
    }
}

/// A reconciliation keeps to its bounds: each page uses up one of the pages that it may ask for,
/// there are never more candidates than the limit, a candidate that was found stays one, and the
/// time up to which threads have been seen never goes back behind what it was at the start.
pub proof fn law_reconciliation_is_bounded(
    before: ThreadIngestor,
    run: Reconciliation,
    event: ReconcileEvent,
    after: ThreadIngestor,
    went: Reconciliation,
    step: ReconcileStep,
)
    requires
        run.valid(),
        run.stage is Listing,
        run.previous <= run.newest,
        run.candidates@.len() < before.config.reconcile_candidate_limit,
        reconcile_follows(before, run, event, after, went, step),
        event matches ReconcileEvent::Replied(Ok(value)) && value@.member_items("data"@) is Some,
    ensures
        went.pages_left == run.pages_left - 1,
        went.candidates@.len() <= before.config.reconcile_candidate_limit,
        text::texts(run.candidates@).is_prefix_of(text::texts(went.candidates@)),
        run.newest <= went.newest,
        went.stage !is Listing ==> after.watermark == went.newest && run.previous
            <= after.watermark,
        went.stage is Listing ==> after.watermark == before.watermark,
{
    if let ReconcileEvent::Replied(Ok(value)) = event {
        lemma_scan(
            value@.member_items("data"@).unwrap(),
            run.previous,
            before.config.reconcile_candidate_limit,
            run.newest,
            text::texts(run.candidates@),
        );
    }
}

/// A reconciliation that fails leaves the time up to which threads have been seen as it was, so
/// that the next one looks at the same threads again.
pub proof fn law_failed_reconciliation_changes_nothing(
    before: ThreadIngestor,
    run: Reconciliation,
    event: ReconcileEvent,
    after: ThreadIngestor,
    went: Reconciliation,
    step: ReconcileStep,
)
    requires
        reconcile_follows(before, run, event, after, went, step),
        step matches ReconcileStep::Done(Err(_)),
    ensures
        after == before,
{
}

/// Only a thread that something is happening in is shown to the reducer or discovered.
pub proof fn law_only_active_threads_are_discovered(
    before: ThreadIngestor,
    run: Reconciliation,
    event: ReconcileEvent,
    after: ThreadIngestor,
    went: Reconciliation,
    step: ReconcileStep,
)
    requires
        reconcile_expects(run.stage, event),
        reconcile_follows(before, run, event, after, went, step),
    ensures
        step matches ReconcileStep::Restore { thread } ==> is_active(thread@),
        step is Discover ==> run.stage is Restoring,
        went.stage is Restoring ==> step is Restore,
{
}

/// Whether a discovery at this stage still counts on the place of its thread.
pub open spec fn holds_place(stage: DiscoveryStage) -> bool {
    !(stage is Cancelling || stage is Ended)
}

/// Discoveries that run beside each other, in order: no more threads are retained than there are
/// places, each discovery that counts on a place has it, and no two count on the same.
pub open spec fn in_order(ingestor: ThreadIngestor, runs: Map<nat, Discovery>) -> bool {
    &&& retained(ingestor.states@).len() <= ingestor.config.subscription_cap
    &&& forall|k: nat|
        (#[trigger] runs.contains_key(k) && holds_place(runs[k].stage)) ==> is_managed(
            ingestor.states@,
            runs[k].thread_id@,
        )
    &&& forall|j: nat, k: nat|
        (j != k && #[trigger] runs.contains_key(j) && #[trigger] runs.contains_key(k)
            && holds_place(runs[j].stage) && holds_place(runs[k].stage)) ==> runs[j].thread_id@
            != runs[k].thread_id@
}

/// However many discoveries run beside each other, one more leaves them in order.
pub proof fn law_discoveries_start_in_order(
    before: ThreadIngestor,
    runs: Map<nat, Discovery>,
    k: nat,
    thread_id: Seq<char>,
    source: DiscoverySource,
    after: ThreadIngestor,
    run: Discovery,
    step: DiscoveryStep,
)
    requires
        before.valid(),
        in_order(before, runs),
        !runs.contains_key(k),
        discovery_starts(before, thread_id, source, after, run, step),
    ensures
        in_order(after, runs.insert(k, run)),
{
    law_discovery_keeps_to_the_places(before, thread_id, source, after, run, step);
    let more = runs.insert(k, run);
    assert forall|j: nat|
        (#[trigger] more.contains_key(j) && holds_place(more[j].stage)) implies is_managed(
        after.states@,
        more[j].thread_id@,
    ) by {
        if j != k {
            assert(runs.contains_key(j));
        }
    }
    assert forall|i: nat, j: nat|
        (i != j && #[trigger] more.contains_key(i) && #[trigger] more.contains_key(j)
            && holds_place(more[i].stage) && holds_place(more[j].stage)) implies more[i].thread_id@
        != more[j].thread_id@ by {
        if i != k {
            assert(runs.contains_key(i));
        }
        if j != k {
            assert(runs.contains_key(j));
        }
    }
}

/// Whatever happens to one of many discoveries that run beside each other, they stay in order: in
/// particular there are never more threads retained than there are places.
pub proof fn law_discoveries_stay_in_order(
    before: ThreadIngestor,
    runs: Map<nat, Discovery>,
    k: nat,
    event: DiscoveryEvent,
    after: ThreadIngestor,
    went: Discovery,
    step: DiscoveryStep,
)
    requires
        before.valid(),
        in_order(before, runs),
        runs.contains_key(k),
        discovery_expects(runs[k].stage, event),
        discovery_follows(before, runs[k], event, after, went, step),
    ensures
        in_order(after, runs.insert(k, went)),
{
    let run = runs[k];
    let more = runs.insert(k, went);
    if holds_place(run.stage) {
        law_discovery_keeps_its_place(before, run, event, after, went, step);
    }
    assert forall|j: nat|
        (#[trigger] more.contains_key(j) && holds_place(more[j].stage)) implies is_managed(
        after.states@,
        more[j].thread_id@,
    ) by {
        if j != k {
            assert(runs.contains_key(j));
            if holds_place(run.stage) {
                law_discovery_touches_one_thread(
                    before,
                    run,
                    event,
                    after,
                    went,
                    step,
                    runs[j].thread_id@,
                );
            }
        }
    }
    assert forall|i: nat, j: nat|
        (i != j && #[trigger] more.contains_key(i) && #[trigger] more.contains_key(j)
            && holds_place(more[i].stage) && holds_place(more[j].stage)) implies more[i].thread_id@
        != more[j].thread_id@ by {
        assert(runs.contains_key(i));
        assert(runs.contains_key(j));
        assert(holds_place(went.stage) ==> holds_place(run.stage));
    }
}

/// A release of a thread that no discovery counts on leaves all discoveries in order.
pub proof fn law_releases_keep_order(
    before: ThreadIngestor,
    runs: Map<nat, Discovery>,
    thread_id: Seq<char>,
    after: ThreadIngestor,
)
    requires
        before.valid(),
        in_order(before, runs),
        forall|k: nat|
            (#[trigger] runs.contains_key(k) && holds_place(runs[k].stage)) ==> runs[k].thread_id@
                != thread_id,
        state_set(before, thread_id, SubscriptionState::Released, after),
    ensures
        in_order(after, runs),
{
    law_release_frees_its_place(before, thread_id, after);
}

/// How many steps a discovery can still take.
pub open spec fn discovery_steps(run: Discovery, limit: usize) -> int {
    let most = if limit > 1 {
        limit as int
    } else {
        1
    };
    match run.stage {
        DiscoveryStage::Beginning => 2 * (most - 1) + 6,
        DiscoveryStage::Pausing { attempt } => 2 * (most - attempt) + 6,
        DiscoveryStage::Resuming { attempt } => 2 * (most - attempt) + 5,
        DiscoveryStage::Finishing => 4,
        DiscoveryStage::Reading => 3,
        DiscoveryStage::Restoring => 2,
        DiscoveryStage::Cancelling { .. } => 1,
        DiscoveryStage::Ended => 0,
    }
}

/// A discovery comes to an end, whatever the daemon replies.
pub proof fn law_discovery_comes_to_an_end(
    before: ThreadIngestor,
    run: Discovery,
    event: DiscoveryEvent,
    after: ThreadIngestor,
    went: Discovery,
    step: DiscoveryStep,
)
    requires
        attempts_bounded(run, before.config.resume_retry_limit),
        discovery_expects(run.stage, event),
        discovery_follows(before, run, event, after, went, step),
    ensures
        0 <= discovery_steps(went, after.config.resume_retry_limit) < discovery_steps(
            run,
            before.config.resume_retry_limit,
        ),
        went.stage is Ended <==> step is Done,
{
}

/// How many steps a reconciliation can still take.
pub open spec fn reconcile_steps(run: Reconciliation, limit: usize) -> int {
    let left = run.candidates@.len() - run.looked;
    match run.stage {
        ReconcileStage::Listing => 3 * limit + 1 + run.pages_left,
        ReconcileStage::Reading => 3 * left,
        ReconcileStage::Restoring => 3 * left - 1,
        ReconcileStage::Discovering => 3 * left - 2,
        ReconcileStage::Ended => 0,
    }
}

/// A reconciliation comes to an end, whatever the daemon replies: it asks for at most as many
/// pages as it may, and looks at each candidate once.
pub proof fn law_reconciliation_comes_to_an_end(
    before: ThreadIngestor,
    run: Reconciliation,
    event: ReconcileEvent,
    after: ThreadIngestor,
    went: Reconciliation,
    step: ReconcileStep,
)
    requires
        run.valid(),
        went.valid(),
        run.stage is Listing ==> run.candidates@.len() < before.config.reconcile_candidate_limit,
        reconcile_expects(run.stage, event),
        reconcile_follows(before, run, event, after, went, step),
    ensures
        0 <= reconcile_steps(went, after.config.reconcile_candidate_limit) < reconcile_steps(
            run,
            before.config.reconcile_candidate_limit,
        ),
        went.stage is Ended <==> step is Done,
{
    if run.stage is Listing {
        if let ReconcileEvent::Replied(Ok(value)) = event {
            if let Some(page) = value@.member_items("data"@) {
                lemma_scan(
                    page,
                    run.previous,
                    before.config.reconcile_candidate_limit,
                    run.newest,
                    text::texts(run.candidates@),
                );
            }
        }
    }
}

} // verus!
