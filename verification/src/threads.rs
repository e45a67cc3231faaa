//! Listing and reading the daemon's threads.

use crate::json;
use crate::json::{Json, JsonView};
use crate::path::FilePath;
use crate::rpc;
use crate::rpc::{Reply, RequestError};
use crate::text;
use vstd::prelude::*;

verus! {

/// How many threads a listing asks for at a time.
pub const PAGE_SIZE: usize = 100;

/// A thread as the daemon lists it: what identifies it, where it works, and everything else that
/// was said of it.
#[derive(Clone, Debug, PartialEq)]
pub struct ListedThread {
    pub id: String,
    pub cwd: FilePath,
    pub metadata: Json,
}

/// A thread as the daemon reads it out, with its turns.
///
/// Turns keep their items, so that an observer can recover input that notifications leave out.
#[derive(Clone, Debug, PartialEq)]
pub struct ReadThread {
    pub id: String,
    pub turns: Vec<ReadTurn>,
    pub metadata: Json,
}

/// A turn of a thread, with its items.
#[derive(Clone, Debug, PartialEq)]
pub struct ReadTurn {
    pub id: String,
    pub items: Vec<Json>,
    pub metadata: Json,
}

/// Why there is no list of threads.
#[derive(Debug)]
pub enum ThreadListError {
    Request(RequestError),
    InvalidResponse(String),
    RepeatedCursor(String),
}

/// Why a thread could not be read.
#[derive(Debug)]
pub enum ThreadReadError {
    Request(RequestError),
    InvalidResponse(String),
}

/// One page of a listing.
#[derive(Debug)]
pub struct ThreadListPage {
    pub data: Vec<ListedThread>,
    pub next_cursor: Option<String>,
}

/// The words of a failed listing.
pub open spec fn list_words(error: ThreadListError) -> Seq<char> {
    match error {
        ThreadListError::Request(error) => rpc::failure_words(error@),
        ThreadListError::InvalidResponse(source) => "invalid response from thread/list: "@ + source@,
        ThreadListError::RepeatedCursor(cursor) => "thread/list repeated pagination cursor "@
            + rpc::quoted_text(cursor@),
    }
}

/// The words of a failed reading.
pub open spec fn read_words(error: ThreadReadError) -> Seq<char> {
    match error {
        ThreadReadError::Request(error) => rpc::failure_words(error@),
        ThreadReadError::InvalidResponse(source) => "invalid response from thread/read: "@ + source@,
    }
}

impl ThreadListError {
    /// The words of this failure.
    pub fn message(&self) -> (words: String)
        ensures
            words@ == list_words(*self),
    {
        match self {
            ThreadListError::Request(error) => error.message(),
            ThreadListError::InvalidResponse(source) => {
                text::joined("invalid response from thread/list: ", source.as_str())
            },
            ThreadListError::RepeatedCursor(cursor) => text::joined(
                "thread/list repeated pagination cursor ",
                rpc::quoted(cursor.as_str()).as_str(),
            ),
        }
    }
}

impl ThreadReadError {
    /// The words of this failure.
    pub fn message(&self) -> (words: String)
        ensures
            words@ == read_words(*self),
    {
        match self {
            ThreadReadError::Request(error) => error.message(),
            ThreadReadError::InvalidResponse(source) => {
                text::joined("invalid response from thread/read: ", source.as_str())
            },
        }
    }
}

/// What a request for a page of threads says: the newest first, from `cursor` on.
pub open spec fn page_request(cursor: Option<Seq<char>>, limit: u64) -> JsonView {
    JsonView::object().with("cursor"@, json::text_or_null(cursor)).with(
        "limit"@,
        JsonView::Number(limit),
    ).with("sortKey"@, JsonView::Text("updated_at"@)).with(
        "sortDirection"@,
        JsonView::Text("desc"@),
    )
}

/// What a request that names a thread says.
pub open spec fn thread_request(thread_id: Seq<char>) -> JsonView {
    JsonView::object().with("threadId"@, JsonView::Text(thread_id))
}

/// What a request to read a thread with its turns says.
pub open spec fn reading_request(thread_id: Seq<char>) -> JsonView {
    thread_request(thread_id).with("includeTurns"@, JsonView::Bool(true))
}

/// The parameters of a request for a page of threads.
pub fn page_params(cursor: &Option<String>, limit: usize) -> (params: Json)
    ensures
        params@ == page_request(json::optional_text(*cursor), limit as u64),
{
    Json::object().with("cursor", Json::text_or_null(cursor)).with(
        "limit",
        Json::Number(limit as u64),
    ).with("sortKey", Json::text("updated_at")).with("sortDirection", Json::text("desc"))
}

/// The parameters of a request that names a thread.
pub fn thread_params(thread_id: &str) -> (params: Json)
    ensures
        params@ == thread_request(thread_id@),
{
    Json::object().with("threadId", Json::text(thread_id))
}

/// The parameters of a request to read a thread with its turns.
pub fn reading_params(thread_id: &str) -> (params: Json)
    ensures
        params@ == reading_request(thread_id@),
{
    thread_params(thread_id).with("includeTurns", Json::Bool(true))
}

/// Whether a thread with this identity is among `threads`.
pub open spec fn lists(threads: Seq<ListedThread>, id: Seq<char>) -> bool {
    exists|i: int| 0 <= i < threads.len() && (#[trigger] threads[i]).id@ == id
}

/// The threads of a listing after one more page: a thread that is already listed stays as it is,
/// and each other goes to the end.
pub open spec fn merged(threads: Seq<ListedThread>, page: Seq<ListedThread>) -> Seq<ListedThread>
    decreases page.len(),
{
    if page.len() == 0 {
        threads
    } else {
        let before = merged(threads, page.drop_last());
        if lists(before, page.last().id@) {
            before
        } else {
            before.push(page.last())
        }
    }
}

/// A listing under way: the threads so far, the cursors that pages have named, and what it waits
/// for.
#[derive(Debug)]
pub struct ThreadListing {
    pub stage: ListingStage,
    pub seen_cursors: Vec<String>,
    pub threads: Vec<ListedThread>,
}

/// What a listing waits for.
#[derive(Clone, Copy, Debug, PartialEq, Eq, Structural)]
pub enum ListingStage {
    /// A page.
    Asking,
    /// A page that was answered, as its typed value.
    Parsing,
    /// Nothing.
    Finished,
}

/// What happened to a listing.
#[derive(Debug)]
pub enum ListingEvent {
    Replied(Reply),
    Parsed(Result<ThreadListPage, String>),
}

/// What a listing does next.
#[derive(Debug)]
pub enum ListingStep {
    /// Ask the daemon for a page of threads.
    Request { method: String, params: Json },
    /// Read the answer as a page.
    Parse(Json),
    Done(Result<Vec<ListedThread>, ThreadListError>),
}

/// An event that can happen at a stage.
pub open spec fn listing_expects(stage: ListingStage, event: ListingEvent) -> bool {
    match stage {
        ListingStage::Asking => event is Replied,
        ListingStage::Parsing => event is Parsed,
        ListingStage::Finished => false,
    }
}

/// A request for the page at `cursor`.
pub open spec fn asks_page(step: ListingStep, cursor: Option<Seq<char>>) -> bool {
    &&& step matches ListingStep::Request { method, params }
    &&& method@ == "thread/list"@
    &&& params@ == page_request(cursor, PAGE_SIZE as u64)
}

/// What an event changes, and what is done about it.
pub open spec fn listing_follows(
    before: ThreadListing,
    event: ListingEvent,
    after: ThreadListing,
    step: ListingStep,
) -> bool {
    match event {
        ListingEvent::Replied(Err(error)) => {
            &&& after == ThreadListing { stage: ListingStage::Finished, ..before }
            &&& step == ListingStep::Done(Err(ThreadListError::Request(error)))
        },
        ListingEvent::Replied(Ok(value)) => {
            &&& after == ThreadListing { stage: ListingStage::Parsing, ..before }
            &&& step == ListingStep::Parse(value)
        },
        ListingEvent::Parsed(Err(source)) => {
            &&& after == ThreadListing { stage: ListingStage::Finished, ..before }
            &&& step == ListingStep::Done(Err(ThreadListError::InvalidResponse(source)))
        },
        ListingEvent::Parsed(Ok(page)) => {
            let threads = merged(before.threads@, page.data@);
            match page.next_cursor {
                None => {
                    &&& after.stage is Finished
                    &&& after.seen_cursors@ == before.seen_cursors@
                    &&& step matches ListingStep::Done(Ok(listed))
                    &&& listed@ == threads
                },
                Some(cursor) => {
                    &&& after.threads@ == threads
                    &&& if text::texts(before.seen_cursors@).contains(cursor@) {
                        &&& after.stage is Finished
                        &&& after.seen_cursors@ == before.seen_cursors@
                        &&& step == ListingStep::Done(Err(ThreadListError::RepeatedCursor(cursor)))
                    } else {
                        &&& after.stage is Asking
                        &&& after.seen_cursors@ == before.seen_cursors@.push(cursor)
                        &&& asks_page(step, Some(cursor@))
                    }
                },
            }
        },
    }
}

fn listed(threads: &Vec<ListedThread>, id: &str) -> (yes: bool)
    ensures
        yes == lists(threads@, id@),
{
    let mut i: usize = 0;
    while i < threads.len()
        invariant
            i <= threads@.len(),
            forall|k: int| 0 <= k < i ==> (#[trigger] threads@[k]).id@ != id@,
        decreases threads@.len() - i,
    {
        if text::same(threads[i].id.as_str(), id) {
            return true;
        }
        i += 1;
    }
    false
}

fn holds(row: &Vec<String>, part: &str) -> (yes: bool)
    ensures
        yes == text::texts(row@).contains(part@),
{
    let mut i: usize = 0;
    while i < row.len()
        invariant
            i <= row@.len(),
            forall|k: int| 0 <= k < i ==> text::texts(row@)[k] != part@,
        decreases row@.len() - i,
    {
        assert(text::texts(row@)[i as int] == row@[i as int]@);
        if text::same(row[i].as_str(), part) {
            return true;
        }
        i += 1;
    }
    false
}

impl ThreadListing {
    fn merge(&mut self, page: Vec<ListedThread>)
        ensures
            final(self).threads@ == merged(old(self).threads@, page@),
            final(self).stage == old(self).stage,
            final(self).seen_cursors == old(self).seen_cursors,
    {
        let ghost all = page@;
        let ghost before = self.threads@;
        assert(all.take(0) =~= Seq::<ListedThread>::empty());
        for thread in iter: page
            invariant
                iter.seq() == all,
                self.threads@ == merged(before, all.take(iter.index())),
                self.stage == old(self).stage,
                self.seen_cursors == old(self).seen_cursors,
        {
            proof {
                assert(all.take(iter.index() + 1).drop_last() =~= all.take(iter.index()));
                assert(all.take(iter.index() + 1).last() == thread);
            }
            if !listed(&self.threads, thread.id.as_str()) {
                self.threads.push(thread);
            }
        }
        assert(all.take(all.len() as int) =~= all);
    }

    /// Begins a listing of every thread.
    pub fn list_all() -> (begun: (ThreadListing, ListingStep))
        ensures
            begun.0.stage is Asking,
            begun.0.seen_cursors@ == Seq::<String>::empty(),
            begun.0.threads@ == Seq::<ListedThread>::empty(),
            asks_page(begun.1, None),
    {
        let listing = ThreadListing {
            stage: ListingStage::Asking,
            seen_cursors: Vec::new(),
            threads: Vec::new(),
        };
        let params = page_params(&None, PAGE_SIZE);
        (listing, ListingStep::Request { method: "thread/list".to_owned(), params })
    }

    /// Takes an event of the listing in.
    pub fn list_all_after(&mut self, event: ListingEvent) -> (step: ListingStep)
        requires
            listing_expects(old(self).stage, event),
        ensures
            listing_follows(*old(self), event, *final(self), step),
    {
        match event {
            ListingEvent::Replied(Err(error)) => {
                self.stage = ListingStage::Finished;
                ListingStep::Done(Err(ThreadListError::Request(error)))
            },
            ListingEvent::Replied(Ok(value)) => {
                self.stage = ListingStage::Parsing;
                ListingStep::Parse(value)
            },
            ListingEvent::Parsed(Err(source)) => {
                self.stage = ListingStage::Finished;
                ListingStep::Done(Err(ThreadListError::InvalidResponse(source)))
            },
            ListingEvent::Parsed(Ok(page)) => {
                self.merge(page.data);
                match page.next_cursor {
                    None => {
                        self.stage = ListingStage::Finished;
                        let mut listed: Vec<ListedThread> = Vec::new();
                        std::mem::swap(&mut listed, &mut self.threads);
                        ListingStep::Done(Ok(listed))
                    },
                    Some(cursor) => {
                        if holds(&self.seen_cursors, cursor.as_str()) {
                            self.stage = ListingStage::Finished;
                            return ListingStep::Done(Err(ThreadListError::RepeatedCursor(cursor)));
                        }
                        self.stage = ListingStage::Asking;
                        self.seen_cursors.push(cursor.clone());
                        let params = page_params(&Some(cursor), PAGE_SIZE);
                        ListingStep::Request { method: "thread/list".to_owned(), params }
                    },
                }
            },
        }
    }
}

/// What reading a thread came to, from what the daemon replied and, where it did, what the answer
/// was as its typed value.
pub fn read(reply: Result<Result<ReadThread, String>, RequestError>) -> (thread: Result<
    ReadThread,
    ThreadReadError,
>)
    ensures
        thread == (match reply {
            Ok(Ok(thread)) => Ok(thread),
            Ok(Err(source)) => Err(ThreadReadError::InvalidResponse(source)),
            Err(error) => Err(ThreadReadError::Request(error)),
        }),
{
    match reply {
        Ok(Ok(thread)) => Ok(thread),
        Ok(Err(source)) => Err(ThreadReadError::InvalidResponse(source)),
        Err(error) => Err(ThreadReadError::Request(error)),
    }
}

/// No thread is listed twice, and no cursor has been named twice.
pub open spec fn listing_sound(listing: ThreadListing) -> bool {
    listed_once(listing.threads@) && text::texts(listing.seen_cursors@).no_duplicates()
}

/// No thread is listed twice.
pub open spec fn listed_once(threads: Seq<ListedThread>) -> bool {
    forall|i: int, j: int|
        0 <= i < j < threads.len() ==> (#[trigger] threads[i]).id@ != (#[trigger] threads[j]).id@
}

/// A page adds threads at the end and loses none: what was listed stays where it was, every thread
/// of the page is listed, and no thread is listed twice.
pub proof fn law_pages_add_each_thread_once(threads: Seq<ListedThread>, page: Seq<ListedThread>)
    requires
        listed_once(threads),
    ensures
        listed_once(merged(threads, page)),
        threads.is_prefix_of(merged(threads, page)),
        forall|i: int| 0 <= i < page.len() ==> lists(merged(threads, page), (#[trigger] page[i]).id@),
    decreases page.len(),
{
    if page.len() > 0 {
        let rest = page.drop_last();
        law_pages_add_each_thread_once(threads, rest);
        let before = merged(threads, rest);
        let after = merged(threads, page);
        assert forall|id: Seq<char>| lists(before, id) implies #[trigger] lists(after, id) by {
            let i = choose|i: int| 0 <= i < before.len() && (#[trigger] before[i]).id@ == id;
            assert(after[i].id@ == id);
        }
        assert forall|i: int| 0 <= i < page.len() implies lists(after, (#[trigger] page[i]).id@) by {
            if i < rest.len() {
                assert(rest[i] == page[i]);
            } else if !lists(before, page.last().id@) {
                assert(after[before.len() as int].id@ == page[i].id@);
            }
        }
    }
}

/// A listing never lists a thread twice and never asks for the same cursor twice.
pub proof fn law_listing_stays_sound(
    before: ThreadListing,
    event: ListingEvent,
    after: ThreadListing,
    step: ListingStep,
)
    requires
        listing_sound(before),
        listing_follows(before, event, after, step),
    ensures
        after.stage !is Finished ==> listing_sound(after),
        step matches ListingStep::Done(Ok(threads)) ==> listed_once(threads@),
        event matches ListingEvent::Parsed(Ok(page)) ==> (page.next_cursor matches Some(cursor) ==> (
        step is Request <==> !text::texts(before.seen_cursors@).contains(cursor@))),
{
    if let ListingEvent::Parsed(Ok(page)) = event {
        law_pages_add_each_thread_once(before.threads@, page.data@);
        if let Some(cursor) = page.next_cursor {
            if !text::texts(before.seen_cursors@).contains(cursor@) {
                assert(text::texts(after.seen_cursors@) =~= text::texts(before.seen_cursors@).push(
                    cursor@,
                ));
            }
        }
    }
}

} // verus!
