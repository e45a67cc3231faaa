//! What listing and reading threads promises.

use crate::json::{Json, JsonView};
use crate::rpc;
use crate::rpc::RequestError;
use crate::text;
use crate::threads;
use crate::threads::{
    ListedThread, ListingEvent, ListingStep, ReadThread, ThreadListError,
    ThreadListPage, ThreadListing, ThreadReadError,
};
use vstd::prelude::*;

verus! {

/// No two threads in a row have the same identity.
pub open spec fn all_different(row: Seq<ListedThread>) -> bool {
    forall|i: int, j: int|
        0 <= i < j < row.len() ==> (#[trigger] row[i]).id@ != (#[trigger] row[j]).id@
}

/// The thread at `j` of a page is new: no thread that was listed has its identity, and none before
/// it on the page.
pub open spec fn is_new(old: Seq<ListedThread>, page: Seq<ListedThread>, j: int) -> bool {
    &&& 0 <= j < page.len()
    &&& forall|i: int| 0 <= i < old.len() ==> (#[trigger] old[i]).id@ != page[j].id@
    &&& forall|i: int| 0 <= i < j ==> (#[trigger] page[i]).id@ != page[j].id@
}

/// A thread with the identity `id` stands at `k`.
pub open spec fn stands_at(row: Seq<ListedThread>, k: int, id: Seq<char>) -> bool {
    0 <= k < row.len() && row[k].id@ == id
}

/// The new threads of a page, as they are and in its order.
pub open spec fn new_threads(old: Seq<ListedThread>, page: Seq<ListedThread>) -> Seq<ListedThread>
    decreases page.len(),
{
    if page.len() == 0 {
        Seq::empty()
    } else if is_new(old, page, page.len() - 1) {
        new_threads(old, page.drop_last()).push(page.last())
    } else {
        new_threads(old, page.drop_last())
    }
}

/// A row holds what was listed, where it was, and behind it the new threads of a page, as they are
/// and in the order of the page, and nothing else. Every thread of the page has its identity in it,
/// and no identity is in it twice.
pub open spec fn lists_all_of(
    old: Seq<ListedThread>,
    page: Seq<ListedThread>,
    row: Seq<ListedThread>,
) -> bool {
    &&& row =~= old + new_threads(old, page)
    &&& forall|j: int|
        0 <= j < page.len() ==> exists|k: int| stands_at(row, k, (#[trigger] page[j]).id@)
    &&& all_different(row)
}

/// Each new thread of a page is a thread of the page.
proof fn lemma_new_threads(old: Seq<ListedThread>, page: Seq<ListedThread>, k: int)
    requires
        0 <= k < new_threads(old, page).len(),
    ensures
        exists|j: int|
            0 <= j < page.len() && #[trigger] page[j] == new_threads(old, page)[k],
    decreases page.len(),
{
    let rest = page.drop_last();
    let fewer = new_threads(old, rest);
    if k < fewer.len() {
        lemma_new_threads(old, rest, k);
        let j = choose|j: int| 0 <= j < rest.len() && #[trigger] rest[j] == fewer[k];
        assert(page[j] == new_threads(old, page)[k]);
    } else {
        assert(page[page.len() - 1] == new_threads(old, page)[k]);
    }
}

proof fn lemma_merged_lists_all(old: Seq<ListedThread>, page: Seq<ListedThread>)
    requires
        all_different(old),
    ensures
        lists_all_of(old, page, threads::merged(old, page)),
    decreases page.len(),
{
    let row = threads::merged(old, page);
    if page.len() > 0 {
        let rest = page.drop_last();
        let last = page.len() - 1;
        let before = threads::merged(old, rest);
        let id = page.last().id@;
        lemma_merged_lists_all(old, rest);
        let listed = threads::lists(before, id);
        assert(listed <==> !is_new(old, page, last)) by {
            if listed {
                let k = choose|k: int| 0 <= k < before.len() && (#[trigger] before[k]).id@ == id;
                if k < old.len() {
                    assert(before[k] == old[k]);
                } else {
                    lemma_new_threads(old, rest, k - old.len());
                    let j = choose|j: int|
                        0 <= j < rest.len() && #[trigger] rest[j] == new_threads(old, rest)[k
                            - old.len()];
                    assert(page[j].id@ == id);
                }
            } else {
                assert forall|i: int| 0 <= i < old.len() implies (#[trigger] old[i]).id@ != id by {
                    assert(before[i] == old[i]);
                }
                assert forall|i: int| 0 <= i < last implies (#[trigger] page[i]).id@ != id by {
                    assert(rest[i] == page[i]);
                    let k = choose|k: int| stands_at(before, k, rest[i].id@);
                    assert(before[k].id@ == page[i].id@);
                }
            }
        }
        assert forall|j: int| 0 <= j < page.len() implies exists|k: int|
            stands_at(row, k, (#[trigger] page[j]).id@) by {
            if j < last {
                assert(rest[j] == page[j]);
                let k = choose|k: int| stands_at(before, k, rest[j].id@);
                assert(stands_at(row, k, page[j].id@));
            } else if listed {
                let k = choose|k: int| 0 <= k < before.len() && (#[trigger] before[k]).id@ == id;
                assert(stands_at(row, k, page[j].id@));
            } else {
                assert(stands_at(row, before.len() as int, page[j].id@));
            }
        }
        assert forall|i: int, j: int| 0 <= i < j < row.len() implies (#[trigger] row[i]).id@ != (
        #[trigger] row[j]).id@ by {
            if j == before.len() {
                assert(before[i].id@ != id);
            }
        }
    }
}

/// A page that was parsed loses nothing, the last page included. What was listed stays where it was,
/// and every thread of the page is listed: the new ones behind the others, as they are, once each
/// and in the order of the page. This holds of the list that a listing ends with, and of the list
/// that it goes on with.
pub proof fn law_every_thread_of_every_page_is_listed(
    listing: &mut ThreadListing,
    page: ThreadListPage,
    step: ListingStep,
)
    requires
        listing.stage is Parsing,
        all_different(listing.threads@),
        call_ensures(
            ThreadListing::list_all_after,
            (listing, ListingEvent::Parsed(Ok(page))),
            step,
        ),
    ensures
        step matches ListingStep::Done(Ok(listed)) ==> lists_all_of(
            old(listing).threads@,
            page.data@,
            listed@,
        ),
        step is Request ==> lists_all_of(
            old(listing).threads@,
            page.data@,
            final(listing).threads@,
        ),
        step matches ListingStep::Done(Ok(listed)) ==> listed@.len() <= old(listing).threads@.len()
            + page.data@.len(),
{
    lemma_merged_lists_all(old(listing).threads@, page.data@);
    lemma_merged_length(old(listing).threads@, page.data@);
}

proof fn lemma_merged_length(old: Seq<ListedThread>, page: Seq<ListedThread>)
    ensures
        threads::merged(old, page).len() <= old.len() + page.len(),
    decreases page.len(),
{
    if page.len() > 0 {
        lemma_merged_length(old, page.drop_last());
    }
}

/// The lists of a listing, before each page and at the end: each page leads from one to the next.
pub open spec fn lists_through(pages: Seq<Seq<ListedThread>>, rows: Seq<Seq<ListedThread>>) -> bool {
    &&& rows.len() == pages.len() + 1
    &&& forall|i: int, next: int|
        0 <= i < pages.len() && next == i + 1 ==> lists_all_of(
            #[trigger] rows[i],
            pages[i],
            #[trigger] rows[next],
        )
}

/// However many pages there are, the list at the end holds every thread of every page.
pub proof fn law_list_at_the_end_holds_every_page(
    pages: Seq<Seq<ListedThread>>,
    rows: Seq<Seq<ListedThread>>,
    i: int,
    j: int,
)
    requires
        lists_through(pages, rows),
        0 <= i < pages.len(),
        0 <= j < pages[i].len(),
    ensures
        exists|k: int| stands_at(rows.last(), k, pages[i][j].id@),
    decreases pages.len(),
{
    let id = pages[i][j].id@;
    let last = pages.len() - 1;
    let (before, end) = (rows[last], rows[last + 1]);
    assert(lists_all_of(before, pages[last], end));
    if i == last {
        let k = choose|k: int| stands_at(end, k, pages[last][j].id@);
        assert(stands_at(rows.last(), k, id));
    } else {
        let fewer = pages.drop_last();
        let shorter = rows.drop_last();
        assert forall|a: int, next: int| 0 <= a < fewer.len() && next == a + 1 implies lists_all_of(
            #[trigger] shorter[a],
            fewer[a],
            #[trigger] shorter[next],
        ) by {
            assert(lists_all_of(rows[a], pages[a], rows[next]));
        }
        law_list_at_the_end_holds_every_page(fewer, shorter, i, j);
        let k = choose|k: int| stands_at(shorter.last(), k, fewer[i][j].id@);
        assert(end[k] == before[k]);
        assert(stands_at(rows.last(), k, id));
    }
}

/// The parameters of a request for the page at `cursor`: so many threads, the last changed first.
pub open spec fn page_parameters(cursor: Option<Seq<char>>, limit: u64) -> JsonView {
    JsonView::Object(
        map![
            "cursor"@ => match cursor {
                Some(cursor) => JsonView::Text(cursor),
                None => JsonView::Null,
            },
            "limit"@ => JsonView::Number(limit),
            "sortKey"@ => JsonView::Text("updated_at"@),
            "sortDirection"@ => JsonView::Text("desc"@),
        ],
    )
}

/// A listing begins with nothing and asks for the first page.
pub proof fn law_listing_begins_with_the_first_page(listing: ThreadListing, step: ListingStep)
    requires
        call_ensures(ThreadListing::list_all, (), (listing, step)),
    ensures
        listing.stage is Asking,
        listing.threads@.len() == 0,
        listing.seen_cursors@.len() == 0,
        step matches ListingStep::Request { method, params } && method@ == "thread/list"@ && params@
            == page_parameters(None, 100),
{
}

/// A listing succeeds exactly with a page that names no further one, and goes on exactly with a page
/// that names a cursor that no page has named before; it then asks for that page and remembers the
/// cursor. It fails exactly when a request fails, an answer is no page, or a cursor comes again, and
/// says which.
pub proof fn law_listing_goes_from_cursor_to_cursor(
    listing: &mut ThreadListing,
    event: ListingEvent,
    step: ListingStep,
)
    requires
        threads::listing_expects(listing.stage, event),
        call_ensures(ThreadListing::list_all_after, (listing, event), step),
    ensures
        match event {
            ListingEvent::Replied(Ok(value)) => step matches ListingStep::Parse(read) && read
                == value && final(listing).stage is Parsing && final(listing).threads@
                == old(listing).threads@ && final(listing).seen_cursors@
                == old(listing).seen_cursors@,
            ListingEvent::Replied(Err(error)) => step matches ListingStep::Done(
                Err(ThreadListError::Request(said)),
            ) && said == error,
            ListingEvent::Parsed(Err(source)) => step matches ListingStep::Done(
                Err(ThreadListError::InvalidResponse(said)),
            ) && said@ == source@,
            ListingEvent::Parsed(Ok(page)) => match page.next_cursor {
                None => step matches ListingStep::Done(Ok(_)),
                Some(cursor) => if exists|i: int|
                    0 <= i < old(listing).seen_cursors@.len() && (
                    #[trigger] old(listing).seen_cursors@[i])@ == cursor@ {
                    step matches ListingStep::Done(Err(ThreadListError::RepeatedCursor(said)))
                        && said@ == cursor@
                } else {
                    &&& step matches ListingStep::Request { method, params }
                    &&& method@ == "thread/list"@
                    &&& params@ == page_parameters(Some(cursor@), 100)
                    &&& final(listing).stage is Asking
                    &&& final(listing).seen_cursors@.len() == old(listing).seen_cursors@.len() + 1
                    &&& final(listing).seen_cursors@.last()@ == cursor@
                    &&& forall|i: int|
                        0 <= i < old(listing).seen_cursors@.len()
                            ==> #[trigger] final(listing).seen_cursors@[i]
                            == old(listing).seen_cursors@[i]
                },
            },
        },
        step is Done <==> final(listing).stage is Finished,
{
    if let ListingEvent::Parsed(Ok(page)) = event {
        if let Some(cursor) = page.next_cursor {
            let row = old(listing).seen_cursors@;
            assert forall|i: int| 0 <= i < row.len() implies text::texts(row)[i]
                == (#[trigger] row[i])@ by {}
            if text::texts(row).contains(cursor@) {
                let i = choose|i: int| 0 <= i < text::texts(row).len() && text::texts(row)[i]
                    == cursor@;
                assert(row[i]@ == cursor@);
            }
            if exists|i: int| 0 <= i < row.len() && (#[trigger] row[i])@ == cursor@ {
                let i = choose|i: int| 0 <= i < row.len() && (#[trigger] row[i])@ == cursor@;
                assert(text::texts(row)[i] == cursor@);
            }
        }
    }
}

/// The parameters of a request name the page or the thread, and nothing else.
pub proof fn law_parameters_say_what_is_asked_for(
    cursor: Option<String>,
    limit: usize,
    page: Json,
    id: &str,
    thread: Json,
    reading: Json,
)
    requires
        call_ensures(threads::page_params, (&cursor, limit), page),
        call_ensures(threads::thread_params, (id,), thread),
        call_ensures(threads::reading_params, (id,), reading),
    ensures
        page@ == page_parameters(
            match cursor {
                Some(cursor) => Some(cursor@),
                None => None,
            },
            limit as u64,
        ),
        thread@ == JsonView::Object(map!["threadId"@ => JsonView::Text(id@)]),
        reading@ == JsonView::Object(
            map!["threadId"@ => JsonView::Text(id@), "includeTurns"@ => JsonView::Bool(true)],
        ),
{
}

/// Reading a thread succeeds exactly if the daemon answered and the answer is a thread, which is
/// given as it is; and an error says which of the two it was.
pub proof fn law_reading_gives_the_thread(
    reply: Result<Result<ReadThread, String>, RequestError>,
    thread: Result<ReadThread, ThreadReadError>,
)
    requires
        call_ensures(threads::read, (reply,), thread),
    ensures
        match reply {
            Err(error) => thread matches Err(ThreadReadError::Request(said)) && said == error,
            Ok(Err(source)) => thread matches Err(ThreadReadError::InvalidResponse(said)) && said@
                == source@,
            Ok(Ok(answer)) => thread matches Ok(read) && read == answer,
        },
{
}

/// The words of a failed listing or reading are those of the request, or name the method whose
/// answer was no page or no thread, or the cursor that came again.
pub proof fn law_thread_errors_say_what_happened(
    listing: ThreadListError,
    listing_words: String,
    reading: ThreadReadError,
    reading_words: String,
)
    requires
        call_ensures(ThreadListError::message, (&listing,), listing_words),
        call_ensures(ThreadReadError::message, (&reading,), reading_words),
    ensures
        listing_words@ == match listing {
            ThreadListError::Request(error) => rpc::failure_words(error@),
            ThreadListError::InvalidResponse(source) => "invalid response from thread/list: "@
                + source@,
            ThreadListError::RepeatedCursor(cursor) => "thread/list repeated pagination cursor "@
                + rpc::quoted_text(cursor@),
        },
        reading_words@ == match reading {
            ThreadReadError::Request(error) => rpc::failure_words(error@),
            ThreadReadError::InvalidResponse(source) => "invalid response from thread/read: "@
                + source@,
        },
{
}

} // verus!
