//! What the reading of paths promises.

use crate::path;
use crate::path::FilePath;
use vstd::prelude::*;
use vstd::utf8::*;

verus! {

/// The bytes from `i` up to `j` are a segment of a path: no slash stands among them, and a slash or
/// an end of the path on either side.
pub open spec fn is_segment(bytes: Seq<u8>, i: int, j: int) -> bool {
    &&& 0 <= i <= j <= bytes.len()
    &&& i == 0 || bytes[i - 1] == 47
    &&& j == bytes.len() || bytes[j] == 47
    &&& forall|k: int| i <= k < j ==> #[trigger] bytes[k] != 47
}

/// A name that is neither empty nor one dot nor two dots.
pub open spec fn is_name(segment: Seq<u8>) -> bool {
    &&& segment.len() > 0
    &&& !(segment.len() == 1 && segment[0] == 46)
    &&& !(segment.len() == 2 && segment[0] == 46 && segment[1] == 46)
}

proof fn lemma_is_name(segment: Seq<u8>)
    ensures
        is_name(segment) == path::is_plain(segment),
{
    if segment.len() == 1 && segment[0] == 46 {
        assert(segment =~= seq![46u8]);
    }
    if segment.len() == 2 && segment[0] == 46 && segment[1] == 46 {
        assert(segment =~= seq![46u8, 46u8]);
    }
    assert(seq![46u8].len() == 1 && seq![46u8][0] == 46);
    assert(seq![46u8, 46u8].len() == 2 && seq![46u8, 46u8][0] == 46 && seq![46u8, 46u8][1] == 46);
}

proof fn lemma_first_segment(bytes: Seq<u8>)
    ensures
        is_segment(bytes, 0, path::segment_end(bytes)),
    decreases bytes.len(),
{
    if bytes.len() > 0 && bytes[0] != 47 {
        let rest = bytes.skip(1);
        lemma_first_segment(rest);
        let end = path::segment_end(bytes);
        assert forall|k: int| 0 <= k < end implies #[trigger] bytes[k] != 47 by {
            if k > 0 {
                assert(bytes[k] == rest[k - 1]);
            }
        }
        if end < bytes.len() {
            assert(bytes[end] == rest[end - 1]);
        }
    }
}

proof fn lemma_each_segment_stands_somewhere(bytes: Seq<u8>, n: int) -> (at: (int, int))
    requires
        0 <= n < path::segments(bytes).len(),
    ensures
        is_segment(bytes, at.0, at.1),
        path::segments(bytes)[n] == bytes.subrange(at.0, at.1),
    decreases bytes.len(),
{
    let end = path::segment_end(bytes);
    lemma_first_segment(bytes);
    if end < bytes.len() {
        if n == 0 {
            assert(bytes.take(end) =~= bytes.subrange(0, end));
            (0, end)
        } else {
            let rest = bytes.skip(end + 1);
            let (i, j) = lemma_each_segment_stands_somewhere(rest, n - 1);
            let (a, b) = (i + end + 1, j + end + 1);
            assert(rest.subrange(i, j) =~= bytes.subrange(a, b));
            assert forall|k: int| a <= k < b implies #[trigger] bytes[k] != 47 by {
                assert(bytes[k] == rest[k - end - 1]);
            }
            if i > 0 {
                assert(bytes[a - 1] == rest[i - 1]);
            }
            if j < rest.len() {
                assert(bytes[b] == rest[j]);
            }
            (a, b)
        }
    } else {
        assert(bytes.subrange(0, end) =~= bytes);
        (0, end)
    }
}

proof fn lemma_each_place_is_a_segment(bytes: Seq<u8>, i: int, j: int) -> (n: int)
    requires
        is_segment(bytes, i, j),
    ensures
        0 <= n < path::segments(bytes).len(),
        path::segments(bytes)[n] == bytes.subrange(i, j),
    decreases bytes.len(),
{
    let end = path::segment_end(bytes);
    lemma_first_segment(bytes);
    if i <= end {
        if i > 0 {
            assert(bytes[i - 1] != 47);
        }
        if j < end {
            assert(bytes[j] != 47);
        }
        if j > end {
            assert(bytes[end] != 47);
        }
        if end < bytes.len() {
            assert(bytes.take(end) =~= bytes.subrange(i, j));
        } else {
            assert(bytes.subrange(i, j) =~= bytes);
        }
        0
    } else {
        let rest = bytes.skip(end + 1);
        let (a, b) = (i - end - 1, j - end - 1);
        assert(rest.subrange(a, b) =~= bytes.subrange(i, j));
        assert forall|k: int| a <= k < b implies #[trigger] rest[k] != 47 by {
            assert(rest[k] == bytes[k + end + 1]);
        }
        if a > 0 {
            assert(rest[a - 1] == bytes[i - 1]);
        }
        if b < rest.len() {
            assert(rest[b] == bytes[j]);
        }
        let n = lemma_each_place_is_a_segment(rest, a, b);
        assert(path::segments(bytes) == seq![bytes.take(end)] + path::segments(rest));
        n + 1
    }
}

/// An absolute path in normal form: it is the root, or each segment behind the root is a name.
pub open spec fn is_normal(bytes: Seq<u8>) -> bool {
    &&& bytes.len() > 0
    &&& bytes[0] == 47
    &&& bytes.len() == 1 || forall|i: int, j: int|
        1 <= i && #[trigger] is_segment(bytes, i, j) ==> is_name(bytes.subrange(i, j))
}

proof fn lemma_is_normal(bytes: Seq<u8>)
    ensures
        is_normal(bytes) == path::is_normal_root(bytes),
{
    if bytes.len() > 1 && bytes[0] == 47 {
        let body = bytes.skip(1);
        if path::is_normal_root(bytes) {
            assert forall|i: int, j: int|
                1 <= i && #[trigger] is_segment(bytes, i, j) implies is_name(
                bytes.subrange(i, j),
            ) by {
                lemma_shifted_segment(bytes, i - 1, j - 1);
                let n = lemma_each_place_is_a_segment(body, i - 1, j - 1);
                assert(path::is_plain(path::segments(body)[n]));
                assert(body.subrange(i - 1, j - 1) =~= bytes.subrange(i, j));
                lemma_is_name(bytes.subrange(i, j));
            }
        }
        if is_normal(bytes) {
            assert forall|n: int| 0 <= n < path::segments(body).len() implies path::is_plain(
                #[trigger] path::segments(body)[n],
            ) by {
                let (i, j) = lemma_each_segment_stands_somewhere(body, n);
                lemma_shifted_segment(bytes, i, j);
                assert(is_segment(bytes, i + 1, j + 1));
                assert(body.subrange(i, j) =~= bytes.subrange(i + 1, j + 1));
                lemma_is_name(bytes.subrange(i + 1, j + 1));
            }
        }
    }
}

proof fn lemma_shifted_segment(bytes: Seq<u8>, i: int, j: int)
    requires
        bytes.len() > 0,
        bytes[0] == 47,
        0 <= i,
    ensures
        is_segment(bytes.skip(1), i, j) == is_segment(bytes, i + 1, j + 1),
{
    let body = bytes.skip(1);
    if is_segment(body, i, j) {
        assert forall|k: int| i + 1 <= k < j + 1 implies #[trigger] bytes[k] != 47 by {
            assert(bytes[k] == body[k - 1]);
        }
        if i > 0 {
            assert(bytes[i] == body[i - 1]);
        }
        if j < body.len() {
            assert(bytes[j + 1] == body[j]);
        }
    }
    if is_segment(bytes, i + 1, j + 1) {
        assert forall|k: int| i <= k < j implies #[trigger] body[k] != 47 by {
            assert(body[k] == bytes[k + 1]);
        }
        if i > 0 {
            assert(body[i - 1] == bytes[i]);
        }
        if j < body.len() {
            assert(body[j] == bytes[j + 1]);
        }
    }
}

/// A path is taken for absolute and in lexically normal form exactly if it starts with a slash and
/// is that slash alone, or no segment behind it is empty, one dot or two dots. So two slashes in a
/// row, and a slash at the end, make a path abnormal.
pub proof fn law_normal_roots_are_slashes_and_names(path: FilePath, yes: bool)
    requires
        call_ensures(path::check_normal_root, (&path,), yes),
    ensures
        yes <==> is_normal(path@),
        yes == path::is_normal_root(path@),
        yes && path@.len() > 1 ==> path@.last() != 47 && forall|i: int, next: int|
            0 <= i < path@.len() - 1 && next == i + 1 && #[trigger] path@[i] == 47
                ==> #[trigger] path@[next] != 47,
{
    lemma_is_normal(path@);
    if yes && path@.len() > 1 {
        if path@.last() == 47 {
            let end = path@.len() as int;
            assert(is_segment(path@, end, end));
            assert(is_name(path@.subrange(end, end)));
        }
        assert forall|i: int, next: int|
            0 <= i < path@.len() - 1 && next == i + 1 && #[trigger] path@[i]
                == 47 implies #[trigger] path@[next] != 47 by {
            if path@[next] == 47 {
                assert(is_segment(path@, next, next));
                assert(is_name(path@.subrange(next, next)));
            }
        }
    }
}

/// The segment from `i` up to `j` has the extension `app`, with something before it.
pub open spec fn is_app_segment(bytes: Seq<u8>, i: int, j: int) -> bool {
    &&& is_segment(bytes, i, j)
    &&& j - i > 4
    &&& bytes[j - 4] == 46
    &&& bytes[j - 3] == 97
    &&& bytes[j - 2] == 112
    &&& bytes[j - 1] == 112
}

/// The segment from `i` up to `j` is the last with the extension `app`.
pub open spec fn is_last_app(bytes: Seq<u8>, i: int, j: int) -> bool {
    is_app_segment(bytes, i, j) && forall|a: int, b: int| #[trigger]
        is_app_segment(bytes, a, b) ==> b <= j
}

/// No segment has the extension `app`.
pub open spec fn has_no_app(bytes: Seq<u8>) -> bool {
    forall|i: int, j: int| !(#[trigger] is_app_segment(bytes, i, j))
}

/// A segment that leads nowhere: it is empty or one dot.
pub open spec fn leads_nowhere(bytes: Seq<u8>, a: int, b: int) -> bool {
    a == b || (a + 1 == b && bytes[a] == 46)
}

/// Nothing that names anything follows from `j` on.
pub open spec fn ends_at(bytes: Seq<u8>, j: int) -> bool {
    forall|a: int, b: int| j <= a && #[trigger] is_segment(bytes, a, b) ==> leads_nowhere(
        bytes,
        a,
        b,
    )
}

/// The segments of a path stand behind `start`: behind the root, or behind a leading dot.
pub open spec fn starts_at(bytes: Seq<u8>, start: int) -> bool {
    &&& 0 <= start <= 1
    &&& start <= bytes.len()
    &&& start == 1 ==> bytes[0] == 47 || (bytes[0] == 46 && (bytes.len() == 1 || bytes[1] == 47))
}

proof fn lemma_last_segment(bytes: Seq<u8>, start: int)
    requires
        0 <= start <= bytes.len(),
    ensures
        start <= path::last_segment_start(bytes, start) <= bytes.len(),
        path::last_segment_start(bytes, start) > start ==> bytes[path::last_segment_start(
            bytes,
            start,
        ) - 1] == 47,
        forall|k: int|
            path::last_segment_start(bytes, start) <= k < bytes.len() ==> #[trigger] bytes[k] != 47,
    decreases bytes.len(),
{
    if bytes.len() > start && bytes.last() != 47 {
        let rest = bytes.drop_last();
        lemma_last_segment(rest, start);
        let from = path::last_segment_start(bytes, start);
        assert(from == path::last_segment_start(rest, start));
        assert forall|k: int| from <= k < bytes.len() implies #[trigger] bytes[k] != 47 by {
            if k < rest.len() {
                assert(bytes[k] == rest[k]);
            }
        }
        if from > start {
            assert(bytes[from - 1] == rest[from - 1]);
        }
    }
}

proof fn lemma_segment_of_part(bytes: Seq<u8>, n: int, i: int, j: int)
    requires
        0 <= n <= bytes.len(),
        n == bytes.len() || bytes[n] == 47,
        j <= n,
    ensures
        is_segment(bytes, i, j) == is_segment(bytes.take(n), i, j),
{
    let part = bytes.take(n);
    if is_segment(bytes, i, j) {
        assert forall|k: int| i <= k < j implies #[trigger] part[k] != 47 by {
            assert(part[k] == bytes[k]);
        }
    }
    if is_segment(part, i, j) {
        assert forall|k: int| i <= k < j implies #[trigger] bytes[k] != 47 by {
            assert(part[k] == bytes[k]);
        }
        if i > 0 {
            assert(part[i - 1] == bytes[i - 1]);
        }
        if j < n {
            assert(part[j] == bytes[j]);
        }
    }
}

/// What is left of a path without the segments at its end that lead nowhere.
proof fn lemma_without_tail(bytes: Seq<u8>, start: int) -> (n: int)
    requires
        starts_at(bytes, start),
    ensures
        start <= n <= bytes.len(),
        path::without_tail(bytes, start) == bytes.take(n),
        n > start ==> n == bytes.len() || bytes[n] == 47,
        ends_at(bytes, n),
        n > start ==> {
            let from = path::last_segment_start(bytes.take(n), start);
            &&& start <= from < n
            &&& is_segment(bytes, from, n)
            &&& !leads_nowhere(bytes, from, n)
        },
    decreases bytes.len(),
{
    let len = bytes.len() as int;
    let from = path::last_segment_start(bytes, start);
    let last = bytes.skip(from);
    lemma_last_segment(bytes, start);
    assert(seq![46u8].len() == 1 && seq![46u8][0] == 46);
    if last.len() == 1 && bytes[from] == 46 {
        assert(last[0] == bytes[from]);
        assert(last =~= seq![46u8]);
    }
    assert((last.len() == 0 || last == seq![46u8]) == leads_nowhere(bytes, from, len)) by {
        if last == seq![46u8] {
            assert(last[0] == bytes[from]);
        }
    }
    if start < len && leads_nowhere(bytes, from, len) {
        let cut = path::without_last_segment(bytes, start);
        if from > start {
            let m = lemma_without_tail(cut, start);
            assert(cut.take(m) =~= bytes.take(m));
            assert forall|a: int, b: int| m <= a && #[trigger] is_segment(
                bytes,
                a,
                b,
            ) implies leads_nowhere(bytes, a, b) by {
                if b <= from - 1 {
                    lemma_segment_of_part(bytes, from - 1, a, b);
                    assert(is_segment(cut, a, b));
                    if a < b {
                        assert(cut[a] == bytes[a]);
                    }
                } else {
                    if a < from {
                        assert(a <= from - 1 < b);
                        assert(bytes[from - 1] != 47);
                    }
                    if a > from {
                        assert(bytes[a - 1] != 47);
                    }
                    if b < len {
                        assert(bytes[b] != 47);
                    }
                }
            }
            if m > start {
                let inner = path::last_segment_start(cut.take(m), start);
                lemma_segment_of_part(bytes, from - 1, inner, m);
                assert(cut[inner] == bytes[inner]);
                if m < from - 1 {
                    assert(cut[m] == bytes[m]);
                }
            }
            m
        } else {
            assert(cut == bytes.take(start));
            assert(path::without_tail(cut, start) == cut);
            assert forall|a: int, b: int| start <= a && #[trigger] is_segment(
                bytes,
                a,
                b,
            ) implies leads_nowhere(bytes, a, b) by {
                if a > start {
                    assert(bytes[a - 1] != 47);
                }
                if b < len {
                    assert(bytes[b] != 47);
                }
            }
            start
        }
    } else {
        assert(bytes.take(len) =~= bytes);
        assert forall|a: int, b: int| len <= a && #[trigger] is_segment(
            bytes,
            a,
            b,
        ) implies leads_nowhere(bytes, a, b) by {}
        if len > start {
            if from == start && start == 1 && bytes[0] == 46 {
                assert(bytes[1] != 47);
            }
            assert(is_segment(bytes, from, len));
        }
        len
    }
}

proof fn lemma_extension(bytes: Seq<u8>, from: int, n: int)
    requires
        is_segment(bytes, from, n),
    ensures
        path::has_app_extension(bytes.take(n).skip(from)) == is_app_segment(bytes, from, n),
{
    let last = bytes.take(n).skip(from);
    let app = seq![46u8, 97u8, 112u8, 112u8];
    assert(app.len() == 4 && app[0] == 46 && app[1] == 97 && app[2] == 112 && app[3] == 112);
    if n - from > 4 {
        let extension = last.skip(last.len() - 4);
        assert(extension.len() == 4);
        assert(extension[0] == bytes[n - 4]);
        assert(extension[1] == bytes[n - 3]);
        assert(extension[2] == bytes[n - 2]);
        assert(extension[3] == bytes[n - 1]);
        if is_app_segment(bytes, from, n) {
            assert(extension =~= app);
        }
    }
}

/// An application segment of a path ends where what is left of it without its tail ends, or before.
proof fn lemma_app_is_kept(bytes: Seq<u8>, start: int, n: int, i: int, j: int)
    requires
        starts_at(bytes, start),
        start <= n <= bytes.len(),
        n > start ==> n == bytes.len() || bytes[n] == 47,
        ends_at(bytes, n),
        is_app_segment(bytes, i, j),
    ensures
        n > start,
        j <= n,
{
    assert(!leads_nowhere(bytes, i, j));
    assert(i < n);
    if n == start {
        assert(bytes[0] != 47);
        assert(bytes[1] != 47);
        assert(false);
    }
    if j > n {
        assert(bytes[n] != 47);
    }
}

#[verifier::rlimit(40)]
proof fn lemma_bundle(bytes: Seq<u8>, i: int, j: int)
    ensures
        is_last_app(bytes, i, j) ==> path::enclosing_bundle(bytes) == Some(
            if ends_at(bytes, j) {
                bytes
            } else {
                bytes.take(j)
            },
        ),
        has_no_app(bytes) ==> path::enclosing_bundle(bytes) is None,
    decreases bytes.len(), 1int,
{
    let start = path::body_start(bytes);
    let n = lemma_without_tail(bytes, start);
    let whole = bytes.take(n);
    assert(path::without_tail(bytes, start) == whole);
    if n == start {
        assert(!path::names_bundle(bytes));
        if is_app_segment(bytes, i, j) {
            lemma_app_is_kept(bytes, start, n, i, j);
        }
        if let Some(up) = path::parent(bytes) {
            assert(up =~= Seq::<u8>::empty());
            assert(path::without_tail(up, 0) == up);
            assert(!path::names_bundle(up));
            assert(path::parent(up) is None);
            assert(path::enclosing_bundle(up) is None);
        }
    } else {
        let from = path::last_segment_start(whole, start);
        lemma_extension(bytes, from, n);
        if is_app_segment(bytes, from, n) {
            let last = whole.skip(from);
            assert(seq![46u8, 46u8].len() == 2);
            assert(path::file_name(bytes) == Some(last));
            if is_last_app(bytes, i, j) {
                lemma_app_is_kept(bytes, start, n, i, j);
                assert(n <= j);
            }
        } else {
            assert(!path::names_bundle(bytes));
            lemma_bundle_above(bytes, start, n, i, j);
        }
    }
}

#[verifier::rlimit(40)]
proof fn lemma_bundle_above(bytes: Seq<u8>, start: int, n: int, i: int, j: int)
    requires
        start == path::body_start(bytes),
        start < n <= bytes.len(),
        path::without_tail(bytes, start) == bytes.take(n),
        n == bytes.len() || bytes[n] == 47,
        ends_at(bytes, n),
        is_segment(bytes, path::last_segment_start(bytes.take(n), start), n),
        start <= path::last_segment_start(bytes.take(n), start) < n,
        !leads_nowhere(bytes, path::last_segment_start(bytes.take(n), start), n),
        !is_app_segment(bytes, path::last_segment_start(bytes.take(n), start), n),
        !path::names_bundle(bytes),
    ensures
        is_last_app(bytes, i, j) ==> path::enclosing_bundle(bytes) == Some(
            if ends_at(bytes, j) {
                bytes
            } else {
                bytes.take(j)
            },
        ),
        has_no_app(bytes) ==> path::enclosing_bundle(bytes) is None,
    decreases bytes.len(), 0int,
{
    let whole = bytes.take(n);
    let from = path::last_segment_start(whole, start);
    lemma_last_segment(whole, start);
    let cut = path::without_last_segment(whole, start);
    let end = if from > start {
        from - 1
    } else {
        start
    };
    assert(cut =~= bytes.take(end));
    if from > start {
        assert(whole[from - 1] == bytes[from - 1]);
    }
    let m = lemma_without_tail(cut, start);
    let up = bytes.take(m);
    assert(cut.take(m) =~= up);
    assert(path::parent(bytes) == Some(up));
    assert(path::enclosing_bundle(bytes) == path::enclosing_bundle(up));
    lemma_bundle(up, i, j);
    assert(m > start ==> m == bytes.len() || bytes[m] == 47) by {
        if start < m < end {
            assert(cut[m] == bytes[m]);
        }
    }
    if is_last_app(bytes, i, j) {
        lemma_app_is_kept(bytes, start, n, i, j);
        assert(j < n) by {
            if j == n {
                if i < from {
                    assert(from == start || bytes[from - 1] != 47);
                    assert(bytes[0] != 47);
                }
                if i > from {
                    assert(bytes[i - 1] != 47);
                }
            }
        }
        assert(j < from) by {
            if j >= from {
                assert(bytes[j] != 47);
            }
        }
        if from == start {
            assert(j <= 0);
        }
        lemma_segment_of_part(bytes, end, i, j);
        assert(is_app_segment(cut, i, j)) by {
            assert(cut[j - 4] == bytes[j - 4] && cut[j - 3] == bytes[j - 3]);
            assert(cut[j - 2] == bytes[j - 2] && cut[j - 1] == bytes[j - 1]);
        }
        lemma_app_is_kept(cut, start, m, i, j);
        lemma_segment_of_part(bytes, m, i, j);
        assert(is_app_segment(up, i, j)) by {
            assert(up[j - 4] == bytes[j - 4] && up[j - 3] == bytes[j - 3]);
            assert(up[j - 2] == bytes[j - 2] && up[j - 1] == bytes[j - 1]);
        }
        assert forall|a: int, b: int| #[trigger] is_app_segment(up, a, b) implies b <= j by {
            lemma_app_of_part(bytes, m, a, b);
        }
        assert(!ends_at(bytes, j)) by {
            assert(is_segment(bytes, from, n));
        }
        assert(up.take(j) =~= bytes.take(j));
        if ends_at(up, j) {
            let inner = path::last_segment_start(cut.take(m), start);
            lemma_segment_of_part(bytes, m, inner, m);
            lemma_segment_of_part(bytes, end, inner, m);
            assert(cut[inner] == bytes[inner] && up[inner] == bytes[inner]);
            assert(is_segment(up, inner, m));
            assert(!leads_nowhere(up, inner, m));
            assert(inner < j);
            assert(j == m) by {
                if j < m {
                    assert(up[j] == 47);
                }
            }
            assert(up =~= bytes.take(j));
        }
    }
    if has_no_app(bytes) {
        assert forall|a: int, b: int| !(#[trigger] is_app_segment(up, a, b)) by {
            if is_app_segment(up, a, b) {
                if m > start {
                    lemma_app_of_part(bytes, m, a, b);
                }
            }
        }
    }
}

proof fn lemma_app_of_part(bytes: Seq<u8>, n: int, i: int, j: int)
    requires
        0 <= n <= bytes.len(),
        n == bytes.len() || bytes[n] == 47,
        is_app_segment(bytes.take(n), i, j),
    ensures
        is_app_segment(bytes, i, j),
{
    let part = bytes.take(n);
    lemma_segment_of_part(bytes, n, i, j);
    assert(part[j - 4] == bytes[j - 4] && part[j - 3] == bytes[j - 3]);
    assert(part[j - 2] == bytes[j - 2] && part[j - 1] == bytes[j - 1]);
}

/// The bundle of an executable ends with the last segment of its path that has the extension `app`.
/// What follows that segment is cut off, unless it leads nowhere. Where no segment has the extension,
/// the bundle is the whole path.
pub proof fn law_bundle_ends_with_the_last_app_segment(
    executable: FilePath,
    bundle: FilePath,
    i: int,
    j: int,
)
    requires
        call_ensures(path::application_bundle, (&executable,), bundle),
    ensures
        is_last_app(executable@, i, j) && !ends_at(executable@, j) ==> bundle@ == executable@.take(
            j,
        ),
        is_last_app(executable@, i, j) && ends_at(executable@, j) ==> bundle@ == executable@,
        has_no_app(executable@) ==> bundle@ == executable@,
{
    lemma_bundle(executable@, i, j);
}

/// The bundle of any executable is a leading part of its path.
pub proof fn law_bundle_leads_to_the_executable(executable: FilePath, bundle: FilePath)
    requires
        call_ensures(path::application_bundle, (&executable,), bundle),
    ensures
        bundle@.len() <= executable@.len(),
        bundle@ == executable@.take(bundle@.len() as int),
        bundle@ == match path::enclosing_bundle(executable@) {
            Some(found) => found,
            None => executable@,
        },
{
    path::law_bundle_is_leading_part(executable@);
    assert(executable@.take(executable@.len() as int) =~= executable@);
}

/// A path is joined to a directory with one slash between the two, unless the directory is empty or
/// ends in one; a path that is absolute stands alone.
pub proof fn law_joined_paths_meet_at_one_slash(base: FilePath, tail: &str, path: FilePath)
    requires
        call_ensures(FilePath::join, (&base, tail), path),
    ensures
        path@ == path::joined(base@, encode_utf8(tail@)),
        ({
            let added = encode_utf8(tail@);
            if added.len() > 0 && added[0] == 47 {
                path@ == added
            } else if base@.len() == 0 || base@.last() == 47 {
                path@ == base@ + added
            } else {
                path@ == base@ + seq![47u8] + added
            }
        }),
{
    assert(base@.push(47) =~= base@ + seq![47u8]);
}

/// A text names the path that it encodes to, and a path is a text exactly if it is valid UTF-8; so a
/// path that was named by a text is that text again.
pub proof fn law_paths_named_by_texts_are_those_texts(
    text: &str,
    path: FilePath,
    again: Option<String>,
    lossy: String,
)
    requires
        call_ensures(FilePath::from_text, (text,), path),
        call_ensures(FilePath::to_text, (&path,), again),
        call_ensures(FilePath::to_text_lossy, (&path,), lossy),
    ensures
        path@ == encode_utf8(text@),
        again is Some,
        again->Some_0@ == text@,
        lossy@ == text@,
{
    encode_utf8_decode_utf8(text@);
    encode_utf8_valid_utf8(text@);
}

/// Bytes that are valid UTF-8 are shown as the text that they encode.
pub proof fn law_valid_bytes_are_shown_as_their_text(bytes: Vec<u8>, shown: String)
    requires
        call_ensures(path::text_lossy, (&bytes,), shown),
        valid_utf8(bytes@),
    ensures
        encode_utf8(shown@) == bytes@,
{
    decode_utf8_encode_utf8(bytes@);
}

} // verus!
