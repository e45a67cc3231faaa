//! File paths as the bytes that Unix gives them.

use vstd::prelude::*;
use vstd::utf8::*;

verus! {

/// A path of the file system, as its bytes. Nothing is asked of the bytes: a path need not be
/// UTF-8.
#[derive(Debug, PartialEq, Eq)]
pub struct FilePath {
    pub bytes: Vec<u8>,
}

impl View for FilePath {
    type V = Seq<u8>;

    open spec fn view(&self) -> Seq<u8> {
        self.bytes@
    }
}

impl Clone for FilePath {
    fn clone(&self) -> (copy: Self)
        ensures
            copy@ == self@,
    {
        FilePath { bytes: bytes_between(&self.bytes, 0, self.bytes.len()) }
    }
}

/// The separator of path components.
pub const SLASH: u8 = 47;

/// The dot of `.` and `..`, and of a file name's extension.
pub const DOT: u8 = 46;

/// The bytes from `from` up to `to`.
fn bytes_between(bytes: &Vec<u8>, from: usize, to: usize) -> (part: Vec<u8>)
    requires
        from <= to <= bytes@.len(),
    ensures
        part@ == bytes@.subrange(from as int, to as int),
{
    let mut part: Vec<u8> = Vec::new();
    let mut i: usize = from;
    while i < to
        invariant
            from <= i <= to <= bytes@.len(),
            part@ == bytes@.subrange(from as int, i as int),
        decreases to - i,
    {
        part.push(bytes[i]);
        i += 1;
        assert(bytes@.subrange(from as int, i as int).drop_last() =~= bytes@.subrange(
            from as int,
            i - 1,
        ));
    }
    part
}

/// What `String::from_utf8_lossy` makes of bytes.
pub uninterp spec fn lossy_text(bytes: Seq<u8>) -> Seq<char>;

/// `std::str::from_utf8`: the text that the bytes encode, where they are valid UTF-8.
#[verifier::external_body]
fn utf8_text(bytes: &[u8]) -> (text: Option<String>)
    ensures
        text is Some <==> valid_utf8(bytes@),
        text matches Some(text) ==> text@ == decode_utf8(bytes@),
{
    std::str::from_utf8(bytes).ok().map(|text| text.to_owned())
}

/// `String::from_utf8_lossy`: the text that the bytes encode, with replacement characters where
/// they are not valid UTF-8, as a function of the bytes alone.
#[verifier::external_body]
fn utf8_text_lossy(bytes: &[u8]) -> (text: String)
    ensures
        text@ == lossy_text(bytes@),
        valid_utf8(bytes@) ==> text@ == decode_utf8(bytes@),
{
    String::from_utf8_lossy(bytes).into_owned()
}

/// A path that starts at the root.
pub open spec fn is_absolute(bytes: Seq<u8>) -> bool {
    bytes.len() > 0 && bytes[0] == SLASH
}

/// Where the first segment ends: at the first slash, or at the end.
pub open spec fn segment_end(bytes: Seq<u8>) -> int
    decreases bytes.len(),
{
    if bytes.len() == 0 || bytes[0] == SLASH {
        0
    } else {
        1 + segment_end(bytes.skip(1))
    }
}

/// The segments between the slashes, empty ones among them.
pub open spec fn segments(bytes: Seq<u8>) -> Seq<Seq<u8>>
    decreases bytes.len(),
    via segments_decreases
{
    if segment_end(bytes) < bytes.len() {
        seq![bytes.take(segment_end(bytes))] + segments(bytes.skip(segment_end(bytes) + 1))
    } else {
        seq![bytes]
    }
}

#[via_fn]
proof fn segments_decreases(bytes: Seq<u8>) {
    lemma_segment_end_bounds(bytes);
}

proof fn lemma_segment_end_bounds(bytes: Seq<u8>)
    ensures
        0 <= segment_end(bytes) <= bytes.len(),
    decreases bytes.len(),
{
    if bytes.len() > 0 && bytes[0] != SLASH {
        lemma_segment_end_bounds(bytes.skip(1));
    }
}

proof fn lemma_segment_end_is(bytes: Seq<u8>, end: int)
    requires
        0 <= end <= bytes.len(),
        forall|k: int| 0 <= k < end ==> bytes[k] != SLASH,
        end < bytes.len() ==> bytes[end] == SLASH,
    ensures
        segment_end(bytes) == end,
    decreases bytes.len(),
{
    if end > 0 {
        let rest = bytes.skip(1);
        assert forall|k: int| 0 <= k < end - 1 implies rest[k] != SLASH by {
            assert(rest[k] == bytes[k + 1]);
        }
        lemma_segment_end_is(rest, end - 1);
    }
}

/// A segment that names an entry of the directory before it: not empty, not `.`, not `..`.
pub open spec fn is_plain(segment: Seq<u8>) -> bool {
    segment.len() > 0 && segment != seq![DOT] && segment != seq![DOT, DOT]
}

/// An absolute path in lexically normal form: the root, or the root and plain segments with one
/// slash between each two and none at the end.
pub open spec fn is_normal_root(bytes: Seq<u8>) -> bool {
    is_absolute(bytes) && (bytes.len() == 1 || forall|i: int|
        0 <= i < segments(bytes.skip(1)).len() ==> is_plain(
            #[trigger] segments(bytes.skip(1))[i],
        ))
}

/// `tail` under the directory `base`; an absolute `tail` stands alone.
pub open spec fn joined(base: Seq<u8>, tail: Seq<u8>) -> Seq<u8> {
    if is_absolute(tail) {
        tail
    } else if base.len() > 0 && base.last() != SLASH {
        base.push(SLASH) + tail
    } else {
        base + tail
    }
}

/// How many bytes stand before the segments: the root slash, or a leading `.` component.
pub open spec fn body_start(bytes: Seq<u8>) -> int {
    if is_absolute(bytes) {
        1
    } else if bytes.len() > 0 && bytes[0] == DOT && (bytes.len() == 1 || bytes[1] == SLASH) {
        1
    } else {
        0
    }
}

/// Where the last segment behind `start` begins.
pub open spec fn last_segment_start(bytes: Seq<u8>, start: int) -> int
    decreases bytes.len(),
{
    if bytes.len() <= start || bytes.len() == 0 {
        start
    } else if bytes.last() == SLASH {
        bytes.len() as int
    } else {
        last_segment_start(bytes.drop_last(), start)
    }
}

/// The path without its last segment and the slash before that.
pub open spec fn without_last_segment(bytes: Seq<u8>, start: int) -> Seq<u8> {
    let from = last_segment_start(bytes, start);
    if from > start {
        bytes.take(from - 1)
    } else {
        bytes.take(start)
    }
}

/// The path without the slashes and `.` segments that it ends in, which name nothing.
pub open spec fn without_tail(bytes: Seq<u8>, start: int) -> Seq<u8>
    decreases bytes.len(),
    via without_tail_decreases
{
    let last = bytes.skip(last_segment_start(bytes, start));
    if 0 <= start < bytes.len() && (last.len() == 0 || last == seq![DOT]) {
        without_tail(without_last_segment(bytes, start), start)
    } else {
        bytes
    }
}

#[via_fn]
proof fn without_tail_decreases(bytes: Seq<u8>, start: int) {
    if 0 <= start < bytes.len() {
        lemma_last_segment_start_bounds(bytes, start);
    }
}

proof fn lemma_last_segment_start_bounds(bytes: Seq<u8>, start: int)
    requires
        0 <= start <= bytes.len(),
    ensures
        start <= last_segment_start(bytes, start) <= bytes.len(),
    decreases bytes.len(),
{
    if bytes.len() > start && bytes.last() != SLASH {
        lemma_last_segment_start_bounds(bytes.drop_last(), start);
    }
}

/// The last segment of a path that names something, where it is not `..`.
pub open spec fn file_name(bytes: Seq<u8>) -> Option<Seq<u8>> {
    let start = body_start(bytes);
    let whole = without_tail(bytes, start);
    let last = whole.skip(last_segment_start(whole, start));
    if whole.len() > start && last != seq![DOT, DOT] {
        Some(last)
    } else {
        None
    }
}

/// The path without its last component, where it has one besides the root.
pub open spec fn parent(bytes: Seq<u8>) -> Option<Seq<u8>> {
    let start = body_start(bytes);
    let whole = without_tail(bytes, start);
    if whole.len() > start {
        Some(without_tail(without_last_segment(whole, start), start))
    } else if start == 1 && !is_absolute(bytes) {
        Some(Seq::empty())
    } else {
        None
    }
}

/// A file name with the extension `app`: `.app` with something before it.
pub open spec fn has_app_extension(name: Seq<u8>) -> bool {
    name.len() > 4 && name.skip(name.len() - 4) == seq![DOT, 97u8, 112u8, 112u8]
}

/// A path whose file name has the extension `app`.
pub open spec fn names_bundle(bytes: Seq<u8>) -> bool {
    file_name(bytes) matches Some(name) && has_app_extension(name)
}

/// The longest of the path and its ancestors that names an application bundle.
pub open spec fn enclosing_bundle(bytes: Seq<u8>) -> Option<Seq<u8>>
    decreases bytes.len(),
    via enclosing_bundle_decreases
{
    if names_bundle(bytes) {
        Some(bytes)
    } else {
        match parent(bytes) {
            Some(up) => enclosing_bundle(up),
            None => None,
        }
    }
}

#[via_fn]
proof fn enclosing_bundle_decreases(bytes: Seq<u8>) {
    lemma_parent_is_prefix(bytes);
}

proof fn lemma_without_tail_is_prefix(bytes: Seq<u8>, start: int)
    requires
        0 <= start <= bytes.len(),
    ensures
        start <= without_tail(bytes, start).len() <= bytes.len(),
        without_tail(bytes, start) == bytes.take(without_tail(bytes, start).len() as int),
    decreases bytes.len(),
{
    let last = bytes.skip(last_segment_start(bytes, start));
    if start < bytes.len() && (last.len() == 0 || last == seq![DOT]) {
        lemma_last_segment_start_bounds(bytes, start);
        let shorter = without_last_segment(bytes, start);
        lemma_without_tail_is_prefix(shorter, start);
        let n = without_tail(shorter, start).len() as int;
        assert(shorter.take(n) =~= bytes.take(n));
    } else {
        assert(bytes.take(bytes.len() as int) =~= bytes);
    }
}

proof fn lemma_parent_is_prefix(bytes: Seq<u8>)
    ensures
        parent(bytes) matches Some(up) ==> up.len() < bytes.len() && up == bytes.take(
            up.len() as int,
        ),
{
    let start = body_start(bytes);
    lemma_without_tail_is_prefix(bytes, start);
    let whole = without_tail(bytes, start);
    if whole.len() > start {
        lemma_last_segment_start_bounds(whole, start);
        let cut = without_last_segment(whole, start);
        lemma_without_tail_is_prefix(cut, start);
        let up = without_tail(cut, start);
        assert(cut.take(up.len() as int) =~= bytes.take(up.len() as int));
    } else {
        assert(bytes.take(0) =~= Seq::<u8>::empty());
    }
}

impl FilePath {
    /// The path that a text names.
    pub fn from_text(text: &str) -> (path: FilePath)
        ensures
            path@ == encode_utf8(text@),
    {
        let encoded = text.as_bytes();
        let mut bytes: Vec<u8> = Vec::new();
        let mut i: usize = 0;
        while i < encoded.len()
            invariant
                i <= encoded@.len(),
                bytes@ == encoded@.take(i as int),
            decreases encoded@.len() - i,
        {
            bytes.push(encoded[i]);
            i += 1;
        }
        assert(encoded@.take(i as int) =~= encoded@);
        FilePath { bytes }
    }

    /// `tail` under this directory; an absolute `tail` stands alone.
    pub fn join(&self, tail: &str) -> (path: FilePath)
        ensures
            path@ == joined(self@, encode_utf8(tail@)),
    {
        let added = FilePath::from_text(tail).bytes;
        if added.len() > 0 && added[0] == SLASH {
            return FilePath { bytes: added };
        }
        let mut bytes = bytes_between(&self.bytes, 0, self.bytes.len());
        if bytes.len() > 0 && bytes[bytes.len() - 1] != SLASH {
            bytes.push(SLASH);
        }
        let mut added = added;
        bytes.append(&mut added);
        FilePath { bytes }
    }

    /// The path as a text, where its bytes are valid UTF-8.
    pub fn to_text(&self) -> (text: Option<String>)
        ensures
            text is Some <==> valid_utf8(self@),
            text matches Some(text) ==> text@ == decode_utf8(self@),
    {
        utf8_text(self.bytes.as_slice())
    }

    /// The path as a text, with replacement characters where its bytes are not valid UTF-8.
    pub fn to_text_lossy(&self) -> (text: String)
        ensures
            text@ == lossy_text(self@),
            valid_utf8(self@) ==> text@ == decode_utf8(self@),
    {
        utf8_text_lossy(self.bytes.as_slice())
    }
}

/// Bytes as a text, with replacement characters where they are not valid UTF-8.
pub fn text_lossy(bytes: &Vec<u8>) -> (text: String)
    ensures
        text@ == lossy_text(bytes@),
        valid_utf8(bytes@) ==> text@ == decode_utf8(bytes@),
{
    utf8_text_lossy(bytes.as_slice())
}

/// Whether a path is absolute and in lexically normal form.
pub fn check_normal_root(path: &FilePath) -> (yes: bool)
    ensures
        yes == is_normal_root(path@),
{
    let bytes = &path.bytes;
    if bytes.len() == 0 || bytes[0] != SLASH {
        return false;
    }
    if bytes.len() == 1 {
        return true;
    }
    let ghost body = bytes@.skip(1);
    let mut start: usize = 1;
    let ghost mut seen: Seq<Seq<u8>> = Seq::empty();
    assert(seen + segments(body) =~= segments(body));
    loop
        invariant
            bytes == path.bytes,
            body == bytes@.skip(1),
            is_absolute(bytes@),
            1 <= start <= bytes@.len(),
            seen + segments(bytes@.skip(start as int)) == segments(body),
            forall|i: int| 0 <= i < seen.len() ==> is_plain(#[trigger] seen[i]),
            bytes@.len() > 1,
        decreases bytes@.len() - start,
    {
        let mut end: usize = start;
        while end < bytes.len() && bytes[end] != SLASH
            invariant
                start <= end <= bytes@.len(),
                forall|k: int| start <= k < end ==> bytes@[k] != SLASH,
            decreases bytes@.len() - end,
        {
            end += 1;
        }
        let ghost rest = bytes@.skip(start as int);
        let ghost segment = rest.take(end - start);
        proof {
            assert forall|k: int| 0 <= k < end - start implies rest[k] != SLASH by {
                assert(rest[k] == bytes@[start + k]);
            }
            lemma_segment_end_is(rest, end - start);
            assert(end == bytes@.len() ==> segment =~= rest);
            assert(segments(rest)[0] == segment);
            assert(segments(body)[seen.len() as int] == segment);
            assert(forall|k: int| 0 <= k < segment.len() ==> segment[k] == bytes@[start + k]);
        }
        let length: usize = end - start;
        let plain = length > 2 || (length == 1 && bytes[start] != DOT) || (length == 2 && !(
        bytes[start] == DOT && bytes[start + 1] == DOT));
        proof {
            if length == 1 {
                assert(segment =~= seq![bytes@[start as int]]);
            }
            if length == 2 {
                assert(segment =~= seq![bytes@[start as int], bytes@[start + 1]]);
            }
            assert(seq![DOT].len() == 1 && seq![DOT][0] == DOT);
            assert(seq![DOT, DOT].len() == 2 && seq![DOT, DOT][0] == DOT && seq![DOT, DOT][1] == DOT);
            assert(plain == is_plain(segment));
        }
        if !plain {
            return false;
        }
        proof {
            let longer = seen.push(segment);
            if end < bytes@.len() {
                assert(rest.skip(end - start + 1) =~= bytes@.skip(end + 1));
                assert(segments(rest) =~= seq![segment] + segments(bytes@.skip(end + 1)));
                assert(seen + (seq![segment] + segments(bytes@.skip(end + 1))) =~= longer + segments(
                    bytes@.skip(end + 1),
                ));
            } else {
                assert(seen + seq![segment] =~= longer);
                assert(segments(body) == longer);
            }
            seen = longer;
        }
        if end == bytes.len() {
            return true;
        }
        start = end + 1;
    }
}

/// Where the last segment of the first `len` bytes begins, behind `start`.
fn find_last_segment(bytes: &Vec<u8>, len: usize, start: usize) -> (from: usize)
    requires
        start <= len <= bytes@.len(),
    ensures
        from == last_segment_start(bytes@.take(len as int), start as int),
        start <= from <= len,
{
    let mut from: usize = len;
    while from > start && bytes[from - 1] != SLASH
        invariant
            start <= from <= len <= bytes@.len(),
            last_segment_start(bytes@.take(len as int), start as int) == last_segment_start(
                bytes@.take(from as int),
                start as int,
            ),
        decreases from,
    {
        assert(bytes@.take(from as int).drop_last() =~= bytes@.take(from - 1));
        from -= 1;
    }
    from
}

/// How many bytes are left of the first `len` without the last segment.
fn drop_last_segment(bytes: &Vec<u8>, len: usize, start: usize) -> (kept: usize)
    requires
        start <= len <= bytes@.len(),
    ensures
        start <= kept <= len,
        start < len ==> kept < len,
        bytes@.take(kept as int) == without_last_segment(bytes@.take(len as int), start as int),
{
    let from = find_last_segment(bytes, len, start);
    if from > start {
        assert(bytes@.take(len as int).take(from - 1) =~= bytes@.take(from - 1));
        from - 1
    } else {
        assert(bytes@.take(len as int).take(start as int) =~= bytes@.take(start as int));
        start
    }
}

/// How many bytes are left of the first `len` without the slashes and `.` segments at the end.
fn drop_tail(bytes: &Vec<u8>, len: usize, start: usize) -> (kept: usize)
    requires
        start <= len <= bytes@.len(),
    ensures
        start <= kept <= len,
        bytes@.take(kept as int) == without_tail(bytes@.take(len as int), start as int),
{
    let mut kept: usize = len;
    while kept > start
        invariant
            start <= kept <= len <= bytes@.len(),
            without_tail(bytes@.take(kept as int), start as int) == without_tail(
                bytes@.take(len as int),
                start as int,
            ),
        decreases kept,
    {
        let from = find_last_segment(bytes, kept, start);
        let ghost last = bytes@.take(kept as int).skip(from as int);
        let empty = from == kept || (from + 1 == kept && bytes[from] == DOT);
        proof {
            if from + 1 == kept {
                assert(last =~= seq![bytes@[from as int]]);
            }
            assert(seq![DOT].len() == 1 && seq![DOT][0] == DOT);
            assert(empty == (last.len() == 0 || last == seq![DOT]));
        }
        if !empty {
            return kept;
        }
        kept = drop_last_segment(bytes, kept, start);
    }
    kept
}

/// How many of the first `len` bytes stand before the segments.
fn find_body(bytes: &Vec<u8>, len: usize) -> (start: usize)
    requires
        len <= bytes@.len(),
    ensures
        start == body_start(bytes@.take(len as int)),
        start <= len,
{
    if len > 0 && bytes[0] == SLASH {
        1
    } else if len > 0 && bytes[0] == DOT && (len == 1 || bytes[1] == SLASH) {
        1
    } else {
        0
    }
}

/// Whether the first `len` bytes name an application bundle.
fn check_bundle(bytes: &Vec<u8>, len: usize) -> (yes: bool)
    requires
        len <= bytes@.len(),
    ensures
        yes == names_bundle(bytes@.take(len as int)),
{
    let start = find_body(bytes, len);
    let kept = drop_tail(bytes, len, start);
    let from = find_last_segment(bytes, kept, start);
    let ghost last = bytes@.take(kept as int).skip(from as int);
    let yes = kept - from > 4 && bytes[kept - 4] == DOT && bytes[kept - 3] == 97 && bytes[kept - 2]
        == 112 && bytes[kept - 1] == 112;
    proof {
        assert(seq![DOT, DOT].len() == 2);
        if kept - from > 4 {
            let extension = last.skip(last.len() - 4);
            let app = seq![DOT, 97u8, 112u8, 112u8];
            assert(extension.len() == 4 && app.len() == 4);
            assert(extension[0] == bytes@[kept - 4]);
            assert(extension[1] == bytes@[kept - 3]);
            assert(extension[2] == bytes@[kept - 2]);
            assert(extension[3] == bytes@[kept - 1]);
            if yes {
                assert(extension =~= app);
            }
        }
    }
    yes
}

/// How many bytes the parent of the path in the first `len` bytes has.
fn find_parent(bytes: &Vec<u8>, len: usize) -> (up: Option<usize>)
    requires
        len <= bytes@.len(),
    ensures
        match up {
            Some(up) => up < len && parent(bytes@.take(len as int)) == Some(bytes@.take(up as int)),
            None => parent(bytes@.take(len as int)) is None,
        },
{
    let start = find_body(bytes, len);
    let kept = drop_tail(bytes, len, start);
    if kept > start {
        let cut = drop_last_segment(bytes, kept, start);
        Some(drop_tail(bytes, cut, start))
    } else if start == 1 && bytes[0] != SLASH {
        assert(bytes@.take(0) =~= Seq::<u8>::empty());
        Some(0)
    } else {
        None
    }
}

/// The application bundle that holds an executable: the longest of the path and its ancestors
/// with the extension `app`, or the path itself where there is none.
pub fn application_bundle(executable: &FilePath) -> (bundle: FilePath)
    ensures
        match enclosing_bundle(executable@) {
            Some(found) => bundle@ == found,
            None => bundle@ == executable@,
        },
{
    let bytes = &executable.bytes;
    let mut len: usize = bytes.len();
    assert(bytes@.take(len as int) =~= bytes@);
    loop
        invariant
            bytes == executable.bytes,
            len <= bytes@.len(),
            enclosing_bundle(bytes@.take(len as int)) == enclosing_bundle(executable@),
        decreases len,
    {
        if check_bundle(bytes, len) {
            assert(bytes@.subrange(0, len as int) =~= bytes@.take(len as int));
            return FilePath { bytes: bytes_between(bytes, 0, len) };
        }
        match find_parent(bytes, len) {
            Some(up) => {
                len = up;
            },
            None => {
                return executable.clone();
            },
        }
    }
}

/// Where an executable lies in an application bundle, the bundle is a leading part of its path
/// and names a bundle itself.
pub proof fn law_bundle_is_leading_part(path: Seq<u8>)
    ensures
        enclosing_bundle(path) matches Some(bundle) ==> names_bundle(bundle) && bundle.len()
            <= path.len() && bundle == path.take(bundle.len() as int),
    decreases path.len(),
{
    if names_bundle(path) {
        assert(path.take(path.len() as int) =~= path);
    } else {
        lemma_parent_is_prefix(path);
        if let Some(up) = parent(path) {
            law_bundle_is_leading_part(up);
            if let Some(bundle) = enclosing_bundle(up) {
                assert(up.take(bundle.len() as int) =~= path.take(bundle.len() as int));
            }
        }
    }
}

} // verus!
