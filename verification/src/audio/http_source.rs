//! A remote media file, read through a cache of fixed-size pages.
//!
//! The source decides; the application fetches. `begin_read` serves a read
//! from the cache or names the byte range to fetch, and `finish_read` takes
//! the server's reply to that fetch.
use std::collections::VecDeque;

use vstd::prelude::*;
use vstd::string::*;

use crate::text::{
    after_last, after_last_slash, decimal, decimal_round_trip, decimal_text, decimals_are_tight,
    eq_ignore_ascii_case, parse_u64, parsed_u64, same_ignoring_case, the_last_part_is_found,
};

verus! {

/// Bytes in a page.
pub const PAGE_SIZE: u64 = 65_536;

/// Pages that the cache keeps after a fetch.
pub const MAX_CACHED_PAGES: usize = 16;

/// Bytes asked for when a source is opened.
pub const PREFETCH_BYTES: u64 = 262_144;

/// Bytes asked for when a read misses the cache: four pages.
pub const FETCH_BYTES: u64 = 262_144;

/// Status of a reply that holds the whole file.
pub const STATUS_OK: u16 = 200;

/// Status of a reply that holds the range asked for.
pub const STATUS_PARTIAL: u16 = 206;

/// One cached page: `bytes` as they stand in the file from `start` on.
#[derive(Debug)]
pub struct Page {
    pub start: u64,
    pub bytes: Vec<u8>,
}

/// What a page holds.
pub struct PageView {
    pub start: int,
    pub bytes: Seq<u8>,
}

impl View for Page {
    type V = PageView;

    open spec fn view(&self) -> PageView {
        PageView { start: self.start as int, bytes: self.bytes@ }
    }
}

/// A server's reply to a ranged request.
#[derive(Debug)]
pub struct HttpReply {
    pub status: u16,
    pub accept_ranges: Option<String>,
    pub content_range: Option<String>,
    pub content_length: Option<String>,
    pub body: Vec<u8>,
}

/// Why a source cannot be opened or read.
#[derive(Clone, Copy, Debug, PartialEq, Eq, Structural)]
pub enum SourceError {
    /// The server answered with a status other than success.
    Status(u16),
    /// The position lies behind the end of the file.
    UnexpectedEof,
    /// The reply does not hold the byte at this offset.
    NotCovered(u64),
    /// A seek from the end of a file of unknown length.
    UnknownLength,
}

/// Outcome of a read that has not gone to the network.
#[derive(Clone, Copy, Debug, PartialEq, Eq, Structural)]
pub enum ReadStep {
    /// So many bytes were read; none means the end of the file.
    Done(usize),
    /// The bytes from `lo` to `hi`, both included, have to be fetched.
    Fetch { lo: u64, hi: u64 },
    Failed(SourceError),
}

/// Where a seek counts from.
#[derive(Clone, Copy, Debug, PartialEq, Eq, Structural)]
pub enum SeekTarget {
    Start(u64),
    End(i64),
    Current(i64),
}

/// What pages hold.
pub open spec fn page_views(pages: Seq<Page>) -> Seq<PageView> {
    pages.map_values(|p: Page| p@)
}

/// Whether a page holds the byte at `offset`.
pub open spec fn covers(p: PageView, offset: int) -> bool {
    p.start <= offset < p.start + p.bytes.len()
}

/// Position of the first page that holds `offset`.
pub open spec fn first_covering(pages: Seq<PageView>, offset: int) -> Option<int>
    decreases pages.len(),
{
    if pages.len() == 0 {
        None
    } else if covers(pages[0], offset) {
        Some(0)
    } else {
        match first_covering(pages.drop_first(), offset) {
            Some(i) => Some(i + 1),
            None => None,
        }
    }
}

/// The pages with page `i` moved to the end, where the most recently used
/// page stands.
pub open spec fn promoted(pages: Seq<PageView>, i: int) -> Seq<PageView> {
    pages.remove(i).push(pages[i])
}

/// The pages without the first one that begins at `start`.
pub open spec fn without_start(pages: Seq<PageView>, start: int) -> Seq<PageView>
    decreases pages.len(),
{
    if pages.len() == 0 {
        pages
    } else if pages[0].start == start {
        pages.drop_first()
    } else {
        seq![pages[0]] + without_start(pages.drop_first(), start)
    }
}

/// The pages after `body` has been cut into pages from `start` on; each
/// replaces an older page with the same beginning.
pub open spec fn sliced(pages: Seq<PageView>, start: int, body: Seq<u8>) -> Seq<PageView>
    decreases body.len(),
{
    if body.len() == 0 {
        pages
    } else {
        let take = if body.len() < PAGE_SIZE {
            body.len() as int
        } else {
            PAGE_SIZE as int
        };
        sliced(
            without_start(pages, start).push(PageView { start, bytes: body.take(take) }),
            start + take,
            body.skip(take),
        )
    }
}

/// The most recently used pages, as many as the cache keeps.
pub open spec fn kept(pages: Seq<PageView>) -> Seq<PageView> {
    if pages.len() > MAX_CACHED_PAGES {
        pages.skip(pages.len() - MAX_CACHED_PAGES)
    } else {
        pages
    }
}

/// No two pages begin at the same byte.
pub open spec fn distinct_starts(pages: Seq<PageView>) -> bool {
    forall|i: int, j: int|
        0 <= i < j < pages.len() ==> (#[trigger] pages[i]).start != (#[trigger] pages[j]).start
}

/// Every page holds what the file holds there.
pub open spec fn agree(pages: Seq<PageView>, file: Seq<u8>) -> bool {
    forall|i: int|
        0 <= i < pages.len() ==> page_agrees(#[trigger] pages[i], file)
}

/// A page holds what the file holds there.
pub open spec fn page_agrees(p: PageView, file: Seq<u8>) -> bool {
    0 <= p.start && p.start + p.bytes.len() <= file.len() && p.bytes == file.subrange(
        p.start,
        p.start + p.bytes.len(),
    )
}

/// Length of the file as a reply reports it: the total of its
/// `Content-Range`, else, where the reply holds the whole file, its
/// `Content-Length`.
pub open spec fn reported_length(
    status: u16,
    content_range: Option<Seq<char>>,
    content_length: Option<Seq<char>>,
) -> Option<u64> {
    let total = match content_range {
        Some(text) => match after_last(text, '/') {
            Some(tail) => parsed_u64(tail),
            None => None,
        },
        None => None,
    };
    match total {
        Some(n) => Some(n),
        None => if status == STATUS_OK {
            match content_length {
                Some(text) => parsed_u64(text),
                None => None,
            }
        } else {
            None
        },
    }
}

/// The text of an optional header.
pub open spec fn header_text(h: Option<String>) -> Option<Seq<char>> {
    match h {
        Some(s) => Some(s@),
        None => None,
    }
}

/// Length of the file that a reply reports.
pub open spec fn reply_length(reply: HttpReply) -> Option<u64> {
    reported_length(
        reply.status,
        header_text(reply.content_range),
        header_text(reply.content_length),
    )
}

/// Whether a status means success.
pub open spec fn is_success(status: u16) -> bool {
    200 <= status < 300
}

/// The range to fetch for `offset`: four pages from the page boundary at or
/// before it, cut at the end of the file. None where that is empty.
pub open spec fn fetch_range(offset: u64, total: Option<u64>) -> Option<(u64, u64)> {
    let lo = offset / PAGE_SIZE * PAGE_SIZE;
    let end = lo + FETCH_BYTES - 1;
    if end > u64::MAX {
        None
    } else {
        match total {
            Some(n) => if n > 0 && n - 1 < end {
                if n - 1 < lo {
                    None
                } else {
                    Some((lo as u64, (n - 1) as u64))
                }
            } else {
                Some((lo as u64, end as u64))
            },
            None => Some((lo as u64, end as u64)),
        }
    }
}

/// Header value that asks for the bytes from `lo` to `hi`.
pub open spec fn range_text(lo: u64, hi: u64) -> Seq<char> {
    "bytes="@ + decimal(lo as nat) + "-"@ + decimal(hi as nat)
}

/// Write the value of a `Range` header.
pub fn range_header(lo: u64, hi: u64) -> (r: String)
    ensures
        r@ == range_text(lo, hi),
{
    "bytes=".to_owned().concat(decimal_text(lo).as_str()).concat("-").concat(
        decimal_text(hi).as_str(),
    )
}

/// Read the length of the file out of a reply's headers.
pub fn parse_total_length(
    status: u16,
    content_range: Option<&String>,
    content_length: Option<&String>,
) -> (r: Option<u64>)
    ensures
        r == reported_length(
            status,
            match content_range {
                Some(s) => Some(s@),
                None => None,
            },
            match content_length {
                Some(s) => Some(s@),
                None => None,
            },
        ),
{
    if let Some(text) = content_range {
        if let Some(tail) = after_last_slash(text.as_str()) {
            if let Some(n) = parse_u64(tail) {
                return Some(n);
            }
        }
    }
    if status == STATUS_OK {
        if let Some(text) = content_length {
            return parse_u64(text.as_str());
        }
    }
    None
}

proof fn lemma_first_covering(pages: Seq<PageView>, offset: int)
    ensures
        match first_covering(pages, offset) {
            Some(i) => 0 <= i < pages.len() && covers(pages[i], offset) && forall|j: int|
                0 <= j < i ==> !covers(#[trigger] pages[j], offset),
            None => forall|j: int| 0 <= j < pages.len() ==> !covers(#[trigger] pages[j], offset),
        },
    decreases pages.len(),
{
    if pages.len() > 0 && !covers(pages[0], offset) {
        let rest = pages.drop_first();
        lemma_first_covering(rest, offset);
        match first_covering(rest, offset) {
            Some(i) => {
                assert forall|j: int| 0 <= j < i + 1 implies !covers(
                    #[trigger] pages[j],
                    offset,
                ) by {
                    if j > 0 {
                        assert(pages[j] == rest[j - 1]);
                    }
                }
            },
            None => {
                assert forall|j: int| 0 <= j < pages.len() implies !covers(
                    #[trigger] pages[j],
                    offset,
                ) by {
                    if j > 0 {
                        assert(pages[j] == rest[j - 1]);
                    }
                }
            },
        }
    }
}

proof fn lemma_without_start_at(pages: Seq<PageView>, start: int, k: int)
    requires
        0 <= k < pages.len(),
        pages[k].start == start,
        forall|j: int| 0 <= j < k ==> (#[trigger] pages[j]).start != start,
    ensures
        without_start(pages, start) == pages.remove(k),
    decreases pages.len(),
{
    if k == 0 {
        assert(pages.drop_first() =~= pages.remove(0));
    } else {
        assert(pages[0].start != start);
        let rest = pages.drop_first();
        assert forall|j: int| 0 <= j < k - 1 implies (#[trigger] rest[j]).start != start by {
            assert(rest[j] == pages[j + 1]);
        }
        lemma_without_start_at(rest, start, k - 1);
        assert(seq![pages[0]] + rest.remove(k - 1) =~= pages.remove(k));
    }
}

proof fn lemma_without_start_none(pages: Seq<PageView>, start: int)
    requires
        forall|j: int| 0 <= j < pages.len() ==> (#[trigger] pages[j]).start != start,
    ensures
        without_start(pages, start) == pages,
    decreases pages.len(),
{
    if pages.len() > 0 {
        assert(pages[0].start != start);
        let rest = pages.drop_first();
        assert forall|j: int| 0 <= j < rest.len() implies (#[trigger] rest[j]).start != start by {
            assert(rest[j] == pages[j + 1]);
        }
        lemma_without_start_none(rest, start);
        assert(seq![pages[0]] + rest =~= pages);
    }
}

/// Dropping the page at `start` leaves pages of the old list, in order, none
/// of which begins there.
proof fn lemma_without_start(pages: Seq<PageView>, start: int)
    requires
        distinct_starts(pages),
    ensures
        ({
            let w = without_start(pages, start);
            &&& distinct_starts(w)
            &&& forall|i: int| 0 <= i < w.len() ==> (#[trigger] w[i]).start != start
            &&& forall|i: int| 0 <= i < w.len() ==> pages.contains(#[trigger] w[i])
        }),
{
    let w = without_start(pages, start);
    if exists|k: int| 0 <= k < pages.len() && (#[trigger] pages[k]).start == start {
        let k = choose|k: int| 0 <= k < pages.len() && (#[trigger] pages[k]).start == start;
        assert forall|j: int| 0 <= j < k implies (#[trigger] pages[j]).start != start by {}
        lemma_without_start_at(pages, start, k);
        assert forall|i: int| 0 <= i < w.len() implies (#[trigger] w[i]).start != start
            && pages.contains(w[i]) by {
            let m = if i < k {
                i
            } else {
                i + 1
            };
            assert(w[i] == pages[m]);
            assert(m != k);
        }
        assert forall|i: int, j: int| 0 <= i < j < w.len() implies (#[trigger] w[i]).start != (
        #[trigger] w[j]).start by {
            let a = if i < k {
                i
            } else {
                i + 1
            };
            let b = if j < k {
                j
            } else {
                j + 1
            };
            assert(w[i] == pages[a] && w[j] == pages[b]);
        }
    } else {
        lemma_without_start_none(pages, start);
    }
}

/// Cutting a reply into pages never leaves two pages with one beginning.
pub proof fn slicing_keeps_starts_distinct(pages: Seq<PageView>, start: int, body: Seq<u8>)
    requires
        distinct_starts(pages),
    ensures
        distinct_starts(sliced(pages, start, body)),
    decreases body.len(),
{
    if body.len() > 0 {
        let take = if body.len() < PAGE_SIZE {
            body.len() as int
        } else {
            PAGE_SIZE as int
        };
        lemma_without_start(pages, start);
        let next = without_start(pages, start).push(PageView { start, bytes: body.take(take) });
        slicing_keeps_starts_distinct(next, start + take, body.skip(take));
    }
}

/// If the cache agrees with the file and a reply holds the file's bytes from
/// `start` on, the cache still agrees after the reply was cut into pages.
pub proof fn slicing_keeps_agreement(
    pages: Seq<PageView>,
    start: int,
    body: Seq<u8>,
    file: Seq<u8>,
)
    requires
        distinct_starts(pages),
        agree(pages, file),
        0 <= start,
        start + body.len() <= file.len(),
        body == file.subrange(start, start + body.len()),
    ensures
        agree(sliced(pages, start, body), file),
    decreases body.len(),
{
    if body.len() > 0 {
        let take = if body.len() < PAGE_SIZE {
            body.len() as int
        } else {
            PAGE_SIZE as int
        };
        lemma_without_start(pages, start);
        let w = without_start(pages, start);
        let page = PageView { start, bytes: body.take(take) };
        assert(page.bytes =~= file.subrange(start, start + take));
        assert forall|i: int| 0 <= i < w.push(page).len() implies page_agrees(
            #[trigger] w.push(page)[i],
            file,
        ) by {
            if i < w.len() {
                assert(w.push(page)[i] == w[i]);
                let m = choose|m: int| 0 <= m < pages.len() && pages[m] == w[i];
                assert(page_agrees(pages[m], file));
            }
        }
        assert(body.skip(take) =~= file.subrange(
            start + take,
            start + take + body.skip(take).len(),
        ));
        slicing_keeps_agreement(w.push(page), start + take, body.skip(take), file);
    }
}

/// A byte that a page which agrees with the file holds is the file's byte.
pub proof fn cached_bytes_are_the_files(p: PageView, file: Seq<u8>, offset: int, n: int)
    requires
        page_agrees(p, file),
        covers(p, offset),
        0 <= n <= p.start + p.bytes.len() - offset,
    ensures
        p.bytes.subrange(offset - p.start, offset - p.start + n) == file.subrange(
            offset,
            offset + n,
        ),
{
    assert(p.bytes.subrange(offset - p.start, offset - p.start + n) =~= file.subrange(
        offset,
        offset + n,
    ));
}

/// Find the first page that holds `offset`.
fn find_covering(pages: &VecDeque<Page>, offset: u64) -> (r: Option<usize>)
    requires
        forall|i: int|
            0 <= i < pages@.len() ==> (#[trigger] pages@[i]).start + pages@[i].bytes@.len()
                <= u64::MAX,
    ensures
        match r {
            Some(i) => first_covering(page_views(pages@), offset as int) == Some(i as int) && i
                < pages@.len(),
            None => first_covering(page_views(pages@), offset as int) is None,
        },
{
    let ghost views = page_views(pages@);
    let mut i: usize = 0;
    while i < pages.len()
        invariant
            i <= pages@.len(),
            views == page_views(pages@),
            forall|k: int|
                0 <= k < pages@.len() ==> (#[trigger] pages@[k]).start + pages@[k].bytes@.len()
                    <= u64::MAX,
            forall|j: int| 0 <= j < i ==> !covers(#[trigger] views[j], offset as int),
        decreases pages@.len() - i,
    {
        let p: &Page = &pages[i];
        assert(views[i as int] == pages@[i as int]@);
        if offset >= p.start && offset < p.start + p.bytes.len() as u64 {
            proof {
                lemma_first_covering(views, offset as int);
                assert(covers(views[i as int], offset as int));
            }
            return Some(i);
        }
        i += 1;
    }
    proof {
        lemma_first_covering(views, offset as int);
    }
    None
}

/// Find the first page that begins at `start`.
fn find_start(pages: &VecDeque<Page>, start: u64) -> (r: Option<usize>)
    ensures
        match r {
            Some(i) => i < pages@.len() && pages@[i as int].start == start && forall|j: int|
                0 <= j < i ==> (#[trigger] pages@[j]).start != start,
            None => forall|j: int|
                0 <= j < pages@.len() ==> (#[trigger] pages@[j]).start != start,
        },
{
    let mut i: usize = 0;
    while i < pages.len()
        invariant
            i <= pages@.len(),
            forall|j: int| 0 <= j < i ==> (#[trigger] pages@[j]).start != start,
        decreases pages@.len() - i,
    {
        if pages[i].start == start {
            return Some(i);
        }
        i += 1;
    }
    None
}

/// A copy of `body[from..to]`.
fn copy_range(body: &Vec<u8>, from: usize, to: usize) -> (r: Vec<u8>)
    requires
        from <= to <= body@.len(),
    ensures
        r@ == body@.subrange(from as int, to as int),
{
    let mut out: Vec<u8> = Vec::new();
    let mut i: usize = from;
    while i < to
        invariant
            from <= i <= to <= body@.len(),
            out@ == body@.subrange(from as int, i as int),
        decreases to - i,
    {
        out.push(body[i]);
        assert(out@ =~= body@.subrange(from as int, i + 1));
        i += 1;
    }
    out
}

/// Pages end before the largest offset.
pub open spec fn fit(pages: Seq<Page>) -> bool {
    forall|i: int|
        0 <= i < pages.len() ==> (#[trigger] pages[i]).start + pages[i].bytes@.len() <= u64::MAX
}

/// Cut `body` into pages from `start` on and append them, the last one most
/// recently used. A page with the same beginning is replaced.
pub fn slice_into_pages(start: u64, body: &Vec<u8>, pages: &mut VecDeque<Page>)
    requires
        start + body@.len() <= u64::MAX,
        fit(old(pages)@),
    ensures
        page_views(final(pages)@) == sliced(page_views(old(pages)@), start as int, body@),
        fit(final(pages)@),
{
    let mut offset: usize = 0;
    let ghost goal = sliced(page_views(pages@), start as int, body@);
    assert(body@.skip(0) =~= body@);
    while offset < body.len()
        invariant
            offset <= body@.len(),
            start + body@.len() <= u64::MAX,
            fit(pages@),
            sliced(page_views(pages@), start + offset, body@.skip(offset as int)) == goal,
        decreases body@.len() - offset,
    {
        let page_start: u64 = start + offset as u64;
        let left: usize = body.len() - offset;
        let take: usize = if left < PAGE_SIZE as usize {
            left
        } else {
            PAGE_SIZE as usize
        };
        let chunk: Vec<u8> = copy_range(body, offset, offset + take);
        let ghost before = page_views(pages@);
        let ghost old_pages = pages@;
        match find_start(pages, page_start) {
            Some(dup) => {
                proof {
                    assert(before[dup as int] == pages@[dup as int]@);
                    assert forall|j: int| 0 <= j < dup implies (#[trigger] before[j]).start
                        != page_start by {
                        assert(before[j] == pages@[j]@);
                    }
                    lemma_without_start_at(before, page_start as int, dup as int);
                }
                let _old: Option<Page> = pages.remove(dup);
                proof {
                    assert(page_views(pages@) =~= before.remove(dup as int));
                    assert forall|i: int| 0 <= i < pages@.len() implies (
                    #[trigger] pages@[i]).start + pages@[i].bytes@.len() <= u64::MAX by {
                        let m = if i < dup {
                            i
                        } else {
                            i + 1
                        };
                        assert(pages@[i] == old_pages[m]);
                    }
                }
            },
            None => {
                proof {
                    assert forall|j: int| 0 <= j < before.len() implies (#[trigger] before[j]).start
                        != page_start by {
                        assert(before[j] == pages@[j]@);
                    }
                    lemma_without_start_none(before, page_start as int);
                }
            },
        }
        let ghost trimmed = page_views(pages@);
        let page: Page = Page { start: page_start, bytes: chunk };
        let ghost view = page@;
        pages.push_back(page);
        proof {
            assert(page_views(pages@) =~= trimmed.push(view));
            assert(view.bytes =~= body@.skip(offset as int).take(take as int));
            assert(body@.skip(offset as int).skip(take as int) =~= body@.skip(offset + take));
        }
        offset += take;
    }
    assert(body@.skip(offset as int).len() == 0);
}

/// A remote media file.
pub struct HttpMediaSource {
    url: String,
    pos: u64,
    total_len: Option<u64>,
    accept_ranges: bool,
    pages: VecDeque<Page>,
}

/// The state of a source.
pub struct SourceState {
    /// Address of the file.
    pub url: Seq<char>,
    pub pos: u64,
    pub total_len: Option<u64>,
    pub accept_ranges: bool,
    pub pages: Seq<PageView>,
}

impl View for HttpMediaSource {
    type V = SourceState;

    closed spec fn view(&self) -> SourceState {
        SourceState {
            url: self.url@,
            pos: self.pos,
            total_len: self.total_len,
            accept_ranges: self.accept_ranges,
            pages: page_views(self.pages@),
        }
    }
}

/// The bytes of a reply that opening a source keeps.
pub open spec fn first_bytes(body: Seq<u8>) -> Seq<u8> {
    if body.len() > PREFETCH_BYTES {
        body.take(PREFETCH_BYTES as int)
    } else {
        body
    }
}

/// What a reply to the request for the bytes from `lo` on brings of them. A
/// server that does not serve ranges sends the whole file, and what was asked
/// for is a part of that.
pub open spec fn part_from(reply: HttpReply, lo: u64) -> Seq<u8> {
    let body = reply.body@;
    if reply.status == STATUS_PARTIAL {
        body
    } else if lo >= body.len() {
        Seq::empty()
    } else if body.len() - lo > FETCH_BYTES {
        body.subrange(lo as int, lo + FETCH_BYTES)
    } else {
        body.skip(lo as int)
    }
}

/// Cut a reply down to the bytes from `lo` on.
fn take_part(reply: HttpReply, lo: u64) -> (r: Vec<u8>)
    ensures
        r@ == part_from(reply, lo),
{
    let body: Vec<u8> = reply.body;
    if reply.status == STATUS_PARTIAL {
        return body;
    }
    let n: usize = body.len();
    if lo >= n as u64 {
        let none: Vec<u8> = Vec::new();
        assert(none@ =~= part_from(reply, lo));
        return none;
    }
    let from: usize = lo as usize;
    let to: usize = if n - from > FETCH_BYTES as usize {
        from + FETCH_BYTES as usize
    } else {
        n
    };
    let part: Vec<u8> = copy_range(&body, from, to);
    assert(part@ =~= part_from(reply, lo));
    part
}

proof fn lemma_without_start_len(pages: Seq<PageView>, start: int)
    ensures
        without_start(pages, start).len() <= pages.len(),
    decreases pages.len(),
{
    if pages.len() > 0 && pages[0].start != start {
        lemma_without_start_len(pages.drop_first(), start);
    }
}

proof fn lemma_sliced_len(pages: Seq<PageView>, start: int, body: Seq<u8>, n: nat)
    requires
        body.len() <= n * PAGE_SIZE,
    ensures
        sliced(pages, start, body).len() <= pages.len() + n,
    decreases body.len(),
{
    if body.len() > 0 {
        let take = if body.len() < PAGE_SIZE {
            body.len() as int
        } else {
            PAGE_SIZE as int
        };
        assert(n > 0);
        lemma_without_start_len(pages, start);
        lemma_sliced_len(
            without_start(pages, start).push(PageView { start, bytes: body.take(take) }),
            start + take,
            body.skip(take),
            (n - 1) as nat,
        );
    }
}

/// Bytes that a read at `pos` takes from a page for a buffer of `room` bytes.
pub open spec fn readable(p: PageView, pos: int, room: int) -> int {
    let available = p.start + p.bytes.len() - pos;
    if available < room {
        available
    } else {
        room
    }
}

/// The state after `n` bytes were read.
pub open spec fn advanced(s: SourceState, n: int) -> SourceState {
    SourceState { pos: (s.pos + n) as u64, ..s }
}

/// `after` is `before` with the first `n` bytes taken from a page at `pos`.
pub open spec fn copied(p: PageView, pos: int, n: int, before: Seq<u8>, after: Seq<u8>) -> bool {
    &&& 0 <= n <= before.len()
    &&& pos + n <= u64::MAX
    &&& after == p.bytes.subrange(pos - p.start, pos - p.start + n) + before.skip(n)
}

impl HttpMediaSource {
    /// Pages end before the largest offset and begin at different bytes, and
    /// there are no more than the cache keeps.
    pub closed spec fn wf(&self) -> bool {
        &&& fit(self.pages@)
        &&& distinct_starts(page_views(self.pages@))
        &&& self.pages@.len() <= MAX_CACHED_PAGES
    }

    /// The cache never holds more pages than its bound, nor two for one
    /// beginning.
    pub proof fn cache_is_bounded(&self)
        requires
            self.wf(),
        ensures
            self@.pages.len() <= MAX_CACHED_PAGES,
            distinct_starts(self@.pages),
    {
    }

    /// Open a source from the server's reply to the request for its first
    /// bytes; more of them than were asked for are not kept. The source can
    /// seek just where the server says that it serves ranges.
    pub fn open(url: String, reply: HttpReply) -> (r: Result<Self, SourceError>)
        ensures
            r is Ok <==> 200 <= reply.status < 300,
            match r {
                Ok(s) => {
                    &&& is_success(reply.status)
                    &&& s.wf()
                    &&& s@.pos == 0
                    &&& s@.total_len == reply_length(reply)
                    &&& s@.accept_ranges == (reply.accept_ranges matches Some(t)
                        && same_ignoring_case(t@, "bytes"@))
                    &&& s@.pages == sliced(Seq::empty(), 0, first_bytes(reply.body@))
                    &&& s@.url == url@
                },
                Err(e) => !is_success(reply.status) && e == SourceError::Status(reply.status),
            },
    {
        if reply.status < 200 || reply.status >= 300 {
            return Err(SourceError::Status(reply.status));
        }
        let accept_ranges: bool = match &reply.accept_ranges {
            Some(t) => eq_ignore_ascii_case(t.as_str(), "bytes"),
            None => false,
        };
        let total_len: Option<u64> = parse_total_length(
            reply.status,
            reply.content_range.as_ref(),
            reply.content_length.as_ref(),
        );
        let mut pages: VecDeque<Page> = VecDeque::new();
        assert(page_views(pages@) =~= Seq::<PageView>::empty());
        let mut body: Vec<u8> = reply.body;
        if body.len() > PREFETCH_BYTES as usize {
            body.truncate(PREFETCH_BYTES as usize);
        }
        assert(body@ =~= first_bytes(reply.body@));
        slice_into_pages(0, &body, &mut pages);
        proof {
            slicing_keeps_starts_distinct(Seq::empty(), 0, body@);
            lemma_sliced_len(Seq::empty(), 0, body@, 4);
            assert(page_views(pages@).len() == pages@.len());
        }
        Ok(HttpMediaSource { url, pos: 0, total_len, accept_ranges, pages })
    }

    /// Address of the file.
    pub fn url(&self) -> (r: &str)
        ensures
            r@ == self@.url,
    {
        self.url.as_str()
    }

    /// Whether the server serves ranges, so that the source can seek.
    pub fn is_seekable(&self) -> (r: bool)
        ensures
            r == self@.accept_ranges,
    {
        self.accept_ranges
    }

    /// Length of the file, where the server reported it.
    pub fn byte_len(&self) -> (r: Option<u64>)
        ensures
            r == self@.total_len,
    {
        self.total_len
    }

    /// Offset of the next byte to read.
    pub fn position(&self) -> (r: u64)
        ensures
            r == self@.pos,
    {
        self.pos
    }

    /// How many pages are cached.
    pub fn cached_pages(&self) -> (r: usize)
        ensures
            r == self@.pages.len(),
    {
        self.pages.len()
    }

    /// Start a read into `buf`.
    ///
    /// A page that holds the next byte serves the read and becomes the most
    /// recently used one. Where no page does, nothing changes and the range
    /// to fetch is returned.
    pub fn begin_read(&mut self, buf: &mut [u8]) -> (r: ReadStep)
        requires
            old(self).wf(),
        ensures
            final(self).wf(),
            final(buf)@.len() == old(buf)@.len(),
            ({
                let s = old(self)@;
                let hit = first_covering(s.pages, s.pos as int);
                if old(buf)@.len() == 0 || (s.total_len matches Some(n) && s.pos >= n) {
                    r == ReadStep::Done(0) && final(self)@ == s && final(buf)@ == old(buf)@
                } else {
                    match hit {
                        Some(i) => {
                            let n = readable(s.pages[i], s.pos as int, old(buf)@.len() as int);
                            &&& r == ReadStep::Done(n as usize)
                            &&& 0 < n
                            &&& final(self)@ == advanced(
                                SourceState { pages: promoted(s.pages, i), ..s },
                                n,
                            )
                            &&& copied(s.pages[i], s.pos as int, n, old(buf)@, final(buf)@)
                        },
                        None => {
                            &&& final(self)@ == s
                            &&& final(buf)@ == old(buf)@
                            &&& r == match fetch_range(s.pos, s.total_len) {
                                Some((lo, hi)) => ReadStep::Fetch { lo, hi },
                                None => ReadStep::Failed(SourceError::UnexpectedEof),
                            }
                        },
                    }
                }
            }),
    {
        if buf.len() == 0 {
            return ReadStep::Done(0);
        }
        if let Some(n) = self.total_len {
            if self.pos >= n {
                return ReadStep::Done(0);
            }
        }
        let ghost views = page_views(self.pages@);
        match find_covering(&self.pages, self.pos) {
            Some(hit) => {
                proof {
                    lemma_first_covering(views, self.pos as int);
                    assert(views[hit as int] == self.pages@[hit as int]@);
                }
                let ghost old_pages = self.pages@;
                match self.pages.remove(hit) {
                    Some(p) => {
                        let n: usize = copy_out(&p, self.pos, buf);
                        self.pos = self.pos + n as u64;
                        self.pages.push_back(p);
                        proof {
                            assert(page_views(self.pages@) =~= promoted(views, hit as int));
                            lemma_promoted(old_pages, hit as int, self.pages@);
                        }
                        ReadStep::Done(n)
                    },
                    None => ReadStep::Done(0),
                }
            },
            None => match next_range(self.pos, self.total_len) {
                Some((lo, hi)) => ReadStep::Fetch { lo, hi },
                None => ReadStep::Failed(SourceError::UnexpectedEof),
            },
        }
    }

    /// Finish a read with the server's reply to the request for the bytes
    /// from `lo` on.
    ///
    /// The reply's pages enter the cache, the least recently used ones leave
    /// it, and a length that was unknown is taken from the reply. A reply
    /// that is no success changes nothing.
    pub fn finish_read(&mut self, lo: u64, reply: HttpReply, buf: &mut [u8]) -> (r: Result<
        usize,
        SourceError,
    >)
        requires
            old(self).wf(),
            lo + reply.body@.len() <= u64::MAX,
        ensures
            final(self).wf(),
            final(buf)@.len() == old(buf)@.len(),
            reply.status < 200 || reply.status >= 300 ==> r == Err::<usize, SourceError>(
                SourceError::Status(reply.status),
            ),
            reply.status == 206 && reply.body@.len() <= 262_144 && lo <= old(self)@.pos < lo
                + reply.body@.len() ==> r is Ok && (old(buf)@.len() > 0 ==> r->Ok_0 > 0),
            reply.status == 200 && lo <= old(self)@.pos < lo + 262_144 && old(self)@.pos
                < reply.body@.len() ==> r is Ok && (old(buf)@.len() > 0 ==> r->Ok_0 > 0),
            r matches Ok(n) ==> n <= old(buf)@.len() && final(self)@.pos == old(self)@.pos + n,
            r is Err ==> final(self)@.pos == old(self)@.pos && final(buf)@ == old(buf)@,
            ({
                let s = old(self)@;
                let t = after_reply(s, lo, reply);
                if !is_success(reply.status) {
                    &&& r == Err::<usize, SourceError>(SourceError::Status(reply.status))
                    &&& final(self)@ == s
                    &&& final(buf)@ == old(buf)@
                } else {
                    match first_covering(t.pages, s.pos as int) {
                        Some(i) => {
                            let n = readable(t.pages[i], s.pos as int, old(buf)@.len() as int);
                            &&& r == Ok::<usize, SourceError>(n as usize)
                            &&& final(self)@ == advanced(t, n)
                            &&& copied(t.pages[i], s.pos as int, n, old(buf)@, final(buf)@)
                        },
                        None => {
                            &&& r == Err::<usize, SourceError>(SourceError::NotCovered(s.pos))
                            &&& final(self)@ == t
                            &&& final(buf)@ == old(buf)@
                        },
                    }
                }
            }),
    {
        if reply.status < 200 || reply.status >= 300 {
            return Err(SourceError::Status(reply.status));
        }
        if self.total_len.is_none() {
            self.total_len =
            parse_total_length(
                reply.status,
                reply.content_range.as_ref(),
                reply.content_length.as_ref(),
            );
        }
        let ghost views = page_views(self.pages@);
        let part: Vec<u8> = take_part(reply, lo);
        proof {
            slicing_keeps_starts_distinct(views, lo as int, part@);
        }
        slice_into_pages(lo, &part, &mut self.pages);
        trim_pages(&mut self.pages);
        let ghost now = page_views(self.pages@);
        proof {
            let pos = self.pos;
            if reply.status == 206 && reply.body@.len() <= 262_144 && lo <= pos < lo
                + reply.body@.len() {
                replies_are_held_byte_by_byte(old(self)@, lo, reply, pos - lo);
            }
            if reply.status == 200 && lo <= pos < lo + 262_144 && pos < reply.body@.len() {
                replies_are_held_byte_by_byte(old(self)@, lo, reply, pos as int);
            }
            pages_are_found(now, pos as int);
        }
        match find_covering(&self.pages, self.pos) {
            Some(i) => {
                proof {
                    lemma_first_covering(now, self.pos as int);
                    assert(now[i as int] == self.pages@[i as int]@);
                }
                let n: usize = copy_out(&self.pages[i], self.pos, buf);
                self.pos = self.pos + n as u64;
                Ok(n)
            },
            None => Err(SourceError::NotCovered(self.pos)),
        }
    }

    /// Move the read position. Positions saturate at both ends; a position
    /// behind the end of the file is allowed and reads as its end.
    pub fn seek(&mut self, target: SeekTarget) -> (r: Result<u64, SourceError>)
        requires
            old(self).wf(),
        ensures
            final(self).wf(),
            match seek_position(old(self)@, target) {
                Some(p) => r == Ok::<u64, SourceError>(p) && final(self)@ == (SourceState {
                    pos: p,
                    ..old(self)@
                }),
                None => r == Err::<u64, SourceError>(SourceError::UnknownLength) && final(self)@
                    == old(self)@,
            },
    {
        let new_pos: u64 = match target {
            SeekTarget::Start(n) => n,
            SeekTarget::End(delta) => match self.total_len {
                Some(total) => moved(total, delta),
                None => {
                    return Err(SourceError::UnknownLength);
                },
            },
            SeekTarget::Current(delta) => moved(self.pos, delta),
        };
        self.pos = new_pos;
        Ok(new_pos)
    }
}

/// `from` moved by `delta`, within the range of offsets.
pub open spec fn moved_spec(from: u64, delta: i64) -> u64 {
    let to = from + delta;
    if to < 0 {
        0
    } else if to > u64::MAX {
        u64::MAX
    } else {
        to as u64
    }
}

/// Where a seek leads; nowhere from the end of a file of unknown length.
pub open spec fn seek_position(s: SourceState, target: SeekTarget) -> Option<u64> {
    match target {
        SeekTarget::Start(n) => Some(n),
        SeekTarget::End(delta) => match s.total_len {
            Some(total) => Some(moved_spec(total, delta)),
            None => None,
        },
        SeekTarget::Current(delta) => Some(moved_spec(s.pos, delta)),
    }
}

/// The state after a successful reply to the request for the bytes from `lo`
/// on.
pub open spec fn after_reply(s: SourceState, lo: u64, reply: HttpReply) -> SourceState {
    SourceState {
        total_len: match s.total_len {
            Some(n) => Some(n),
            None => reply_length(reply),
        },
        pages: kept(sliced(s.pages, lo as int, part_from(reply, lo))),
        ..s
    }
}

fn moved(from: u64, delta: i64) -> (r: u64)
    ensures
        r == moved_spec(from, delta),
{
    if delta >= 0 {
        from.saturating_add(delta as u64)
    } else {
        let back: u64 = (-(delta as i128)) as u64;
        from.saturating_sub(back)
    }
}

/// Copy the bytes of a page from `pos` on to the start of `buf`.
fn copy_out(p: &Page, pos: u64, buf: &mut [u8]) -> (n: usize)
    requires
        covers(p@, pos as int),
        p.start + p.bytes@.len() <= u64::MAX,
    ensures
        n == readable(p@, pos as int, old(buf)@.len() as int),
        n <= old(buf)@.len(),
        final(buf)@ == p.bytes@.subrange(pos - p.start, pos - p.start + n) + old(buf)@.skip(
            n as int,
        ),
{
    let within: usize = (pos - p.start) as usize;
    let available: usize = p.bytes.len() - within;
    let n: usize = if available < buf.len() {
        available
    } else {
        buf.len()
    };
    let mut i: usize = 0;
    assert(buf@ =~= p.bytes@.subrange(within as int, within as int) + old(buf)@.skip(0));
    while i < n
        invariant
            i <= n <= buf@.len(),
            within + n <= p.bytes@.len() == p.bytes.len(),
            buf@ == p.bytes@.subrange(within as int, within + i) + old(buf)@.skip(i as int),
            buf@.len() == old(buf)@.len(),
        decreases n - i,
    {
        let b: u8 = p.bytes[within + i];
        buf[i] = b;
        assert(buf@ =~= p.bytes@.subrange(within as int, within + i + 1) + old(buf)@.skip(
            i + 1,
        ));
        i += 1;
    }
    n
}

/// Choose the range to fetch.
fn next_range(offset: u64, total: Option<u64>) -> (r: Option<(u64, u64)>)
    ensures
        r == fetch_range(offset, total),
{
    let lo: u64 = offset / PAGE_SIZE * PAGE_SIZE;
    if lo > 0xFFFF_FFFF_FFFF_FFFF - (FETCH_BYTES - 1) {
        return None;
    }
    let end: u64 = lo + (FETCH_BYTES - 1);
    match total {
        Some(n) => {
            if n > 0 && n - 1 < end {
                if n - 1 < lo {
                    None
                } else {
                    Some((lo, n - 1))
                }
            } else {
                Some((lo, end))
            }
        },
        None => Some((lo, end)),
    }
}

/// Drop the least recently used pages that the cache has no room for.
fn trim_pages(pages: &mut VecDeque<Page>)
    requires
        fit(old(pages)@),
        distinct_starts(page_views(old(pages)@)),
    ensures
        page_views(final(pages)@) == kept(page_views(old(pages)@)),
        fit(final(pages)@),
        distinct_starts(page_views(final(pages)@)),
{
    let ghost all = pages@;
    let ghost mut dropped: int = 0;
    assert(all.skip(0) =~= all);
    while pages.len() > MAX_CACHED_PAGES
        invariant
            0 <= dropped <= all.len(),
            pages@ == all.skip(dropped),
            dropped > 0 ==> pages@.len() >= MAX_CACHED_PAGES,
        decreases pages@.len(),
    {
        let _old: Option<Page> = pages.pop_front();
        proof {
            assert(pages@ =~= all.skip(dropped + 1));
            dropped = dropped + 1;
        }
    }
    proof {
        let views = page_views(all);
        assert(page_views(pages@) =~= views.skip(dropped));
        assert(kept(views) =~= views.skip(dropped));
        assert forall|i: int| 0 <= i < pages@.len() implies (#[trigger] pages@[i]).start
            + pages@[i].bytes@.len() <= u64::MAX by {
            assert(pages@[i] == all[i + dropped]);
        }
        let k = views.skip(dropped);
        assert forall|i: int, j: int| 0 <= i < j < k.len() implies (#[trigger] k[i]).start != (
        #[trigger] k[j]).start by {
            assert(k[i] == views[i + dropped] && k[j] == views[j + dropped]);
        }
    }
}

proof fn lemma_promoted(pages: Seq<Page>, i: int, now: Seq<Page>)
    requires
        0 <= i < pages.len(),
        now == pages.remove(i).push(pages[i]),
        fit(pages),
        distinct_starts(page_views(pages)),
    ensures
        fit(now),
        distinct_starts(page_views(now)),
{
    let views = page_views(pages);
    let after = page_views(now);
    let n = pages.len() as int;
    assert forall|k: int| 0 <= k < n implies (#[trigger] now[k]).start + now[k].bytes@.len()
        <= u64::MAX by {
        let m = if k < i {
            k
        } else if k < n - 1 {
            k + 1
        } else {
            i
        };
        assert(now[k] == pages[m]);
    }
    assert forall|a: int, b: int| 0 <= a < b < n implies (#[trigger] after[a]).start != (
    #[trigger] after[b]).start by {
        let x = if a < i {
            a
        } else {
            a + 1
        };
        let y = if b < i {
            b
        } else if b < n - 1 {
            b + 1
        } else {
            i
        };
        assert(after[a] == views[x] && after[b] == views[y]);
        assert(x != y);
    }
}

/// A read that the cache serves returns the file's bytes at the read
/// position, if the cache agrees with the file; and the cache goes on
/// agreeing with it.
pub proof fn cached_reads_return_the_file(s: SourceState, file: Seq<u8>, i: int, n: int)
    requires
        agree(s.pages, file),
        first_covering(s.pages, s.pos as int) == Some(i),
        0 <= n <= readable(s.pages[i], s.pos as int, n),
    ensures
        0 <= i < s.pages.len(),
        s.pages[i].bytes.subrange(s.pos - s.pages[i].start, s.pos - s.pages[i].start + n)
            == file.subrange(s.pos as int, s.pos + n),
        agree(promoted(s.pages, i), file),
{
    lemma_first_covering(s.pages, s.pos as int);
    assert(page_agrees(s.pages[i], file));
    cached_bytes_are_the_files(s.pages[i], file, s.pos as int, n);
    let after = promoted(s.pages, i);
    assert forall|k: int| 0 <= k < after.len() implies page_agrees(#[trigger] after[k], file) by {
        let m = if k < i {
            k
        } else if k < after.len() - 1 {
            k + 1
        } else {
            i
        };
        assert(after[k] == s.pages[m]);
    }
}

/// A reply that is the whole file brings the file's bytes from `lo` on.
pub proof fn whole_replies_hold_the_range(reply: HttpReply, lo: u64, file: Seq<u8>)
    requires
        reply.status != STATUS_PARTIAL,
        reply.body@ == file,
        lo <= file.len(),
    ensures
        lo + part_from(reply, lo).len() <= file.len(),
        part_from(reply, lo) == file.subrange(lo as int, lo + part_from(reply, lo).len()),
{
    let part = part_from(reply, lo);
    assert(part =~= file.subrange(lo as int, lo + part.len()));
}

/// A reply that brings the file's bytes from `lo` on keeps the cache in
/// agreement with the file, within its bound of pages, and without two pages
/// for one beginning.
pub proof fn fetched_pages_agree_with_the_file(
    s: SourceState,
    lo: u64,
    reply: HttpReply,
    file: Seq<u8>,
)
    requires
        agree(s.pages, file),
        distinct_starts(s.pages),
        lo + part_from(reply, lo).len() <= file.len(),
        part_from(reply, lo) == file.subrange(lo as int, lo + part_from(reply, lo).len()),
    ensures
        agree(after_reply(s, lo, reply).pages, file),
        after_reply(s, lo, reply).pages.len() <= MAX_CACHED_PAGES,
        distinct_starts(after_reply(s, lo, reply).pages),
{
    let part = part_from(reply, lo);
    slicing_keeps_agreement(s.pages, lo as int, part, file);
    slicing_keeps_starts_distinct(s.pages, lo as int, part);
    let all = sliced(s.pages, lo as int, part);
    let k = kept(all);
    let d = all.len() - k.len();
    assert forall|i: int| 0 <= i < k.len() implies page_agrees(#[trigger] k[i], file) by {
        assert(k[i] == all[i + d]);
    }
    assert forall|i: int, j: int| 0 <= i < j < k.len() implies (#[trigger] k[i]).start != (
    #[trigger] k[j]).start by {
        assert(k[i] == all[i + d] && k[j] == all[j + d]);
    }
}

/// The range that a missed read asks for holds the byte that was missed, and
/// no byte behind the end of the file.
pub proof fn fetches_cover_the_miss(offset: u64, total: Option<u64>)
    ensures
        match fetch_range(offset, total) {
            Some((lo, hi)) => {
                &&& lo <= offset
                &&& lo <= hi
                &&& lo % PAGE_SIZE == 0
                &&& hi - lo < FETCH_BYTES
                &&& match total {
                    Some(n) => offset < n ==> offset <= hi < n,
                    None => offset <= hi,
                }
            },
            None => true,
        },
{
    let p = PAGE_SIZE as int;
    vstd::arithmetic::div_mod::lemma_fundamental_div_mod(offset as int, p);
    assert((offset / PAGE_SIZE * PAGE_SIZE) as int % p == 0) by {
        vstd::arithmetic::div_mod::lemma_mod_multiples_basic(offset as int / p, p);
    }
}

/// The pages into which a reply is cut.
spec fn cut(start: int, body: Seq<u8>) -> Seq<PageView>
    decreases body.len(),
{
    if body.len() == 0 {
        Seq::empty()
    } else {
        let take = if body.len() < PAGE_SIZE {
            body.len() as int
        } else {
            PAGE_SIZE as int
        };
        seq![PageView { start, bytes: body.take(take) }] + cut(start + take, body.skip(take))
    }
}

proof fn lemma_without_start_front(front: Seq<PageView>, back: Seq<PageView>, start: int)
    requires
        forall|i: int| 0 <= i < back.len() ==> (#[trigger] back[i]).start != start,
    ensures
        without_start(front + back, start) == without_start(front, start) + back,
    decreases front.len(),
{
    let all = front + back;
    if front.len() == 0 {
        assert(all =~= back);
        lemma_without_start_none(back, start);
        assert(without_start(front, start) + back =~= back);
    } else {
        assert(all[0] == front[0]);
        assert(all.drop_first() =~= front.drop_first() + back);
        if front[0].start != start {
            lemma_without_start_front(front.drop_first(), back, start);
            assert(seq![front[0]] + (without_start(front.drop_first(), start) + back) =~= (
            seq![front[0]] + without_start(front.drop_first(), start)) + back);
        }
    }
}

/// The pages of a reply stand at the end of the cache, in order.
proof fn lemma_sliced_ends(
    front: Seq<PageView>,
    back: Seq<PageView>,
    start: int,
    body: Seq<u8>,
) -> (rest: Seq<PageView>)
    requires
        forall|i: int| 0 <= i < back.len() ==> (#[trigger] back[i]).start < start,
    ensures
        sliced(front + back, start, body) == rest + back + cut(start, body),
    decreases body.len(),
{
    if body.len() == 0 {
        assert(front + back + cut(start, body) =~= front + back);
        front
    } else {
        let take = if body.len() < PAGE_SIZE {
            body.len() as int
        } else {
            PAGE_SIZE as int
        };
        let page = PageView { start, bytes: body.take(take) };
        lemma_without_start_front(front, back, start);
        let next = without_start(front, start);
        assert((next + back).push(page) =~= next + back.push(page));
        let rest = lemma_sliced_ends(next, back.push(page), start + take, body.skip(take));
        assert(rest + back.push(page) + cut(start + take, body.skip(take)) =~= rest + back + (
        seq![page] + cut(start + take, body.skip(take))));
        rest
    }
}

proof fn lemma_cut_len(start: int, body: Seq<u8>, n: nat)
    requires
        body.len() <= n * PAGE_SIZE,
    ensures
        cut(start, body).len() <= n,
    decreases body.len(),
{
    if body.len() > 0 {
        let take = if body.len() < PAGE_SIZE {
            body.len() as int
        } else {
            PAGE_SIZE as int
        };
        lemma_cut_len(start + take, body.skip(take), (n - 1) as nat);
    }
}

/// A page of the cut holds every byte of the reply.
proof fn lemma_cut_holds(start: int, body: Seq<u8>, k: int) -> (i: int)
    requires
        0 <= k < body.len(),
    ensures
        0 <= i < cut(start, body).len(),
        cut(start, body)[i].start <= start + k < cut(start, body)[i].start + cut(
            start,
            body,
        )[i].bytes.len(),
        cut(start, body)[i].bytes[start + k - cut(start, body)[i].start] == body[k],
    decreases body.len(),
{
    let take = if body.len() < PAGE_SIZE {
        body.len() as int
    } else {
        PAGE_SIZE as int
    };
    if k < take {
        assert(cut(start, body)[0] == PageView { start, bytes: body.take(take) });
        0
    } else {
        let i = lemma_cut_holds(start + take, body.skip(take), k - take);
        assert(cut(start, body)[i + 1] == cut(start + take, body.skip(take))[i]);
        i + 1
    }
}

/// Some page of a cache holds the byte `b` of the file at `offset`.
pub open spec fn held_at(pages: Seq<PageView>, offset: int, b: u8) -> bool {
    exists|i: int|
        0 <= i < pages.len() && (#[trigger] pages[i]).start <= offset < pages[i].start
            + pages[i].bytes.len() && pages[i].bytes[offset - pages[i].start] == b
}

proof fn lemma_slices_are_held(pages: Seq<PageView>, start: int, body: Seq<u8>, k: int)
    requires
        body.len() <= 16 * PAGE_SIZE,
        0 <= k < body.len(),
    ensures
        held_at(kept(sliced(pages, start, body)), start + k, body[k]),
{
    let none = Seq::<PageView>::empty();
    let rest = lemma_sliced_ends(pages, none, start, body);
    let new = cut(start, body);
    let all = sliced(pages, start, body);
    assert(pages + none =~= pages);
    assert(all =~= rest + new);
    lemma_cut_len(start, body, 16);
    let i = lemma_cut_holds(start, body, k);
    let d = all.len() - kept(all).len();
    let at = rest.len() + i - d;
    assert(kept(all)[at] == new[i]);
}

/// Every byte of a reply that brings the range asked for is held by a page
/// once the reply has been taken in, and so is every byte of that range where
/// the reply brings the whole file.
pub proof fn replies_are_held_byte_by_byte(s: SourceState, lo: u64, reply: HttpReply, k: int)
    requires
        0 <= k < reply.body@.len(),
    ensures
        reply.status == 206 && reply.body@.len() <= 262_144 ==> held_at(
            after_reply(s, lo, reply).pages,
            lo + k,
            reply.body@[k],
        ),
        reply.status != 206 && lo <= k < lo + 262_144 ==> held_at(
            after_reply(s, lo, reply).pages,
            k,
            reply.body@[k],
        ),
{
    let part = part_from(reply, lo);
    if reply.status == 206 && reply.body@.len() <= 262_144 {
        lemma_slices_are_held(s.pages, lo as int, part, k);
    }
    if reply.status != 206 && lo <= k < lo + 262_144 {
        assert(part[k - lo] == reply.body@[k]);
        lemma_slices_are_held(s.pages, lo as int, part, k - lo);
    }
}

/// Opening a source holds every byte of the reply, as far as the first bytes
/// of the file were asked for.
pub proof fn opening_holds_the_first_bytes(body: Seq<u8>, k: int)
    requires
        0 <= k < body.len(),
        k < 262_144,
    ensures
        held_at(sliced(Seq::empty(), 0, first_bytes(body)), k, body[k]),
        first_bytes(body).len() <= 262_144,
        first_bytes(body).is_prefix_of(body),
{
    let first = first_bytes(body);
    lemma_slices_are_held(Seq::empty(), 0, first, k);
    lemma_sliced_len(Seq::empty(), 0, first, 4);
    assert(first.is_prefix_of(body)) by {
        assert(first =~= body.take(first.len() as int));
    }
}

/// The first page that holds an offset is found, where one does.
pub proof fn pages_are_found(pages: Seq<PageView>, offset: int)
    ensures
        match first_covering(pages, offset) {
            Some(i) => 0 <= i < pages.len() && pages[i].start <= offset < pages[i].start
                + pages[i].bytes.len() && forall|j: int|
                0 <= j < i ==> !((#[trigger] pages[j]).start <= offset < pages[j].start
                    + pages[j].bytes.len()),
            None => forall|j: int|
                0 <= j < pages.len() ==> !((#[trigger] pages[j]).start <= offset < pages[j].start
                    + pages[j].bytes.len()),
        },
{
    lemma_first_covering(pages, offset);
    assert forall|j: int| 0 <= j < pages.len() implies (covers(#[trigger] pages[j], offset)
        <==> pages[j].start <= offset < pages[j].start + pages[j].bytes.len()) by {}
}

/// A read takes as many bytes as the page still has and the buffer has room
/// for, but no more.
pub proof fn reads_take_what_there_is(p: PageView, pos: int, room: int)
    requires
        p.start <= pos < p.start + p.bytes.len(),
        0 <= room,
    ensures
        0 <= readable(p, pos, room) <= room,
        pos + readable(p, pos, room) <= p.start + p.bytes.len(),
        readable(p, pos, room) == room || pos + readable(p, pos, room) == p.start + p.bytes.len(),
{
}

/// The bytes that a read leaves in the buffer are the page's at the read
/// position, and behind them stands what stood there before.
pub proof fn reads_copy_the_pages_bytes(
    p: PageView,
    pos: int,
    n: int,
    before: Seq<u8>,
    after: Seq<u8>,
)
    requires
        p.start <= pos,
        pos + n <= p.start + p.bytes.len(),
        copied(p, pos, n, before, after),
    ensures
        after.len() == before.len(),
        forall|k: int| 0 <= k < n ==> #[trigger] after[k] == p.bytes[pos - p.start + k],
        forall|k: int| n <= k < after.len() ==> #[trigger] after[k] == before[k],
{
}

/// Reading moves the position by what was read and keeps the rest.
pub proof fn reads_move_the_position(s: SourceState, n: int)
    requires
        0 <= n,
        s.pos + n <= u64::MAX,
    ensures
        advanced(s, n).pos == s.pos + n,
        advanced(s, n).url == s.url,
        advanced(s, n).total_len == s.total_len,
        advanced(s, n).accept_ranges == s.accept_ranges,
        advanced(s, n).pages == s.pages,
{
}

/// A page that serves a read becomes the last to leave the cache; the others
/// stay in order.
pub proof fn used_pages_go_last(pages: Seq<PageView>, i: int, j: int)
    requires
        0 <= i < pages.len(),
    ensures
        promoted(pages, i).len() == pages.len(),
        promoted(pages, i).last() == pages[i],
        0 <= j < i ==> promoted(pages, i)[j] == pages[j],
        i <= j < pages.len() - 1 ==> promoted(pages, i)[j] == pages[j + 1],
{
}

/// The cache keeps its last sixteen pages.
pub proof fn the_last_pages_are_kept(pages: Seq<PageView>, j: int)
    ensures
        pages.len() <= 16 ==> kept(pages) == pages,
        pages.len() > 16 ==> kept(pages).len() == 16,
        pages.len() > 16 && 0 <= j < 16 ==> kept(pages)[j] == pages[pages.len() - 16 + j],
{
}

/// A reply takes no page away that lies outside what it brings, as long as
/// the cache has room.
pub proof fn replies_keep_other_pages(s: SourceState, lo: u64, reply: HttpReply, p: PageView)
    requires
        s.pages.contains(p),
        s.pages.len() <= 12,
        reply.body@.len() <= 262_144 || reply.status != 206,
        p.start < lo || p.start >= lo + 262_144,
    ensures
        after_reply(s, lo, reply).pages.contains(p),
{
    let part = part_from(reply, lo);
    lemma_sliced_keeps(s.pages, lo as int, part, p);
    lemma_sliced_len(s.pages, lo as int, part, 4);
}

proof fn lemma_sliced_keeps(pages: Seq<PageView>, start: int, body: Seq<u8>, p: PageView)
    requires
        pages.contains(p),
        p.start < start || p.start >= start + body.len(),
    ensures
        sliced(pages, start, body).contains(p),
    decreases body.len(),
{
    if body.len() > 0 {
        let take = if body.len() < PAGE_SIZE {
            body.len() as int
        } else {
            PAGE_SIZE as int
        };
        lemma_without_start_keeps(pages, start, p);
        let w = without_start(pages, start);
        let next = w.push(PageView { start, bytes: body.take(take) });
        let i = choose|i: int| 0 <= i < w.len() && w[i] == p;
        assert(next[i] == p);
        lemma_sliced_keeps(next, start + take, body.skip(take), p);
    }
}

proof fn lemma_without_start_keeps(pages: Seq<PageView>, start: int, p: PageView)
    requires
        pages.contains(p),
        p.start != start,
    ensures
        without_start(pages, start).contains(p),
    decreases pages.len(),
{
    let i = choose|i: int| 0 <= i < pages.len() && pages[i] == p;
    let rest = pages.drop_first();
    if pages[0].start == start {
        assert(rest[i - 1] == p);
    } else {
        let w = without_start(rest, start);
        if i == 0 {
            assert((seq![pages[0]] + w)[0] == p);
        } else {
            assert(rest[i - 1] == p);
            lemma_without_start_keeps(rest, start, p);
            let k = choose|k: int| 0 <= k < w.len() && w[k] == p;
            assert((seq![pages[0]] + w)[k + 1] == p);
        }
    }
}

/// A fetch serves the read that missed. Where a cache that holds the file's
/// bytes has none for the read position, and the reply to the fetch brings
/// the range that was asked for, or the whole file, the read then finds a
/// page for its position, takes at least one byte, and what it leaves in the
/// buffer are the file's bytes.
pub proof fn fetched_reads_return_the_file(
    s: SourceState,
    file: Seq<u8>,
    lo: u64,
    hi: u64,
    reply: HttpReply,
    before: Seq<u8>,
    after: Seq<u8>,
    k: int,
)
    requires
        forall|i: int, j: int|
            0 <= i < s.pages.len() && 0 <= j < (#[trigger] s.pages[i]).bytes.len() ==> {
                &&& 0 <= s.pages[i].start + j < file.len()
                &&& #[trigger] s.pages[i].bytes[j] == file[s.pages[i].start + j]
            },
        forall|i: int| 0 <= i < s.pages.len() ==> 0 <= (#[trigger] s.pages[i]).start <= file.len(),
        distinct_starts(s.pages),
        fetch_range(s.pos, s.total_len) == Some((lo, hi)),
        s.pos < file.len(),
        s.total_len matches Some(n) ==> n == file.len(),
        file.len() <= u64::MAX,
        (reply.status == 206 && reply.body@ == file.subrange(
            lo as int,
            if hi < file.len() {
                hi + 1
            } else {
                file.len() as int
            },
        )) || (reply.status == 200 && reply.body@ == file),
        before.len() > 0,
    ensures
        ({
            let pages = after_reply(s, lo, reply).pages;
            let found = first_covering(pages, s.pos as int);
            &&& is_success(reply.status)
            &&& found matches Some(i)
            &&& 0 <= i < pages.len()
            &&& readable(pages[i], s.pos as int, before.len() as int) > 0
            &&& s.pos + readable(pages[i], s.pos as int, before.len() as int) <= file.len()
            &&& copied(
                pages[i],
                s.pos as int,
                readable(pages[i], s.pos as int, before.len() as int),
                before,
                after,
            ) && 0 <= k < readable(pages[i], s.pos as int, before.len() as int) ==> after[k]
                == file[s.pos + k]
        }),
{
    fetches_cover_the_miss(s.pos, s.total_len);
    let part = part_from(reply, lo);
    assert(agree(s.pages, file)) by {
        assert forall|i: int| 0 <= i < s.pages.len() implies page_agrees(
            #[trigger] s.pages[i],
            file,
        ) by {
            let p = s.pages[i];
            if p.bytes.len() > 0 {
                let j = p.bytes.len() - 1;
                assert(s.pages[i].bytes[j] == file[s.pages[i].start + j]);
            }
            assert(p.bytes =~= file.subrange(p.start, p.start + p.bytes.len())) by {
                assert forall|j: int| 0 <= j < p.bytes.len() implies p.bytes[j] == file[p.start
                    + j] by {
                    assert(s.pages[i].bytes[j] == file[s.pages[i].start + j]);
                }
            }
        }
    }
    assert(part =~= file.subrange(lo as int, lo + part.len()));
    fetched_pages_agree_with_the_file(s, lo, reply, file);
    let pages = after_reply(s, lo, reply).pages;
    if reply.status == 206 {
        replies_are_held_byte_by_byte(s, lo, reply, s.pos - lo);
    } else {
        replies_are_held_byte_by_byte(s, lo, reply, s.pos as int);
    }
    pages_are_found(pages, s.pos as int);
    let i = first_covering(pages, s.pos as int)->0;
    let n = readable(pages[i], s.pos as int, before.len() as int);
    assert(page_agrees(pages[i], file));
    cached_bytes_are_the_files(pages[i], file, s.pos as int, n);
    if copied(pages[i], s.pos as int, n, before, after) && 0 <= k < n {
        reads_copy_the_pages_bytes(pages[i], s.pos as int, n, before, after);
        assert(file.subrange(s.pos as int, s.pos + n)[k] == file[s.pos + k]);
        assert(pages[i].bytes.subrange(s.pos - pages[i].start, s.pos - pages[i].start + n)[k]
            == pages[i].bytes[s.pos - pages[i].start + k]);
    }
}

/// A missed read inside the file asks for something, and for as much as four
/// pages, from the start of the page with the byte on, or up to the end of
/// the file.
pub proof fn fetches_ask_for_four_pages(offset: u64, total: Option<u64>)
    ensures
        total matches Some(n) && offset < n && offset + 262_144 <= u64::MAX ==> fetch_range(
            offset,
            total,
        ) is Some,
        total is None && offset + 262_144 <= u64::MAX ==> fetch_range(offset, total) is Some,
        fetch_range(offset, total) matches Some((lo, hi)) ==> {
            &&& lo % 65_536 == 0
            &&& lo <= offset < lo + 65_536
            &&& hi == lo + 262_143 || (total matches Some(n) && hi == n - 1 && hi < lo + 262_143)
        },
        total matches Some(n) && offset >= n && n > 0 && offset / 65_536 > (n - 1) as u64 / 65_536
            ==> fetch_range(offset, total) is None,
{
    fetches_cover_the_miss(offset, total);
    let p = PAGE_SIZE as int;
    vstd::arithmetic::div_mod::lemma_fundamental_div_mod(offset as int, p);
}

/// Seeking goes to the position that is asked for, counted from the start,
/// the end or the current position, and stops at both ends of the range of
/// positions; only from an end that is not known it goes nowhere.
pub proof fn seeks_go_where_they_are_sent(s: SourceState, n: u64, delta: i64)
    ensures
        seek_position(s, SeekTarget::Start(n)) == Some(n),
        ({
            let to = s.pos + delta;
            &&& 0 <= to <= u64::MAX ==> seek_position(s, SeekTarget::Current(delta)) == Some(
                to as u64,
            )
            &&& to < 0 ==> seek_position(s, SeekTarget::Current(delta)) == Some(0u64)
            &&& to > u64::MAX ==> seek_position(s, SeekTarget::Current(delta)) == Some(u64::MAX)
        }),
        s.total_len is None ==> seek_position(s, SeekTarget::End(delta)) is None,
        s.total_len matches Some(len) ==> {
            let to = len + delta;
            &&& 0 <= to <= u64::MAX ==> seek_position(s, SeekTarget::End(delta)) == Some(to as u64)
            &&& to < 0 ==> seek_position(s, SeekTarget::End(delta)) == Some(0u64)
            &&& to > u64::MAX ==> seek_position(s, SeekTarget::End(delta)) == Some(u64::MAX)
        },
{
}

/// A length that is known stays; one that is not is taken from the reply.
/// Taking a reply in moves no position.
pub proof fn replies_tell_the_length_once(s: SourceState, lo: u64, reply: HttpReply)
    ensures
        s.total_len is Some ==> after_reply(s, lo, reply).total_len == s.total_len,
        s.total_len is None ==> after_reply(s, lo, reply).total_len == reply_length(reply),
        after_reply(s, lo, reply).pos == s.pos,
        after_reply(s, lo, reply).url == s.url,
        after_reply(s, lo, reply).accept_ranges == s.accept_ranges,
{
}

/// The length of the file is the number behind the last slash of the range
/// header; failing that, the length of a reply that holds the whole file, and
/// of no other.
pub proof fn lengths_are_read_from_the_headers(
    status: u16,
    head: Seq<char>,
    n: u64,
    content_range: Option<Seq<char>>,
    content_length: Option<Seq<char>>,
)
    ensures
        reported_length(status, Some(head.push('/') + decimal(n as nat)), content_length) == Some(n),
        reported_length(200, None, Some(decimal(n as nat))) == Some(n),
        status != 200 ==> reported_length(status, None, content_length) is None,
        reported_length(status, None, None) is None,
        status != 200 ==> reported_length(status, content_range, content_length)
            == reported_length(status, content_range, None),
{
    decimals_are_tight(n as nat);
    decimal_round_trip(n);
    the_last_part_is_found(head, '/', decimal(n as nat));
}

/// The length that a reply reports is read from its own headers.
pub proof fn replies_report_their_own_length(reply: HttpReply)
    ensures
        reply.content_range is None && reply.content_length is None ==> reply_length(reply) is None,
        reply.content_range matches Some(t) ==> (reply.content_length is None ==> reply_length(reply)
            == reported_length(reply.status, Some(t@), None)),
        reply.content_length matches Some(t) ==> (reply.content_range is None ==> reply_length(reply)
            == reported_length(reply.status, None, Some(t@))),
        reply.content_range matches Some(t) ==> (reply.content_length matches Some(u)
            ==> reply_length(reply) == reported_length(reply.status, Some(t@), Some(u@))),
{
}

/// The range header names both ends of the range, in decimal.
pub proof fn range_headers_name_both_ends(lo: u64, hi: u64)
    ensures
        "bytes="@.is_prefix_of(range_text(lo, hi)),
        after_last(range_text(lo, hi), '=') == Some(
            decimal(lo as nat).push('-') + decimal(hi as nat),
        ),
        after_last(range_text(lo, hi), '-') == Some(decimal(hi as nat)),
{
    reveal_strlit("bytes=");
    reveal_strlit("-");
    decimals_are_tight(lo as nat);
    decimals_are_tight(hi as nat);
    let a = decimal(lo as nat);
    let b = decimal(hi as nat);
    let text = range_text(lo, hi);
    the_last_part_is_found("bytes="@ + a, '-', b);
    assert(text =~= ("bytes="@ + a).push('-') + b);
    let both = a.push('-') + b;
    assert forall|i: int| 0 <= i < both.len() implies #[trigger] both[i] != '=' by {
        if i < a.len() {
            assert(both[i] == a[i]);
        } else if i > a.len() {
            assert(both[i] == b[i - a.len() - 1]);
        }
    }
    the_last_part_is_found("bytes="@.drop_last(), '=', both);
    assert(text =~= "bytes="@.drop_last().push('=') + both);
}

/// A read that the cache serves leaves the file's bytes in the buffer, where
/// the cache holds the file's bytes; and it goes on holding them.
pub proof fn served_reads_return_the_file(
    s: SourceState,
    file: Seq<u8>,
    before: Seq<u8>,
    after: Seq<u8>,
    k: int,
)
    requires
        forall|i: int, j: int|
            0 <= i < s.pages.len() && 0 <= j < (#[trigger] s.pages[i]).bytes.len() ==> {
                &&& 0 <= s.pages[i].start + j < file.len()
                &&& #[trigger] s.pages[i].bytes[j] == file[s.pages[i].start + j]
            },
    ensures
        first_covering(s.pages, s.pos as int) matches Some(i) ==> {
            let n = readable(s.pages[i], s.pos as int, before.len() as int);
            let later = promoted(s.pages, i);
            &&& before.len() > 0 ==> n > 0
            &&& copied(s.pages[i], s.pos as int, n, before, after) && 0 <= k < n ==> after[k]
                == file[s.pos + k]
            &&& forall|a: int, b: int|
                0 <= a < later.len() && 0 <= b < (#[trigger] later[a]).bytes.len()
                    ==> #[trigger] later[a].bytes[b] == file[later[a].start + b]
        },
{
    pages_are_found(s.pages, s.pos as int);
    if let Some(i) = first_covering(s.pages, s.pos as int) {
        let p = s.pages[i];
        let n = readable(p, s.pos as int, before.len() as int);
        reads_take_what_there_is(p, s.pos as int, before.len() as int);
        if copied(p, s.pos as int, n, before, after) && 0 <= k < n {
            reads_copy_the_pages_bytes(p, s.pos as int, n, before, after);
            assert(s.pages[i].bytes[s.pos - p.start + k] == file[p.start + (s.pos - p.start + k)]);
        }
        let later = promoted(s.pages, i);
        assert forall|a: int, b: int|
            0 <= a < later.len() && 0 <= b < (#[trigger] later[a]).bytes.len() implies
            #[trigger] later[a].bytes[b] == file[later[a].start + b] by {
            used_pages_go_last(s.pages, i, a);
            let m = if a < i {
                a
            } else if a < later.len() - 1 {
                a + 1
            } else {
                i
            };
            assert(later[a] == s.pages[m]);
            assert(s.pages[m].bytes[b] == file[s.pages[m].start + b]);
        }
    }
}

/// A page covers the bytes from its start on, as many as it holds.
pub proof fn pages_cover_their_bytes(p: PageView, offset: int)
    ensures
        covers(p, offset) <==> p.start <= offset < p.start + p.bytes.len(),
{
}

/// Success is a status from 200 up to 299.
pub proof fn success_is_the_two_hundreds(status: u16)
    ensures
        is_success(status) <==> 200 <= status <= 299,
{
}

} // verus!
