//! Paginator: the sequential listing stage.
//!
//! The paginator issues one listing request per page, absorbs each parsed
//! page into an accumulator, applies the requested item limit, and decides
//! from the continuation signal and the count whether another page must be
//! requested. The requests themselves are plain HTTP and live outside this
//! crate; every decision between them is made here, and `list_from_pages`
//! runs the same decisions over a sequence of already-fetched pages.

use crate::gist::{Gist, GistError, Gists, ParseFault};
use crate::text::{dec_of, seq_contains, str_contains, u32_to_string};
use vstd::prelude::*;
use vstd::utf8::encode_utf8;

verus! {

/// The default page size when no item limit is requested.
pub const DEFAULT_PER_PAGE: u32 = 100;

/// The listing URL for one page of one user's gists.
pub open spec fn listing_url(username: Seq<char>, per_page: nat, page: nat) -> Seq<char> {
    "https://api.github.com/users/"@ + username + "/gists?per_page="@ + dec_of(per_page)
        + "&page="@ + dec_of(page)
}

/// Builds the listing request URL for `username` with the given page size and
/// (1-based) page number.
pub fn get_url(username: &str, per_page: u32, page: u32) -> (url: String)
    ensures
        url@ == listing_url(username@, per_page as nat, page as nat),
{
    let mut url = String::from_str("https://api.github.com/users/");
    url.append(username);
    url.append("/gists?per_page=");
    let pp = u32_to_string(per_page);
    url.append(pp.as_str());
    url.append("&page=");
    let pg = u32_to_string(page);
    url.append(pg.as_str());
    proof {
        assert(url@ =~= listing_url(username@, per_page as nat, page as nat));
    }
    url
}

/// Whether a `link` response header value announces a further page: true
/// exactly when the header is present and contains a `rel="next` marker.
pub fn has_next_page(link: Option<&str>) -> (more: bool)
    ensures
        more == match link {
            Some(l) => seq_contains(l@, "rel=\"next"@),
            None => false,
        },
{
    match link {
        Some(l) => str_contains(l, "rel=\"next"),
        None => false,
    }
}

/// Where the listing loop stands: the next page to request (1-based), the
/// page size every request uses, and how many items are accumulated so far.
/// `page` only ever grows; the state is terminal once the stop rule holds.
pub struct PaginationState {
    pub page: u32,
    pub per_page: u32,
    pub items_so_far: usize,
}

impl PaginationState {
    pub open spec fn wf(self) -> bool {
        self.page >= 1
    }

    /// The state before the first request: page 1, nothing accumulated, and
    /// the page size defaulted to the requested limit if one is given.
    pub fn new(limit: Option<u32>) -> (state: PaginationState)
        ensures
            state.wf(),
            state.page == 1,
            state.items_so_far == 0,
            state.per_page == match limit {
                Some(l) => l,
                None => DEFAULT_PER_PAGE,
            },
    {
        let per_page = match limit {
            Some(l) => l,
            None => DEFAULT_PER_PAGE,
        };
        PaginationState { page: 1, per_page, items_so_far: 0 }
    }

    /// Moves to the next page number after a page that did not end the run.
    pub fn advance(&mut self, items_so_far: usize)
        requires
            old(self).wf(),
            old(self).page < u32::MAX,
        ensures
            final(self).wf(),
            final(self).page == old(self).page + 1,
            final(self).per_page == old(self).per_page,
            final(self).items_so_far == items_so_far,
    {
        self.page = self.page + 1;
        self.items_so_far = items_so_far;
    }
}

/// `items` cut down to the requested limit: unchanged when no limit is set
/// or the limit is not yet reached, else exactly the first `limit` items.
pub open spec fn apply_limit(items: Seq<Gist>, limit: Option<u32>) -> Seq<Gist> {
    match limit {
        Some(l) => if items.len() > l {
            items.subrange(0, l as int)
        } else {
            items
        },
        None => items,
    }
}

/// The stop rule: the listing ends exactly when the accumulated count has
/// reached a requested limit, or the continuation signal is absent.
pub open spec fn spec_stop(count: nat, limit: Option<u32>, has_next: bool) -> bool {
    (match limit {
        Some(l) => count >= l,
        None => false,
    }) || !has_next
}

/// Appends one parsed page to the accumulator and applies the limit: the new
/// accumulator is the old one followed by the page's items, truncated to
/// exactly `limit` when that many are now held. Returns whether the limit was
/// reached.
pub fn take_page(acc: &mut Gists, page_items: Gists, limit: Option<u32>) -> (reached: bool)
    ensures
        final(acc)@ == apply_limit(old(acc)@ + page_items@, limit),
        reached == match limit {
            Some(l) => old(acc)@.len() + page_items@.len() >= l,
            None => false,
        },
        final(acc)@.len() == match limit {
            Some(l) => if old(acc)@.len() + page_items@.len() >= l as nat {
                l as nat
            } else {
                old(acc)@.len() + page_items@.len()
            },
            None => old(acc)@.len() + page_items@.len(),
        },
{
    let mut incoming = page_items;
    acc.append(&mut incoming);
    match limit {
        Some(l) => {
            if acc.len() >= l as usize {
                acc.truncate(l as usize);
                true
            } else {
                false
            }
        },
        None => false,
    }
}

/// One page as the listing loop sees it after the transport and the parser
/// are done with it: the parsed items, or the parser's fault report, beside
/// the page's continuation signal and raw body.
pub struct PageData {
    pub items: Gists,
    pub has_next: bool,
}

/// What the body parser reported for one page: the parsed items, or the
/// 1-based line and column of the first faulty token.
pub enum ParsedBody {
    Items(Gists),
    Fault { line: usize, column: usize },
}

/// Absorbs one listing response into the accumulator.
///
/// A faulty body is fatal: the result is a `JsonError` carrying the raw body
/// verbatim and the fault position (line, column, and the offset of the
/// faulty token within the body), and the accumulator is left unchanged — a
/// well-formed body never yields this error. A parsed body is appended under
/// the limit, and the returned flag says whether the run stops here: exactly
/// when the limit is reached or the continuation signal is absent.
pub fn absorb_page(
    acc: &mut Gists,
    parsed: ParsedBody,
    raw: String,
    has_next: bool,
    limit: Option<u32>,
) -> (step: Result<bool, GistError>)
    ensures
        match parsed {
            ParsedBody::Items(items) => {
                &&& step matches Ok(stop)
                &&& final(acc)@ == apply_limit(old(acc)@ + items@, limit)
                &&& stop == spec_stop((old(acc)@.len() + items@.len()) as nat, limit, has_next)
            },
            ParsedBody::Fault { line, column } => {
                &&& final(acc)@ == old(acc)@
                &&& step matches Err(e)
                &&& e matches GistError::JsonError(fault, body)
                &&& body@ == raw@
                &&& fault.line == line
                &&& fault.column == column
                &&& fault.offset == fault_offset(encode_utf8(raw@), line as nat, column as nat)
            },
        },
{
    match parsed {
        ParsedBody::Items(items) => {
            let ghost old_count: nat = acc@.len() + items@.len();
            let reached = take_page(acc, items, limit);
            let stop = reached || !has_next;
            proof {
                assert(stop == spec_stop(old_count as nat, limit, has_next));
            }
            Ok(stop)
        },
        ParsedBody::Fault { line, column } => {
            let offset = body_offset(raw.as_str(), line, column);
            Err(GistError::JsonError(ParseFault { line, column, offset }, raw))
        },
    }
}

/// What a whole listing run returns over a given sequence of pages: the
/// items it accumulates on top of `acc` under the stop rule, and how many
/// pages it consumes. One page is always consumed; after a page on which the
/// stop rule holds, no further page is.
pub open spec fn run_model(pages: Seq<PageData>, limit: Option<u32>, acc: Seq<Gist>) -> (Seq<
    Gist,
>, nat)
    decreases pages.len(),
{
    if pages.len() == 0 {
        (acc, 0)
    } else {
        let merged = apply_limit(acc + pages[0].items@, limit);
        if spec_stop((acc.len() + pages[0].items@.len()) as nat, limit, pages[0].has_next) {
            (merged, 1)
        } else {
            let rest = run_model(pages.drop_first(), limit, merged);
            (rest.0, 1 + rest.1)
        }
    }
}

/// Runs the whole listing over pages already fetched and parsed, exactly as
/// the page-by-page loop would: pages are consumed in order, each absorbed
/// under the limit, until the stop rule holds or the pages run out. Returns
/// the accumulated items and how many pages were consumed (the number of
/// requests a live run would have issued).
pub fn list_from_pages(pages: Vec<PageData>, limit: Option<u32>) -> (r: (Gists, usize))
    ensures
        r.0@ == run_model(pages@, limit, Seq::empty()).0,
        r.1 as nat == run_model(pages@, limit, Seq::empty()).1,
{
    let ghost all_pages = pages@;
    let page_total: usize = pages.len();
    let mut rest = pages;
    let mut acc: Gists = Vec::new();
    let mut used: usize = 0;
    while rest.len() > 0
        invariant
            all_pages == pages@,
            all_pages.len() == page_total,
            used + rest@.len() == all_pages.len(),
            rest@ == all_pages.skip(used as int),
            run_model(all_pages, limit, Seq::empty()).0 == run_model(rest@, limit, acc@).0,
            run_model(all_pages, limit, Seq::empty()).1 == used + run_model(rest@, limit, acc@).1,
        decreases rest@.len(),
    {
        let ghost rest_before = rest@;
        let ghost acc_before = acc@;
        let page = rest.remove(0);
        proof {
            assert(rest_before.drop_first() =~= rest@);
            assert(rest@ =~= all_pages.skip(used + 1));
        }
        let has_next = page.has_next;
        let ghost page_items = page.items@;
        let reached = take_page(&mut acc, page.items, limit);
        let stop = reached || !has_next;
        proof {
            assert(rest_before[0].items@ == page_items);
            assert(stop == spec_stop((acc_before.len() + page_items.len()) as nat, limit, has_next));
            assert(acc@ == apply_limit(acc_before + page_items, limit));
            if stop {
                assert(run_model(rest_before, limit, acc_before).0 == acc@);
                assert(run_model(rest_before, limit, acc_before).1 == 1);
            } else {
                assert(run_model(rest_before, limit, acc_before).0 == run_model(
                    rest_before.drop_first(),
                    limit,
                    acc@,
                ).0);
                assert(run_model(rest_before, limit, acc_before).1 == 1 + run_model(
                    rest_before.drop_first(),
                    limit,
                    acc@,
                ).1);
            }
        }
        used = used + 1;
        if stop {
            return (acc, used);
        }
    }
    (acc, used)
}

/// A well-behaved server's page sequence: at least one page, every page but
/// the last announces a further one, and the last does not.
pub open spec fn server_wf(pages: Seq<PageData>) -> bool {
    &&& pages.len() > 0
    &&& forall|i: int| 0 <= i < pages.len() - 1 ==> (#[trigger] pages[i]).has_next
    &&& !pages.last().has_next
}

/// How many items the server holds in all: the items of every page summed.
pub open spec fn total_items(pages: Seq<PageData>) -> nat
    decreases pages.len(),
{
    if pages.len() == 0 {
        0
    } else {
        pages[0].items@.len() + total_items(pages.drop_first())
    }
}

/// How many items the first `k` pages hold together.
pub open spec fn count_through(pages: Seq<PageData>, k: int) -> nat
    decreases k,
{
    if k <= 0 {
        0
    } else {
        count_through(pages, k - 1) + pages[k - 1].items@.len()
    }
}

proof fn lemma_count_through_shift(pages: Seq<PageData>, k: int)
    requires
        pages.len() > 0,
        0 <= k < pages.len(),
    ensures
        count_through(pages.drop_first(), k) + pages[0].items@.len() == count_through(
            pages,
            k + 1,
        ),
    decreases k,
{
    assert(count_through(pages, 0) == 0);
    assert(count_through(pages.drop_first(), 0) == 0);
    if k > 0 {
        lemma_count_through_shift(pages, k - 1);
        assert(pages.drop_first()[k - 1] == pages[k]);
    }
}

/// For every requested limit, the listing returns exactly
/// `min(limit, availableItems)` items when a limit is set, and all available
/// items when none is, over any well-behaved page sequence.
pub proof fn lemma_run_length(pages: Seq<PageData>, limit: Option<u32>)
    requires
        server_wf(pages),
    ensures
        run_model(pages, limit, Seq::empty()).0.len() == match limit {
            Some(l) => if l <= total_items(pages) {
                l as nat
            } else {
                total_items(pages)
            },
            None => total_items(pages),
        },
{
    lemma_run_result(pages, limit);
    lemma_all_items_len(pages);
}

/// The items of every page, in the server's order.
pub open spec fn all_items(pages: Seq<PageData>) -> Seq<Gist>
    decreases pages.len(),
{
    if pages.len() == 0 {
        Seq::empty()
    } else {
        pages[0].items@ + all_items(pages.drop_first())
    }
}

/// `all_items` holds `total_items` many items.
pub proof fn lemma_all_items_len(pages: Seq<PageData>)
    ensures
        all_items(pages).len() == total_items(pages),
    decreases pages.len(),
{
    if pages.len() > 0 {
        lemma_all_items_len(pages.drop_first());
    }
}

proof fn lemma_run_result_acc(pages: Seq<PageData>, limit: Option<u32>, acc: Seq<Gist>)
    requires
        server_wf(pages),
    ensures
        run_model(pages, limit, acc).0 == apply_limit(acc + all_items(pages), limit),
    decreases pages.len(),
{
    let first = pages[0];
    let count0 = acc.len() + first.items@.len();
    let merged = apply_limit(acc + first.items@, limit);
    let whole = acc + all_items(pages);
    assert(all_items(pages) == first.items@ + all_items(pages.drop_first()));
    if spec_stop(count0 as nat, limit, first.has_next) {
        if first.has_next {
            let l = limit->0;
            assert(count0 >= l);
            assert((acc + first.items@).subrange(0, l as int) =~= whole.subrange(0, l as int));
        } else {
            assert(pages.len() == 1) by {
                if pages.len() > 1 {
                    assert(pages[0].has_next);
                }
            }
            assert(all_items(pages.drop_first()) == Seq::<Gist>::empty());
            assert(acc + first.items@ =~= whole);
            if limit is Some && count0 > limit->0 {
                let l = limit->0;
                assert((acc + first.items@).subrange(0, l as int) =~= whole.subrange(0, l as int));
            }
        }
    } else {
        assert(first.has_next);
        assert(pages.len() > 1) by {
            if pages.len() == 1 {
                assert(!pages.last().has_next);
            }
        }
        assert(server_wf(pages.drop_first())) by {
            assert(forall|i: int|
                0 <= i < pages.drop_first().len() - 1 ==> (#[trigger] pages.drop_first()[i])
                    == pages[i + 1]);
            assert(pages.drop_first().last() == pages.last());
        }
        assert(merged == acc + first.items@);
        lemma_run_result_acc(pages.drop_first(), limit, merged);
        assert(merged + all_items(pages.drop_first()) =~= whole);
    }
}

/// The listing returns exactly the items the server lists, in the server's
/// order, cut to the requested limit: over any well-behaved page sequence,
/// the run's result is the concatenation of all pages' items under
/// `apply_limit`.
pub proof fn lemma_run_result(pages: Seq<PageData>, limit: Option<u32>)
    requires
        server_wf(pages),
    ensures
        run_model(pages, limit, Seq::empty()).0 == apply_limit(all_items(pages), limit),
{
    lemma_run_result_acc(pages, limit, Seq::empty());
    assert(Seq::<Gist>::empty() + all_items(pages) =~= all_items(pages));
}

proof fn lemma_run_requests_acc(pages: Seq<PageData>, limit: Option<u32>, acc: Seq<Gist>)
    requires
        server_wf(pages),
    ensures
        ({
            let reqs = run_model(pages, limit, acc).1;
            &&& 1 <= reqs <= pages.len()
            &&& forall|k: int|
                1 <= k < reqs ==> !spec_stop(
                    (acc.len() + count_through(pages, k)) as nat,
                    limit,
                    (#[trigger] pages[k - 1]).has_next,
                )
            &&& spec_stop(
                (acc.len() + count_through(pages, reqs as int)) as nat,
                limit,
                pages[reqs - 1].has_next,
            )
        }),
    decreases pages.len(),
{
    let first = pages[0];
    let count0 = acc.len() + first.items@.len();
    let merged = apply_limit(acc + first.items@, limit);
    assert(count_through(pages, 0) == 0);
    assert(count_through(pages, 1) == first.items@.len());
    if spec_stop(count0 as nat, limit, first.has_next) {
        assert(run_model(pages, limit, acc).1 == 1);
    } else {
        assert(first.has_next);
        assert(pages.len() > 1) by {
            if pages.len() == 1 {
                assert(!pages.last().has_next);
            }
        }
        let tail = pages.drop_first();
        assert(server_wf(tail)) by {
            assert(forall|i: int|
                0 <= i < tail.len() - 1 ==> (#[trigger] tail[i]) == pages[i + 1]);
            assert(tail.last() == pages.last());
        }
        assert(merged == acc + first.items@);
        lemma_run_requests_acc(tail, limit, merged);
        let sub_reqs = run_model(tail, limit, merged).1;
        let reqs = run_model(pages, limit, acc).1;
        assert(reqs == 1 + sub_reqs);
        assert forall|k: int|
            1 <= k < reqs implies !spec_stop(
            (acc.len() + count_through(pages, k)) as nat,
            limit,
            (#[trigger] pages[k - 1]).has_next,
        ) by {
            if k == 1 {
                assert(!spec_stop(count0 as nat, limit, first.has_next));
            } else {
                lemma_count_through_shift(pages, k - 1);
                assert(!spec_stop(
                    (merged.len() + count_through(tail, k - 1)) as nat,
                    limit,
                    tail[k - 2].has_next,
                ));
                assert(tail[k - 2] == pages[k - 1]);
            }
        }
        lemma_count_through_shift(pages, sub_reqs as int);
        assert(tail[sub_reqs - 1] == pages[reqs - 1]);
    }
}

/// Pagination stops exactly at the stop rule: every page before the last one
/// requested was fetched while the rule still failed (the count was below
/// any requested limit and a continuation was announced), and after the last
/// page requested the rule holds — in particular, no further page is
/// requested once the accumulated count reaches the limit.
pub proof fn lemma_run_requests(pages: Seq<PageData>, limit: Option<u32>)
    requires
        server_wf(pages),
    ensures
        ({
            let reqs = run_model(pages, limit, Seq::empty()).1;
            &&& 1 <= reqs <= pages.len()
            &&& forall|k: int|
                1 <= k < reqs ==> !spec_stop(
                    count_through(pages, k),
                    limit,
                    (#[trigger] pages[k - 1]).has_next,
                )
            &&& spec_stop(count_through(pages, reqs as int), limit, pages[reqs - 1].has_next)
        }),
{
    lemma_run_requests_acc(pages, limit, Seq::empty());
    let reqs = run_model(pages, limit, Seq::empty()).1;
    assert forall|k: int|
        1 <= k < reqs implies !spec_stop(
        count_through(pages, k),
        limit,
        (#[trigger] pages[k - 1]).has_next,
    ) by {
        assert(!spec_stop(
            (Seq::<Gist>::empty().len() + count_through(pages, k)) as nat,
            limit,
            pages[k - 1].has_next,
        ));
    }
}

/// The index in `bytes` where its 1-based `line`-th line starts, scanning
/// from index `i`; the end of `bytes` when there are fewer lines.
pub open spec fn line_start_from(bytes: Seq<u8>, i: nat, line: nat) -> nat
    decreases bytes.len() - i,
{
    if line <= 1 || i >= bytes.len() {
        i
    } else if bytes[i as int] == 10u8 {
        line_start_from(bytes, i + 1, (line - 1) as nat)
    } else {
        line_start_from(bytes, i + 1, line)
    }
}

/// The byte offset of the token a parser fault at 1-based `line` and
/// `column` points at, within the body's UTF-8 bytes, clamped to the body's
/// byte length. The parser counts the column in bytes from the line's start.
pub open spec fn fault_offset(bytes: Seq<u8>, line: nat, column: nat) -> nat {
    let start = line_start_from(bytes, 0, line);
    let raw = start + (if column >= 1 { (column - 1) as nat } else { 0 });
    if raw <= bytes.len() {
        raw
    } else {
        bytes.len()
    }
}

/// Computes `fault_offset` over the bytes of a body held as a string.
pub fn body_offset(text: &str, line: usize, column: usize) -> (offset: usize)
    ensures
        offset == fault_offset(encode_utf8(text@), line as nat, column as nat),
{
    let bytes: Vec<u8> = text.as_bytes_vec();
    let len: usize = bytes.len();
    let mut i: usize = 0;
    let mut remaining: usize = line;
    while remaining > 1 && i < len
        invariant
            bytes@ == encode_utf8(text@),
            len == bytes@.len(),
            0 <= i <= len,
            line_start_from(bytes@, 0, line as nat) == line_start_from(
                bytes@,
                i as nat,
                remaining as nat,
            ),
        decreases len - i,
    {
        if bytes[i] == 10u8 {
            remaining = remaining - 1;
        }
        i = i + 1;
    }
    proof {
        assert(line_start_from(bytes@, i as nat, remaining as nat) == i);
    }
    let column_shift: usize = if column >= 1 {
        column - 1
    } else {
        0
    };
    if column_shift <= len - i {
        i + column_shift
    } else {
        len
    }
}

/// The characters of the body surrounding a position given as a character
/// index: up to fifty before it and fifty from it on, for diagnostics.
pub fn context_snippet<'a>(text: &'a str, offset: usize) -> (snippet: &'a str)
    requires
        offset <= text@.len(),
    ensures
        snippet@ == text@.subrange(
            if offset >= 50 {
                offset - 50
            } else {
                0
            },
            if offset + 50 <= text@.len() {
                offset + 50
            } else {
                text@.len() as int
            },
        ),
{
    let len: usize = text.unicode_len();
    let start: usize = if offset >= 50 {
        offset - 50
    } else {
        0
    };
    let end: usize = if len - offset >= 50 {
        offset + 50
    } else {
        len
    };
    text.substring_char(start, end)
}

} // verus!
