//! Reading a search-result page: one record per result item, in document
//! order, either all-or-nothing (bulk) or skipping the items that cannot be
//! read (streaming); and assembling a search result from a fetched page and
//! the result cache.
use crate::cache::{after_insert, expiry, keys_distinct, lookup, CacheEntry, CacheModel};
use crate::error::{DlsiteError, Result};
use crate::html::{
    first_attr, first_attr_of, first_text, first_text_of, found_view, select_html, selected_html,
};
use crate::item::{
    item_outcome, item_problem, opt_view, search_item_from_raw, RawSearchItem, SearchProductItem,
    WorkType,
};
use crate::selectors::{
    age_category, age_sel, author, author_sel, creator_link, creator_sel, dl_count, dl_sel,
    items_sel, maker_name, maker_sel, original_price, price_sel, product_id_element,
    product_id_sel, rating, rating_sel, review_count, review_sel, search_result_items,
    strike_sel, thumbnail_image, thumbnail_sel, title_sel, work_category, category_sel,
    work_price, work_title,
};
use vstd::prelude::*;

verus! {

/// The parts of a fetched search page: the HTML block of result items and
/// the total number of results the site reports.
#[derive(Clone, Debug)]
pub struct SearchEnvelope {
    pub search_result: String,
    pub count: i32,
}

/// The result of one search.
#[derive(Debug)]
pub struct SearchResult {
    pub products: Vec<SearchProductItem>,
    pub count: i32,
    pub query_path: String,
}

/// What the streaming mode delivers for one page: the records that could be
/// read, in order, the errors of those that could not, and the reported total.
#[derive(Debug)]
pub struct StreamedPage {
    pub items: Vec<SearchProductItem>,
    pub skipped: Vec<DlsiteError>,
    pub count: i32,
}

/// All-or-nothing: every record in order, or the first error.
pub open spec fn bulk(rs: Seq<Result<SearchProductItem>>) -> core::result::Result<
    Seq<SearchProductItem>,
    DlsiteError,
>
    decreases rs.len(),
{
    if rs.len() == 0 {
        Ok(Seq::empty())
    } else {
        match bulk(rs.drop_last()) {
            Err(e) => Err(e),
            Ok(s) => match rs.last() {
                Ok(x) => Ok(s.push(x)),
                Err(e) => Err(e),
            },
        }
    }
}

/// The records among per-item results, in order.
pub open spec fn oks(rs: Seq<Result<SearchProductItem>>) -> Seq<SearchProductItem>
    decreases rs.len(),
{
    if rs.len() == 0 {
        Seq::empty()
    } else {
        match rs.last() {
            Ok(x) => oks(rs.drop_last()).push(x),
            Err(_) => oks(rs.drop_last()),
        }
    }
}

/// The errors among per-item results, in order.
pub open spec fn errs(rs: Seq<Result<SearchProductItem>>) -> Seq<DlsiteError>
    decreases rs.len(),
{
    if rs.len() == 0 {
        Seq::empty()
    } else {
        match rs.last() {
            Ok(_) => errs(rs.drop_last()),
            Err(e) => errs(rs.drop_last()).push(e),
        }
    }
}

/// Whether `r` is what the bulk mode gives for the per-item results `rs`.
pub open spec fn bulk_outcome(
    r: Result<Vec<SearchProductItem>>,
    rs: Seq<Result<SearchProductItem>>,
) -> bool {
    match bulk(rs) {
        Ok(s) => r matches Ok(v) && v@ == s,
        Err(e) => r == Err::<Vec<SearchProductItem>, DlsiteError>(e),
    }
}

/// The first of a found-and-read value, flattened.
pub open spec fn flat(o: Option<Option<Seq<char>>>) -> Option<Seq<char>> {
    match o {
        Some(Some(t)) => Some(t),
        _ => None,
    }
}

/// The views of an optional pair of optional strings.
pub open spec fn pair_view(o: Option<(Option<String>, Option<String>)>) -> Option<
    (Option<Seq<char>>, Option<Seq<char>>),
> {
    match o {
        Some((a, b)) => Some((opt_view(a), opt_view(b))),
        None => None,
    }
}

/// The creator's name in an item: the first text of the first link inside
/// the first author element.
pub open spec fn author_name_of(h: Seq<char>) -> Option<Seq<char>> {
    let authors = selected_html(h, author_sel());
    if authors.len() > 0 {
        flat(first_text_of(authors[0], creator_sel()))
    } else {
        None
    }
}

/// Whether `raw` holds what the HTML `h` of one result item holds.
pub open spec fn raw_from_html(raw: RawSearchItem, h: Seq<char>) -> bool {
    &&& found_view(raw.product_id) == first_attr_of(h, product_id_sel(), "data-product_id"@)
    &&& pair_view(raw.maker) == match first_text_of(h, maker_sel()) {
        Some(t) => Some((t, flat(first_attr_of(h, maker_sel(), "href"@)))),
        None => None,
    }
    &&& pair_view(raw.author) == match first_attr_of(h, author_sel(), "class"@) {
        Some(c) => Some((author_name_of(h), c)),
        None => None,
    }
    &&& found_view(raw.price) == first_text_of(h, price_sel())
    &&& found_view(raw.strike_price) == first_text_of(h, strike_sel())
    &&& found_view(raw.title) == first_attr_of(h, title_sel(), "title"@)
    &&& found_view(raw.age) == first_attr_of(h, age_sel(), "title"@)
    &&& found_view(raw.dl_count) == first_text_of(h, dl_sel())
    &&& found_view(raw.review_count) == first_text_of(h, review_sel())
    &&& found_view(raw.work_category) == first_attr_of(h, category_sel(), "class"@)
    &&& pair_view(raw.thumbnail) == match first_attr_of(h, thumbnail_sel(), "src"@) {
        Some(src) => Some((src, flat(first_attr_of(h, thumbnail_sel(), "data-src"@)))),
        None => None,
    }
    &&& found_view(raw.rating) == first_attr_of(h, rating_sel(), "class"@)
}

/// Whether `r` is what parsing the item HTML `h` gives. Every part of the
/// record (or the error message) is fixed by `h`: [`item_outcome`] depends on
/// the views of `raw` alone, and [`raw_from_html`] fixes all of them.
pub open spec fn item_result_of(r: Result<SearchProductItem>, h: Seq<char>) -> bool {
    exists|raw: RawSearchItem| raw_from_html(raw, h) && item_outcome(r, raw)
}

/// The HTML of the result items of a page's HTML block, in document order.
pub open spec fn item_fragments(html: Seq<char>) -> Seq<Seq<char>> {
    selected_html(html, items_sel())
}

/// Whether `rs` are the per-item results of the page HTML `html`: one for
/// each result item, in document order.
pub open spec fn page_results(rs: Seq<Result<SearchProductItem>>, html: Seq<char>) -> bool {
    &&& rs.len() == item_fragments(html).len()
    &&& forall|i: int|
        0 <= i < rs.len() ==> item_result_of(#[trigger] rs[i], item_fragments(html)[i])
}

proof fn lemma_bulk_err_sticks(rs: Seq<Result<SearchProductItem>>, n: int)
    requires
        0 <= n <= rs.len(),
        bulk(rs.subrange(0, n)) is Err,
    ensures
        bulk(rs) == bulk(rs.subrange(0, n)),
    decreases rs.len() - n,
{
    if n < rs.len() {
        let p = rs.subrange(0, n + 1);
        assert(p.drop_last() =~= rs.subrange(0, n));
        lemma_bulk_err_sticks(rs, n + 1);
    } else {
        assert(rs.subrange(0, n) =~= rs);
    }
}

/// The value read from a found element, if both the element and the value
/// are there.
fn inner(o: Option<Option<String>>) -> (r: Option<String>)
    ensures
        opt_view(r) == flat(found_view(o)),
{
    match o {
        Some(Some(t)) => Some(t),
        _ => None,
    }
}

/// Reads what the HTML of one result item holds.
pub fn extract_raw_item(h: &str) -> (r: RawSearchItem)
    ensures
        raw_from_html(r, h@),
{
    let product_id = first_attr(h, product_id_element(), "data-product_id");
    let maker = match first_text(h, maker_name()) {
        Some(t) => Some((t, inner(first_attr(h, maker_name(), "href")))),
        None => None,
    };
    let author = match first_attr(h, author(), "class") {
        Some(class) => {
            let authors = select_html(h, author());
            let name = if authors.len() > 0 {
                inner(first_text(authors[0].as_str(), creator_link()))
            } else {
                None
            };
            Some((name, class))
        },
        None => None,
    };
    let thumbnail = match first_attr(h, thumbnail_image(), "src") {
        Some(src) => Some((src, inner(first_attr(h, thumbnail_image(), "data-src")))),
        None => None,
    };
    RawSearchItem {
        product_id,
        maker,
        author,
        price: first_text(h, work_price()),
        strike_price: first_text(h, original_price()),
        title: first_attr(h, work_title(), "title"),
        age: first_attr(h, age_category(), "title"),
        dl_count: first_text(h, dl_count()),
        review_count: first_text(h, review_count()),
        work_category: first_attr(h, work_category(), "class"),
        thumbnail,
        rating: first_attr(h, rating(), "class"),
    }
}

/// Parses the HTML of one result item into a record; see
/// [`search_item_from_raw`] for the rules.
pub fn parse_search_item_html(item_html: &str) -> (r: Result<SearchProductItem>)
    ensures
        item_result_of(r, item_html@),
{
    let raw = extract_raw_item(item_html);
    let r = search_item_from_raw(raw);
    assert(raw_from_html(raw, item_html@) && item_outcome(r, raw));
    r
}

/// Splits a page's HTML block into the HTML of its result items, in
/// document order.
pub fn split_search_items(html: &str) -> (r: Vec<String>)
    ensures
        r@.len() == item_fragments(html@).len(),
        forall|i: int| 0 <= i < r@.len() ==> #[trigger] r@[i]@ == item_fragments(html@)[i],
{
    select_html(html, search_result_items())
}

/// Parses every result item of a page's HTML block, in document order.
pub fn parse_search_results(html: &str) -> (r: Vec<Result<SearchProductItem>>)
    ensures
        page_results(r@, html@),
{
    let fragments = split_search_items(html);
    let ghost frags = item_fragments(html@);
    let mut results: Vec<Result<SearchProductItem>> = Vec::new();
    let mut i: usize = 0;
    while i < fragments.len()
        invariant
            i <= fragments.len(),
            frags == item_fragments(html@),
            fragments@.len() == frags.len(),
            forall|j: int| 0 <= j < fragments@.len() ==> #[trigger] fragments@[j]@ == frags[j],
            results@.len() == i,
            forall|j: int| 0 <= j < i ==> item_result_of(#[trigger] results@[j], frags[j]),
        decreases fragments.len() - i,
    {
        let r = parse_search_item_html(fragments[i].as_str());
        let ghost before = results@;
        results.push(r);
        proof {
            assert(fragments@[i as int]@ == frags[i as int]);
            assert forall|j: int| 0 <= j < i + 1 implies item_result_of(
                #[trigger] results@[j],
                frags[j],
            ) by {
                if j < i {
                    assert(results@[j] == before[j]);
                }
            }
        }
        i = i + 1;
    }
    results
}

/// Bulk mode over per-item results: every record in order, or the first
/// error and no record.
pub fn collect_all(results: Vec<Result<SearchProductItem>>) -> (r: Result<Vec<SearchProductItem>>)
    ensures
        bulk_outcome(r, results@),
{
    let ghost rs = results@;
    let total = results.len();
    let mut rest = results;
    let mut items: Vec<SearchProductItem> = Vec::new();
    let mut i: usize = 0;
    proof {
        assert(rs.subrange(0, 0) =~= Seq::<Result<SearchProductItem>>::empty());
        assert(rs.subrange(0, rs.len() as int) =~= rs);
    }
    while rest.len() > 0
        invariant
            i <= rs.len(),
            rs.len() == total,
            rs == results@,
            rest@ == rs.subrange(i as int, rs.len() as int),
            bulk(rs.subrange(0, i as int)) == Ok::<Seq<SearchProductItem>, DlsiteError>(items@),
        decreases rest.len(),
    {
        let r = rest.remove(0);
        let ghost p = rs.subrange(0, i + 1);
        proof {
            assert(p.drop_last() =~= rs.subrange(0, i as int));
            assert(p.last() == r);
            assert(rest@ =~= rs.subrange(i + 1, rs.len() as int));
        }
        match r {
            Ok(x) => {
                items.push(x);
            },
            Err(e) => {
                proof {
                    assert(bulk(p) == Err::<Seq<SearchProductItem>, DlsiteError>(e));
                    lemma_bulk_err_sticks(rs, i + 1);
                }
                return Err(e);
            },
        }
        i = i + 1;
    }
    proof {
        assert(rs.subrange(0, i as int) =~= rs);
    }
    Ok(items)
}

/// Streaming mode over per-item results: the records that could be read, in
/// order, and the errors of the items that were skipped.
pub fn collect_parsed(results: Vec<Result<SearchProductItem>>) -> (r: (
    Vec<SearchProductItem>,
    Vec<DlsiteError>,
))
    ensures
        r.0@ == oks(results@),
        r.1@ == errs(results@),
{
    let ghost rs = results@;
    let total = results.len();
    let mut rest = results;
    let mut items: Vec<SearchProductItem> = Vec::new();
    let mut skipped: Vec<DlsiteError> = Vec::new();
    let mut i: usize = 0;
    proof {
        assert(rs.subrange(0, 0) =~= Seq::<Result<SearchProductItem>>::empty());
        assert(rs.subrange(0, rs.len() as int) =~= rs);
    }
    while rest.len() > 0
        invariant
            i <= rs.len(),
            rs.len() == total,
            rs == results@,
            rest@ == rs.subrange(i as int, rs.len() as int),
            items@ == oks(rs.subrange(0, i as int)),
            skipped@ == errs(rs.subrange(0, i as int)),
        decreases rest.len(),
    {
        let r = rest.remove(0);
        let ghost p = rs.subrange(0, i + 1);
        proof {
            assert(p.drop_last() =~= rs.subrange(0, i as int));
            assert(p.last() == r);
            assert(rest@ =~= rs.subrange(i + 1, rs.len() as int));
        }
        match r {
            Ok(x) => {
                items.push(x);
            },
            Err(e) => {
                skipped.push(e);
            },
        }
        i = i + 1;
    }
    proof {
        assert(rs.subrange(0, i as int) =~= rs);
    }
    (items, skipped)
}

/// Parses a page's HTML block in bulk mode: all records in document order,
/// or the error of the first item that cannot be read.
pub fn parse_search_html(html: &str) -> (r: Result<Vec<SearchProductItem>>)
    ensures
        exists|rs: Seq<Result<SearchProductItem>>| page_results(rs, html@) && bulk_outcome(r, rs),
{
    let results = parse_search_results(html);
    let ghost rs = results@;
    let r = collect_all(results);
    assert(page_results(rs, html@) && bulk_outcome(r, rs));
    r
}

/// Parses a fetched page in streaming mode: items that cannot be read are
/// skipped (their errors are handed back for reporting) and the total count
/// is the one the page reports, not the number of records read.
pub fn stream_search_page(envelope: &SearchEnvelope) -> (r: StreamedPage)
    ensures
        r.count == envelope.count,
        exists|rs: Seq<Result<SearchProductItem>>|
            page_results(rs, envelope.search_result@) && r.items@ == oks(rs) && r.skipped@
                == errs(rs),
{
    let results = parse_search_results(envelope.search_result.as_str());
    let ghost rs = results@;
    let (items, skipped) = collect_parsed(results);
    let r = StreamedPage { items, skipped, count: envelope.count };
    assert(page_results(rs, envelope.search_result@) && r.items@ == oks(rs) && r.skipped@ == errs(
        rs,
    ));
    r
}

/// Whether `r` is the result of a search for `query_path` that missed the
/// result cache: the page's records in bulk mode with its count, or the
/// page's bulk-mode error.
pub open spec fn miss_outcome(
    r: Result<SearchResult>,
    query_path: String,
    envelope: SearchEnvelope,
) -> bool {
    exists|rs: Seq<Result<SearchProductItem>>|
        {
            &&& page_results(rs, envelope.search_result@)
            &&& match bulk(rs) {
                Ok(s) => r matches Ok(res) && res.products@ == s && res.count == envelope.count
                    && res.query_path == query_path,
                Err(e) => r == Err::<SearchResult, DlsiteError>(e),
            }
        }
}

/// The result of a search that missed the result cache, from the page's
/// bulk-mode parse `parsed` (sequential or parallel).
pub fn search_miss_outcome(
    query_path: String,
    count: i32,
    parsed: Result<Vec<SearchProductItem>>,
) -> (r: Result<SearchResult>)
    ensures
        match parsed {
            Ok(products) => r matches Ok(res) && res.products == products && res.count == count
                && res.query_path == query_path,
            Err(e) => r == Err::<SearchResult, DlsiteError>(e),
        },
{
    match parsed {
        Ok(products) => Ok(SearchResult { products, count, query_path }),
        Err(e) => Err(e),
    }
}

/// Assembles the result of a search for `query_path` from the fetched page
/// and what the result cache held. On a cache hit the cached records are
/// returned with the freshly reported count and nothing is parsed; on a miss
/// the page is parsed in bulk mode.
pub fn search_outcome(
    query_path: String,
    cached: Option<Vec<SearchProductItem>>,
    envelope: SearchEnvelope,
) -> (r: Result<SearchResult>)
    ensures
        cached is Some ==> (r matches Ok(res) && res.products == cached->0 && res.count
            == envelope.count && res.query_path == query_path),
        cached is None ==> miss_outcome(r, query_path, envelope),
{
    match cached {
        Some(products) => Ok(SearchResult { products, count: envelope.count, query_path }),
        None => {
            let parsed = parse_search_html(envelope.search_result.as_str());
            let r = search_miss_outcome(query_path, envelope.count, parsed);
            assert(miss_outcome(r, query_path, envelope));
            r
        },
    }
}

/// On a page with exactly one item that cannot be read, bulk mode fails with
/// that item's error and yields no record, while streaming mode yields every
/// other record, in order, and skips that one.
pub proof fn lemma_one_bad_item(rs: Seq<Result<SearchProductItem>>, k: int)
    requires
        0 <= k < rs.len(),
        rs[k] is Err,
        forall|j: int| 0 <= j < rs.len() && j != k ==> #[trigger] rs[j] is Ok,
    ensures
        bulk(rs) == Err::<Seq<SearchProductItem>, DlsiteError>(rs[k]->Err_0),
        oks(rs) == rs.remove(k).map_values(|r: Result<SearchProductItem>| r->Ok_0),
        oks(rs).len() == rs.len() - 1,
        errs(rs) == seq![rs[k]->Err_0],
    decreases rs.len(),
{
    let last = rs.len() - 1;
    let init = rs.drop_last();
    if k == last {
        lemma_all_ok(init);
        assert(rs.remove(k) =~= init);
    } else {
        lemma_one_bad_item(init, k);
        assert(rs.remove(k) =~= init.remove(k).push(rs[last]));
        assert(oks(rs) =~= rs.remove(k).map_values(|r: Result<SearchProductItem>| r->Ok_0));
    }
}

proof fn lemma_all_ok(rs: Seq<Result<SearchProductItem>>)
    requires
        forall|j: int| 0 <= j < rs.len() ==> #[trigger] rs[j] is Ok,
    ensures
        bulk(rs) == Ok::<Seq<SearchProductItem>, DlsiteError>(
            rs.map_values(|r: Result<SearchProductItem>| r->Ok_0),
        ),
        oks(rs) == rs.map_values(|r: Result<SearchProductItem>| r->Ok_0),
        errs(rs) == Seq::<DlsiteError>::empty(),
    decreases rs.len(),
{
    if rs.len() > 0 {
        let init = rs.drop_last();
        lemma_all_ok(init);
        assert(rs.map_values(|r: Result<SearchProductItem>| r->Ok_0) =~= init.map_values(
            |r: Result<SearchProductItem>| r->Ok_0,
        ).push(rs.last()->Ok_0));
    } else {
        assert(rs.map_values(|r: Result<SearchProductItem>| r->Ok_0) =~= Seq::<
            SearchProductItem,
        >::empty());
    }
}

/// A search repeated within the result cache's time-to-live finds the records
/// that the first search stored under the same query path, so it is answered
/// from the cache (see [`search_outcome`]) without parsing the page again.
pub proof fn lemma_repeat_search_hits_cache(
    v: CacheModel<Vec<SearchProductItem>>,
    query_path: Seq<char>,
    items: Vec<SearchProductItem>,
    stored_at: u64,
    ttl: u64,
    cap: nat,
    now: u64,
)
    requires
        keys_distinct(v),
        0 < cap,
        v.len() <= cap,
        stored_at <= now <= stored_at + ttl,
    ensures
        lookup(
            after_insert(
                v,
                query_path,
                CacheEntry { data: items, expires_at: expiry(stored_at, ttl) },
                cap,
            ),
            query_path,
            now,
        ) == Some(items),
{
    crate::cache::lemma_fresh_until_expiry(v, query_path, items, stored_at, ttl, cap, now);
}

/// Two records with the same content: every field equal, strings compared by
/// their characters.
pub open spec fn same_record(a: SearchProductItem, b: SearchProductItem) -> bool {
    &&& a.id@ == b.id@
    &&& a.title@ == b.title@
    &&& opt_view(a.creator) == opt_view(b.creator)
    &&& a.creator_omitted == b.creator_omitted
    &&& a.circle_name@ == b.circle_name@
    &&& a.circle_id@ == b.circle_id@
    &&& a.dl_count == b.dl_count
    &&& a.rate_count == b.rate_count
    &&& a.review_count == b.review_count
    &&& a.price_original == b.price_original
    &&& a.price_sale == b.price_sale
    &&& a.age_category == b.age_category
    &&& match (a.work_type, b.work_type) {
        (WorkType::Unknown(x), WorkType::Unknown(y)) => x@ == y@,
        (x, y) => x == y,
    }
    &&& a.thumbnail_url@ == b.thumbnail_url@
    &&& a.rating == b.rating
}

/// Two item results with the same content: both records alike, or both the
/// same parse error.
pub open spec fn same_result(a: Result<SearchProductItem>, b: Result<SearchProductItem>) -> bool {
    match (a, b) {
        (Ok(x), Ok(y)) => same_record(x, y),
        (Err(DlsiteError::Parse(m)), Err(DlsiteError::Parse(n))) => m@ == n@,
        _ => false,
    }
}

/// Two bulk-mode results with the same content.
pub open spec fn same_bulk(
    a: core::result::Result<Seq<SearchProductItem>, DlsiteError>,
    b: core::result::Result<Seq<SearchProductItem>, DlsiteError>,
) -> bool {
    match (a, b) {
        (Ok(x), Ok(y)) => x.len() == y.len() && forall|i: int|
            0 <= i < x.len() ==> same_record(#[trigger] x[i], y[i]),
        (Err(DlsiteError::Parse(m)), Err(DlsiteError::Parse(n))) => m@ == n@,
        _ => false,
    }
}

/// Parsing the same item HTML twice gives results with the same content.
pub proof fn lemma_item_result_unique(
    r1: Result<SearchProductItem>,
    r2: Result<SearchProductItem>,
    h: Seq<char>,
)
    requires
        item_result_of(r1, h),
        item_result_of(r2, h),
    ensures
        same_result(r1, r2),
{
    let raw1 = choose|raw: RawSearchItem| raw_from_html(raw, h) && item_outcome(r1, raw);
    let raw2 = choose|raw: RawSearchItem| raw_from_html(raw, h) && item_outcome(r2, raw);
    assert(item_problem(raw1) == item_problem(raw2));
    if item_problem(raw1) is None {
        let a = r1->Ok_0;
        let b = r2->Ok_0;
        assert((raw1.product_id->0)->0@ == (raw2.product_id->0)->0@);
        assert((raw1.title->0)->0@ == (raw2.title->0)->0@);
        assert(pair_view(raw1.maker) == pair_view(raw2.maker));
        assert(pair_view(raw1.author) == pair_view(raw2.author));
        assert(pair_view(raw1.thumbnail) == pair_view(raw2.thumbnail));
        assert(found_view(raw1.age) == found_view(raw2.age));
        assert(found_view(raw1.dl_count) == found_view(raw2.dl_count));
        assert(found_view(raw1.review_count) == found_view(raw2.review_count));
        assert(found_view(raw1.price) == found_view(raw2.price));
        assert(found_view(raw1.strike_price) == found_view(raw2.strike_price));
        assert(found_view(raw1.rating) == found_view(raw2.rating));
        assert((raw1.work_category->0)->0@ == (raw2.work_category->0)->0@);
        assert(opt_view(a.creator) == opt_view(b.creator));
        assert(a.circle_name@ == b.circle_name@);
        assert(a.circle_id@ == b.circle_id@);
        assert(a.thumbnail_url@ == b.thumbnail_url@);
        match (a.work_type, b.work_type) {
            (WorkType::Unknown(x), WorkType::Unknown(y)) => {
                assert(x@ =~= y@);
            },
            _ => {},
        }
    }
}

proof fn lemma_bulk_agree(rs1: Seq<Result<SearchProductItem>>, rs2: Seq<Result<SearchProductItem>>)
    requires
        rs1.len() == rs2.len(),
        forall|i: int| 0 <= i < rs1.len() ==> same_result(#[trigger] rs1[i], rs2[i]),
    ensures
        same_bulk(bulk(rs1), bulk(rs2)),
    decreases rs1.len(),
{
    if rs1.len() > 0 {
        let n = rs1.len() - 1;
        assert(same_result(rs1[n], rs2[n]));
        lemma_bulk_agree(rs1.drop_last(), rs2.drop_last());
        match (bulk(rs1.drop_last()), bulk(rs2.drop_last())) {
            (Ok(x), Ok(y)) => {
                match (rs1.last(), rs2.last()) {
                    (Ok(a), Ok(b)) => {
                        assert forall|i: int| 0 <= i < x.len() + 1 implies same_record(
                            #[trigger] x.push(a)[i],
                            y.push(b)[i],
                        ) by {
                            if i < x.len() {
                                assert(same_record(x[i], y[i]));
                            }
                        }
                    },
                    _ => {},
                }
            },
            _ => {},
        }
    }
}

/// Bulk mode gives one result per page, whoever parses the items and in
/// whatever order: any two per-item result sequences of the same page HTML
/// (sequential or parallel) give bulk results with the same content.
pub proof fn lemma_bulk_parse_deterministic(
    rs1: Seq<Result<SearchProductItem>>,
    rs2: Seq<Result<SearchProductItem>>,
    html: Seq<char>,
)
    requires
        page_results(rs1, html),
        page_results(rs2, html),
    ensures
        same_bulk(bulk(rs1), bulk(rs2)),
{
    assert forall|i: int| 0 <= i < rs1.len() implies same_result(#[trigger] rs1[i], rs2[i]) by {
        lemma_item_result_unique(rs1[i], rs2[i], item_fragments(html)[i]);
    }
    lemma_bulk_agree(rs1, rs2);
}

} // verus!
