//! Lists that the Falcon API hands out page by page, and documents that it hands out in batches.
use crate::falcon::device::{pick_texts, texts_among};
use crate::falcon::record::{resources, resources_of};
use crate::json::{at_pointer, json, jsons, Json};
use crate::query::{option_text, pair_texts, Pairs};
use crate::text::{decimal, decimal_text, texts};
use vstd::prelude::*;

verus! {

// ---------------------------------------------------------------------------------------------
// Pages of identifiers

/// The identifiers of a list, collected page by page.
pub struct Pager {
    pub filter: Option<String>,
    pub size: u64,
    pub offset: u64,
    pub ids: Vec<String>,
    pub done: bool,
}

/// The identifiers of a list, by their texts.
#[verifier::ext_equal]
pub struct PagerView {
    pub filter: Option<Seq<char>>,
    pub size: u64,
    pub offset: u64,
    pub ids: Seq<Seq<char>>,
    pub done: bool,
}

impl View for Pager {
    type V = PagerView;

    open spec fn view(&self) -> PagerView {
        PagerView {
            filter: option_text(self.filter),
            size: self.size,
            offset: self.offset,
            ids: texts(self.ids@),
            done: self.done,
        }
    }
}

/// Before the first page.
pub open spec fn first_page(filter: Option<Seq<char>>, size: u64) -> PagerView {
    PagerView { filter, size, offset: 0, ids: Seq::empty(), done: false }
}

/// The query that asks for the next page.
pub open spec fn page_query(p: PagerView) -> Pairs {
    let page = seq![
        ("limit"@, decimal_text(p.size as nat)),
        ("offset"@, decimal_text(p.offset as nat)),
    ];
    match p.filter {
        Some(filter) => seq![("filter"@, filter)] + page,
        None => page,
    }
}

/// The identifiers on a page.
pub open spec fn page_ids(document: Json) -> Seq<Seq<char>> {
    texts_among(resources_of(document))
}

/// The number of identifiers in all, where a page says it.
pub open spec fn stated_total(document: Json) -> Option<nat> {
    match at_pointer(document, "/meta/pagination/total"@) {
        Some(value) => if exists|n: u64| value == Json::Number(#[trigger] decimal_text(n as nat)) {
            Some(
                (choose|n: u64| value == Json::Number(#[trigger] decimal_text(n as nat))) as nat,
            )
        } else {
            None
        },
        None => None,
    }
}

/// A sum, but at most the largest number.
pub open spec fn capped(n: int) -> u64 {
    if n < u64::MAX {
        n as u64
    } else {
        u64::MAX
    }
}

/// Behind another page. The list ends with an empty page, or where the offset reaches the total;
/// a page that does not say the total ends it unless it holds more than was asked for.
pub open spec fn next_page(p: PagerView, document: Json) -> PagerView {
    let found = page_ids(document);
    let offset = capped(p.offset + p.size);
    let total = match stated_total(document) {
        Some(n) => n,
        None => capped(p.offset + found.len()) as nat,
    };
    PagerView {
        offset,
        ids: p.ids + found,
        done: found.len() == 0 || offset >= total,
        ..p
    }
}

/// The number of identifiers in all, where a page says it.
fn read_total(document: &serde_json::Value) -> (r: Option<u64>)
    ensures
        match r {
            Some(n) => stated_total(json(*document)) == Some(n as nat),
            None => stated_total(json(*document)) is None,
        },
{
    match document.pointer("/meta/pagination/total") {
        Some(value) => {
            let r = value.as_u64();
            proof {
                if let Some(n) = r {
                    let m = choose|m: u64|
                        json(*value) == Json::Number(#[trigger] decimal_text(m as nat));
                    crate::text::law_decimal_reads_back(n);
                    crate::text::law_decimal_reads_back(m);
                }
            }
            r
        },
        None => None,
    }
}

fn capped_sum(a: u64, b: u64) -> (r: u64)
    ensures
        r == capped(a + b),
{
    if b < u64::MAX - a {
        a + b
    } else {
        u64::MAX
    }
}

fn pair(key: &str, value: String) -> (r: (String, String))
    ensures
        r.0@ == key@,
        r.1@ == value@,
{
    (key.to_owned(), value)
}

impl Pager {
    /// Before the first page.
    pub fn new(filter: Option<String>, size: u64) -> (r: Pager)
        ensures
            r@ == first_page(option_text(filter), size),
    {
        let r = Pager { filter, size, offset: 0, ids: Vec::new(), done: false };
        assert(r@ =~= first_page(option_text(filter), size));
        r
    }

    /// The query that asks for the next page.
    pub fn query(&self) -> (r: Vec<(String, String)>)
        ensures
            pair_texts(r@) == page_query(self@),
    {
        let mut out: Vec<(String, String)> = Vec::new();
        match &self.filter {
            Some(filter) => {
                out.push(pair("filter", filter.clone()));
            },
            None => {},
        }
        out.push(pair("limit", decimal(self.size)));
        out.push(pair("offset", decimal(self.offset)));
        assert(pair_texts(out@) =~= page_query(self@));
        out
    }

    /// Takes a page.
    pub fn take(&mut self, document: &serde_json::Value)
        ensures
            final(self)@ == next_page(old(self)@, json(*document)),
    {
        let ghost before = self@;
        let mut found = pick_texts(&resources(document));
        let ghost names = texts(found@);
        let count: usize = found.len();
        let total: u64 = match read_total(document) {
            Some(n) => n,
            None => capped_sum(self.offset, count as u64),
        };
        self.ids.append(&mut found);
        assert(texts(self.ids@) =~= before.ids + names);
        self.offset = capped_sum(self.offset, self.size);
        self.done = count == 0 || self.offset >= total;
        assert(self@ =~= next_page(before, json(*document)));
    }
}

/// Behind a run of pages.
pub open spec fn after_pages(p: PagerView, documents: Seq<Json>) -> PagerView
    decreases documents.len(),
{
    if documents.len() == 0 {
        p
    } else {
        next_page(after_pages(p, documents.drop_last()), documents.last())
    }
}

/// The identifiers on a run of pages.
pub open spec fn ids_on(documents: Seq<Json>) -> Seq<Seq<char>>
    decreases documents.len(),
{
    if documents.len() == 0 {
        Seq::empty()
    } else {
        ids_on(documents.drop_last()) + page_ids(documents.last())
    }
}

/// Every page is asked for once, at a multiple of the page size; the identifiers are those of all
/// pages, in order; and where pages say the total, the list ends with an empty page or with the
/// page that reaches it, and only then.
pub proof fn law_paging(filter: Option<Seq<char>>, size: u64, documents: Seq<Json>)
    requires
        documents.len() * size < u64::MAX,
    ensures
        ({
            let p = after_pages(first_page(filter, size), documents);
            &&& p.filter == filter
            &&& p.size == size
            &&& p.offset == documents.len() * size
            &&& p.ids == ids_on(documents)
            &&& documents.len() > 0 ==> (stated_total(documents.last()) matches Some(total) ==> (
            p.done <==> page_ids(documents.last()).len() == 0 || documents.len() * size >= total))
        }),
    decreases documents.len(),
{
    if documents.len() > 0 {
        let front = documents.drop_last();
        assert(front.len() * size + size == documents.len() * size) by (nonlinear_arith)
            requires
                front.len() + 1 == documents.len(),
        ;
        law_paging(filter, size, front);
    } else {
        assert(documents.len() * size == 0) by (nonlinear_arith)
            requires
                documents.len() == 0,
        ;
    }
}

// ---------------------------------------------------------------------------------------------
// Batches of documents

/// The documents of a list of identifiers, fetched batch by batch.
pub struct Fetcher {
    pub ids: Vec<String>,
    pub size: usize,
    /// The identifiers before this position are fetched.
    pub at: usize,
    pub found: Vec<serde_json::Value>,
}

/// The documents of a list of identifiers, by their contents.
#[verifier::ext_equal]
pub struct FetcherView {
    pub ids: Seq<Seq<char>>,
    pub size: nat,
    pub at: nat,
    pub found: Seq<Json>,
}

impl View for Fetcher {
    type V = FetcherView;

    open spec fn view(&self) -> FetcherView {
        FetcherView {
            ids: texts(self.ids@),
            size: self.size as nat,
            at: self.at as nat,
            found: jsons(self.found@),
        }
    }
}

/// Before the first batch.
pub open spec fn first_batch(ids: Seq<Seq<char>>, size: nat) -> FetcherView {
    FetcherView { ids, size, at: 0, found: Seq::empty() }
}

/// Where the batch that begins at a position ends.
pub open spec fn batch_end(length: nat, at: nat, size: nat) -> nat {
    if at + size < length {
        at + size
    } else {
        length
    }
}

/// The identifiers of the next batch.
pub open spec fn batch_of(f: FetcherView) -> Seq<Seq<char>> {
    f.ids.subrange(f.at as int, batch_end(f.ids.len(), f.at, f.size) as int)
}

/// Behind another batch.
pub open spec fn next_batch(f: FetcherView, document: Json) -> FetcherView {
    FetcherView {
        at: batch_end(f.ids.len(), f.at, f.size),
        found: f.found + resources_of(document),
        ..f
    }
}

/// Where the batch that begins at a position ends.
pub fn end_of_batch(length: usize, at: usize, size: usize) -> (r: usize)
    requires
        at <= length,
    ensures
        r == batch_end(length as nat, at as nat, size as nat),
        at <= r <= length,
{
    if size < length - at {
        at + size
    } else {
        length
    }
}

/// Copies texts from a position up to another.
pub fn copy_texts(all: &Vec<String>, from: usize, to: usize) -> (r: Vec<String>)
    requires
        from <= to <= all@.len(),
    ensures
        texts(r@) == texts(all@).subrange(from as int, to as int),
{
    let mut out: Vec<String> = Vec::new();
    let mut i: usize = from;
    while i < to
        invariant
            from <= i <= to <= all@.len(),
            texts(out@) == texts(all@).subrange(from as int, i as int),
        decreases to - i,
    {
        let ghost before = texts(out@);
        out.push(all[i].clone());
        assert(texts(out@) =~= before.push(all@[i as int]@));
        i += 1;
    }
    out
}

impl Fetcher {
    /// The position stands in the list, and batches are not empty.
    pub open spec fn wf(&self) -> bool {
        self.at <= self.ids@.len() && self.size > 0
    }

    /// Before the first batch.
    pub fn new(ids: Vec<String>, size: usize) -> (r: Fetcher)
        requires
            size > 0,
        ensures
            r.wf(),
            r@ == first_batch(texts(ids@), size as nat),
    {
        let r = Fetcher { ids, size, at: 0, found: Vec::new() };
        assert(r@ =~= first_batch(texts(ids@), size as nat));
        r
    }

    /// The identifiers of the next batch.
    pub fn batch(&self) -> (r: Vec<String>)
        requires
            self.wf(),
        ensures
            texts(r@) == batch_of(self@),
    {
        copy_texts(&self.ids, self.at, end_of_batch(self.ids.len(), self.at, self.size))
    }

    /// Takes the documents of a batch.
    pub fn take(&mut self, document: &serde_json::Value)
        requires
            old(self).wf(),
        ensures
            final(self).wf(),
            final(self)@ == next_batch(old(self)@, json(*document)),
    {
        let ghost before = self@;
        self.at = end_of_batch(self.ids.len(), self.at, self.size);
        let mut more = resources(document);
        let ghost added = jsons(more@);
        self.found.append(&mut more);
        assert(jsons(self.found@) =~= before.found + added);
        assert(self@ =~= next_batch(before, json(*document)));
    }

    /// Whether every identifier is fetched.
    pub fn is_done(&self) -> (r: bool)
        ensures
            r == (self@.at >= self@.ids.len()),
    {
        self.at >= self.ids.len()
    }
}

/// Behind a run of batches.
pub open spec fn after_batches(f: FetcherView, documents: Seq<Json>) -> FetcherView
    decreases documents.len(),
{
    if documents.len() == 0 {
        f
    } else {
        next_batch(after_batches(f, documents.drop_last()), documents.last())
    }
}

/// The identifiers of a run of batches.
pub open spec fn fetched(f: FetcherView, documents: Seq<Json>) -> Seq<Seq<char>>
    decreases documents.len(),
{
    if documents.len() == 0 {
        Seq::empty()
    } else {
        fetched(f, documents.drop_last()) + batch_of(after_batches(f, documents.drop_last()))
    }
}

/// The documents of a run of batches.
pub open spec fn resources_on(documents: Seq<Json>) -> Seq<Json>
    decreases documents.len(),
{
    if documents.len() == 0 {
        Seq::empty()
    } else {
        resources_on(documents.drop_last()) + resources_of(documents.last())
    }
}

/// Batches go through the list from its start, without a gap and without asking for an identifier
/// twice; while identifiers are left, a batch holds at least one and at most as many as its size;
/// and the documents are those of all batches, in order.
pub proof fn law_batches(ids: Seq<Seq<char>>, size: nat, documents: Seq<Json>)
    requires
        size > 0,
    ensures
        ({
            let f = after_batches(first_batch(ids, size), documents);
            &&& f.ids == ids && f.size == size && f.at <= ids.len()
            &&& f.at == (if documents.len() * size < ids.len() {
                documents.len() * size
            } else {
                ids.len()
            })
            &&& fetched(first_batch(ids, size), documents) == ids.take(f.at as int)
            &&& f.at < ids.len() ==> 0 < batch_of(f).len() <= size
            &&& f.found == resources_on(documents)
        }),
    decreases documents.len(),
{
    if documents.len() > 0 {
        let front = documents.drop_last();
        assert(front.len() * size + size == documents.len() * size) by (nonlinear_arith)
            requires
                front.len() + 1 == documents.len(),
        ;
        law_batches(ids, size, front);
        let f = after_batches(first_batch(ids, size), front);
        let g = after_batches(first_batch(ids, size), documents);
        assert(ids.take(f.at as int) + ids.subrange(f.at as int, g.at as int) =~= ids.take(
            g.at as int,
        ));
    } else {
        assert(documents.len() * size == 0) by (nonlinear_arith)
            requires
                documents.len() == 0,
        ;
    }
}

} // verus!
