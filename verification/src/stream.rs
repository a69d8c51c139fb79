//! The pages of one response, streamed to a client as one document.
use crate::config::{Config, ErrorPolicy, Pagination, PaginationConfig};
use crate::document::{array_at, prefix_of, split_document, suffix_of};
use crate::error::{is_status, is_success, Failure, ProxyError};
use crate::json::{at_pointer, json, json_parsed, json_text, jsons, parse_json, write_json, Json};
use crate::query::{
    build_url, follow_link, form_pairs, form_text, is_web_url, next_page_url, number_under,
    pair_texts, parse_form, read_number, same_origin, set_query, upstream_url, url_result,
    with_query, Pairs,
};
use crate::text::{decimal, decimal_text, texts};
use vstd::prelude::*;

verus! {

// ---------------------------------------------------------------------------------------------
// The states of a stream

/// The state of a stream of pages.
pub struct StreamView {
    pub base: Seq<char>,
    pub path: Seq<char>,
    pub pagination: Pagination,
    pub array_path: Seq<char>,
    pub policy: ErrorPolicy,
    /// The parameters of the next request.
    pub pairs: Pairs,
    /// The URL of the next request, where a page gave it.
    pub next: Option<Seq<char>>,
    /// The URL of the last request.
    pub current: Seq<char>,
    /// Output has begun.
    pub started: bool,
    /// An item has been sent.
    pub emitted: bool,
    /// What closes the document.
    pub suffix: Seq<char>,
}

/// How a stream goes on.
pub enum OutcomeView {
    Continue,
    Complete,
    Fail(Failure),
}

/// What is sent to the client, and how the stream goes on.
pub struct StepView {
    pub chunks: Seq<Seq<char>>,
    pub outcome: OutcomeView,
    /// The failure that the document was closed for.
    pub closed_by: Option<Failure>,
}

/// The parameters of the first request: those of the client, with the parameters of the
/// pagination in place of any that the client gave.
pub open spec fn first_pairs(pagination: Pagination, pairs: Pairs) -> Pairs {
    match pagination {
        Pagination::Offset { offset_parameter, page_size_parameter, start, size } => page_pairs(
            pairs,
            offset_parameter,
            start,
            page_size_parameter,
            size,
        ),
        Pagination::Page { page_parameter, page_size_parameter, start, size } => page_pairs(
            pairs,
            page_parameter,
            start,
            page_size_parameter,
            size,
        ),
        Pagination::NextLink { .. } => pairs,
    }
}

/// The parameters with a position and a page size.
pub open spec fn page_pairs(
    pairs: Pairs,
    position_parameter: Seq<char>,
    position: u64,
    page_size_parameter: Seq<char>,
    size: u64,
) -> Pairs {
    with_query(
        with_query(pairs, position_parameter, decimal_text(position as nat)),
        page_size_parameter,
        decimal_text(size as nat),
    )
}

/// The state before the first request.
pub open spec fn stream_start(
    base: Seq<char>,
    path: Seq<char>,
    query: Seq<char>,
    pagination: Pagination,
    array_path: Seq<char>,
    policy: ErrorPolicy,
) -> StreamView {
    stream_from(base, path, form_pairs(query), pagination, array_path, policy)
}

/// The state before the first request, given the parameters of the client.
pub open spec fn stream_from(
    base: Seq<char>,
    path: Seq<char>,
    pairs: Pairs,
    pagination: Pagination,
    array_path: Seq<char>,
    policy: ErrorPolicy,
) -> StreamView {
    StreamView {
        base,
        path,
        pagination,
        array_path,
        policy,
        pairs: first_pairs(pagination, pairs),
        next: None,
        current: Seq::empty(),
        started: false,
        emitted: false,
        suffix: Seq::empty(),
    }
}

/// The URL of the next request.
pub open spec fn request_url(s: StreamView) -> Result<Seq<char>, Failure> {
    match s.next {
        Some(url) => Ok(url),
        None => upstream_url(s.base, s.path, s.pairs),
    }
}

/// The state once the next request is under way.
pub open spec fn requested(s: StreamView, url: Seq<char>) -> StreamView {
    StreamView { next: None, current: url, ..s }
}

/// The document of a page and the items of its array, or what is wrong with the page.
pub open spec fn page_document(array_path: Seq<char>, status: u16, body: Seq<char>) -> Result<
    (Json, Seq<Json>),
    Failure,
> {
    if !is_success(status) {
        if status == 401 || status == 403 {
            Err(Failure::Authentication { status })
        } else {
            Err(Failure::UpstreamStatus { status, body })
        }
    } else {
        match json_parsed(body) {
            None => Err(Failure::Json),
            Some(document) => match array_at(document, array_path) {
                None => Err(Failure::MissingArray(array_path)),
                Some(items) => Ok((document, items)),
            },
        }
    }
}

/// What is sent for the items of a page: their texts, with commas between them and, where items
/// were sent before, ahead of them.
pub open spec fn item_chunks(items: Seq<Json>, emitted: bool) -> Seq<Seq<char>>
    decreases items.len(),
{
    if items.len() == 0 {
        Seq::empty()
    } else {
        let earlier = item_chunks(items.drop_last(), emitted);
        let separated = if emitted || items.len() > 1 {
            earlier.push(","@)
        } else {
            earlier
        };
        separated.push(json_text(items.last()))
    }
}

/// What becomes of a stream on a failure. A rejection of the credentials, and any failure before
/// output has begun, ends the stream; a later one ends it or closes the document, by the policy.
pub open spec fn failure_handled(
    policy: ErrorPolicy,
    failure: Failure,
    started: bool,
    suffix: Seq<char>,
) -> StepView {
    if !(failure is Authentication) && policy == ErrorPolicy::Complete && started {
        StepView {
            chunks: seq![suffix],
            outcome: OutcomeView::Complete,
            closed_by: Some(failure),
        }
    } else {
        StepView { chunks: Seq::empty(), outcome: OutcomeView::Fail(failure), closed_by: None }
    }
}

/// What becomes of a stream in a state on a failure.
pub open spec fn failure_step(s: StreamView, failure: Failure) -> StepView {
    failure_handled(s.policy, failure, s.started, s.suffix)
}

/// Where a stream goes behind a page.
pub enum Turn {
    Stop,
    Go { pairs: Pairs, next: Option<Seq<char>> },
}

/// Where a stream goes behind a numbered page.
pub open spec fn numbered_turn(
    pairs: Pairs,
    position_parameter: Seq<char>,
    start: u64,
    stride: u64,
    page_size_parameter: Seq<char>,
    size: u64,
    count: nat,
) -> Result<Turn, Failure> {
    let position = number_under(pairs, position_parameter, start);
    if count < size {
        Ok(Turn::Stop)
    } else if position + stride > u64::MAX {
        Err(Failure::Config("pagination position is out of range"@))
    } else {
        Ok(
            Turn::Go {
                pairs: page_pairs(
                    pairs,
                    position_parameter,
                    (position + stride) as u64,
                    page_size_parameter,
                    size,
                ),
                next: None,
            },
        )
    }
}

/// Where a stream goes behind a page with `count` items.
pub open spec fn turn(s: StreamView, document: Json, count: nat) -> Result<Turn, Failure> {
    match s.pagination {
        Pagination::Offset { offset_parameter, page_size_parameter, start, size } => numbered_turn(
            s.pairs,
            offset_parameter,
            start,
            size,
            page_size_parameter,
            size,
            count,
        ),
        Pagination::Page { page_parameter, page_size_parameter, start, size } => numbered_turn(
            s.pairs,
            page_parameter,
            start,
            1,
            page_size_parameter,
            size,
            count,
        ),
        Pagination::NextLink { path } => match at_pointer(document, path) {
            None => Ok(Turn::Stop),
            Some(Json::Null) => Ok(Turn::Stop),
            Some(Json::Text(link)) => match next_page_url(s.base, s.current, link) {
                Some(url) => Ok(Turn::Go { pairs: s.pairs, next: Some(url) }),
                None => Err(Failure::ForeignNext(path)),
            },
            Some(_) => Err(Failure::MissingNext(path)),
        },
    }
}

/// The state once the items of a page are sent.
pub open spec fn shown(s: StreamView, document: Json, items: Seq<Json>) -> StreamView {
    StreamView {
        started: true,
        emitted: s.emitted || items.len() > 0,
        suffix: if s.started {
            s.suffix
        } else {
            suffix_of(document, s.array_path)
        },
        ..s
    }
}

/// What is sent for a page.
pub open spec fn page_chunks(s: StreamView, document: Json, items: Seq<Json>) -> Seq<Seq<char>> {
    if s.started {
        item_chunks(items, s.emitted)
    } else {
        seq![prefix_of(document, s.array_path)] + item_chunks(items, s.emitted)
    }
}

/// The state behind a document, what is sent for it, and how the stream goes on.
pub open spec fn document_step(s: StreamView, document: Json) -> (StreamView, StepView) {
    match array_at(document, s.array_path) {
        None => (s, failure_step(s, Failure::MissingArray(s.array_path))),
        Some(items) => {
            let t = shown(s, document, items);
            let chunks = page_chunks(s, document, items);
            match turn(t, document, items.len()) {
                Ok(Turn::Stop) => (
                    t,
                    StepView {
                        chunks: chunks.push(t.suffix),
                        outcome: OutcomeView::Complete,
                        closed_by: None,
                    },
                ),
                Ok(Turn::Go { pairs, next }) => (
                    StreamView { pairs, next, ..t },
                    StepView { chunks, outcome: OutcomeView::Continue, closed_by: None },
                ),
                Err(failure) => {
                    let step = failure_step(t, failure);
                    (t, StepView { chunks: chunks + step.chunks, ..step })
                },
            }
        },
    }
}

/// The state behind a page, what is sent for it, and how the stream goes on.
pub open spec fn page_step(s: StreamView, status: u16, body: Seq<char>) -> (StreamView, StepView) {
    if !is_success(status) {
        if status == 401 || status == 403 {
            (s, failure_step(s, Failure::Authentication { status }))
        } else {
            (s, failure_step(s, Failure::UpstreamStatus { status, body }))
        }
    } else {
        match json_parsed(body) {
            None => (s, failure_step(s, Failure::Json)),
            Some(document) => document_step(s, document),
        }
    }
}

// ---------------------------------------------------------------------------------------------
// Execution

/// How a stream goes on.
pub enum Outcome {
    /// The next page is to be requested.
    Continue,
    /// The document is complete.
    Complete,
    /// The stream ends with an error.
    Fail(ProxyError),
}

/// What is to be sent to the client, and how the stream goes on.
pub struct Step {
    pub chunks: Vec<String>,
    pub outcome: Outcome,
    /// The failure that the document was closed for.
    pub closed_by: Option<ProxyError>,
}

impl View for Outcome {
    type V = OutcomeView;

    open spec fn view(&self) -> OutcomeView {
        match self {
            Outcome::Continue => OutcomeView::Continue,
            Outcome::Complete => OutcomeView::Complete,
            Outcome::Fail(error) => OutcomeView::Fail(error@),
        }
    }
}

impl View for Step {
    type V = StepView;

    open spec fn view(&self) -> StepView {
        StepView {
            chunks: texts(self.chunks@),
            outcome: self.outcome@,
            closed_by: match self.closed_by {
                Some(error) => Some(error@),
                None => None,
            },
        }
    }
}

/// A stream of pages.
pub struct PageStream {
    base: String,
    path: String,
    pagination: PaginationConfig,
    array_path: String,
    policy: ErrorPolicy,
    pairs: Vec<(String, String)>,
    next: Option<String>,
    current: String,
    started: bool,
    emitted: bool,
    suffix: String,
}

impl View for PageStream {
    type V = StreamView;

    closed spec fn view(&self) -> StreamView {
        StreamView {
            base: self.base@,
            path: self.path@,
            pagination: self.pagination@,
            array_path: self.array_path@,
            policy: self.policy,
            pairs: pair_texts(self.pairs@),
            next: match self.next {
                Some(url) => Some(url@),
                None => None,
            },
            current: self.current@,
            started: self.started,
            emitted: self.emitted,
            suffix: self.suffix@,
        }
    }
}

/// A link that a page gave stays within the origin of the upstream.
pub open spec fn link_stays(s: StreamView) -> bool {
    s.next matches Some(url) ==> same_origin(s.base, url)
}

/// Decides what becomes of a stream on a failure. The error comes back as it is.
pub fn handle_error(policy: ErrorPolicy, error: ProxyError, started: bool, suffix: &str) -> (r: Step)
    ensures
        r@ == failure_handled(policy, error@, started, suffix@),
        r.outcome matches Outcome::Fail(e) ==> e == error,
        r.closed_by matches Some(e) ==> e == error,
{
    let authentication: bool = match &error {
        ProxyError::Authentication { .. } => true,
        _ => false,
    };
    if !authentication && policy == ErrorPolicy::Complete && started {
        let mut chunks: Vec<String> = Vec::new();
        chunks.push(suffix.to_owned());
        assert(texts(chunks@) =~= seq![suffix@]);
        Step { chunks, outcome: Outcome::Complete, closed_by: Some(error) }
    } else {
        let chunks: Vec<String> = Vec::new();
        assert(texts(chunks@) =~= Seq::<Seq<char>>::empty());
        Step { chunks, outcome: Outcome::Fail(error), closed_by: None }
    }
}

/// Sets the position and the page size of a request.
fn set_page(
    pairs: &mut Vec<(String, String)>,
    position_parameter: &str,
    position: u64,
    page_size_parameter: &str,
    size: u64,
)
    ensures
        pair_texts(final(pairs)@) == page_pairs(
            pair_texts(old(pairs)@),
            position_parameter@,
            position,
            page_size_parameter@,
            size,
        ),
{
    set_query(pairs, position_parameter, decimal(position).as_str());
    set_query(pairs, page_size_parameter, decimal(size).as_str());
}

impl PageStream {
    /// A stream for one client request.
    pub fn new(config: &Config, path: &str, query: &str) -> (r: PageStream)
        ensures
            r@ == stream_start(
                config.target.base_url@,
                path@,
                query@,
                config.pagination@,
                config.response.array_path@,
                config.response.error_policy,
            ),
            link_stays(r@),
    {
        PageStream::with_pairs(config, path, parse_form(query))
    }

    /// A stream for one client request, given the parameters of its query.
    pub fn with_pairs(config: &Config, path: &str, pairs: Vec<(String, String)>) -> (r: PageStream)
        ensures
            r@ == stream_from(
                config.target.base_url@,
                path@,
                pair_texts(pairs@),
                config.pagination@,
                config.response.array_path@,
                config.response.error_policy,
            ),
            link_stays(r@),
    {
        let mut pairs = pairs;
        match &config.pagination {
            PaginationConfig::Offset {
                offset_parameter,
                page_size_parameter,
                start_offset,
                page_size,
            } => {
                set_page(
                    &mut pairs,
                    offset_parameter.as_str(),
                    *start_offset,
                    page_size_parameter.as_str(),
                    *page_size,
                );
            },
            PaginationConfig::Page {
                page_parameter,
                page_size_parameter,
                start_page,
                page_size,
            } => {
                set_page(
                    &mut pairs,
                    page_parameter.as_str(),
                    *start_page,
                    page_size_parameter.as_str(),
                    *page_size,
                );
            },
            PaginationConfig::NextLink { .. } => {},
        }
        PageStream {
            base: config.target.base_url.clone(),
            path: path.to_owned(),
            pagination: copy_pagination(&config.pagination),
            array_path: config.response.array_path.clone(),
            policy: config.response.error_policy,
            pairs,
            next: None,
            current: String::new(),
            started: false,
            emitted: false,
            suffix: String::new(),
        }
    }

    /// The URL of the next request. Where the base URL of the upstream is an http or https URL,
    /// every request of a stream goes to its origin. Where no page gave the URL, its query reads back
    /// as the parameters of the stream.
    pub fn next_request(&mut self) -> (r: Result<String, ProxyError>)
        ensures
            url_result(r) == request_url(old(self)@),
            r matches Ok(url) ==> final(self)@ == requested(old(self)@, url@),
            r is Err ==> final(self)@ == old(self)@,
            link_stays(old(self)@) ==> link_stays(final(self)@),
            r matches Ok(url) ==> is_web_url(old(self)@.base) && link_stays(old(self)@)
                ==> same_origin(old(self)@.base, url@),
            r is Ok && old(self)@.next is None ==> form_pairs(form_text(old(self)@.pairs))
                == old(self)@.pairs,
    {
        let url = match &self.next {
            Some(url) => url.clone(),
            None => match build_url(self.base.as_str(), self.path.as_str(), &self.pairs) {
                Ok(url) => url,
                Err(error) => {
                    return Err(error);
                },
            },
        };
        self.next = None;
        self.current = url.clone();
        Ok(url)
    }

    /// What becomes of the stream on a failure. The error comes back as it is.
    pub fn on_failure(&self, error: ProxyError) -> (r: Step)
        ensures
            r@ == failure_step(self@, error@),
            r.outcome matches Outcome::Fail(e) ==> e == error,
            r.closed_by matches Some(e) ==> e == error,
    {
        handle_error(self.policy, error, self.started, self.suffix.as_str())
    }
}

/// Appends what is sent for the items of a page.
fn push_items(chunks: &mut Vec<String>, items: &Vec<serde_json::Value>, emitted: bool)
    ensures
        texts(final(chunks)@) == texts(old(chunks)@) + item_chunks(jsons(items@), emitted),
{
    let ghost first = texts(chunks@);
    let ghost all = jsons(items@);
    let mut i: usize = 0;
    assert(texts(chunks@) =~= first + item_chunks(all.take(0), emitted));
    while i < items.len()
        invariant
            i <= items@.len(),
            all == jsons(items@),
            texts(chunks@) == first + item_chunks(all.take(i as int), emitted),
        decreases items@.len() - i,
    {
        assert(all.take(i + 1).drop_last() == all.take(i as int));
        if emitted || i > 0 {
            let ghost earlier = chunks@;
            chunks.push(",".to_owned());
            assert(texts(chunks@) =~= texts(earlier).push(","@));
        }
        let ghost earlier = chunks@;
        chunks.push(write_json(&items[i]));
        assert(texts(chunks@) =~= texts(earlier).push(json_text(all[i as int])));
        assert(texts(chunks@) =~= first + item_chunks(all.take(i + 1), emitted));
        i += 1;
    }
    assert(all.take(all.len() as int) == all);
}

impl PageStream {
    /// Takes the response to the last request: what is sent for it, and how the stream goes on.
    pub fn on_response(&mut self, status: u16, body: String) -> (r: Step)
        requires
            is_status(status),
        ensures
            (final(self)@, r@) == page_step(old(self)@, status, body@),
            link_stays(old(self)@) ==> link_stays(final(self)@),
            r@.outcome matches OutcomeView::Fail(failure) ==> failure.well_formed(),
            r@.closed_by matches Some(failure) ==> failure.well_formed(),
    {
        if status < 200 || 300 <= status {
            let error = if status == 401 || status == 403 {
                ProxyError::Authentication { status }
            } else {
                ProxyError::UpstreamStatus { status, body }
            };
            return self.on_failure(error);
        }
        let document = match parse_json(body.as_str()) {
            Ok(document) => document,
            Err(error) => {
                return self.on_failure(ProxyError::Json(error));
            },
        };
        self.on_document(&document)
    }

    /// Takes the document of a page: what is sent for it, and how the stream goes on.
    pub fn on_document(&mut self, document: &serde_json::Value) -> (r: Step)
        ensures
            (final(self)@, r@) == document_step(old(self)@, json(*document)),
            link_stays(old(self)@) ==> link_stays(final(self)@),
            r@.outcome matches OutcomeView::Fail(failure) ==> failure.well_formed(),
            r@.closed_by matches Some(failure) ==> failure.well_formed(),
    {
        let items: &Vec<serde_json::Value> = match document.pointer(self.array_path.as_str()) {
            Some(value) => match value.as_array() {
                Some(items) => items,
                None => {
                    return self.on_failure(ProxyError::MissingArray(self.array_path.clone()));
                },
            },
            None => {
                return self.on_failure(ProxyError::MissingArray(self.array_path.clone()));
            },
        };
        let ghost doc = json(*document);
        let mut chunks: Vec<String> = Vec::new();
        assert(texts(chunks@) =~= Seq::<Seq<char>>::empty());
        if !self.started {
            match split_document(document, self.array_path.as_str()) {
                Ok((prefix, suffix)) => {
                    self.suffix = suffix;
                    chunks.push(prefix);
                    assert(texts(chunks@) =~= seq![prefix_of(doc, old(self)@.array_path)]);
                },
                Err(error) => {
                    return self.on_failure(error);
                },
            }
            self.started = true;
        }
        push_items(&mut chunks, items, self.emitted);
        if items.len() > 0 {
            self.emitted = true;
        }
        assert(texts(chunks@) =~= page_chunks(old(self)@, doc, jsons(items@)));
        assert(self@ == shown(old(self)@, doc, jsons(items@)));
        let ghost sent = texts(chunks@);
        let count: u64 = items.len() as u64;
        match self.advance(document, count) {
            Ok(true) => Step { chunks, outcome: Outcome::Continue, closed_by: None },
            Ok(false) => {
                chunks.push(self.suffix.clone());
                assert(texts(chunks@) =~= sent.push(self@.suffix));
                Step { chunks, outcome: Outcome::Complete, closed_by: None }
            },
            Err(error) => {
                let mut step = self.on_failure(error);
                let ghost closing = texts(step.chunks@);
                chunks.append(&mut step.chunks);
                assert(texts(chunks@) =~= sent + closing);
                Step { chunks, outcome: step.outcome, closed_by: step.closed_by }
            },
        }
    }

    /// Moves on to the next page: whether there is one.
    fn advance(&mut self, document: &serde_json::Value, count: u64) -> (r: Result<bool, ProxyError>)
        ensures
            match turn(old(self)@, json(*document), count as nat) {
                Ok(Turn::Stop) => r == Ok::<bool, ProxyError>(false) && final(self)@ == old(self)@,
                Ok(Turn::Go { pairs, next }) => r == Ok::<bool, ProxyError>(true) && final(self)@
                    == (StreamView { pairs, next, ..old(self)@ }),
                Err(failure) => r is Err && r->Err_0@ == failure && final(self)@ == old(self)@,
            },
            link_stays(old(self)@) ==> link_stays(final(self)@),
    {
        match &self.pagination {
            PaginationConfig::Offset {
                offset_parameter,
                page_size_parameter,
                start_offset,
                page_size,
            } => {
                let position: u64 = read_number(
                    &self.pairs,
                    offset_parameter.as_str(),
                    *start_offset,
                );
                if count < *page_size {
                    return Ok(false);
                }
                match position.checked_add(*page_size) {
                    Some(next) => {
                        set_page(
                            &mut self.pairs,
                            offset_parameter.as_str(),
                            next,
                            page_size_parameter.as_str(),
                            *page_size,
                        );
                        self.next = None;
                        Ok(true)
                    },
                    None => Err(
                        ProxyError::Config("pagination position is out of range".to_owned()),
                    ),
                }
            },
            PaginationConfig::Page {
                page_parameter,
                page_size_parameter,
                start_page,
                page_size,
            } => {
                let position: u64 = read_number(
                    &self.pairs,
                    page_parameter.as_str(),
                    *start_page,
                );
                if count < *page_size {
                    return Ok(false);
                }
                match position.checked_add(1) {
                    Some(next) => {
                        set_page(
                            &mut self.pairs,
                            page_parameter.as_str(),
                            next,
                            page_size_parameter.as_str(),
                            *page_size,
                        );
                        self.next = None;
                        Ok(true)
                    },
                    None => Err(
                        ProxyError::Config("pagination position is out of range".to_owned()),
                    ),
                }
            },
            PaginationConfig::NextLink { next_link_path } => {
                let link = match document.pointer(next_link_path.as_str()) {
                    Some(link) => link,
                    None => {
                        return Ok(false);
                    },
                };
                if link.is_null() {
                    return Ok(false);
                }
                match link.as_str() {
                    Some(link) => match follow_link(
                        self.base.as_str(),
                        self.current.as_str(),
                        link,
                    ) {
                        Some(url) => {
                            self.next = Some(url);
                            Ok(true)
                        },
                        None => Err(ProxyError::ForeignNext(next_link_path.clone())),
                    },
                    None => Err(ProxyError::MissingNext(next_link_path.clone())),
                }
            },
        }
    }
}

/// A copy of a pagination.
fn copy_pagination(pagination: &PaginationConfig) -> (r: PaginationConfig)
    ensures
        r@ == pagination@,
{
    match pagination {
        PaginationConfig::Offset {
            offset_parameter,
            page_size_parameter,
            start_offset,
            page_size,
        } => PaginationConfig::Offset {
            offset_parameter: offset_parameter.clone(),
            page_size_parameter: page_size_parameter.clone(),
            start_offset: *start_offset,
            page_size: *page_size,
        },
        PaginationConfig::Page {
            page_parameter,
            page_size_parameter,
            start_page,
            page_size,
        } => PaginationConfig::Page {
            page_parameter: page_parameter.clone(),
            page_size_parameter: page_size_parameter.clone(),
            start_page: *start_page,
            page_size: *page_size,
        },
        PaginationConfig::NextLink { next_link_path } => PaginationConfig::NextLink {
            next_link_path: next_link_path.clone(),
        },
    }
}

} // verus!
