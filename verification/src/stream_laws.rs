//! What holds of a whole stream of pages.
use crate::config::{ErrorPolicy, Pagination};
use crate::document::{array_at, law_split_frames_items, prefix_of, suffix_of};
use crate::error::Failure;
use crate::json::{at_pointer, comma, items_text, json_parsed, json_text, with_at_pointer, Json};
use crate::query::{
    first_value, form_pairs, law_set_query, law_set_query_again, law_set_query_keeps_others,
    lemma_without_other_key, next_page_url, number_under, same_origin, upstream_url, with_query,
    without_key, Pairs,
};
use crate::stream::{
    document_step, failure_step, first_pairs, item_chunks, link_stays, page_chunks, page_document,
    page_pairs, page_step, request_url, requested, shown, stream_from, stream_start, turn,
    OutcomeView, StepView, StreamView, Turn,
};
use crate::text::{
    concatenated, decimal_text, law_decimal_reads_back, lemma_concatenated_add,
    lemma_concatenated_push,
};
use vstd::prelude::*;

verus! {

/// The response to one upstream request: its status and its body.
pub type Page = (u16, Seq<char>);

/// A stream so far: its state, what the client was sent, and how it goes on.
pub struct Run {
    pub state: StreamView,
    pub output: Seq<char>,
    pub outcome: OutcomeView,
}

/// A run with what one step sends.
pub open spec fn extended(output: Seq<char>, state: StreamView, step: StepView) -> Run {
    Run { state, output: output + concatenated(step.chunks), outcome: step.outcome }
}

/// The run of a stream over the responses to its requests. Responses behind the end of the stream
/// are not asked for.
pub open spec fn run(start: StreamView, pages: Seq<Page>) -> Run
    decreases pages.len(),
{
    if pages.len() == 0 {
        Run { state: start, output: Seq::empty(), outcome: OutcomeView::Continue }
    } else {
        let earlier = run(start, pages.drop_last());
        if !(earlier.outcome is Continue) {
            earlier
        } else {
            match request_url(earlier.state) {
                Err(failure) => extended(
                    earlier.output,
                    earlier.state,
                    failure_step(earlier.state, failure),
                ),
                Ok(url) => {
                    let behind = page_step(
                        requested(earlier.state, url),
                        pages.last().0,
                        pages.last().1,
                    );
                    extended(earlier.output, behind.0, behind.1)
                },
            }
        }
    }
}

/// The items of a response; none where it is no page.
pub open spec fn page_items(array_path: Seq<char>, page: Page) -> Seq<Json> {
    match page_document(array_path, page.0, page.1) {
        Ok((_, items)) => items,
        Err(_) => Seq::empty(),
    }
}

/// The items of all pages that a run took, in order.
pub open spec fn all_items(start: StreamView, pages: Seq<Page>) -> Seq<Json>
    decreases pages.len(),
{
    if pages.len() == 0 {
        Seq::empty()
    } else {
        let earlier = run(start, pages.drop_last());
        let items = all_items(start, pages.drop_last());
        if earlier.outcome is Continue && request_url(earlier.state) is Ok {
            items + page_items(start.array_path, pages.last())
        } else {
            items
        }
    }
}

/// A stream before its first request.
pub open spec fn is_fresh(s: StreamView) -> bool {
    !s.started && !s.emitted
}

/// The text of a list with more items behind it: its text, and the text of each further item
/// behind a comma, unless it is the first of all.
proof fn lemma_item_chunks(sent: Seq<Json>, items: Seq<Json>)
    ensures
        items_text(sent) + concatenated(item_chunks(items, sent.len() > 0)) == items_text(
            sent + items,
        ),
    decreases items.len(),
{
    let emitted = sent.len() > 0;
    if items.len() == 0 {
        assert(sent + items == sent);
        assert(items_text(sent) + concatenated(item_chunks(items, emitted)) =~= items_text(sent));
    } else {
        let shorter = items.drop_last();
        lemma_item_chunks(sent, shorter);
        let whole = sent + items;
        assert(whole.drop_last() =~= sent + shorter);
        assert(whole[whole.len() - 1] == items.last());
        let earlier = item_chunks(shorter, emitted);
        let text = json_text(items.last());
        reveal_strlit(",");
        assert(","@ =~= seq![',']);
        if emitted || items.len() > 1 {
            lemma_concatenated_push(earlier, ","@);
            lemma_concatenated_push(earlier.push(","@), text);
            assert(comma(whole.len() - 1) == ","@);
            assert(items_text(sent) + (concatenated(earlier) + ","@ + text) =~= items_text(sent)
                + concatenated(earlier) + ","@ + text);
        } else {
            lemma_concatenated_push(earlier, text);
            assert(comma(whole.len() - 1) == Seq::<char>::empty());
            assert(items_text(sent) + (concatenated(earlier) + text) =~= items_text(sent)
                + concatenated(earlier) + comma(whole.len() - 1) + text);
        }
    }
}

/// The document that a run started with.
pub open spec fn first_document(start: StreamView, pages: Seq<Page>) -> Json {
    (page_document(start.array_path, pages[0].0, pages[0].1)->Ok_0).0
}

/// What the client has been sent: what stands before the items in the first document, the items,
/// and, once the document is complete, what stands behind them.
pub open spec fn sent_text(
    document: Json,
    array_path: Seq<char>,
    items: Seq<Json>,
    complete: bool,
) -> Seq<char> {
    prefix_of(document, array_path) + items_text(items) + (if complete {
        suffix_of(document, array_path)
    } else {
        Seq::empty()
    })
}

/// A run whose output has begun has sent the items of the document.
spec fn told(r: Run, document: Json, items: Seq<Json>) -> bool {
    &&& r.state.started
    &&& r.state.emitted == (items.len() > 0)
    &&& array_at(document, r.state.array_path) is Some
    &&& r.state.suffix == suffix_of(document, r.state.array_path)
    &&& r.output == sent_text(document, r.state.array_path, items, r.outcome is Complete)
}

proof fn lemma_failure_output(r: Run, failure: Failure)
    ensures
        !r.state.started ==> failure_step(r.state, failure) == (StepView {
            chunks: Seq::empty(),
            outcome: OutcomeView::Fail(failure),
            closed_by: None,
        }),
        forall|document: Json, items: Seq<Json>|
            r.outcome is Continue && told(r, document, items) ==> #[trigger] told(
                extended(r.output, r.state, failure_step(r.state, failure)),
                document,
                items,
            ),
{
    let step = failure_step(r.state, failure);
    if step.chunks.len() > 0 {
        lemma_concatenated_push(Seq::empty(), r.state.suffix);
        assert(Seq::<Seq<char>>::empty().push(r.state.suffix) =~= step.chunks);
        assert(concatenated(step.chunks) =~= r.state.suffix);
    }
    assert forall|document: Json, items: Seq<Json>|
        r.outcome is Continue && told(r, document, items) implies #[trigger] told(
        extended(r.output, r.state, step),
        document,
        items,
    ) by {
        assert(extended(r.output, r.state, step).output =~= sent_text(
            document,
            r.state.array_path,
            items,
            step.outcome is Complete,
        ));
    }
}

proof fn lemma_page_output(
    r: Run,
    page: Page,
    before: Json,
    sent: Seq<Json>,
    document: Json,
    items: Seq<Json>,
)
    requires
        r.outcome is Continue,
        page_document(r.state.array_path, page.0, page.1) == Ok::<(Json, Seq<Json>), Failure>(
            (document, items),
        ),
        r.state.started ==> told(r, before, sent),
        !r.state.started ==> !r.state.emitted && sent.len() == 0 && r.output.len() == 0,
    ensures
        ({
            let behind = page_step(r.state, page.0, page.1);
            told(
                extended(r.output, behind.0, behind.1),
                if r.state.started {
                    before
                } else {
                    document
                },
                sent + items,
            )
        }),
{
    let s = r.state;
    let first = if s.started {
        before
    } else {
        document
    };
    let t = shown(s, document, items);
    let chunks = page_chunks(s, document, items);
    let all = sent + items;
    lemma_item_chunks(sent, items);
    let texts = item_chunks(items, s.emitted);
    if !s.started {
        let head = seq![prefix_of(document, s.array_path)];
        lemma_concatenated_add(head, texts);
        lemma_concatenated_push(Seq::empty(), prefix_of(document, s.array_path));
        assert(Seq::<Seq<char>>::empty().push(prefix_of(document, s.array_path)) =~= head);
        assert(items_text(sent) =~= Seq::<char>::empty());
    }
    let shown_run = Run {
        state: t,
        output: r.output + concatenated(chunks),
        outcome: OutcomeView::Continue,
    };
    assert(shown_run.output =~= prefix_of(first, s.array_path) + (items_text(sent) + concatenated(
        texts,
    )));
    assert(shown_run.output =~= sent_text(first, s.array_path, all, false));
    assert(told(shown_run, first, all));
    match turn(t, document, items.len()) {
        Ok(Turn::Stop) => {
            lemma_concatenated_push(chunks, t.suffix);
            assert(r.output + concatenated(chunks.push(t.suffix)) =~= sent_text(
                first,
                s.array_path,
                all,
                true,
            ));
        },
        Ok(Turn::Go { pairs, next }) => {},
        Err(failure) => {
            let step = failure_step(t, failure);
            lemma_failure_output(shown_run, failure);
            lemma_concatenated_add(chunks, step.chunks);
            assert(r.output + concatenated(chunks + step.chunks) =~= shown_run.output
                + concatenated(step.chunks));
            assert(told(extended(shown_run.output, t, step), first, all));
        },
    }
}

/// The settings of a stream do not change, and a run whose output has begun has sent the items of
/// all pages around those of the first document.
proof fn lemma_run(start: StreamView, pages: Seq<Page>)
    requires
        is_fresh(start),
    ensures
        ({
            let r = run(start, pages);
            let items = all_items(start, pages);
            &&& r.state.base == start.base
            &&& r.state.path == start.path
            &&& r.state.pagination == start.pagination
            &&& r.state.array_path == start.array_path
            &&& r.state.policy == start.policy
            &&& r.state.started ==> {
                &&& pages.len() > 0
                &&& page_document(start.array_path, pages[0].0, pages[0].1) is Ok
                &&& told(r, first_document(start, pages), items)
            }
            &&& !r.state.started ==> {
                &&& !r.state.emitted
                &&& items.len() == 0
                &&& r.output.len() == 0
                &&& pages.len() > 0 ==> r.outcome is Fail
            }
        }),
    decreases pages.len(),
{
    if pages.len() > 0 {
        let shorter = pages.drop_last();
        lemma_run(start, shorter);
        let earlier = run(start, shorter);
        let sent = all_items(start, shorter);
        let page = pages.last();
        if pages.len() > 1 {
            assert(shorter[0] == pages[0]);
        }
        if earlier.outcome is Continue {
            match request_url(earlier.state) {
                Err(failure) => {
                    lemma_failure_output(earlier, failure);
                    if !earlier.state.started {
                        assert(concatenated(Seq::<Seq<char>>::empty()) == Seq::<char>::empty());
                    }
                },
                Ok(url) => {
                    let asked = Run { state: requested(earlier.state, url), ..earlier };
                    if earlier.state.started {
                        assert(told(asked, first_document(start, shorter), sent));
                    }
                    match page_document(start.array_path, page.0, page.1) {
                        Err(failure) => {
                            assert(sent + page_items(start.array_path, page) =~= sent);
                            lemma_failure_output(asked, failure);
                        },
                        Ok((document, items)) => {
                            lemma_page_output(
                                asked,
                                page,
                                first_document(start, shorter),
                                sent,
                                document,
                                items,
                            );
                        },
                    }
                },
            }
        }
    }
}

/// A stream that completes has sent one document: the first document, with all items of all pages
/// in place of its own. This holds of a stream that ran out of pages, and of one whose later
/// failure the policy turned into an early end; the failing page contributes nothing.
pub proof fn law_complete_document(start: StreamView, pages: Seq<Page>)
    requires
        is_fresh(start),
        run(start, pages).outcome is Complete,
    ensures
        run(start, pages).output == json_text(
            with_at_pointer(
                first_document(start, pages),
                start.array_path,
                Json::Array(all_items(start, pages)),
            ),
        ),
{
    lemma_run(start, pages);
    law_split_frames_items(
        first_document(start, pages),
        start.array_path,
        all_items(start, pages),
    );
}

/// A stream that has not completed has sent the beginning of the document that it would complete:
/// everything up to the end of the items of the pages so far.
pub proof fn law_output_is_a_prefix(start: StreamView, pages: Seq<Page>)
    requires
        is_fresh(start),
        run(start, pages).state.started,
    ensures
        sent_text(first_document(start, pages), start.array_path, all_items(start, pages), false)
            == run(start, pages).output.take(
            sent_text(
                first_document(start, pages),
                start.array_path,
                all_items(start, pages),
                false,
            ).len() as int,
        ),
        !(run(start, pages).outcome is Complete) ==> run(start, pages).output == sent_text(
            first_document(start, pages),
            start.array_path,
            all_items(start, pages),
            false,
        ),
{
    lemma_run(start, pages);
    let full = sent_text(
        first_document(start, pages),
        start.array_path,
        all_items(start, pages),
        false,
    );
    assert(run(start, pages).output.take(full.len() as int) =~= full);
}

/// A failure before the first valid page ends the stream with an error and sends nothing,
/// whatever the policy.
pub proof fn law_early_failure_sends_nothing(start: StreamView, pages: Seq<Page>)
    requires
        is_fresh(start),
        pages.len() > 0,
        page_document(start.array_path, pages[0].0, pages[0].1) is Err,
    ensures
        run(start, pages).outcome is Fail,
        run(start, pages).output == Seq::<char>::empty(),
{
    lemma_run(start, pages);
}

/// A rejection of the credentials ends the stream with that error and sends nothing more,
/// whatever the policy and however much was sent before.
pub proof fn law_rejection_always_ends(s: StreamView, status: u16, body: Seq<char>)
    requires
        status == 401 || status == 403,
    ensures
        page_step(s, status, body) == (
            s,
            StepView {
                chunks: Seq::empty(),
                outcome: OutcomeView::Fail(Failure::Authentication { status }),
                closed_by: None,
            },
        ),
{
}

/// A failure behind the first page ends the stream with that error under the policy to terminate,
/// and closes the document under the policy to complete.
pub proof fn law_policy_decides(s: StreamView, status: u16, body: Seq<char>)
    requires
        s.started,
        page_document(s.array_path, status, body) is Err,
        status != 401 && status != 403,
    ensures
        s.policy == ErrorPolicy::Terminate ==> page_step(s, status, body).1 == (StepView {
            chunks: Seq::empty(),
            outcome: OutcomeView::Fail(page_document(s.array_path, status, body)->Err_0),
            closed_by: None,
        }),
        s.policy == ErrorPolicy::Complete ==> page_step(s, status, body).1 == (StepView {
            chunks: seq![s.suffix],
            outcome: OutcomeView::Complete,
            closed_by: Some(page_document(s.array_path, status, body)->Err_0),
        }),
{
}

// ---------------------------------------------------------------------------------------------
// Positions

/// How a pagination numbers its requests.
pub struct Numbering {
    /// The parameter that holds the position.
    pub parameter: Seq<char>,
    /// The position of the first request.
    pub start: u64,
    /// What the position grows by from one request to the next.
    pub stride: u64,
    /// The parameter that holds the page size.
    pub size_parameter: Seq<char>,
    pub size: u64,
}

/// The numbering of a pagination by offset or by page.
pub open spec fn numbering(pagination: Pagination) -> Option<Numbering> {
    match pagination {
        Pagination::Offset { offset_parameter, page_size_parameter, start, size } => Some(
            Numbering {
                parameter: offset_parameter,
                start,
                stride: size,
                size_parameter: page_size_parameter,
                size,
            },
        ),
        Pagination::Page { page_parameter, page_size_parameter, start, size } => Some(
            Numbering {
                parameter: page_parameter,
                start,
                stride: 1,
                size_parameter: page_size_parameter,
                size,
            },
        ),
        Pagination::NextLink { .. } => None,
    }
}

/// The parameters of a request at a position.
pub open spec fn numbered_pairs(client: Pairs, n: Numbering, position: u64) -> Pairs {
    page_pairs(client, n.parameter, position, n.size_parameter, n.size)
}

/// Moving on to another position leaves nothing of the earlier one.
proof fn lemma_renumbered(client: Pairs, n: Numbering, earlier: u64, later: u64)
    requires
        n.parameter != n.size_parameter,
    ensures
        numbered_pairs(numbered_pairs(client, n, earlier), n, later) == numbered_pairs(
            client,
            n,
            later,
        ),
        number_under(numbered_pairs(client, n, earlier), n.parameter, n.start) == earlier,
{
    let at = decimal_text(earlier as nat);
    let size = decimal_text(n.size as nat);
    let placed = with_query(client, n.parameter, at);
    law_set_query(client, n.parameter, at, n.parameter);
    law_set_query(placed, n.size_parameter, size, n.parameter);
    law_decimal_reads_back(earlier);
    let q1 = with_query(placed, n.size_parameter, size);
    let b = decimal_text(later as nat);
    lemma_without_other_key(placed, n.parameter, n.size_parameter, size);
    // Without the position: the parameters of the client with the page size.
    assert(without_key(q1, n.parameter) == with_query(
        without_key(client, n.parameter),
        n.size_parameter,
        size,
    ));
    lemma_without_other_key(client, n.size_parameter, n.parameter, b);
    let q2 = with_query(q1, n.parameter, b);
    let bare = without_key(client, n.parameter);
    assert(q2.drop_last() == with_query(bare, n.size_parameter, size));
    law_set_query(bare, n.size_parameter, size, n.size_parameter);
    assert(without_key(q2, n.size_parameter) == without_key(bare, n.size_parameter).push(
        (n.parameter, b),
    ));
    let r2 = with_query(client, n.parameter, b);
    assert(r2.drop_last() == bare);
    assert(without_key(r2, n.size_parameter) == without_key(bare, n.size_parameter).push(
        (n.parameter, b),
    ));
}

/// With pagination by offset or by page, the requests of a stream that goes on are at the start
/// position and each one stride behind the last, all with the configured page size and with the
/// other parameters of the client.
pub proof fn law_positions(start: StreamView, client: Pairs, pages: Seq<Page>)
    requires
        is_fresh(start),
        start.next is None,
        numbering(start.pagination) is Some,
        numbering(start.pagination)->0.parameter != numbering(start.pagination)->0.size_parameter,
        start.pairs == first_pairs(start.pagination, client),
        run(start, pages).outcome is Continue,
    ensures
        ({
            let n = numbering(start.pagination)->0;
            let position = n.start + pages.len() * n.stride;
            &&& position <= u64::MAX
            &&& run(start, pages).state.pairs == numbered_pairs(client, n, position as u64)
            &&& request_url(run(start, pages).state) == upstream_url(
                start.base,
                start.path,
                numbered_pairs(client, n, position as u64),
            )
        }),
    decreases pages.len(),
{
    let n = numbering(start.pagination)->0;
    lemma_run(start, pages);
    lemma_next_stays_empty(start, pages);
    if pages.len() > 0 {
        let shorter = pages.drop_last();
        law_positions(start, client, shorter);
        lemma_run(start, shorter);
        let position = (n.start + shorter.len() * n.stride) as u64;
        assert(n.start + pages.len() * n.stride == position + n.stride) by (nonlinear_arith)
            requires
                position == n.start + shorter.len() * n.stride,
                pages.len() == shorter.len() + 1,
        ;
        lemma_renumbered(client, n, position, (position + n.stride) as u64);
    } else {
        assert(pages.len() * n.stride == 0) by (nonlinear_arith)
            requires
                pages.len() == 0,
        ;
    }
}

proof fn lemma_next_stays_empty(start: StreamView, pages: Seq<Page>)
    requires
        is_fresh(start),
        start.next is None,
        numbering(start.pagination) is Some,
    ensures
        run(start, pages).state.next is None,
    decreases pages.len(),
{
    if pages.len() > 0 {
        lemma_next_stays_empty(start, pages.drop_last());
        lemma_run(start, pages.drop_last());
    }
}

/// With pagination by offset or by page, a page with fewer items than the page size, none
/// included, is the last; behind any other page the stream goes on, unless its position would
/// not fit into 64 bits.
pub proof fn law_short_page_is_last(s: StreamView, page: Page)
    requires
        numbering(s.pagination) is Some,
        page_document(s.array_path, page.0, page.1) is Ok,
    ensures
        ({
            let n = numbering(s.pagination)->0;
            let count = page_items(s.array_path, page).len();
            let step = page_step(s, page.0, page.1).1;
            &&& count < n.size ==> step.outcome is Complete
            &&& count >= n.size && number_under(s.pairs, n.parameter, n.start) + n.stride
                <= u64::MAX ==> step.outcome is Continue
        }),
{
}

/// With pagination by links, a page without a link, or with a null one, is the last; a link within
/// the origin of the upstream is what the next request is sent to; any other link, and anything
/// else at its place, is a failure and is not followed.
pub proof fn law_next_link(s: StreamView, document: Json)
    requires
        s.pagination is NextLink,
        array_at(document, s.array_path) is Some,
    ensures
        ({
            let path = s.pagination->path;
            let behind = document_step(s, document);
            match at_pointer(document, path) {
                None => behind.1.outcome is Complete && behind.0.next == s.next,
                Some(Json::Null) => behind.1.outcome is Complete && behind.0.next == s.next,
                Some(Json::Text(link)) => match next_page_url(s.base, s.current, link) {
                    Some(url) => behind.1.outcome is Continue && behind.0.next == Some(url)
                        && same_origin(s.base, url),
                    None => behind.0.next == s.next && !(behind.1.outcome is Continue)
                        && behind.1.outcome == failure_step(
                        behind.0,
                        Failure::ForeignNext(path),
                    ).outcome,
                },
                Some(_) => behind.0.next == s.next && !(behind.1.outcome is Continue)
                    && behind.1.outcome == failure_step(
                    behind.0,
                    Failure::MissingNext(path),
                ).outcome,
            }
        }),
{
}

/// Whatever the pages hold, a link that a stream follows stays within the origin of the upstream.
pub proof fn law_links_stay(start: StreamView, pages: Seq<Page>)
    requires
        start.next is None,
    ensures
        run(start, pages).state.base == start.base,
        link_stays(run(start, pages).state),
    decreases pages.len(),
{
    if pages.len() > 0 {
        law_links_stay(start, pages.drop_last());
    }
}

// ---------------------------------------------------------------------------------------------
// Requests, by their parameters

proof fn lemma_without_two_keys(client: Pairs, a: Seq<char>, b: Seq<char>)
    ensures
        without_key(without_key(client, a), b) == client.filter(
            |pair: (Seq<char>, Seq<char>)| pair.0 != a && pair.0 != b,
        ),
    decreases client.len(),
{
    reveal(Seq::filter);
    if client.len() > 0 {
        let rest = client.drop_last();
        lemma_without_two_keys(rest, a, b);
        assert(without_key(rest, a).push(client.last()).drop_last() == without_key(rest, a));
    }
}

proof fn lemma_two_set(
    client: Pairs,
    position_parameter: Seq<char>,
    position: u64,
    page_size_parameter: Seq<char>,
    size: u64,
)
    requires
        position_parameter != page_size_parameter,
    ensures
        ({
            let pairs = page_pairs(
                client,
                position_parameter,
                position,
                page_size_parameter,
                size,
            );
            &&& pairs == client.filter(
                |pair: (Seq<char>, Seq<char>)|
                    pair.0 != position_parameter && pair.0 != page_size_parameter,
            ).push((position_parameter, decimal_text(position as nat))).push(
                (page_size_parameter, decimal_text(size as nat)),
            )
            &&& first_value(pairs, position_parameter) == Some(decimal_text(position as nat))
            &&& first_value(pairs, page_size_parameter) == Some(decimal_text(size as nat))
        }),
{
    let at = decimal_text(position as nat);
    let placed = with_query(client, position_parameter, at);
    law_set_query(client, position_parameter, at, position_parameter);
    law_set_query(
        placed,
        page_size_parameter,
        decimal_text(size as nat),
        position_parameter,
    );
    lemma_without_two_keys(client, position_parameter, page_size_parameter);
    assert(placed.drop_last() == without_key(client, position_parameter));
}

/// With pagination by offset, the request behind any number of pages asks for the configured page
/// size, and skips the start offset and one page size for each page. Every other parameter of the
/// client goes along, all of its values in order.
pub proof fn law_offset_requests(
    base: Seq<char>,
    path: Seq<char>,
    client: Pairs,
    offset_parameter: Seq<char>,
    page_size_parameter: Seq<char>,
    start: u64,
    size: u64,
    array_path: Seq<char>,
    policy: ErrorPolicy,
    pages: Seq<Page>,
)
    requires
        offset_parameter != page_size_parameter,
        run(
            stream_from(
                base,
                path,
                client,
                Pagination::Offset { offset_parameter, page_size_parameter, start, size },
                array_path,
                policy,
            ),
            pages,
        ).outcome is Continue,
    ensures
        ({
            let s = run(
                stream_from(
                    base,
                    path,
                    client,
                    Pagination::Offset { offset_parameter, page_size_parameter, start, size },
                    array_path,
                    policy,
                ),
                pages,
            ).state;
            let skipped = start + pages.len() * size;
            &&& first_value(s.pairs, offset_parameter) == Some(decimal_text(skipped as nat))
            &&& first_value(s.pairs, page_size_parameter) == Some(decimal_text(size as nat))
            &&& s.pairs == client.filter(
                |pair: (Seq<char>, Seq<char>)|
                    pair.0 != offset_parameter && pair.0 != page_size_parameter,
            ).push((offset_parameter, decimal_text(skipped as nat))).push(
                (page_size_parameter, decimal_text(size as nat)),
            )
            &&& request_url(s) == upstream_url(base, path, s.pairs)
        }),
{
    let pagination = Pagination::Offset { offset_parameter, page_size_parameter, start, size };
    let fresh = stream_from(base, path, client, pagination, array_path, policy);
    law_positions(fresh, client, pages);
    lemma_two_set(
        client,
        offset_parameter,
        (start + pages.len() * size) as u64,
        page_size_parameter,
        size,
    );
}

/// With pagination by page, the request behind any number of pages asks for the configured page size
/// and for the start page or, page by page, the one behind it. Every other parameter of the client
/// goes along, all of its values in order.
pub proof fn law_page_requests(
    base: Seq<char>,
    path: Seq<char>,
    client: Pairs,
    page_parameter: Seq<char>,
    page_size_parameter: Seq<char>,
    start: u64,
    size: u64,
    array_path: Seq<char>,
    policy: ErrorPolicy,
    pages: Seq<Page>,
)
    requires
        page_parameter != page_size_parameter,
        run(
            stream_from(
                base,
                path,
                client,
                Pagination::Page { page_parameter, page_size_parameter, start, size },
                array_path,
                policy,
            ),
            pages,
        ).outcome is Continue,
    ensures
        ({
            let s = run(
                stream_from(
                    base,
                    path,
                    client,
                    Pagination::Page { page_parameter, page_size_parameter, start, size },
                    array_path,
                    policy,
                ),
                pages,
            ).state;
            let number = start + pages.len();
            &&& first_value(s.pairs, page_parameter) == Some(decimal_text(number as nat))
            &&& first_value(s.pairs, page_size_parameter) == Some(decimal_text(size as nat))
            &&& s.pairs == client.filter(
                |pair: (Seq<char>, Seq<char>)|
                    pair.0 != page_parameter && pair.0 != page_size_parameter,
            ).push((page_parameter, decimal_text(number as nat))).push(
                (page_size_parameter, decimal_text(size as nat)),
            )
            &&& request_url(s) == upstream_url(base, path, s.pairs)
        }),
{
    let pagination = Pagination::Page { page_parameter, page_size_parameter, start, size };
    let fresh = stream_from(base, path, client, pagination, array_path, policy);
    law_positions(fresh, client, pages);
    assert(pages.len() * 1 == pages.len());
    lemma_two_set(
        client,
        page_parameter,
        (start + pages.len()) as u64,
        page_size_parameter,
        size,
    );
}

/// Where position and page size have the same parameter, it holds the page size. The other parameters
/// of the client go along.
pub proof fn law_one_parameter(
    base: Seq<char>,
    path: Seq<char>,
    client: Pairs,
    parameter: Seq<char>,
    start: u64,
    size: u64,
    array_path: Seq<char>,
    policy: ErrorPolicy,
)
    ensures
        ({
            let by_offset = Pagination::Offset {
                offset_parameter: parameter,
                page_size_parameter: parameter,
                start,
                size,
            };
            let by_page = Pagination::Page {
                page_parameter: parameter,
                page_size_parameter: parameter,
                start,
                size,
            };
            let pairs = client.filter(|pair: (Seq<char>, Seq<char>)| pair.0 != parameter).push(
                (parameter, decimal_text(size as nat)),
            );
            &&& stream_from(base, path, client, by_offset, array_path, policy).pairs == pairs
            &&& stream_from(base, path, client, by_page, array_path, policy).pairs == pairs
        }),
{
    law_set_query_again(
        client,
        parameter,
        decimal_text(start as nat),
        decimal_text(size as nat),
    );
    law_set_query_keeps_others(client, parameter, decimal_text(size as nat));
}

/// With pagination by links, the first request is that of the client: the same parameters, all of
/// them and in order, sent to the upstream. Whatever the pagination, the parameters of the client are
/// those of its query.
pub proof fn law_first_linked_request(
    base: Seq<char>,
    path: Seq<char>,
    client: Pairs,
    query: Seq<char>,
    link_path: Seq<char>,
    pagination: Pagination,
    array_path: Seq<char>,
    policy: ErrorPolicy,
)
    ensures
        ({
            let linked = Pagination::NextLink { path: link_path };
            let fresh = stream_from(base, path, client, linked, array_path, policy);
            &&& fresh.pairs == client
            &&& fresh.next is None
            &&& request_url(fresh) == upstream_url(base, path, client)
            &&& request_url(stream_start(base, path, query, linked, array_path, policy))
                == upstream_url(base, path, form_pairs(query))
        }),
        stream_start(base, path, query, pagination, array_path, policy) == stream_from(
            base,
            path,
            form_pairs(query),
            pagination,
            array_path,
            policy,
        ),
        ({
            let fresh = stream_from(base, path, client, pagination, array_path, policy);
            &&& fresh.base == base && fresh.path == path && fresh.pagination == pagination
            &&& fresh.array_path == array_path && fresh.policy == policy
            &&& fresh.next is None && is_fresh(fresh)
        }),
{
}

/// The parameters of a stream by links never change, and what a page links to is what is asked for
/// next, once.
pub proof fn law_linked_requests(s: StreamView, url: Seq<char>)
    ensures
        s.next matches Some(next) ==> request_url(s) == Ok::<Seq<char>, Failure>(next),
        s.next is None ==> request_url(s) == upstream_url(s.base, s.path, s.pairs),
        requested(s, url).next is None,
        requested(s, url).current == url,
        requested(s, url).pairs == s.pairs && requested(s, url).pagination == s.pagination
            && requested(s, url).base == s.base && requested(s, url).path == s.path,
{
}

// ---------------------------------------------------------------------------------------------
// Pages, by what they hold

/// A response is a page exactly where its status reports success, its body is a JSON document, and
/// the configured pointer leads to an array in it. Otherwise the first of these that fails says which
/// failure it is.
pub proof fn law_page(array_path: Seq<char>, status: u16, body: Seq<char>)
    ensures
        ({
            let found = page_document(array_path, status, body);
            if status == 401 || status == 403 {
                found == Err::<(Json, Seq<Json>), Failure>(Failure::Authentication { status })
            } else if status < 200 || status > 299 {
                found == Err::<(Json, Seq<Json>), Failure>(
                    Failure::UpstreamStatus { status, body },
                )
            } else {
                match json_parsed(body) {
                    None => found == Err::<(Json, Seq<Json>), Failure>(Failure::Json),
                    Some(document) => match at_pointer(document, array_path) {
                        Some(Json::Array(items)) => found == Ok::<(Json, Seq<Json>), Failure>(
                            (document, items),
                        ),
                        _ => found == Err::<(Json, Seq<Json>), Failure>(
                            Failure::MissingArray(array_path),
                        ),
                    },
                }
            }
        }),
{
}

/// A failure, wherever it comes from, leaves a stream as it is. It closes the document where the
/// policy says so, output has begun and the credentials were not rejected; otherwise the stream ends
/// with it, and nothing more is sent.
pub proof fn law_failure(s: StreamView, failure: Failure, status: u16, body: Seq<char>)
    ensures
        ({
            let step = failure_step(s, failure);
            if s.policy == ErrorPolicy::Complete && s.started && !(failure is Authentication) {
                step.chunks == seq![s.suffix] && step.outcome is Complete && step.closed_by == Some(
                    failure,
                )
            } else {
                step.chunks.len() == 0 && step.outcome == OutcomeView::Fail(failure)
                    && step.closed_by is None
            }
        }),
        page_document(s.array_path, status, body) == Err::<(Json, Seq<Json>), Failure>(failure)
            ==> page_step(s, status, body) == (s, failure_step(s, failure)),
{
}

/// With pagination by offset or by page, a page with fewer items than the page size is the last one.
/// Behind any other page the stream goes on at the position behind it, one page size or one page
/// further; a position beyond 64 bits is a failure.
pub proof fn law_numbered_turn(s: StreamView, status: u16, body: Seq<char>, items: Seq<Json>)
    requires
        !(s.pagination is NextLink),
        page_document(s.array_path, status, body) matches Ok(page) && page.1 == items,
    ensures
        ({
            let (position, size, stride) = match s.pagination {
                Pagination::Offset { offset_parameter, start, size, .. } => (
                    number_under(s.pairs, offset_parameter, start),
                    size,
                    size,
                ),
                Pagination::Page { page_parameter, start, size, .. } => (
                    number_under(s.pairs, page_parameter, start),
                    size,
                    1u64,
                ),
                _ => (0u64, 0u64, 0u64),
            };
            let (behind, step) = page_step(s, status, body);
            if items.len() < size {
                step.outcome is Complete && step.closed_by is None
            } else if position + stride <= u64::MAX {
                step.outcome is Continue && behind.next is None
            } else {
                step.outcome == failure_step(
                    behind,
                    Failure::Config("pagination position is out of range"@),
                ).outcome
            }
        }),
{
}

proof fn lemma_items_of_pages(start: StreamView, pages: Seq<Page>, lists: Seq<Seq<Json>>)
    requires
        pages.len() == lists.len(),
        forall|i: int|
            0 <= i < pages.len() ==> page_items(start.array_path, #[trigger] pages[i]) == lists[i],
        pages.len() > 0 ==> run(start, pages.drop_last()).outcome is Continue && request_url(
            run(start, pages.drop_last()).state,
        ) is Ok,
    ensures
        all_items(start, pages) == lists.flatten(),
    decreases pages.len(),
{
    if pages.len() > 0 {
        let shorter = pages.drop_last();
        assert forall|i: int| 0 <= i < shorter.len() implies page_items(
            start.array_path,
            #[trigger] shorter[i],
        ) == lists.drop_last()[i] by {
            assert(shorter[i] == pages[i]);
        }
        lemma_items_of_pages(start, shorter, lists.drop_last());
        lists.drop_last().lemma_flatten_push(lists.last());
        assert(lists.drop_last().push(lists.last()) =~= lists);
        assert(pages[pages.len() - 1] == pages.last());
    }
}

/// A stream whose pages are all valid and that completes behind the last of them has sent one JSON
/// document: the first one, with the items of all pages, in order, in place of its own.
pub proof fn law_all_pages_in_one_document(
    start: StreamView,
    pages: Seq<Page>,
    documents: Seq<Json>,
    lists: Seq<Seq<Json>>,
)
    requires
        is_fresh(start),
        pages.len() > 0,
        pages.len() == documents.len() == lists.len(),
        forall|i: int|
            0 <= i < pages.len() ==> 200 <= (#[trigger] pages[i]).0 <= 299 && json_parsed(pages[i].1)
                == Some(documents[i]) && at_pointer(documents[i], start.array_path) == Some(
                Json::Array(lists[i]),
            ),
        run(start, pages.drop_last()).outcome is Continue,
        request_url(run(start, pages.drop_last()).state) is Ok,
    ensures
        run(start, pages).outcome is Complete ==> run(start, pages).output == json_text(
            with_at_pointer(documents[0], start.array_path, Json::Array(lists.flatten())),
        ),
        !(run(start, pages).outcome is Complete) ==> run(start, pages).output == prefix_of(
            documents[0],
            start.array_path,
        ) + items_text(lists.flatten()),
{
    assert forall|i: int| 0 <= i < pages.len() implies page_items(
        start.array_path,
        #[trigger] pages[i],
    ) == lists[i] by {
        law_page(start.array_path, pages[i].0, pages[i].1);
    }
    lemma_items_of_pages(start, pages, lists);
    law_page(start.array_path, pages[0].0, pages[0].1);
    lemma_run(start, pages);
    assert(first_document(start, pages) == documents[0]);
    if run(start, pages).outcome is Complete {
        law_complete_document(start, pages);
    } else {
        assert(prefix_of(documents[0], start.array_path) + items_text(lists.flatten())
            + Seq::<char>::empty() =~= prefix_of(documents[0], start.array_path) + items_text(
            lists.flatten(),
        ));
    }
}

/// A stream whose pages so far are all valid and that meets a failing one closes the document under
/// the policy to complete: it is the first one, with the items of the valid pages. Under the policy to
/// terminate, and where the credentials are rejected, it breaks off with the failure.
pub proof fn law_failing_page(
    start: StreamView,
    pages: Seq<Page>,
    documents: Seq<Json>,
    lists: Seq<Seq<Json>>,
    failing: Page,
    failure: Failure,
)
    requires
        is_fresh(start),
        pages.len() > 0,
        pages.len() == documents.len() == lists.len(),
        forall|i: int|
            0 <= i < pages.len() ==> 200 <= (#[trigger] pages[i]).0 <= 299 && json_parsed(pages[i].1)
                == Some(documents[i]) && at_pointer(documents[i], start.array_path) == Some(
                Json::Array(lists[i]),
            ),
        run(start, pages).outcome is Continue,
        request_url(run(start, pages).state) is Ok,
        page_document(start.array_path, failing.0, failing.1) == Err::<(Json, Seq<Json>), Failure>(
            failure,
        ),
    ensures
        ({
            let r = run(start, pages.push(failing));
            if start.policy == ErrorPolicy::Complete && !(failure is Authentication) {
                r.outcome is Complete && r.output == json_text(
                    with_at_pointer(documents[0], start.array_path, Json::Array(lists.flatten())),
                )
            } else {
                r.outcome == OutcomeView::Fail(failure) && r.output == prefix_of(
                    documents[0],
                    start.array_path,
                ) + items_text(lists.flatten())
            }
        }),
{
    let longer = pages.push(failing);
    assert(longer.drop_last() == pages);
    assert(longer.last() == failing);
    assert(longer[0] == pages[0]);
    let shorter = pages.drop_last();
    assert(run(start, shorter).outcome is Continue);
    assert(request_url(run(start, shorter).state) is Ok);
    assert forall|i: int| 0 <= i < pages.len() implies page_items(
        start.array_path,
        #[trigger] pages[i],
    ) == lists[i] by {
        law_page(start.array_path, pages[i].0, pages[i].1);
    }
    lemma_items_of_pages(start, pages, lists);
    assert(all_items(start, longer) =~= lists.flatten());
    law_page(start.array_path, pages[0].0, pages[0].1);
    lemma_run(start, pages);
    lemma_run(start, longer);
    assert(first_document(start, longer) == documents[0]);
    if run(start, longer).outcome is Complete {
        law_complete_document(start, longer);
    } else {
        let sent = prefix_of(documents[0], start.array_path) + items_text(lists.flatten());
        assert(sent + Seq::<char>::empty() =~= sent);
    }
}

} // verus!
