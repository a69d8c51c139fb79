//! Texts for diagnostic logs.
use crate::headers::{
    format_headers, header_lines, is_sensitive, law_log_keeps_secrets, logged_headers, Lines,
};
use crate::text::chars_of;
use vstd::prelude::*;

verus! {

/// The most characters on a line of a logged payload.
pub const LINE_WIDTH: usize = 60;

/// The number of characters on the last line of a wrapped payload.
pub open spec fn wrapped_width(payload: Seq<char>) -> nat
    decreases payload.len(),
{
    if payload.len() == 0 || payload.last() == '\n' {
        0
    } else if wrapped_width(payload.drop_last()) == LINE_WIDTH {
        1
    } else {
        wrapped_width(payload.drop_last()) + 1
    }
}

/// A payload with a line break before each character that would not fit on its line.
pub open spec fn wrapped(payload: Seq<char>) -> Seq<char>
    decreases payload.len(),
{
    if payload.len() == 0 {
        Seq::empty()
    } else {
        let earlier = wrapped(payload.drop_last());
        if payload.last() != '\n' && wrapped_width(payload.drop_last()) == LINE_WIDTH {
            earlier.push('\n').push(payload.last())
        } else {
            earlier.push(payload.last())
        }
    }
}

/// A payload in a log.
pub open spec fn logged_payload(payload: Seq<char>) -> Seq<char> {
    if payload.len() == 0 {
        "<empty>"@
    } else {
        wrapped(payload)
    }
}

/// Formats a payload for a log: its lines wrapped, or a note that it is empty.
pub fn format_payload(payload: &str) -> (r: String)
    ensures
        payload@.len() == 0 ==> r@ == "<empty>"@,
        payload@.len() > 0 ==> r@ == wrapped(payload@),
        r@ == logged_payload(payload@),
{
    if payload.is_empty() {
        return "<empty>".to_owned();
    }
    let mut output = String::new();
    let mut line_width: usize = 0;
    for character in it: payload.chars()
        invariant
            it.seq() == payload@,
            output@ == wrapped(payload@.take(it.index())),
            line_width == wrapped_width(payload@.take(it.index())),
            line_width <= LINE_WIDTH,
    {
        assert(payload@.take(it.index() + 1).drop_last() == payload@.take(it.index()));
        if character == '\n' {
            output.push(character);
            line_width = 0;
        } else {
            if line_width == LINE_WIDTH {
                output.push('\n');
                line_width = 0;
            }
            output.push(character);
            line_width += 1;
        }
    }
    assert(payload@.take(payload@.len() as int) == payload@);
    output
}

/// The number of characters behind the last line break of a text.
pub open spec fn last_line(text: Seq<char>) -> nat
    decreases text.len(),
{
    if text.len() == 0 || text.last() == '\n' {
        0
    } else {
        last_line(text.drop_last()) + 1
    }
}

/// The number of characters on the longest line of a text.
pub open spec fn longest_line(text: Seq<char>) -> nat
    decreases text.len(),
{
    if text.len() == 0 {
        0
    } else if longest_line(text.drop_last()) > last_line(text) {
        longest_line(text.drop_last())
    } else {
        last_line(text)
    }
}

/// A text without its line breaks.
pub open spec fn without_breaks(text: Seq<char>) -> Seq<char>
    decreases text.len(),
{
    if text.len() == 0 {
        Seq::empty()
    } else if text.last() == '\n' {
        without_breaks(text.drop_last())
    } else {
        without_breaks(text.drop_last()).push(text.last())
    }
}

/// No line of a wrapped payload is longer than the limit, and wrapping adds nothing but line
/// breaks. A payload without longer lines is left as it is, so wrapping again changes nothing.
pub proof fn law_wrapped(payload: Seq<char>)
    ensures
        longest_line(wrapped(payload)) <= LINE_WIDTH,
        without_breaks(wrapped(payload)) == without_breaks(payload),
        longest_line(payload) <= LINE_WIDTH ==> wrapped(payload) == payload,
        wrapped(wrapped(payload)) == wrapped(payload),
{
    lemma_wrapped(payload);
    if longest_line(payload) <= LINE_WIDTH {
        lemma_not_wrapped(payload);
    }
    lemma_not_wrapped(wrapped(payload));
}

proof fn lemma_wrapped_places(payload: Seq<char>)
    requires
        !payload.contains('\n'),
    ensures
        payload.len() == 0 ==> wrapped_width(payload) == 0,
        payload.len() > 0 ==> wrapped_width(payload) == (payload.len() - 1) % 60 + 1,
        payload.len() == 0 ==> wrapped(payload).len() == 0,
        payload.len() > 0 ==> wrapped(payload).len() == payload.len() + (payload.len() - 1) / 60,
        forall|i: int| 0 <= i < payload.len() ==> wrapped(payload)[i + i / 60] == #[trigger] payload[i],
    decreases payload.len(),
{
    if payload.len() > 0 {
        let front = payload.drop_last();
        let c = payload.last();
        assert(payload[payload.len() - 1] == c);
        if front.contains('\n') {
            let j = choose|j: int| 0 <= j < front.len() && front[j] == '\n';
            assert(payload[j] == '\n');
        }
        if c == '\n' {
            assert(payload.contains('\n'));
        }
        lemma_wrapped_places(front);
        let n = payload.len() as int;
        assert(wrapped(payload).len() == n + (n - 1) / 60);
        assert forall|i: int| 0 <= i < n implies wrapped(payload)[i + i / 60] == #[trigger] payload[i] by {
            if i < n - 1 {
                assert(front[i] == payload[i]);
                assert(i / 60 <= (n - 2) / 60);
                assert(i + i / 60 < wrapped(front).len());
            }
        }
    }
}

/// Wrapped without line breaks of its own, a payload has a break behind every sixty characters,
/// unless it ends there, and its characters stand in order around them.
pub proof fn law_wrapped_line(payload: Seq<char>, i: int)
    requires
        !payload.contains('\n'),
        0 <= i < payload.len(),
    ensures
        wrapped(payload).len() == payload.len() + (payload.len() - 1) / 60,
        wrapped(payload)[i + i / 60] == payload[i],
        i > 0 && i % 60 == 0 ==> wrapped(payload)[i + i / 60 - 1] == '\n',
{
    lemma_wrapped_places(payload);
    assert(payload[i] == payload[i]);
    if i > 0 && i % 60 == 0 {
        lemma_break(payload, i);
    }
}

proof fn lemma_break(payload: Seq<char>, i: int)
    requires
        !payload.contains('\n'),
        0 < i < payload.len(),
        i % 60 == 0,
    ensures
        wrapped(payload)[i + i / 60 - 1] == '\n',
    decreases payload.len(),
{
    let front = payload.drop_last();
    if front.contains('\n') {
        let j = choose|j: int| 0 <= j < front.len() && front[j] == '\n';
        assert(payload[j] == '\n');
    }
    lemma_wrapped_places(front);
    assert(payload[payload.len() - 1] == payload.last());
    if i < front.len() {
        lemma_break(front, i);
        assert(i / 60 <= (front.len() - 1) / 60);
    } else {
        assert(payload.last() != '\n');
        assert((front.len() - 1) % 60 == 59);
        assert((i - 1) / 60 == i / 60 - 1);
    }
}

/// Each line of a payload is wrapped by itself.
pub proof fn law_wrapped_lines(first: Seq<char>, rest: Seq<char>)
    ensures
        wrapped(first.push('\n') + rest) == wrapped(first).push('\n') + wrapped(rest),
{
    lemma_wrapped_lines(first, rest);
}

proof fn lemma_wrapped_lines(first: Seq<char>, rest: Seq<char>)
    ensures
        wrapped(first.push('\n') + rest) == wrapped(first).push('\n') + wrapped(rest),
        wrapped_width(first.push('\n') + rest) == wrapped_width(rest),
    decreases rest.len(),
{
    let whole = first.push('\n') + rest;
    if rest.len() == 0 {
        assert(whole =~= first.push('\n'));
        assert(whole.drop_last() =~= first);
        assert(wrapped(first).push('\n') + wrapped(rest) =~= wrapped(first).push('\n'));
    } else {
        lemma_wrapped_lines(first, rest.drop_last());
        assert(whole.drop_last() =~= first.push('\n') + rest.drop_last());
        assert(whole.last() == rest.last());
        let head = wrapped(first).push('\n');
        let earlier = wrapped(rest.drop_last());
        let c = rest.last();
        assert((head + earlier).push(c) =~= head + earlier.push(c));
        assert((head + earlier).push('\n').push(c) =~= head + earlier.push('\n').push(c));
    }
}

proof fn lemma_not_wrapped(payload: Seq<char>)
    requires
        longest_line(payload) <= LINE_WIDTH,
    ensures
        wrapped(payload) == payload,
        wrapped_width(payload) == last_line(payload),
    decreases payload.len(),
{
    if payload.len() > 0 {
        lemma_not_wrapped(payload.drop_last());
        assert(payload.drop_last().push(payload.last()) == payload);
    }
}

proof fn lemma_wrapped(payload: Seq<char>)
    ensures
        last_line(wrapped(payload)) == wrapped_width(payload),
        wrapped_width(payload) <= LINE_WIDTH,
        longest_line(wrapped(payload)) <= LINE_WIDTH,
        without_breaks(wrapped(payload)) == without_breaks(payload),
    decreases payload.len(),
{
    if payload.len() > 0 {
        lemma_wrapped(payload.drop_last());
        let earlier = wrapped(payload.drop_last());
        let c = payload.last();
        if c != '\n' && wrapped_width(payload.drop_last()) == LINE_WIDTH {
            assert(earlier.push('\n').drop_last() == earlier);
            assert(last_line(earlier.push('\n')) == 0);
            assert(longest_line(earlier.push('\n')) <= LINE_WIDTH);
            assert(without_breaks(earlier.push('\n')) == without_breaks(earlier));
            assert(earlier.push('\n').push(c).drop_last() == earlier.push('\n'));
        } else {
            assert(earlier.push(c).drop_last() == earlier);
        }
    }
}

/// A credential in a log: its first three characters, and six asterisks whatever its length.
pub open spec fn masked(value: Seq<char>) -> Seq<char> {
    (if value.len() < 3 {
        value
    } else {
        value.take(3)
    }) + "******"@
}

/// Masks a credential for a log.
pub fn masked_credential(value: &str) -> (r: String)
    ensures
        r@ == masked(value@),
{
    let chars = chars_of(value);
    let shown: usize = if chars.len() < 3 {
        chars.len()
    } else {
        3
    };
    let mut out = String::new();
    let mut i: usize = 0;
    while i < shown
        invariant
            i <= shown <= chars@.len(),
            chars@ == value@,
            out@ == value@.take(i as int),
        decreases shown - i,
    {
        out.push(chars[i]);
        i += 1;
    }
    assert(value@.take(value@.len() as int) == value@);
    out.append("******");
    out
}

/// A masked credential does not tell what stands behind its third character, nor how long it is,
/// where it has three characters or more; a shorter one is shown in full before the asterisks.
pub proof fn law_mask(a: Seq<char>, b: Seq<char>)
    ensures
        a.len() >= 3 && b.len() >= 3 && a.take(3) == b.take(3) ==> masked(a) == masked(b),
        a.len() >= 3 ==> masked(a).len() == 9,
        a.len() < 3 ==> masked(a) == a + "******"@ && masked(a).len() == a.len() + 6,
        a.len() >= 3 ==> masked(a) == a.take(3) + seq!['*', '*', '*', '*', '*', '*'],
{
    reveal_strlit("******");
    assert("******"@ =~= seq!['*', '*', '*', '*', '*', '*']);
}

/// A client request in a log.
pub open spec fn logged_request(method: Seq<char>, uri: Seq<char>, lines: Lines) -> Seq<char> {
    method + " "@ + uri + "\n"@ + logged_headers(lines) + "\nbody: <none; GET requests only>"@
}

/// A log shows the method and the target of a request on one line, its headers behind them, and that
/// it has no body. It does not depend on the values of headers that may carry a credential. An empty
/// payload is shown by a note.
pub proof fn law_logged_request(method: Seq<char>, uri: Seq<char>, a: Lines, b: Lines)
    requires
        a.len() == b.len(),
        forall|i: int| 0 <= i < a.len() ==> (#[trigger] a[i]).0 == b[i].0,
        forall|i: int| 0 <= i < a.len() && !is_sensitive((#[trigger] a[i]).0) ==> a[i].1 == b[i].1,
    ensures
        logged_request(method, uri, a) == logged_request(method, uri, b),
        logged_request(method, uri, a) == method + " "@ + uri + "\n"@ + logged_headers(a)
            + "\nbody: <none; GET requests only>"@,
        logged_payload(Seq::empty()) == "<empty>"@,
        uri.len() > 0 ==> logged_payload(uri) == wrapped(uri),
{
    law_log_keeps_secrets(a, b);
}

/// Formats a client request for a log. Values that may carry a credential are left out.
pub fn format_client_request(
    method: &str,
    uri: &str,
    headers: &http::HeaderMap<http::HeaderValue>,
) -> (r: String)
    ensures
        r@ == method@ + " "@ + uri@ + "\n"@ + logged_headers(header_lines(*headers))
            + "\nbody: <none; GET requests only>"@,
        r@ == logged_request(method@, uri@, header_lines(*headers)),
{
    let mut output: String = method.to_owned();
    output.append(" ");
    output.append(uri);
    output.append("\n");
    output.append(format_headers(headers).as_str());
    output.append("\nbody: <none; GET requests only>");
    output
}

} // verus!
