//! Request and response headers: which are forwarded, and how they are logged.
use crate::text::{contains, lowered, occurs, same_text, to_lower};
use vstd::prelude::*;

verus! {

/// A header line: its name, the bytes of its value, and whether the value is marked as sensitive.
pub type Line = (Seq<char>, Seq<u8>, bool);

/// Header lines, in order.
pub type Lines = Seq<Line>;

// ---------------------------------------------------------------------------------------------
// `http::HeaderMap`

/// The header map of the `http` crate.
#[verifier::external_type_specification]
#[verifier::external_body]
#[verifier::reject_recursive_types(T)]
pub struct ExHeaderMap<T>(http::HeaderMap<T>);

/// A header value of the `http` crate.
#[verifier::external_type_specification]
#[verifier::external_body]
pub struct ExHeaderValue(http::HeaderValue);

/// The lines of a header map, in the order in which it is walked.
pub uninterp spec fn header_lines(map: http::HeaderMap<http::HeaderValue>) -> Lines;

/// Lines with the same name stand next to each other.
pub open spec fn is_grouped(lines: Lines) -> bool {
    forall|i: int, j: int, k: int|
        0 <= i < j < k < lines.len() && (#[trigger] lines[i]).0 == (#[trigger] lines[k]).0
            ==> (#[trigger] lines[j]).0 == lines[i].0
}

/// Whether a line has a name.
pub open spec fn has_name(lines: Lines, name: Seq<char>) -> bool {
    exists|i: int| 0 <= i < lines.len() && (#[trigger] lines[i]).0 == name
}

/// The lines with one more: behind the last line of that name, or behind all.
pub open spec fn with_line(lines: Lines, line: Line) -> Lines
    decreases lines.len(),
{
    if lines.len() == 0 || lines.last().0 == line.0 || !has_name(lines, line.0) {
        lines.push(line)
    } else {
        with_line(lines.drop_last(), line).push(lines.last())
    }
}

/// The values under a name, each with its mark, in order.
pub open spec fn values_under(lines: Lines, name: Seq<char>) -> Seq<(Seq<u8>, bool)>
    decreases lines.len(),
{
    if lines.len() == 0 {
        Seq::empty()
    } else if lines.last().0 == name {
        values_under(lines.drop_last(), name).push((lines.last().1, lines.last().2))
    } else {
        values_under(lines.drop_last(), name)
    }
}

/// The number of different names.
pub open spec fn name_count(lines: Lines) -> nat
    decreases lines.len(),
{
    if lines.len() == 0 {
        0
    } else if has_name(lines.drop_last(), lines.last().0) {
        name_count(lines.drop_last())
    } else {
        name_count(lines.drop_last()) + 1
    }
}

/// A header map with no more names than this has room for another line, however the hashes of its
/// names fall.
pub const MAX_NAMES: usize = 6553;

/// The lines of a vector of names, values and marks.
pub open spec fn lines_of(entries: Seq<(String, Vec<u8>, bool)>) -> Lines {
    entries.map_values(|e: (String, Vec<u8>, bool)| (e.0@, e.1@, e.2))
}

/// `http::HeaderMap::new`: no lines.
#[verifier::external_body]
fn new_map() -> (r: http::HeaderMap<http::HeaderValue>)
    ensures
        header_lines(r) == Lines::empty(),
{
    http::HeaderMap::new()
}

/// `http::HeaderMap::iter`: the lines of the map, those of one name next to each other.
#[verifier::external_body]
fn map_lines(map: &http::HeaderMap<http::HeaderValue>) -> (r: Vec<(String, Vec<u8>, bool)>)
    ensures
        lines_of(r@) == header_lines(*map),
        is_grouped(lines_of(r@)),
{
    map.iter()
        .map(|(name, value)| {
            (name.as_str().to_string(), value.as_bytes().to_vec(), value.is_sensitive())
        })
        .collect()
}

/// `http::HeaderMap::try_append` with the name and the value of a line of another map: the value is
/// added behind those of the same name, or as the last line. Where the map is out of room nothing
/// changes; with up to `MAX_NAMES` names it is not.
#[verifier::external_body]
fn append_line(
    map: &mut http::HeaderMap<http::HeaderValue>,
    source: &http::HeaderMap<http::HeaderValue>,
    index: usize,
) -> (r: bool)
    requires
        index < header_lines(*source).len(),
    ensures
        r ==> header_lines(*final(map)) == with_line(
            header_lines(*old(map)),
            header_lines(*source)[index as int],
        ),
        !r ==> header_lines(*final(map)) == header_lines(*old(map)),
        name_count(header_lines(*old(map))) <= MAX_NAMES ==> r,
{
    let (name, value) = source.iter().nth(index).unwrap();
    map.try_append(name.clone(), value.clone()).is_ok()
}

/// `http::HeaderMap::clone`: the copy holds the same lines.
#[verifier::external_body]
fn copy_map(map: &http::HeaderMap<http::HeaderValue>) -> (r: http::HeaderMap<http::HeaderValue>)
    ensures
        header_lines(r) == header_lines(*map),
{
    map.clone()
}

/// `http::HeaderMap::remove` of the name of a line: no line of that name is left, and the values
/// under every other name are what they were. Lines may change places.
#[verifier::external_body]
fn remove_name(map: &mut http::HeaderMap<http::HeaderValue>, index: usize)
    requires
        index < header_lines(*old(map)).len(),
    ensures
        forall|name: Seq<char>| #[trigger]
            values_under(header_lines(*final(map)), name) == (if name == header_lines(
                *old(map),
            )[index as int].0 {
                Seq::empty()
            } else {
                values_under(header_lines(*old(map)), name)
            }),
        header_lines(*final(map)).len() < header_lines(*old(map)).len(),
{
    let name = map.iter().nth(index).unwrap().0.clone();
    map.remove(name);
}

// ---------------------------------------------------------------------------------------------
// Forwarding

/// Whether a header may carry a credential, by its name.
pub open spec fn is_sensitive(name: Seq<char>) -> bool {
    ||| occurs(lowered(name), "auth"@)
    ||| occurs(lowered(name), "token"@)
    ||| occurs(lowered(name), "credential"@)
}

/// Whether a header of a client is forwarded to the upstream, by its name.
pub open spec fn is_forwarded(name: Seq<char>) -> bool {
    &&& lowered(name) != "host"@
    &&& lowered(name) != "accept-encoding"@
    &&& !is_sensitive(name)
}

/// The lines that are forwarded, in order.
pub open spec fn forwarded(lines: Lines) -> Lines
    decreases lines.len(),
{
    if lines.len() == 0 {
        Seq::empty()
    } else if is_forwarded(lines.last().0) {
        forwarded(lines.drop_last()).push(lines.last())
    } else {
        forwarded(lines.drop_last())
    }
}

/// Decides whether a header may carry a credential.
pub fn sensitive(name: &str) -> (r: bool)
    ensures
        r == is_sensitive(name@),
{
    let lower = to_lower(name);
    contains(lower.as_str(), "auth") || contains(lower.as_str(), "token") || contains(
        lower.as_str(),
        "credential",
    )
}

/// Decides whether a header of a client is forwarded.
pub fn forwards(name: &str) -> (r: bool)
    ensures
        r == is_forwarded(name@),
{
    let lower = to_lower(name);
    !same_text(lower.as_str(), "host") && !same_text(lower.as_str(), "accept-encoding")
        && !sensitive(name)
}

/// Every forwarded line is one of the lines, under a name that is forwarded.
proof fn lemma_forwarded_names(lines: Lines, i: int)
    requires
        0 <= i < forwarded(lines).len(),
    ensures
        is_forwarded(forwarded(lines)[i].0),
        lines.contains(forwarded(lines)[i]),
    decreases lines.len(),
{
    if is_forwarded(lines.last().0) && i == forwarded(lines).len() - 1 {
        assert(lines[lines.len() - 1] == lines.last());
    } else {
        lemma_forwarded_names(lines.drop_last(), i);
        let k = choose|k: int|
            0 <= k < lines.drop_last().len() && lines.drop_last()[k] == forwarded(
                lines.drop_last(),
            )[i];
        assert(lines[k] == lines.drop_last()[k]);
    }
}

proof fn lemma_last_forwarded(lines: Lines)
    requires
        is_grouped(lines),
        lines.len() > 0,
        has_name(forwarded(lines.drop_last()), lines.last().0),
    ensures
        forwarded(lines.drop_last()).last().0 == lines.last().0,
    decreases lines.len(),
{
    let rest = lines.drop_last();
    let name = lines.last().0;
    let sent = forwarded(rest);
    let i = choose|i: int| 0 <= i < sent.len() && (#[trigger] sent[i]).0 == name;
    lemma_forwarded_names(rest, i);
    let k = choose|k: int| 0 <= k < rest.len() && rest[k] == sent[i];
    assert(lines[k].0 == name);
    assert(lines[lines.len() - 1] == lines.last());
    // The line before the last has the same name, so it is forwarded, and it is the last of those.
    if k < rest.len() - 1 {
        assert(lines[rest.len() - 1].0 == lines[k].0);
    }
    assert(lines[rest.len() - 1].0 == name);
    assert(rest.last().0 == name);
    assert(is_forwarded(name));
    assert(forwarded(rest).last() == rest.last());
}

/// Lines with one more have no fewer names.
proof fn lemma_more_names(lines: Lines, n: int)
    requires
        0 <= n <= lines.len(),
    ensures
        name_count(forwarded(lines.take(n))) <= name_count(forwarded(lines)),
    decreases lines.len(),
{
    if n == lines.len() {
        assert(lines.take(n) == lines);
    } else {
        assert(lines.drop_last().take(n) == lines.take(n));
        lemma_more_names(lines.drop_last(), n);
        if is_forwarded(lines.last().0) {
            let front = forwarded(lines.drop_last());
            assert(front.push(lines.last()).drop_last() == front);
        }
    }
}

/// The values under a name of what is forwarded.
proof fn lemma_values_forwarded(lines: Lines, name: Seq<char>)
    ensures
        values_under(forwarded(lines), name) == (if is_forwarded(name) {
            values_under(lines, name)
        } else {
            Seq::empty()
        }),
    decreases lines.len(),
{
    if lines.len() > 0 {
        lemma_values_forwarded(lines.drop_last(), name);
        if is_forwarded(lines.last().0) {
            let front = forwarded(lines.drop_last());
            assert(front.push(lines.last()).drop_last() == front);
        }
    }
}

/// A name has values where a line has the name.
proof fn lemma_has_values(lines: Lines, name: Seq<char>)
    ensures
        has_name(lines, name) <==> values_under(lines, name).len() > 0,
    decreases lines.len(),
{
    if lines.len() > 0 {
        let front = lines.drop_last();
        lemma_has_values(front, name);
        if has_name(front, name) {
            let i = choose|i: int| 0 <= i < front.len() && (#[trigger] front[i]).0 == name;
            assert(lines[i].0 == name);
        }
        if has_name(lines, name) {
            let i = choose|i: int| 0 <= i < lines.len() && (#[trigger] lines[i]).0 == name;
            if i < front.len() {
                assert(front[i].0 == name);
            }
        }
        assert(lines[lines.len() - 1] == lines.last());
    }
}

/// Copies the lines that are forwarded into a new map, in order; nothing where it has no room.
fn copy_forwarded(input: &http::HeaderMap<http::HeaderValue>) -> (r: Option<
    http::HeaderMap<http::HeaderValue>,
>)
    ensures
        r matches Some(output) ==> header_lines(output) == forwarded(header_lines(*input)),
        name_count(forwarded(header_lines(*input))) <= MAX_NAMES ==> r is Some,
{
    let entries = map_lines(input);
    let ghost lines = header_lines(*input);
    let mut output = new_map();
    let mut i: usize = 0;
    assert(forwarded(lines.take(0)) == Lines::empty());
    while i < entries.len()
        invariant
            i <= entries@.len(),
            lines == lines_of(entries@),
            lines == header_lines(*input),
            is_grouped(lines),
            header_lines(output) == forwarded(lines.take(i as int)),
        decreases entries@.len() - i,
    {
        let ghost next = lines.take(i + 1);
        assert(next.drop_last() == lines.take(i as int));
        assert(next.last() == lines[i as int]);
        if forwards(entries[i].0.as_str()) {
            proof {
                lemma_more_names(lines, i as int);
                assert(is_grouped(next)) by {
                    assert forall|a: int, b: int, c: int|
                        0 <= a < b < c < next.len() && (#[trigger] next[a]).0 == (
                        #[trigger] next[c]).0 implies (#[trigger] next[b]).0 == next[a].0 by {
                        assert(lines[a].0 == lines[c].0);
                        assert(lines[b].0 == lines[a].0);
                    }
                }
                if has_name(forwarded(next.drop_last()), next.last().0) {
                    lemma_last_forwarded(next);
                }
            }
            if !append_line(&mut output, input, i) {
                return None;
            }
        }
        i += 1;
    }
    assert(lines.take(lines.len() as int) == lines);
    Some(output)
}

/// Where the first line stands that is not forwarded.
fn find_kept_back(map: &http::HeaderMap<http::HeaderValue>) -> (r: Option<usize>)
    ensures
        r matches Some(i) ==> i < header_lines(*map).len() && !is_forwarded(
            header_lines(*map)[i as int].0,
        ),
        r is None ==> forall|i: int|
            0 <= i < header_lines(*map).len() ==> is_forwarded((#[trigger] header_lines(*map)[i]).0),
{
    let entries = map_lines(map);
    let mut i: usize = 0;
    while i < entries.len()
        invariant
            i <= entries@.len(),
            lines_of(entries@) == header_lines(*map),
            forall|j: int| 0 <= j < i ==> is_forwarded((#[trigger] header_lines(*map)[j]).0),
        decreases entries@.len() - i,
    {
        assert(header_lines(*map)[i as int].0 == entries@[i as int].0@);
        if !forwards(entries[i].0.as_str()) {
            return Some(i);
        }
        i += 1;
    }
    None
}

/// A copy of headers without those that are not forwarded.
fn remove_kept_back(input: &http::HeaderMap<http::HeaderValue>) -> (r: http::HeaderMap<
    http::HeaderValue,
>)
    ensures
        forall|name: Seq<char>| #[trigger]
            values_under(header_lines(r), name) == values_forwarded(header_lines(*input), name),
{
    let mut output = copy_map(input);
    let mut next = find_kept_back(&output);
    while next.is_some()
        invariant
            next matches Some(i) ==> i < header_lines(output).len() && !is_forwarded(
                header_lines(output)[i as int].0,
            ),
            next is None ==> forall|i: int|
                0 <= i < header_lines(output).len() ==> is_forwarded(
                    (#[trigger] header_lines(output)[i]).0,
                ),
            forall|name: Seq<char>|
                is_forwarded(name) ==> #[trigger] values_under(header_lines(output), name)
                    == values_under(header_lines(*input), name),
        decreases header_lines(output).len(),
    {
        match next {
            Some(index) => {
                remove_name(&mut output, index);
            },
            None => {},
        }
        next = find_kept_back(&output);
    }
    proof {
        let lines = header_lines(output);
        assert forall|name: Seq<char>| #[trigger]
            values_under(lines, name) == values_forwarded(header_lines(*input), name) by {
            lemma_has_values(lines, name);
            if !is_forwarded(name) {
                assert(values_under(lines, name) =~= Seq::empty());
            }
        }
    }
    output
}

/// The values that are forwarded under a name: all, or none.
pub open spec fn values_forwarded(lines: Lines, name: Seq<char>) -> Seq<(Seq<u8>, bool)> {
    if is_forwarded(name) {
        values_under(lines, name)
    } else {
        Seq::empty()
    }
}

/// The headers that are forwarded to the upstream: all but the host, the content negotiation and
/// whatever may carry a credential. They stay in order, unless there are so many names that a new
/// header map is out of room: the rest is removed from a copy then, and names may change places.
pub fn forward_headers(input: &http::HeaderMap<http::HeaderValue>) -> (r: http::HeaderMap<
    http::HeaderValue,
>)
    ensures
        forall|name: Seq<char>| #[trigger]
            values_under(header_lines(r), name) == values_forwarded(header_lines(*input), name),
        name_count(forwarded(header_lines(*input))) <= MAX_NAMES ==> header_lines(r) == forwarded(
            header_lines(*input),
        ),
{
    match copy_forwarded(input) {
        Some(output) => {
            proof {
                assert forall|name: Seq<char>| #[trigger]
                    values_under(header_lines(output), name) == values_forwarded(
                        header_lines(*input),
                        name,
                    ) by {
                    lemma_values_forwarded(header_lines(*input), name);
                }
            }
            output
        },
        None => remove_kept_back(input),
    }
}

/// No header that may carry a credential is forwarded, and every header under a forwarded name is,
/// with all its values in order.
pub proof fn law_forwarded(lines: Lines, line: Line)
    ensures
        forwarded(lines).contains(line) <==> lines.contains(line) && is_forwarded(line.0),
        is_sensitive(line.0) ==> !forwarded(lines).contains(line),
        values_under(forwarded(lines), line.0) == values_forwarded(lines, line.0),
    decreases lines.len(),
{
    lemma_values_forwarded(lines, line.0);
    if forwarded(lines).contains(line) {
        let i = choose|i: int| 0 <= i < forwarded(lines).len() && forwarded(lines)[i] == line;
        lemma_forwarded_names(lines, i);
    }
    if lines.contains(line) && is_forwarded(line.0) {
        if lines.last() == line {
            assert(forwarded(lines)[forwarded(lines).len() - 1] == line);
        } else {
            let i = choose|i: int| 0 <= i < lines.len() && lines[i] == line;
            assert(lines.drop_last()[i] == line);
            law_forwarded(lines.drop_last(), line);
            let k = choose|k: int|
                0 <= k < forwarded(lines.drop_last()).len() && forwarded(lines.drop_last())[k]
                    == line;
            assert(forwarded(lines)[k] == line);
        }
    }
}

/// Forwarding what was forwarded changes nothing: neither the lines, nor the values under a name.
pub proof fn law_forwarded_again(lines: Lines, sent: Lines, name: Seq<char>)
    requires
        forall|n: Seq<char>| #[trigger] values_under(sent, n) == values_forwarded(lines, n),
    ensures
        forwarded(forwarded(lines)) == forwarded(lines),
        values_forwarded(sent, name) == values_under(sent, name),
{
    lemma_forwarded_again(lines);
    assert(values_under(sent, name) == values_forwarded(lines, name));
}

proof fn lemma_forwarded_again(lines: Lines)
    ensures
        forwarded(forwarded(lines)) == forwarded(lines),
    decreases lines.len(),
{
    if lines.len() > 0 {
        lemma_forwarded_again(lines.drop_last());
        if is_forwarded(lines.last().0) {
            let front = forwarded(lines.drop_last());
            assert(front.push(lines.last()).drop_last() == front);
        }
    }
}

/// A header is kept back for one of these reasons alone: in lower case its name is that of the host
/// or of the content negotiation, or holds a word for credentials. The lines under every other name
/// are forwarded, all of them and in order.
pub proof fn law_kept_back_for_a_reason(lines: Lines, name: Seq<char>)
    ensures
        ({
            let lower = lowered(name);
            let kept_back = lower == "host"@ || lower == "accept-encoding"@ || occurs(
                lower,
                "auth"@,
            ) || occurs(lower, "token"@) || occurs(lower, "credential"@);
            let sent = if kept_back {
                Seq::empty()
            } else {
                values_under(lines, name)
            };
            values_under(forwarded(lines), name) == sent && values_forwarded(lines, name) == sent
        }),
        forwarded(lines) == lines.filter(
            |line: Line|
                lowered(line.0) != "host"@ && lowered(line.0) != "accept-encoding"@ && !occurs(
                    lowered(line.0),
                    "auth"@,
                ) && !occurs(lowered(line.0), "token"@) && !occurs(
                    lowered(line.0),
                    "credential"@,
                ),
        ),
    decreases lines.len(),
{
    reveal(Seq::filter);
    lemma_values_forwarded(lines, name);
    if lines.len() > 0 {
        law_kept_back_for_a_reason(lines.drop_last(), name);
    }
}

/// The values under a name are those of the lines with that name, in order.
pub proof fn law_values_under(lines: Lines, name: Seq<char>)
    ensures
        values_under(lines, name) == lines.filter(|line: Line| line.0 == name).map_values(
            |line: Line| (line.1, line.2),
        ),
    decreases lines.len(),
{
    reveal(Seq::filter);
    let f = |line: Line| (line.1, line.2);
    let p = |line: Line| line.0 == name;
    if lines.len() > 0 {
        law_values_under(lines.drop_last(), name);
        let front = lines.drop_last().filter(p);
        assert(front.push(lines.last()).map_values(f) =~= front.map_values(f).push(
            f(lines.last()),
        ));
    } else {
        assert(lines.filter(p).map_values(f) =~= Seq::empty());
    }
}

// ---------------------------------------------------------------------------------------------
// Logging

/// Whether a header value is visible ASCII text.
pub open spec fn is_visible(value: Seq<u8>) -> bool {
    forall|i: int| 0 <= i < value.len() ==> 32 <= #[trigger] value[i] < 127 || value[i] == 9
}

/// The characters of an ASCII text.
pub open spec fn ascii_text(value: Seq<u8>) -> Seq<char> {
    value.map_values(|b: u8| b as char)
}

/// Reads a header value as visible ASCII text.
pub fn value_text(value: &[u8]) -> (r: Option<String>)
    ensures
        r is Some <==> is_visible(value@),
        r matches Some(text) ==> text@ == ascii_text(value@),
{
    let mut out = String::new();
    let mut i: usize = 0;
    while i < value.len()
        invariant
            i <= value@.len(),
            out@ == ascii_text(value@.take(i as int)),
            is_visible(value@.take(i as int)),
        decreases value@.len() - i,
    {
        let b: u8 = value[i];
        if !((32 <= b && b < 127) || b == 9) {
            return None;
        }
        assert(value@.take(i + 1) =~= value@.take(i as int).push(b));
        out.push(b as char);
        assert(out@ =~= ascii_text(value@.take(i + 1)));
        i += 1;
    }
    assert(value@.take(value@.len() as int) == value@);
    Some(out)
}

/// What a log shows of a header value: nothing of one that may carry a credential.
pub open spec fn logged_value(name: Seq<char>, value: Seq<u8>) -> Seq<char> {
    if is_sensitive(name) {
        "<redacted>"@
    } else if is_visible(value) {
        ascii_text(value)
    } else {
        "<non-UTF-8 header value>"@
    }
}

/// Header lines in a log, each on a line of its own.
pub open spec fn logged_lines(lines: Lines) -> Seq<char>
    decreases lines.len(),
{
    if lines.len() == 0 {
        "headers:"@
    } else {
        logged_lines(lines.drop_last()) + "\n"@ + lines.last().0 + ": "@ + logged_value(
            lines.last().0,
            lines.last().1,
        )
    }
}

/// Headers in a log.
pub open spec fn logged_headers(lines: Lines) -> Seq<char> {
    if lines.len() == 0 {
        "headers: <none>"@
    } else {
        logged_lines(lines)
    }
}

/// Formats headers for a log.
pub fn format_headers(headers: &http::HeaderMap<http::HeaderValue>) -> (r: String)
    ensures
        r@ == logged_headers(header_lines(*headers)),
{
    let pairs = map_lines(headers);
    let ghost lines = header_lines(*headers);
    if pairs.len() == 0 {
        return "headers: <none>".to_owned();
    }
    let mut output: String = "headers:".to_owned();
    let mut i: usize = 0;
    while i < pairs.len()
        invariant
            i <= pairs@.len(),
            lines == lines_of(pairs@),
            output@ == logged_lines(lines.take(i as int)),
        decreases pairs@.len() - i,
    {
        assert(lines.take(i + 1).drop_last() == lines.take(i as int));
        output.append("\n");
        output.append(pairs[i].0.as_str());
        output.append(": ");
        if sensitive(pairs[i].0.as_str()) {
            output.append("<redacted>");
        } else {
            match value_text(pairs[i].1.as_slice()) {
                Some(text) => {
                    output.append(text.as_str());
                },
                None => {
                    output.append("<non-UTF-8 header value>");
                },
            }
        }
        i += 1;
    }
    assert(lines.take(lines.len() as int) == lines);
    output
}

/// What a log shows of headers does not depend on the values of those that may carry a
/// credential.
pub proof fn law_log_keeps_secrets(a: Lines, b: Lines)
    requires
        a.len() == b.len(),
        forall|i: int| 0 <= i < a.len() ==> (#[trigger] a[i]).0 == b[i].0,
        forall|i: int| 0 <= i < a.len() && !is_sensitive((#[trigger] a[i]).0) ==> a[i].1 == b[i].1,
    ensures
        logged_headers(a) == logged_headers(b),
    decreases a.len(),
{
    if a.len() > 0 {
        lemma_log_keeps_secrets(a, b);
    }
}

proof fn lemma_log_keeps_secrets(a: Lines, b: Lines)
    requires
        a.len() == b.len(),
        forall|i: int| 0 <= i < a.len() ==> (#[trigger] a[i]).0 == b[i].0,
        forall|i: int| 0 <= i < a.len() && !is_sensitive((#[trigger] a[i]).0) ==> a[i].1 == b[i].1,
    ensures
        logged_lines(a) == logged_lines(b),
    decreases a.len(),
{
    if a.len() > 0 {
        assert forall|i: int| 0 <= i < a.drop_last().len() implies (#[trigger] a.drop_last()[i]).0
            == b.drop_last()[i].0 by {
            assert(a[i].0 == b[i].0);
        }
        assert forall|i: int|
            0 <= i < a.drop_last().len() && !is_sensitive(
                (#[trigger] a.drop_last()[i]).0,
            ) implies a.drop_last()[i].1 == b.drop_last()[i].1 by {
            assert(a[i] == a.drop_last()[i]);
        }
        lemma_log_keeps_secrets(a.drop_last(), b.drop_last());
        assert(a[a.len() - 1].0 == b[b.len() - 1].0);
    }
}

/// Every header stands in a log on a line of its own, behind those before it: its name, and its value
/// where that is visible ASCII text. In place of a value whose name holds a word for credentials, and
/// of one that is no such text, stands a note.
pub proof fn law_logged(lines: Lines, line: Line)
    ensures
        logged_headers(Seq::empty()) == "headers: <none>"@,
        ({
            let lower = lowered(line.0);
            let secret = occurs(lower, "auth"@) || occurs(lower, "token"@) || occurs(
                lower,
                "credential"@,
            );
            let text = forall|i: int|
                0 <= i < line.1.len() ==> (32 <= #[trigger] line.1[i] <= 126 || line.1[i] == 9);
            logged_headers(lines.push(line)) == (if lines.len() == 0 {
                "headers:"@
            } else {
                logged_headers(lines)
            }) + "\n"@ + line.0 + ": "@ + (if secret {
                "<redacted>"@
            } else if text {
                Seq::new(line.1.len(), |i: int| line.1[i] as char)
            } else {
                "<non-UTF-8 header value>"@
            })
        }),
{
    let all = lines.push(line);
    assert(all.drop_last() == lines);
    assert(lines.len() == 0 ==> logged_lines(lines) == "headers:"@);
    assert(logged_lines(all) == logged_lines(lines) + "\n"@ + line.0 + ": "@ + logged_value(
        line.0,
        line.1,
    ));
    assert(ascii_text(line.1) =~= Seq::new(line.1.len(), |i: int| line.1[i] as char));
    let text = forall|i: int|
        0 <= i < line.1.len() ==> (32 <= #[trigger] line.1[i] <= 126 || line.1[i] == 9);
    if text {
        assert forall|i: int| 0 <= i < line.1.len() implies 32 <= #[trigger] line.1[i] < 127
            || line.1[i] == 9 by {}
        assert(is_visible(line.1));
    }
    if is_visible(line.1) {
        assert forall|i: int| 0 <= i < line.1.len() implies (32 <= #[trigger] line.1[i] <= 126
            || line.1[i] == 9) by {}
        assert(text);
    }
}

} // verus!
