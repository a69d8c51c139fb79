//! Splitting a JSON document around one of its arrays, so that the array can be streamed.
use crate::error::{Failure, ProxyError};
use crate::json::{
    at_path, at_pointer, child, child_index, comma, escaped, insert_member, items_text, json,
    json_text, keys, members_text, pointer_tokens, quoted, text_value, token_of, unescaped,
    with_at_path, with_at_pointer, with_member, write_json, Json,
};
use crate::text::{
    chars_of, contains, cut_at_last, find, law_cut_at_last, joined, occurs, occurs_at, split_last,
    text_of,
};
use vstd::prelude::*;

verus! {

/// The texts of array items, each behind a comma.
pub open spec fn items_behind(items: Seq<Json>) -> Seq<char>
    decreases items.len(),
{
    if items.len() == 0 {
        Seq::empty()
    } else {
        items_behind(items.drop_last()) + seq![','] + json_text(items.last())
    }
}

/// The texts of object members, each behind a comma.
pub open spec fn members_behind(members: Seq<(Seq<char>, Json)>) -> Seq<char>
    decreases members.len(),
{
    if members.len() == 0 {
        Seq::empty()
    } else {
        members_behind(members.drop_last()) + seq![','] + quoted(members.last().0) + seq![':']
            + json_text(members.last().1)
    }
}

/// The text of a document up to the value that a path leads to.
pub open spec fn text_before(j: Json, path: Seq<Seq<char>>) -> Seq<char>
    decreases path.len(),
{
    if path.len() == 0 {
        Seq::empty()
    } else {
        match child_index(j, path[0]) {
            Some(i) => match j {
                Json::Object(members) => seq!['{'] + members_text(members.take(i)) + comma(i)
                    + quoted(members[i].0) + seq![':'] + text_before(members[i].1, path.skip(1)),
                Json::Array(items) => seq!['['] + items_text(items.take(i)) + comma(i)
                    + text_before(items[i], path.skip(1)),
                _ => Seq::empty(),
            },
            None => Seq::empty(),
        }
    }
}

/// The text of a document from behind the value that a path leads to.
pub open spec fn text_after(j: Json, path: Seq<Seq<char>>) -> Seq<char>
    decreases path.len(),
{
    if path.len() == 0 {
        Seq::empty()
    } else {
        match child_index(j, path[0]) {
            Some(i) => match j {
                Json::Object(members) => text_after(members[i].1, path.skip(1)) + members_behind(
                    members.skip(i + 1),
                ) + seq!['}'],
                Json::Array(items) => text_after(items[i], path.skip(1)) + items_behind(
                    items.skip(i + 1),
                ) + seq![']'],
                _ => Seq::empty(),
            },
            None => Seq::empty(),
        }
    }
}

/// The items of the array that a pointer leads to.
pub open spec fn array_at(j: Json, pointer: Seq<char>) -> Option<Seq<Json>> {
    match at_pointer(j, pointer) {
        Some(Json::Array(items)) => Some(items),
        _ => None,
    }
}

/// What is sent before the items of the array that a pointer leads to.
pub open spec fn prefix_of(j: Json, pointer: Seq<char>) -> Seq<char> {
    text_before(j, pointer_tokens(pointer)->0) + seq!['[']
}

/// What is sent behind the items of the array that a pointer leads to.
pub open spec fn suffix_of(j: Json, pointer: Seq<char>) -> Seq<char> {
    seq![']'] + text_after(j, pointer_tokens(pointer)->0)
}

proof fn lemma_items_around(items: Seq<Json>, i: int)
    requires
        0 <= i < items.len(),
    ensures
        items_text(items) == items_text(items.take(i)) + comma(i) + json_text(items[i])
            + items_behind(items.skip(i + 1)),
    decreases items.len(),
{
    let last = items.len() - 1;
    if i == last {
        assert(items.take(i) == items.drop_last());
        assert(items.skip(i + 1) == Seq::<Json>::empty());
        assert(items_text(items) =~= items_text(items.take(i)) + comma(i) + json_text(items[i])
            + items_behind(items.skip(i + 1)));
    } else {
        lemma_items_around(items.drop_last(), i);
        assert(items.drop_last().take(i) == items.take(i));
        assert(items.drop_last().skip(i + 1) == items.skip(i + 1).drop_last());
        assert(items_text(items) =~= items_text(items.take(i)) + comma(i) + json_text(items[i])
            + items_behind(items.skip(i + 1)));
    }
}

proof fn lemma_members_around(members: Seq<(Seq<char>, Json)>, i: int)
    requires
        0 <= i < members.len(),
    ensures
        members_text(members) == members_text(members.take(i)) + comma(i) + quoted(members[i].0)
            + seq![':'] + json_text(members[i].1) + members_behind(members.skip(i + 1)),
    decreases members.len(),
{
    let last = members.len() - 1;
    if i == last {
        assert(members.take(i) == members.drop_last());
        assert(members.skip(i + 1) == Seq::<(Seq<char>, Json)>::empty());
        assert(members_text(members) =~= members_text(members.take(i)) + comma(i) + quoted(
            members[i].0,
        ) + seq![':'] + json_text(members[i].1) + members_behind(members.skip(i + 1)));
    } else {
        lemma_members_around(members.drop_last(), i);
        assert(members.drop_last().take(i) == members.take(i));
        assert(members.drop_last().skip(i + 1) == members.skip(i + 1).drop_last());
        assert(members_text(members) =~= members_text(members.take(i)) + comma(i) + quoted(
            members[i].0,
        ) + seq![':'] + json_text(members[i].1) + members_behind(members.skip(i + 1)));
    }
}

proof fn lemma_glue(
    open: Seq<char>,
    ahead: Seq<char>,
    before: Seq<char>,
    x: Seq<char>,
    after: Seq<char>,
    behind: Seq<char>,
    close: Seq<char>,
)
    ensures
        open + (ahead + (before + x + after) + behind) + close == (open + ahead + before) + x + (
        after + behind + close),
{
    assert(open + (ahead + (before + x + after) + behind) + close =~= (open + ahead + before) + x
        + (after + behind + close));
}

proof fn lemma_regroup(a: Seq<char>, b: Seq<char>, c: Seq<char>, d: Seq<char>, e: Seq<char>)
    ensures
        a + b + c + d + e == a + (b + c + d + e),
{
    assert(a + b + c + d + e =~= a + (b + c + d + e));
}

/// The text of a document with another value at a path: what stands before it, the text of the
/// value, and what stands behind it.
pub proof fn lemma_text_around(j: Json, path: Seq<Seq<char>>, x: Json)
    requires
        at_path(j, path) is Some,
    ensures
        json_text(with_at_path(j, path, x)) == text_before(j, path) + json_text(x) + text_after(
            j,
            path,
        ),
    decreases path.len(),
{
    if path.len() == 0 {
        assert(json_text(x) =~= text_before(j, path) + json_text(x) + text_after(j, path));
    } else {
        let i = child_index(j, path[0])->0;
        let inner = with_at_path(child(j, i), path.skip(1), x);
        lemma_text_around(child(j, i), path.skip(1), x);
        match j {
            Json::Object(members) => {
                let changed = members.update(i, (members[i].0, inner));
                lemma_members_around(changed, i);
                assert(changed.take(i) == members.take(i));
                assert(changed.skip(i + 1) == members.skip(i + 1));
                let rest = path.skip(1);
                let ahead = members_text(members.take(i)) + comma(i) + quoted(members[i].0)
                    + seq![':'];
                lemma_regroup(
                    seq!['{'],
                    members_text(members.take(i)),
                    comma(i),
                    quoted(members[i].0),
                    seq![':'],
                );
                lemma_glue(
                    seq!['{'],
                    ahead,
                    text_before(members[i].1, rest),
                    json_text(x),
                    text_after(members[i].1, rest),
                    members_behind(members.skip(i + 1)),
                    seq!['}'],
                );
            },
            Json::Array(items) => {
                let changed = items.update(i, inner);
                lemma_items_around(changed, i);
                assert(changed.take(i) == items.take(i));
                assert(changed.skip(i + 1) == items.skip(i + 1));
                let rest = path.skip(1);
                let ahead = items_text(items.take(i)) + comma(i);
                assert(seq!['['] + items_text(items.take(i)) + comma(i) == seq!['['] + ahead);
                lemma_glue(
                    seq!['['],
                    ahead,
                    text_before(items[i], rest),
                    json_text(x),
                    text_after(items[i], rest),
                    items_behind(items.skip(i + 1)),
                    seq![']'],
                );
            },
            _ => {},
        }
    }
}

/// Putting the value that stands at a path there again changes nothing.
pub proof fn lemma_with_same(j: Json, path: Seq<Seq<char>>)
    requires
        at_path(j, path) is Some,
    ensures
        with_at_path(j, path, at_path(j, path)->0) == j,
    decreases path.len(),
{
    if path.len() > 0 {
        let i = child_index(j, path[0])->0;
        lemma_with_same(child(j, i), path.skip(1));
        match j {
            Json::Object(members) => {
                assert(members.update(i, (members[i].0, members[i].1)) =~= members);
            },
            Json::Array(items) => {
                assert(items.update(i, items[i]) =~= items);
            },
            _ => {},
        }
    }
}

/// Another value at a path is found there, and what stands before and behind it stays the same.
proof fn lemma_around_stays(j: Json, path: Seq<Seq<char>>, x: Json)
    requires
        at_path(j, path) is Some,
    ensures
        at_path(with_at_path(j, path, x), path) == Some(x),
        text_before(with_at_path(j, path, x), path) == text_before(j, path),
        text_after(with_at_path(j, path, x), path) == text_after(j, path),
    decreases path.len(),
{
    if path.len() > 0 {
        let i = child_index(j, path[0])->0;
        let inner = with_at_path(child(j, i), path.skip(1), x);
        lemma_around_stays(child(j, i), path.skip(1), x);
        match j {
            Json::Object(members) => {
                let changed = members.update(i, (members[i].0, inner));
                assert(keys(changed) =~= keys(members));
                assert(changed.take(i) == members.take(i));
                assert(changed.skip(i + 1) == members.skip(i + 1));
            },
            Json::Array(items) => {
                let changed = items.update(i, inner);
                assert(changed.take(i) == items.take(i));
                assert(changed.skip(i + 1) == items.skip(i + 1));
            },
            _ => {},
        }
    }
}

/// Sending the prefix, the texts of any items with commas between them, and the suffix sends the
/// document with an array of those items in place of the array that the pointer leads to. With its
/// own items that is the document itself. The prefix ends with the bracket that opens the array, and
/// the suffix starts with the one that closes it.
pub proof fn law_split_frames_items(j: Json, pointer: Seq<char>, items: Seq<Json>)
    requires
        array_at(j, pointer) is Some,
    ensures
        prefix_of(j, pointer) + items_text(items) + suffix_of(j, pointer) == json_text(
            with_at_pointer(j, pointer, Json::Array(items)),
        ),
        items == array_at(j, pointer)->0 ==> prefix_of(j, pointer) + items_text(items) + suffix_of(
            j,
            pointer,
        ) == json_text(j),
        prefix_of(j, pointer).last() == '[',
        suffix_of(j, pointer).first() == ']',
{
    let path = pointer_tokens(pointer)->0;
    lemma_text_around(j, path, Json::Array(items));
    lemma_with_same(j, path);
    assert(prefix_of(j, pointer) + items_text(items) + suffix_of(j, pointer) =~= text_before(j, path)
        + json_text(Json::Array(items)) + text_after(j, path));
}

/// Neither the prefix nor the suffix depends on the items of the array: with any other items in
/// their place the document is split alike.
pub proof fn law_split_ignores_items(j: Json, pointer: Seq<char>, items: Seq<Json>)
    requires
        array_at(j, pointer) is Some,
    ensures
        ({
            let other = with_at_pointer(j, pointer, Json::Array(items));
            &&& array_at(other, pointer) == Some(items)
            &&& prefix_of(other, pointer) == prefix_of(j, pointer)
            &&& suffix_of(other, pointer) == suffix_of(j, pointer)
        }),
{
    lemma_around_stays(j, pointer_tokens(pointer)->0, Json::Array(items));
}

// ---------------------------------------------------------------------------------------------
// Markers

/// Characters that a JSON string holds as they are.
pub open spec fn is_plain(s: Seq<char>) -> bool {
    forall|i: int|
        0 <= i < s.len() ==> (#[trigger] s[i]) as u32 >= 32 && s[i] != '"' && s[i] != '\\'
}

/// Plain characters stand for themselves inside a JSON string.
pub proof fn lemma_plain_is_not_escaped(s: Seq<char>)
    requires
        is_plain(s),
    ensures
        escaped(s) == s,
    decreases s.len(),
{
    if s.len() == 0 {
        assert(s == Seq::<char>::empty());
    } else {
        assert forall|i: int| 0 <= i < s.drop_last().len() implies (
        #[trigger] s.drop_last()[i]) as u32 >= 32 && s.drop_last()[i] != '"' && s.drop_last()[i]
            != '\\' by {
            assert(s.drop_last()[i] == s[i]);
        }
        lemma_plain_is_not_escaped(s.drop_last());
        assert(s[s.len() - 1] as u32 >= 32);
        assert(escaped(s) =~= s.drop_last().push(s.last()));
        assert(s.drop_last().push(s.last()) =~= s);
    }
}

/// A quoted marker whose characters do not occur in what stands before it is found where it
/// stands.
proof fn lemma_marker_is_first(
    before: Seq<char>,
    marker: Seq<char>,
    after: Seq<char>,
    at: int,
)
    requires
        is_plain(marker),
        marker.len() > 0,
        !occurs(before, marker),
        occurs_at(before + quoted(marker) + after, quoted(marker), at),
        forall|k: int|
            0 <= k < at ==> !occurs_at(before + quoted(marker) + after, quoted(marker), k),
    ensures
        at == before.len(),
{
    let text = before + quoted(marker) + after;
    let mark = quoted(marker);
    lemma_plain_is_not_escaped(marker);
    assert(mark =~= seq!['"'] + marker + seq!['"']);
    let home = before.len() as int;
    assert(text.subrange(home, home + mark.len()) =~= mark);
    assert(occurs_at(text, mark, home));
    if at < home {
        let end = at + mark.len();
        let window = text.subrange(at, end);
        assert(window == mark);
        if end <= home + 1 {
            // The marker itself stands in what is before.
            assert(before.subrange(at + 1, at + 1 + marker.len()) =~= marker) by {
                assert forall|k: int| 0 <= k < marker.len() implies before[at + 1 + k]
                    == marker[k] by {
                    assert(window[k + 1] == text[at + 1 + k]);
                    assert(mark[k + 1] == marker[k]);
                }
            }
            assert(occurs_at(before, marker, at + 1));
        } else {
            // The quote that opens the marker would be one of the characters of the marker.
            let k = home - at;
            assert(text[home] == mark[0]);
            assert(window[k] == text[home]);
            assert(mark[k] == marker[k - 1]);
            assert(false);
        }
    }
}

/// The object that a pointer names a member of, and the key of the member: the value that the
/// pointer up to its last slash leads to, where it is an object.
pub open spec fn object_above(j: Json, pointer: Seq<char>) -> Option<
    (Seq<char>, Seq<(Seq<char>, Json)>, Seq<char>),
> {
    match cut_at_last(pointer, '/') {
        Some((parent, part)) => match at_pointer(j, parent) {
            Some(Json::Object(members)) => Some((parent, members, token_of(part))),
            _ => None,
        },
        None => None,
    }
}

/// The document with a value at a pointer: in place of the value that stands there, or as a new
/// member of the object that it names; nothing where there is neither.
pub open spec fn with_replaced(j: Json, pointer: Seq<char>, x: Json) -> Option<Json> {
    if at_pointer(j, pointer) is Some {
        Some(with_at_pointer(j, pointer, x))
    } else {
        match object_above(j, pointer) {
            Some((parent, members, key)) => Some(
                with_at_pointer(j, parent, Json::Object(with_member(members, key, x))),
            ),
            None => None,
        }
    }
}

/// Replaces every `~` that `follower` stands behind, together with it, by `result`.
fn unescape(text: &str, follower: char, result: char) -> (r: String)
    ensures
        r@ == unescaped(text@, follower, result),
{
    let chars = chars_of(text);
    let length: usize = chars.len();
    let mut out = String::new();
    let mut i: usize = 0;
    assert(text@.skip(0) == text@);
    while i < length
        invariant
            i <= length == chars@.len(),
            chars@ == text@,
            out@ + unescaped(text@.skip(i as int), follower, result) == unescaped(
                text@,
                follower,
                result,
            ),
        decreases length - i,
    {
        let ghost rest = text@.skip(i as int);
        let ghost before = out@;
        if length - i >= 2 && chars[i] == '~' && chars[i + 1] == follower {
            assert(rest.skip(2) == text@.skip(i + 2));
            assert(before + (seq![result] + unescaped(rest.skip(2), follower, result))
                =~= before.push(result) + unescaped(rest.skip(2), follower, result));
            out.push(result);
            i += 2;
        } else {
            assert(rest.skip(1) == text@.skip(i + 1));
            assert(before + (seq![rest[0]] + unescaped(rest.skip(1), follower, result))
                =~= before.push(rest[0]) + unescaped(rest.skip(1), follower, result));
            out.push(chars[i]);
            i += 1;
        }
    }
    assert(text@.skip(length as int) =~= Seq::<char>::empty());
    assert(out@ + Seq::<char>::empty() =~= out@);
    out
}

/// Puts a value at a pointer: in place of the value that stands there, or as a new member of the
/// object that the pointer names.
pub fn replace_pointer(
    root: &mut serde_json::Value,
    pointer: &str,
    replacement: serde_json::Value,
) -> (r: Result<(), ProxyError>)
    ensures
        match with_replaced(json(*old(root)), pointer@, json(replacement)) {
            Some(replaced) => r is Ok && json(*final(root)) == replaced,
            None => r is Err && json(*final(root)) == json(*old(root)),
        },
        r matches Err(e) ==> e@ == Failure::MissingArray(pointer@),
{
    let found: bool = root.pointer(pointer).is_some();
    if found {
        match root.pointer_mut(pointer) {
            Some(place) => {
                *place = replacement;
            },
            None => {},
        }
        return Ok(());
    }
    match split_last(pointer, '/') {
        Some((parent, part)) => {
            let is_object: bool = match root.pointer(parent.as_str()) {
                Some(value) => value.is_object(),
                None => false,
            };
            if is_object {
                let key = unescape(unescape(part.as_str(), '1', '/').as_str(), '0', '~');
                match root.pointer_mut(parent.as_str()) {
                    Some(place) => {
                        insert_member(place, key, replacement);
                    },
                    None => {},
                }
                return Ok(());
            }
        },
        None => {},
    }
    Err(ProxyError::MissingArray(pointer.to_owned()))
}

/// A marker that does not occur in a text.
fn fresh_marker(text: &str) -> (r: String)
    ensures
        is_plain(r@),
        r@.len() > 0,
        !occurs(text@, r@),
{
    let length: usize = chars_of(text).len();
    let mut marker: String = "__STREAM_ARRAY__".to_owned();
    proof {
        reveal_strlit("__STREAM_ARRAY__");
    }
    while contains(text, marker.as_str())
        invariant
            is_plain(marker@),
            marker@.len() > 0,
            length == text@.len(),
        decreases length + 1 - marker@.len(),
    {
        proof {
            let at = choose|at: int| occurs_at(text@, marker@, at);
            assert(marker@.len() <= text@.len());
        }
        marker.push('_');
    }
    marker
}

/// Splits a document around the array that a pointer leads to: what is sent before its items, and
/// what is sent behind them.
pub fn split_document(document: &serde_json::Value, pointer: &str) -> (r: Result<
    (String, String),
    ProxyError,
>)
    ensures
        r is Ok <==> array_at(json(*document), pointer@) is Some,
        r matches Ok(parts) ==> parts.0@ == prefix_of(json(*document), pointer@) && parts.1@
            == suffix_of(json(*document), pointer@),
        r matches Err(e) ==> e@ == Failure::MissingArray(pointer@),
{
    let is_array: bool = match document.pointer(pointer) {
        Some(value) => value.as_array().is_some(),
        None => false,
    };
    if !is_array {
        return Err(ProxyError::MissingArray(pointer.to_owned()));
    }
    let whole = write_json(document);
    let marker = fresh_marker(whole.as_str());
    let ghost path = pointer_tokens(pointer@)->0;
    let ghost before = text_before(json(*document), path);
    let ghost after = text_after(json(*document), path);
    let ghost inside = json_text(at_path(json(*document), path)->0);
    proof {
        lemma_with_same(json(*document), path);
        lemma_text_around(json(*document), path, at_path(json(*document), path)->0);
        assert(whole@ == before + inside + after);
        assert forall|at: int| !occurs_at(before, marker@, at) by {
            if occurs_at(before, marker@, at) {
                assert(whole@.subrange(at, at + marker@.len()) =~= before.subrange(
                    at,
                    at + marker@.len(),
                ));
                assert(occurs_at(whole@, marker@, at));
            }
        }
        lemma_text_around(json(*document), path, Json::Text(marker@));
    }
    let mut marked = document.clone();
    match replace_pointer(&mut marked, pointer, text_value(marker.clone())) {
        Ok(()) => {},
        Err(error) => {
            return Err(error);
        },
    }
    let text = write_json(&marked);
    let needle = write_json(&text_value(marker.clone()));
    let chars = chars_of(text.as_str());
    let mark = chars_of(needle.as_str());
    let length: usize = chars.len();
    assert(chars@ == before + quoted(marker@) + after);
    match find(&chars, &mark) {
        Some(start) => {
            proof {
                lemma_marker_is_first(before, marker@, after, start as int);
                assert(chars@.subrange(0, start as int) =~= before);
                assert(chars@.subrange(start + mark@.len(), chars@.len() as int) =~= after);
            }
            let prefix = joined(text_of(&chars, 0, start).as_str(), "[");
            let suffix = joined("]", text_of(&chars, start + mark.len(), length).as_str());
            proof {
                reveal_strlit("[");
                reveal_strlit("]");
                assert("["@ =~= seq!['[']);
                assert("]"@ =~= seq![']']);
            }
            Ok((prefix, suffix))
        },
        None => {
            proof {
                let home = before.len() as int;
                assert(chars@.subrange(home, home + mark@.len()) =~= mark@);
                assert(occurs_at(chars@, mark@, home));
            }
            Err(ProxyError::MissingArray(pointer.to_owned()))
        },
    }
}

proof fn lemma_last_cut(left: Seq<char>, mark: char, right: Seq<char>)
    requires
        !right.contains(mark),
    ensures
        cut_at_last(left.push(mark) + right, mark) == Some((left, right)),
    decreases right.len(),
{
    let text = left.push(mark) + right;
    if right.len() == 0 {
        assert(text =~= left.push(mark));
        assert(text.drop_last() =~= left);
        assert(right =~= Seq::<char>::empty());
    } else {
        let shorter = right.drop_last();
        if shorter.contains(mark) {
            let j = choose|j: int| 0 <= j < shorter.len() && shorter[j] == mark;
            assert(right[j] == mark);
        }
        assert(right[right.len() - 1] == right.last());
        lemma_last_cut(left, mark, shorter);
        assert(text.drop_last() =~= left.push(mark) + shorter);
        assert(shorter.push(right.last()) =~= right);
    }
}

/// Replacing puts the value where the pointer leads, and a pointer that leads somewhere leads to the
/// value then. Where it leads nowhere, what stands before its last slash has to lead to an object:
/// the value becomes its member under the key that is named behind the slash. Otherwise nothing is
/// replaced.
pub proof fn law_replaced(j: Json, parent: Seq<char>, part: Seq<char>, x: Json)
    requires
        !part.contains('/'),
    ensures
        ({
            let pointer = parent.push('/') + part;
            match at_pointer(j, pointer) {
                Some(_) => with_replaced(j, pointer, x) == Some(with_at_pointer(j, pointer, x))
                    && at_pointer(with_at_pointer(j, pointer, x), pointer) == Some(x),
                None => with_replaced(j, pointer, x) == (match at_pointer(j, parent) {
                    Some(Json::Object(members)) => Some(
                        with_at_pointer(
                            j,
                            parent,
                            Json::Object(
                                with_member(
                                    members,
                                    unescaped(unescaped(part, '1', '/'), '0', '~'),
                                    x,
                                ),
                            ),
                        ),
                    ),
                    _ => None,
                }),
            }
        }),
        with_replaced(j, Seq::empty(), x) == Some(x),
        part.len() > 0 ==> with_replaced(j, part, x) is None,
{
    let pointer = parent.push('/') + part;
    lemma_last_cut(parent, '/', part);
    if let Some(path) = pointer_tokens(pointer) {
        if at_path(j, path) is Some {
            lemma_around_stays(j, path, x);
        }
    }
    law_cut_at_last(part, '/');
    if part.len() > 0 {
        assert(part[0] != '/') by {
            if part[0] == '/' {
                assert(part.contains('/'));
            }
        }
    }
}

} // verus!
