//! JSON documents: the model of `serde_json::Value`, its compact text, and JSON Pointers.
use crate::text::decimal_text;
use vstd::prelude::*;

verus! {

/// A JSON document. Members stand in the order in which they are written, and a number is the
/// text that is written for it.
pub enum Json {
    Null,
    Bool(bool),
    Number(Seq<char>),
    Text(Seq<char>),
    Array(Seq<Json>),
    Object(Seq<(Seq<char>, Json)>),
}

// ---------------------------------------------------------------------------------------------
// Compact text

/// A hexadecimal digit in lower case.
pub open spec fn hex_char(d: int) -> char {
    if d < 10 {
        ('0' as u8 + d) as char
    } else {
        ('a' as u8 + d - 10) as char
    }
}

/// A character as it stands inside a JSON string.
pub open spec fn escaped_char(c: char) -> Seq<char> {
    if c == '"' {
        seq!['\\', '"']
    } else if c == '\\' {
        seq!['\\', '\\']
    } else if c as u32 == 8 {
        seq!['\\', 'b']
    } else if c == '\t' {
        seq!['\\', 't']
    } else if c == '\n' {
        seq!['\\', 'n']
    } else if c as u32 == 12 {
        seq!['\\', 'f']
    } else if c == '\r' {
        seq!['\\', 'r']
    } else if (c as u32) < 32 {
        seq!['\\', 'u', '0', '0', hex_char(c as int / 16), hex_char(c as int % 16)]
    } else {
        seq![c]
    }
}

/// The characters of a text as they stand inside a JSON string.
pub open spec fn escaped(s: Seq<char>) -> Seq<char>
    decreases s.len(),
{
    if s.len() == 0 {
        Seq::empty()
    } else {
        escaped(s.drop_last()) + escaped_char(s.last())
    }
}

/// A text as a JSON string.
pub open spec fn quoted(s: Seq<char>) -> Seq<char> {
    seq!['"'] + escaped(s) + seq!['"']
}

/// The compact text of a document: no white space between its parts.
pub open spec fn json_text(j: Json) -> Seq<char>
    decreases j,
{
    match j {
        Json::Null => seq!['n', 'u', 'l', 'l'],
        Json::Bool(b) => if b {
            seq!['t', 'r', 'u', 'e']
        } else {
            seq!['f', 'a', 'l', 's', 'e']
        },
        Json::Number(t) => t,
        Json::Text(s) => quoted(s),
        Json::Array(items) => seq!['['] + items_text(items) + seq![']'],
        Json::Object(members) => seq!['{'] + members_text(members) + seq!['}'],
    }
}

/// What stands before the entry at `index` of a list: a comma, except before the first.
pub open spec fn comma(index: int) -> Seq<char> {
    if index > 0 {
        seq![',']
    } else {
        Seq::empty()
    }
}

/// The texts of array items with commas between them.
pub open spec fn items_text(items: Seq<Json>) -> Seq<char>
    decreases items,
{
    if items.len() == 0 {
        Seq::empty()
    } else {
        items_text(items.drop_last()) + comma(items.len() - 1) + json_text(items[items.len() - 1])
    }
}

/// The texts of object members with commas between them.
pub open spec fn members_text(members: Seq<(Seq<char>, Json)>) -> Seq<char>
    decreases members,
{
    if members.len() == 0 {
        Seq::empty()
    } else {
        members_text(members.drop_last()) + comma(members.len() - 1) + quoted(
            members[members.len() - 1].0,
        ) + seq![':'] + json_text(members[members.len() - 1].1)
    }
}

// ---------------------------------------------------------------------------------------------
// Pointers (RFC 6901)

/// The parts of a text between its slashes.
pub open spec fn slash_parts(s: Seq<char>) -> Seq<Seq<char>>
    decreases s.len(),
{
    if s.len() == 0 {
        seq![Seq::empty()]
    } else if s.last() == '/' {
        slash_parts(s.drop_last()).push(Seq::empty())
    } else {
        let parts = slash_parts(s.drop_last());
        parts.drop_last().push(parts.last().push(s.last()))
    }
}

/// A text with every `~` that `follower` stands behind replaced, together with it, by `result`.
pub open spec fn unescaped(s: Seq<char>, follower: char, result: char) -> Seq<char>
    decreases s.len(),
{
    if s.len() == 0 {
        Seq::empty()
    } else if s.len() >= 2 && s[0] == '~' && s[1] == follower {
        seq![result] + unescaped(s.skip(2), follower, result)
    } else {
        seq![s[0]] + unescaped(s.skip(1), follower, result)
    }
}

/// A part of a pointer as the token that it stands for.
pub open spec fn token_of(part: Seq<char>) -> Seq<char> {
    unescaped(unescaped(part, '1', '/'), '0', '~')
}

/// The reference tokens of a pointer; nothing where the text is no pointer.
pub open spec fn pointer_tokens(pointer: Seq<char>) -> Option<Seq<Seq<char>>> {
    if pointer.len() == 0 {
        Some(Seq::empty())
    } else if pointer[0] != '/' {
        None
    } else {
        Some(
            slash_parts(pointer.skip(1)).map_values(|part: Seq<char>| token_of(part)),
        )
    }
}

/// The keys of an object, in order.
pub open spec fn keys(members: Seq<(Seq<char>, Json)>) -> Seq<Seq<char>> {
    members.map_values(|m: (Seq<char>, Json)| m.0)
}

/// The position of a key.
pub open spec fn key_index(keys: Seq<Seq<char>>, key: Seq<char>) -> Option<int> {
    if exists|i: int| 0 <= i < keys.len() && keys[i] == key {
        Some(choose|i: int| 0 <= i < keys.len() && keys[i] == key)
    } else {
        None
    }
}

/// The position that a decimal index names in an array of some length.
pub open spec fn item_index(length: nat, token: Seq<char>) -> Option<int> {
    if exists|i: int| 0 <= i < length && #[trigger] decimal_text(i as nat) == token {
        Some(choose|i: int| 0 <= i < length && #[trigger] decimal_text(i as nat) == token)
    } else {
        None
    }
}

/// The position of the child that a token names: a key of an object, or the decimal index of an
/// array item.
pub open spec fn child_index(j: Json, token: Seq<char>) -> Option<int> {
    match j {
        Json::Object(members) => key_index(keys(members), token),
        Json::Array(items) => item_index(items.len(), token),
        _ => None,
    }
}

/// The child at a position of an object or an array.
pub open spec fn child(j: Json, index: int) -> Json {
    match j {
        Json::Object(members) => members[index].1,
        Json::Array(items) => items[index],
        _ => j,
    }
}

/// The document with another child at a position.
pub open spec fn with_child(j: Json, index: int, x: Json) -> Json {
    match j {
        Json::Object(members) => Json::Object(members.update(index, (members[index].0, x))),
        Json::Array(items) => Json::Array(items.update(index, x)),
        _ => j,
    }
}

/// The value that a path of tokens leads to.
pub open spec fn at_path(j: Json, path: Seq<Seq<char>>) -> Option<Json>
    decreases path.len(),
{
    if path.len() == 0 {
        Some(j)
    } else {
        match child_index(j, path[0]) {
            Some(i) => at_path(child(j, i), path.skip(1)),
            None => None,
        }
    }
}

/// The document with `x` in place of the value that a path of tokens leads to.
pub open spec fn with_at_path(j: Json, path: Seq<Seq<char>>, x: Json) -> Json
    decreases path.len(),
{
    if path.len() == 0 {
        x
    } else {
        match child_index(j, path[0]) {
            Some(i) => with_child(j, i, with_at_path(child(j, i), path.skip(1), x)),
            None => j,
        }
    }
}

/// The value that a pointer leads to.
pub open spec fn at_pointer(j: Json, pointer: Seq<char>) -> Option<Json> {
    match pointer_tokens(pointer) {
        Some(path) => at_path(j, path),
        None => None,
    }
}

/// The document with `x` in place of the value that a pointer leads to.
pub open spec fn with_at_pointer(j: Json, pointer: Seq<char>, x: Json) -> Json {
    match pointer_tokens(pointer) {
        Some(path) => with_at_path(j, path, x),
        None => j,
    }
}

/// The value of a member of an object.
pub open spec fn member_of(j: Json, key: Seq<char>) -> Option<Json> {
    match j {
        Json::Object(members) => match child_index(j, key) {
            Some(i) => Some(members[i].1),
            None => None,
        },
        _ => None,
    }
}

// ---------------------------------------------------------------------------------------------
// Construction of objects

/// The order of keys: character by character.
pub open spec fn key_less(a: Seq<char>, b: Seq<char>) -> bool
    decreases a.len(),
{
    if b.len() == 0 {
        false
    } else if a.len() == 0 {
        true
    } else if a[0] != b[0] {
        a[0] < b[0]
    } else {
        key_less(a.skip(1), b.skip(1))
    }
}

/// The members with `value` under `key`, at its place in the order of keys.
pub open spec fn with_member(
    members: Seq<(Seq<char>, Json)>,
    key: Seq<char>,
    value: Json,
) -> Seq<(Seq<char>, Json)>
    decreases members.len(),
{
    if members.len() == 0 {
        seq![(key, value)]
    } else if members[0].0 == key {
        seq![(key, value)] + members.skip(1)
    } else if key_less(key, members[0].0) {
        seq![(key, value)] + members
    } else {
        seq![members[0]] + with_member(members.skip(1), key, value)
    }
}

/// The members of the object that a list of entries makes: ordered by key, and of entries with
/// the same key the last.
pub open spec fn collected(entries: Seq<(Seq<char>, Json)>) -> Seq<(Seq<char>, Json)>
    decreases entries.len(),
{
    if entries.len() == 0 {
        Seq::empty()
    } else {
        with_member(collected(entries.drop_last()), entries.last().0, entries.last().1)
    }
}

// ---------------------------------------------------------------------------------------------
// `serde_json`

/// A JSON value of `serde_json`.
#[verifier::external_type_specification]
#[verifier::external_body]
pub struct ExValue(serde_json::Value);

/// An error of `serde_json`.
#[verifier::external_type_specification]
#[verifier::external_body]
pub struct ExJsonError(serde_json::Error);

/// The document that a `serde_json::Value` holds.
pub uninterp spec fn json(v: serde_json::Value) -> Json;

/// The document that `serde_json::from_str` reads from a text; nothing where it fails.
pub uninterp spec fn json_parsed(text: Seq<char>) -> Option<Json>;

/// The bits of the 64-bit float that `serde_json::Value::as_f64` gives.
pub uninterp spec fn float_bits(j: Json) -> Option<u64>;

/// The text that `serde_json` writes for the finite 64-bit float with these bits.
pub uninterp spec fn float_text(bits: u64) -> Seq<char>;

/// The documents of a list of values.
pub open spec fn jsons(values: Seq<serde_json::Value>) -> Seq<Json> {
    values.map_values(|v: serde_json::Value| json(v))
}

/// The document of an optional value: null where there is none.
pub open spec fn json_or_null(v: Option<Json>) -> Json {
    match v {
        Some(j) => j,
        None => Json::Null,
    }
}

/// `serde_json::Value::clone`: the copy holds the same document.
pub assume_specification[ <serde_json::Value as Clone>::clone ](v: &serde_json::Value) -> (r:
    serde_json::Value)
    ensures
        json(r) == json(*v),
;

/// `serde_json::Value::is_null`: whether the document is null.
pub assume_specification[ serde_json::Value::is_null ](v: &serde_json::Value) -> (r: bool)
    ensures
        r == (json(*v) is Null),
;

/// `serde_json::Value::is_object`: whether the document is an object.
pub assume_specification[ serde_json::Value::is_object ](v: &serde_json::Value) -> (r: bool)
    ensures
        r == (json(*v) is Object),
;

/// `serde_json::Value::as_array`: the items of an array, and nothing for any other document.
pub assume_specification[ serde_json::Value::as_array ](v: &serde_json::Value) -> (r: Option<
    &Vec<serde_json::Value>,
>)
    ensures
        r is Some <==> json(*v) is Array,
        r matches Some(items) ==> json(*v) == Json::Array(jsons(items@)),
;

/// `serde_json::Value::as_str`: the text of a string, and nothing for any other document.
pub assume_specification[ serde_json::Value::as_str ](v: &serde_json::Value) -> (r: Option<&str>)
    ensures
        r is Some <==> json(*v) is Text,
        r matches Some(s) ==> json(*v) == Json::Text(s@),
;

/// `serde_json::Value::as_u64`: a number that is a non-negative integer of 64 bits, which is
/// written as its decimal digits alone, and nothing for any other document.
pub assume_specification[ serde_json::Value::as_u64 ](v: &serde_json::Value) -> (r: Option<u64>)
    ensures
        r matches Some(n) ==> json(*v) == Json::Number(decimal_text(n as nat)),
        r is None ==> forall|n: u64| json(*v) != Json::Number(#[trigger] decimal_text(n as nat)),
;

/// `serde_json::Value::pointer`: the value that an RFC 6901 pointer leads to.
pub assume_specification<'a, 'b>[ serde_json::Value::pointer ](
    v: &'a serde_json::Value,
    pointer: &'b str,
) -> (r: Option<&'a serde_json::Value>)
    ensures
        r is Some <==> at_pointer(json(*v), pointer@) is Some,
        r matches Some(x) ==> at_pointer(json(*v), pointer@) == Some(json(*x)),
;

/// `serde_json::Value::pointer_mut`: the place that an RFC 6901 pointer leads to. What is put
/// there stands in the document at that place; nothing else of the document changes.
pub assume_specification<'a, 'b>[ serde_json::Value::pointer_mut ](
    v: &'a mut serde_json::Value,
    pointer: &'b str,
) -> (r: Option<&'a mut serde_json::Value>)
    ensures
        r is Some <==> at_pointer(json(*old(v)), pointer@) is Some,
        r matches Some(x) ==> at_pointer(json(*old(v)), pointer@) == Some(json(*x)),
        r matches Some(x) ==> json(*final(v)) == with_at_pointer(
            json(*old(v)),
            pointer@,
            json(*final(x)),
        ),
        r is None ==> json(*final(v)) == json(*old(v)),
;

/// `serde_json::from_str` into a `serde_json::Value`: a function of the text, with an error
/// where the text is no JSON document.
#[verifier::external_body]
pub(crate) fn parse_json(text: &str) -> (r: Result<serde_json::Value, serde_json::Error>)
    ensures
        r is Ok <==> json_parsed(text@) is Some,
        r matches Ok(v) ==> json_parsed(text@) == Some(json(v)),
{
    serde_json::from_str(text)
}

/// `serde_json::to_string` of a `serde_json::Value`: its compact text. The call fails only where
/// a writer or a key does; here the writer is memory and every key is a string.
#[verifier::external_body]
pub(crate) fn write_json(v: &serde_json::Value) -> (r: String)
    ensures
        r@ == json_text(json(*v)),
{
    serde_json::to_string(v).unwrap()
}

/// `serde_json::Value::get` by a key: the value of that member of an object.
#[verifier::external_body]
pub(crate) fn member<'a>(v: &'a serde_json::Value, key: &str) -> (r: Option<&'a serde_json::Value>)
    ensures
        r is Some <==> member_of(json(*v), key@) is Some,
        r matches Some(x) ==> member_of(json(*v), key@) == Some(json(*x)),
{
    v.get(key)
}

/// `serde_json::Value::as_f64`: the bits of the float that a number stands for, and that float as
/// a JSON number. Every number has one, it is finite, the float as a JSON number stands for
/// itself, and that of zero has no bits set.
#[verifier::external_body]
pub(crate) fn float_of(v: &serde_json::Value) -> (r: Option<(u64, serde_json::Value)>)
    ensures
        r is Some <==> json(*v) is Number,
        r is Some <==> float_bits(json(*v)) is Some,
        r matches Some(f) ==> float_bits(json(*v)) == Some(f.0) && json(f.1) == Json::Number(
            float_text(f.0),
        ) && float_bits(json(f.1)) == Some(f.0) && (json(*v) == Json::Number(decimal_text(0))
            ==> f.0 == 0),
{
    v.as_f64().map(|x| (x.to_bits(), serde_json::Value::from(x)))
}

/// `serde_json::Value::default`: null.
#[verifier::external_body]
pub(crate) fn null_value() -> (r: serde_json::Value)
    ensures
        json(r) == Json::Null,
{
    serde_json::Value::default()
}

/// `serde_json::Value::from` a boolean.
#[verifier::external_body]
pub(crate) fn bool_value(b: bool) -> (r: serde_json::Value)
    ensures
        json(r) == Json::Bool(b),
{
    serde_json::Value::from(b)
}

/// `serde_json::Value::from` an unsigned integer, which is written in decimal.
#[verifier::external_body]
pub(crate) fn number_value(n: u64) -> (r: serde_json::Value)
    ensures
        json(r) == Json::Number(decimal_text(n as nat)),
{
    serde_json::Value::from(n)
}

/// `serde_json::Value::from` a string.
#[verifier::external_body]
pub(crate) fn text_value(s: String) -> (r: serde_json::Value)
    ensures
        json(r) == Json::Text(s@),
{
    serde_json::Value::from(s)
}

/// `serde_json::Value::from` a vector of values: an array of them.
#[verifier::external_body]
pub(crate) fn array_value(items: Vec<serde_json::Value>) -> (r: serde_json::Value)
    ensures
        json(r) == Json::Array(jsons(items@)),
{
    serde_json::Value::from(items)
}

/// The documents of a list of entries.
pub open spec fn entries_of(entries: Seq<(String, serde_json::Value)>) -> Seq<(Seq<char>, Json)> {
    entries.map_values(|e: (String, serde_json::Value)| (e.0@, json(e.1)))
}

/// `serde_json::Map::new` as a document: an object without members.
#[verifier::external_body]
fn empty_object() -> (r: serde_json::Value)
    ensures
        json(r) == Json::Object(Seq::empty()),
{
    serde_json::Value::Object(serde_json::Map::new())
}

/// `serde_json::Map::insert` on the map of an object: the member stands at its place in the order of
/// keys, in place of any with the same key. Any other document is left as it is.
#[verifier::external_body]
pub(crate) fn insert_member(v: &mut serde_json::Value, key: String, value: serde_json::Value) -> (r:
    bool)
    ensures
        r <==> json(*old(v)) is Object,
        json(*old(v)) matches Json::Object(members) ==> json(*final(v)) == Json::Object(
            with_member(members, key@, json(value)),
        ),
        !r ==> json(*final(v)) == json(*old(v)),
{
    match v {
        serde_json::Value::Object(map) => {
            map.insert(key, value);
            true
        },
        _ => false,
    }
}

/// The object that entries make: its members are ordered by key, and of entries with the same key
/// the last stays.
pub(crate) fn object_value(entries: Vec<(String, serde_json::Value)>) -> (r: serde_json::Value)
    ensures
        json(r) == Json::Object(collected(entries_of(entries@))),
{
    let ghost all = entries_of(entries@);
    let mut object = empty_object();
    assert(all.take(0) =~= Seq::empty());
    for entry in iter: entries
        invariant
            all == entries_of(iter.seq()),
            json(object) == Json::Object(collected(all.take(iter.index() as int))),
    {
        let ghost next = all.take(iter.index() + 1);
        assert(next.drop_last() == all.take(iter.index() as int));
        assert(next.last() == (entry.0@, json(entry.1)));
        insert_member(&mut object, entry.0, entry.1);
    }
    assert(all.take(all.len() as int) == all);
    object
}

// ---------------------------------------------------------------------------------------------
// What holds of objects

/// The keys of members stand in their order, each one behind all smaller ones.
pub open spec fn in_order(members: Seq<(Seq<char>, Json)>) -> bool {
    forall|i: int, j: int|
        0 <= i < j < members.len() ==> key_less((#[trigger] members[i]).0, (#[trigger] members[j]).0)
}

proof fn lemma_keys_compare(a: Seq<char>, b: Seq<char>)
    ensures
        !key_less(a, a),
        key_less(a, b) ==> !key_less(b, a),
        a != b ==> key_less(a, b) || key_less(b, a),
    decreases a.len(),
{
    if a.len() > 0 {
        lemma_keys_compare(a.skip(1), a.skip(1));
        if b.len() > 0 && a[0] == b[0] {
            lemma_keys_compare(a.skip(1), b.skip(1));
            if a.skip(1) == b.skip(1) {
                assert(seq![a[0]] + a.skip(1) =~= a);
                assert(seq![b[0]] + b.skip(1) =~= b);
            }
        }
    } else if b.len() == 0 {
        assert(a =~= b);
    }
}

proof fn lemma_keys_follow(a: Seq<char>, b: Seq<char>, c: Seq<char>)
    requires
        key_less(a, b),
        key_less(b, c),
    ensures
        key_less(a, c),
    decreases a.len(),
{
    if a.len() > 0 && b.len() > 0 && c.len() > 0 && a[0] == b[0] && b[0] == c[0] {
        lemma_keys_follow(a.skip(1), b.skip(1), c.skip(1));
    }
}

proof fn lemma_with_member(members: Seq<(Seq<char>, Json)>, key: Seq<char>, value: Json)
    requires
        in_order(members),
    ensures
        in_order(with_member(members, key, value)),
        forall|m: (Seq<char>, Json)| #[trigger]
            with_member(members, key, value).contains(m) <==> m == (key, value) || (m.0 != key
                && members.contains(m)),
    decreases members.len(),
{
    let whole = with_member(members, key, value);
    let added = (key, value);
    if members.len() == 0 {
        assert(whole =~= seq![added]);
        assert(whole[0] == added);
    } else {
        let first = members[0];
        let rest = members.skip(1);
        assert(in_order(rest)) by {
            assert forall|i: int, j: int| 0 <= i < j < rest.len() implies key_less(
                (#[trigger] rest[i]).0,
                (#[trigger] rest[j]).0,
            ) by {
                assert(key_less(members[i + 1].0, members[j + 1].0));
            }
        }
        assert forall|i: int| 0 <= i < rest.len() implies key_less(first.0, (#[trigger] rest[i]).0) by {
            assert(key_less(members[0].0, members[i + 1].0));
        }
        assert(forall|m: (Seq<char>, Json)| #[trigger]
            members.contains(m) <==> m == first || rest.contains(m)) by {
            assert forall|m: (Seq<char>, Json)| #[trigger] members.contains(m) implies m == first
                || rest.contains(m) by {
                let i = choose|i: int| 0 <= i < members.len() && members[i] == m;
                if i > 0 {
                    assert(rest[i - 1] == m);
                }
            }
            assert forall|m: (Seq<char>, Json)| m == first || rest.contains(m) implies
                #[trigger] members.contains(m) by {
                if m == first {
                    assert(members[0] == m);
                } else {
                    let i = choose|i: int| 0 <= i < rest.len() && rest[i] == m;
                    assert(members[i + 1] == m);
                }
            }
        }
        lemma_keys_compare(first.0, key);
        if first.0 == key {
            assert(whole =~= seq![added] + rest);
            lemma_in_front(added, rest);
            assert forall|m: (Seq<char>, Json)| #[trigger] rest.contains(m) implies m.0 != key by {
                let i = choose|i: int| 0 <= i < rest.len() && rest[i] == m;
                lemma_keys_compare(first.0, m.0);
            }
        } else if key_less(key, first.0) {
            assert forall|i: int| 0 <= i < members.len() implies key_less(
                key,
                (#[trigger] members[i]).0,
            ) by {
                if i > 0 {
                    assert(rest[i - 1] == members[i]);
                    lemma_keys_follow(key, first.0, members[i].0);
                }
            }
            assert(whole =~= seq![added] + members);
            lemma_in_front(added, members);
            assert forall|m: (Seq<char>, Json)| #[trigger] members.contains(m) implies m.0 != key by {
                let i = choose|i: int| 0 <= i < members.len() && members[i] == m;
                lemma_keys_compare(key, m.0);
            }
        } else {
            lemma_with_member(rest, key, value);
            let behind = with_member(rest, key, value);
            assert(whole =~= seq![first] + behind);
            assert forall|i: int| 0 <= i < behind.len() implies key_less(
                first.0,
                (#[trigger] behind[i]).0,
            ) by {
                assert(behind.contains(behind[i]));
                if behind[i] != added {
                    let k = choose|k: int| 0 <= k < rest.len() && rest[k] == behind[i];
                    assert(key_less(first.0, rest[k].0));
                }
            }
            lemma_in_front(first, behind);
        }
    }
}

proof fn lemma_in_front(first: (Seq<char>, Json), rest: Seq<(Seq<char>, Json)>)
    requires
        in_order(rest),
        forall|i: int| 0 <= i < rest.len() ==> key_less(first.0, (#[trigger] rest[i]).0),
    ensures
        in_order(seq![first] + rest),
        forall|m: (Seq<char>, Json)| #[trigger]
            (seq![first] + rest).contains(m) <==> m == first || rest.contains(m),
{
    let whole = seq![first] + rest;
    assert forall|i: int, j: int| 0 <= i < j < whole.len() implies key_less(
        (#[trigger] whole[i]).0,
        (#[trigger] whole[j]).0,
    ) by {
        if i == 0 {
            assert(whole[j] == rest[j - 1]);
        } else {
            assert(key_less(rest[i - 1].0, rest[j - 1].0));
        }
    }
    assert forall|m: (Seq<char>, Json)| #[trigger] whole.contains(m) <==> m == first
        || rest.contains(m) by {
        if whole.contains(m) {
            let i = choose|i: int| 0 <= i < whole.len() && whole[i] == m;
            if i > 0 {
                assert(rest[i - 1] == m);
            }
        }
        if m == first {
            assert(whole[0] == m);
        }
        if rest.contains(m) {
            let i = choose|i: int| 0 <= i < rest.len() && rest[i] == m;
            assert(whole[i + 1] == m);
        }
    }
}

/// Under a key of an object whose keys stand in order stands the member with that key.
pub proof fn law_member(members: Seq<(Seq<char>, Json)>, key: Seq<char>, value: Json)
    requires
        in_order(members),
    ensures
        member_of(Json::Object(members), key) == Some(value) <==> members.contains((key, value)),
{
    let names = keys(members);
    if exists|i: int| 0 <= i < names.len() && names[i] == key {
        let i = choose|i: int| 0 <= i < names.len() && names[i] == key;
        assert(members[i].0 == key);
        if members.contains((key, value)) {
            let k = choose|k: int| 0 <= k < members.len() && members[k] == (key, value);
            lemma_keys_compare(key, key);
            if i < k {
                assert(key_less(members[i].0, members[k].0));
            }
            if k < i {
                assert(key_less(members[k].0, members[i].0));
            }
        }
        if members[i].1 == value {
            assert(members[i] == (key, value));
        }
    } else if members.contains((key, value)) {
        let k = choose|k: int| 0 <= k < members.len() && members[k] == (key, value);
        assert(names[k] == key);
    }
}

/// The object that entries make holds under each key the last entry with it, and no other key. Its
/// keys stand in order.
pub proof fn law_collected(entries: Seq<(Seq<char>, Json)>, key: Seq<char>, i: int)
    requires
        -1 <= i < entries.len(),
        i >= 0 ==> entries[i].0 == key,
        forall|j: int| i < j < entries.len() ==> (#[trigger] entries[j]).0 != key,
    ensures
        in_order(collected(entries)),
        member_of(Json::Object(collected(entries)), key) == (if i >= 0 {
            Some(entries[i].1)
        } else {
            None
        }),
    decreases entries.len(),
{
    let whole = collected(entries);
    if entries.len() == 0 {
        assert(whole =~= Seq::empty());
        assert(keys(whole).len() == 0);
    } else {
        let front = entries.drop_last();
        let last = entries.last();
        assert(entries[entries.len() - 1] == last);
        if i == entries.len() - 1 {
            lemma_collected_in_order(front);
            lemma_with_member(collected(front), last.0, last.1);
            law_member(whole, key, last.1);
        } else {
            assert forall|j: int| i < j < front.len() implies (#[trigger] front[j]).0 != key by {
                assert(entries[j].0 != key);
            }
            law_collected(front, key, i);
            lemma_with_member(collected(front), last.0, last.1);
            if i >= 0 {
                law_member(collected(front), key, front[i].1);
                law_member(whole, key, front[i].1);
            } else if let Some(found) = member_of(Json::Object(whole), key) {
                law_member(whole, key, found);
                law_member(collected(front), key, found);
            }
        }
    }
}

proof fn lemma_collected_in_order(entries: Seq<(Seq<char>, Json)>)
    ensures
        in_order(collected(entries)),
    decreases entries.len(),
{
    if entries.len() > 0 {
        lemma_collected_in_order(entries.drop_last());
        lemma_with_member(
            collected(entries.drop_last()),
            entries.last().0,
            entries.last().1,
        );
    }
}

/// Setting a member of an object whose keys stand in order gives it the value, and leaves every other
/// member as it was.
pub proof fn law_with_member(
    members: Seq<(Seq<char>, Json)>,
    key: Seq<char>,
    value: Json,
    other: Seq<char>,
)
    requires
        in_order(members),
    ensures
        in_order(with_member(members, key, value)),
        member_of(Json::Object(with_member(members, key, value)), key) == Some(value),
        other != key ==> member_of(Json::Object(with_member(members, key, value)), other)
            == member_of(Json::Object(members), other),
{
    let whole = with_member(members, key, value);
    lemma_with_member(members, key, value);
    law_member(whole, key, value);
    if other != key {
        if let Some(found) = member_of(Json::Object(whole), other) {
            law_member(whole, other, found);
            law_member(members, other, found);
        }
        if let Some(found) = member_of(Json::Object(members), other) {
            law_member(members, other, found);
            law_member(whole, other, found);
        }
    }
}

} // verus!
