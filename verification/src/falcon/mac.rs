//! MAC addresses in their common form: pairs of upper-case digits with colons between them.
use crate::query::option_text;
use crate::text::{
    char_width, chars_of, concatenated, lemma_concatenated_push, separate, separated, text_of,
    texts, width_of,
};
use vstd::prelude::*;

verus! {

/// Whether a character separates the digits of a MAC address.
pub open spec fn is_separator(c: char) -> bool {
    c == '-' || c == ':' || c == '.'
}

/// A text without separators.
pub open spec fn stripped(text: Seq<char>) -> Seq<char>
    decreases text.len(),
{
    if text.len() == 0 {
        Seq::empty()
    } else if is_separator(text.last()) {
        stripped(text.drop_last())
    } else {
        stripped(text.drop_last()).push(text.last())
    }
}

/// The upper-case form of a text, by std's Unicode tables.
pub uninterp spec fn uppercase(text: Seq<char>) -> Seq<char>;

/// Whether a text is ASCII.
pub open spec fn is_ascii_text(text: Seq<char>) -> bool {
    forall|i: int| 0 <= i < text.len() ==> ((#[trigger] text[i]) as u32) < 128
}

/// The upper-case form of an ASCII letter; any other character as it is.
pub open spec fn upper_char(c: char) -> char {
    if 'a' <= c <= 'z' {
        (c as u8 - 32u8) as char
    } else {
        c
    }
}

/// An ASCII text with its letters in upper case.
pub open spec fn ascii_upper(text: Seq<char>) -> Seq<char> {
    text.map_values(|c: char| upper_char(c))
}

/// `str::to_uppercase` of std: a function of the text, which changes the letters of an ASCII text
/// one by one.
#[verifier::external_body]
fn to_upper(text: &str) -> (r: String)
    ensures
        r@ == uppercase(text@),
        is_ascii_text(text@) ==> r@ == ascii_upper(text@),
{
    text.to_uppercase()
}

/// The number of bytes of a text in UTF-8.
pub open spec fn text_width(text: Seq<char>) -> nat
    decreases text.len(),
{
    if text.len() == 0 {
        0
    } else {
        text_width(text.drop_last()) + char_width(text.last())
    }
}

/// A text cut into pieces of two bytes; nothing where a character would be cut.
pub open spec fn byte_pairs(text: Seq<char>) -> Option<Seq<Seq<char>>>
    decreases text.len(),
{
    if text.len() == 0 {
        Some(Seq::empty())
    } else if char_width(text.last()) == 2 {
        match byte_pairs(text.drop_last()) {
            Some(pieces) => Some(pieces.push(seq![text.last()])),
            None => None,
        }
    } else if char_width(text.last()) == 1 && text.len() >= 2 && char_width(text[text.len() - 2])
        == 1 {
        match byte_pairs(text.drop_last().drop_last()) {
            Some(pieces) => Some(pieces.push(seq![text[text.len() - 2], text.last()])),
            None => None,
        }
    } else {
        None
    }
}

/// Twelve bytes as six pairs with colons between them; nothing for any other number of bytes, nor
/// where a character would be cut.
pub open spec fn colon_pairs(raw: Seq<char>) -> Option<Seq<char>> {
    if text_width(raw) != 12 {
        None
    } else {
        match byte_pairs(raw) {
            Some(pieces) => Some(separated(pieces, ":"@)),
            None => None,
        }
    }
}

/// The digits of a MAC address, in upper case and without separators.
pub open spec fn mac_digits(text: Seq<char>) -> Seq<char> {
    uppercase(stripped(text))
}

/// Whether the digits of a MAC address can be paired without cutting a character.
pub open spec fn can_pair(text: Seq<char>) -> bool {
    text_width(mac_digits(text)) == 12 ==> byte_pairs(mac_digits(text)) is Some
}

/// A MAC address in its common form.
pub open spec fn mac_of(value: Option<Seq<char>>) -> Option<Seq<char>> {
    match value {
        Some(text) => colon_pairs(mac_digits(text)),
        None => None,
    }
}

/// The common form of a MAC address that is ASCII text.
pub open spec fn ascii_mac(text: Seq<char>) -> Option<Seq<char>> {
    colon_pairs(ascii_upper(stripped(text)))
}

/// The view of an optional text.
pub open spec fn text_view(value: Option<&str>) -> Option<Seq<char>> {
    match value {
        Some(text) => Some(text@),
        None => None,
    }
}

fn strip(text: &str) -> (r: String)
    ensures
        r@ == stripped(text@),
{
    let mut out = String::new();
    for c in it: text.chars()
        invariant
            it.seq() == text@,
            out@ == stripped(text@.take(it.index())),
    {
        assert(text@.take(it.index() + 1).drop_last() == text@.take(it.index()));
        if !(c == '-' || c == ':' || c == '.') {
            out.push(c);
        }
    }
    assert(text@.take(text@.len() as int) == text@);
    out
}

proof fn lemma_stripped_is_ascii(text: Seq<char>)
    requires
        is_ascii_text(text),
    ensures
        is_ascii_text(stripped(text)),
    decreases text.len(),
{
    if text.len() > 0 {
        assert forall|i: int| 0 <= i < text.drop_last().len() implies ((
        #[trigger] text.drop_last()[i]) as u32) < 128 by {
            assert(text[i] == text.drop_last()[i]);
        }
        lemma_stripped_is_ascii(text.drop_last());
        assert((text[text.len() - 1] as u32) < 128);
    }
}

proof fn lemma_width_grows(text: Seq<char>, n: int)
    requires
        0 <= n <= text.len(),
    ensures
        text_width(text.take(n)) + (text.len() - n) <= text_width(text),
    decreases text.len(),
{
    if n == text.len() {
        assert(text.take(n) == text);
    } else {
        assert(text.drop_last().take(n) == text.take(n));
        lemma_width_grows(text.drop_last(), n);
    }
}

/// A piece of two bytes behind a text that is cut into pairs.
proof fn lemma_pairs_from(text: Seq<char>, n: int, k: int)
    requires
        0 <= n < n + k <= text.len(),
        byte_pairs(text.take(n)) is Some,
        (k == 1 && char_width(text[n]) == 2) || (k == 2 && char_width(text[n]) == 1 && char_width(
            text[n + 1],
        ) == 1),
    ensures
        byte_pairs(text.take(n + k)) == Some(
            byte_pairs(text.take(n))->0.push(text.subrange(n, n + k)),
        ),
{
    let next = text.take(n + k);
    if k == 1 {
        assert(next.drop_last() == text.take(n));
        assert(text.subrange(n, n + 1) =~= seq![text[n]]);
    } else {
        assert(next.drop_last().drop_last() =~= text.take(n));
        assert(text.subrange(n, n + 2) =~= seq![text[n], text[n + 1]]);
    }
}

/// Where the front of a text is cut into pairs and the next character fits into none, the whole
/// text cannot be cut.
proof fn lemma_no_pairs(text: Seq<char>, n: int)
    requires
        0 <= n < text.len(),
        byte_pairs(text.take(n)) is Some,
        char_width(text[n]) > 2 || (char_width(text[n]) == 1 && (n + 1 == text.len() || char_width(
            text[n + 1],
        ) != 1)),
    ensures
        byte_pairs(text) is None,
    decreases text.len(),
{
    if text.len() == n + 1 {
        assert(text.drop_last() == text.take(n));
        if char_width(text[n]) == 1 && n >= 1 && char_width(text[n - 1]) == 1 {
            // An odd number of bytes is left in front.
            assert(text.drop_last().drop_last() =~= text.take(n - 1));
            lemma_even(text.take(n));
            if byte_pairs(text.take(n - 1)) is Some {
                lemma_even(text.take(n - 1));
                assert(text.take(n).drop_last() == text.take(n - 1));
            }
        }
    } else if char_width(text.last()) == 2 {
        assert(text.drop_last().take(n) == text.take(n));
        lemma_no_pairs(text.drop_last(), n);
    } else if text.len() > n + 2 {
        assert(text.drop_last().drop_last().take(n) =~= text.take(n));
        lemma_no_pairs(text.drop_last().drop_last(), n);
    }
}

/// A text that is cut into pairs has an even number of bytes.
proof fn lemma_even(text: Seq<char>)
    requires
        byte_pairs(text) is Some,
    ensures
        text_width(text) % 2 == 0,
    decreases text.len(),
{
    if text.len() > 0 {
        if char_width(text.last()) == 2 {
            lemma_even(text.drop_last());
        } else {
            lemma_even(text.drop_last().drop_last());
            assert(text.drop_last().last() == text[text.len() - 2]);
        }
    }
}

/// Writes twelve bytes as six pairs with colons between them.
pub fn pair_digits(raw: &str) -> (r: Option<String>)
    ensures
        option_text(r) == colon_pairs(raw@),
{
    let chars = chars_of(raw);
    let mut width: usize = 0;
    let mut i: usize = 0;
    while i < chars.len()
        invariant
            i <= chars@.len(),
            chars@ == raw@,
            width == text_width(raw@.take(i as int)),
            width <= 12,
        decreases chars@.len() - i,
    {
        assert(raw@.take(i + 1).drop_last() == raw@.take(i as int));
        width += width_of(chars[i]);
        if width > 12 {
            proof {
                lemma_width_grows(raw@, i + 1);
            }
            return None;
        }
        i += 1;
    }
    assert(raw@.take(raw@.len() as int) == raw@);
    if width != 12 {
        return None;
    }
    let mut pieces: Vec<String> = Vec::new();
    let mut n: usize = 0;
    assert(texts(pieces@) =~= Seq::<Seq<char>>::empty());
    while n < chars.len()
        invariant
            n <= chars@.len(),
            chars@ == raw@,
            byte_pairs(raw@.take(n as int)) == Some(texts(pieces@)),
        decreases chars@.len() - n,
    {
        let first: usize = width_of(chars[n]);
        let length: usize = if first == 2 {
            1
        } else if first == 1 && chars.len() - n >= 2 && width_of(chars[n + 1]) == 1 {
            2
        } else {
            0
        };
        if length == 0 {
            proof {
                lemma_no_pairs(raw@, n as int);
            }
            return None;
        }
        proof {
            lemma_pairs_from(raw@, n as int, length as int);
        }
        let ghost earlier = pieces@;
        pieces.push(text_of(&chars, n, n + length));
        assert(texts(pieces@) =~= texts(earlier).push(raw@.subrange(n as int, n + length)));
        n += length;
    }
    assert(raw@.take(raw@.len() as int) == raw@);
    Some(separate(&pieces, ":"))
}

/// The digits of a MAC address.
fn read_digits(text: &str) -> (r: String)
    ensures
        r@ == mac_digits(text@),
        is_ascii_text(text@) ==> r@ == ascii_upper(stripped(text@)),
{
    proof {
        if is_ascii_text(text@) {
            lemma_stripped_is_ascii(text@);
        }
    }
    to_upper(strip(text).as_str())
}

/// Puts a MAC address in its common form; nothing where it does not have twelve digits.
pub fn mac(value: Option<&str>) -> (r: Option<String>)
    requires
        value matches Some(text) ==> is_ascii_text(text@) || can_pair(text@),
    ensures
        option_text(r) == mac_of(text_view(value)),
        value matches Some(text) ==> is_ascii_text(text@) ==> option_text(r) == ascii_mac(text@),
{
    match value {
        Some(text) => pair_digits(read_digits(text).as_str()),
        None => None,
    }
}

/// Puts a MAC address in its common form; nothing where it does not have twelve digits, nor where
/// these cannot be paired.
pub fn checked_mac(value: Option<&str>) -> (r: Option<String>)
    ensures
        option_text(r) == mac_of(text_view(value)),
        value matches Some(text) ==> is_ascii_text(text@) ==> option_text(r) == ascii_mac(text@),
{
    match value {
        Some(text) => match pair_digits(read_digits(text).as_str()) {
            Some(_) => mac(value),
            None => None,
        },
        None => None,
    }
}

// ---------------------------------------------------------------------------------------------
// The common form

proof fn lemma_stripped_add(a: Seq<char>, b: Seq<char>)
    ensures
        stripped(a + b) == stripped(a) + stripped(b),
    decreases b.len(),
{
    if b.len() == 0 {
        assert(a + b == a);
    } else {
        assert((a + b).drop_last() == a + b.drop_last());
        lemma_stripped_add(a, b.drop_last());
    }
}

proof fn lemma_nothing_stripped(text: Seq<char>)
    requires
        forall|i: int| 0 <= i < text.len() ==> !is_separator(#[trigger] text[i]),
    ensures
        stripped(text) == text,
    decreases text.len(),
{
    if text.len() > 0 {
        assert forall|i: int| 0 <= i < text.drop_last().len() implies !is_separator(
            #[trigger] text.drop_last()[i],
        ) by {
            assert(text[i] == text.drop_last()[i]);
        }
        lemma_nothing_stripped(text.drop_last());
        assert(!is_separator(text[text.len() - 1]));
    }
}

proof fn lemma_no_separators(text: Seq<char>)
    ensures
        forall|i: int| 0 <= i < stripped(text).len() ==> !is_separator(#[trigger] stripped(text)[i]),
    decreases text.len(),
{
    if text.len() > 0 {
        lemma_no_separators(text.drop_last());
        let front = stripped(text.drop_last());
        assert forall|i: int| 0 <= i < stripped(text).len() implies !is_separator(
            #[trigger] stripped(text)[i],
        ) by {
            if i < front.len() {
                assert(!is_separator(front[i]));
            }
        }
    }
}

/// ASCII digits are cut two by two, and come back when the colons are stripped.
proof fn lemma_pairs_come_back(raw: Seq<char>)
    requires
        is_ascii_text(raw),
        forall|i: int| 0 <= i < raw.len() ==> !is_separator(#[trigger] raw[i]),
        raw.len() % 2 == 0,
    ensures
        byte_pairs(raw) matches Some(pieces) && pieces.len() * 2 == raw.len() && separated(
            pieces,
            ":"@,
        ).len() == (if raw.len() == 0 { 0 } else { pieces.len() * 3 - 1 }) && stripped(
            separated(pieces, ":"@),
        ) == raw,
    decreases raw.len(),
{
    if raw.len() > 0 {
        let front = raw.drop_last().drop_last();
        let piece = seq![raw[raw.len() - 2], raw.last()];
        assert forall|i: int| 0 <= i < front.len() implies !is_separator(#[trigger] front[i]) && (
        front[i] as u32) < 128 by {
            assert(front[i] == raw[i]);
        }
        lemma_pairs_come_back(front);
        let pieces = byte_pairs(front)->0;
        assert((raw[raw.len() - 2] as u32) < 128 && (raw[raw.len() - 1] as u32) < 128);
        assert(byte_pairs(raw) == Some(pieces.push(piece)));
        assert(pieces.push(piece).drop_last() == pieces);
        lemma_nothing_stripped(piece);
        assert(raw =~= front + piece);
        if pieces.len() > 0 {
            let whole = separated(pieces, ":"@);
            lemma_stripped_add(whole + ":"@, piece);
            lemma_stripped_add(whole, ":"@);
            reveal_strlit(":");
            assert(stripped(":"@) == Seq::<char>::empty()) by {
                assert(":"@.last() == ':');
                assert(":"@.drop_last() =~= Seq::<char>::empty());
                assert(stripped(":"@.drop_last()) == Seq::<char>::empty());
            }
        } else {
            assert(separated(pieces.push(piece), ":"@) == piece);
            assert(front.len() == 0);
        }
    }
}

proof fn lemma_ascii_width(text: Seq<char>)
    requires
        is_ascii_text(text),
    ensures
        text_width(text) == text.len(),
    decreases text.len(),
{
    if text.len() > 0 {
        assert forall|i: int| 0 <= i < text.drop_last().len() implies ((
        #[trigger] text.drop_last()[i]) as u32) < 128 by {
            assert(text[i] == text.drop_last()[i]);
        }
        lemma_ascii_width(text.drop_last());
        assert((text[text.len() - 1] as u32) < 128);
    }
}

/// Every ASCII text with twelve digits has a common form, six pairs with colons between them, and
/// no other ASCII text has one. It depends on the digits alone, and is its own common form.
pub proof fn law_mac_is_normal(text: Seq<char>, other: Seq<char>)
    requires
        is_ascii_text(text),
    ensures
        ascii_mac(text) is Some <==> stripped(text).len() == 12,
        ascii_mac(text) matches Some(form) ==> form.len() == 17 && stripped(form) == ascii_upper(
            stripped(text),
        ) && ascii_mac(form) == Some(form),
        ascii_upper(stripped(text)) == ascii_upper(stripped(other)) ==> ascii_mac(text)
            == ascii_mac(other),
{
    lemma_stripped_is_ascii(text);
    lemma_no_separators(text);
    let digits = stripped(text);
    let raw = ascii_upper(digits);
    assert forall|i: int| 0 <= i < raw.len() implies !is_separator(#[trigger] raw[i]) && (
    raw[i] as u32) < 128 && upper_char(raw[i]) == raw[i] by {
        assert(!is_separator(digits[i]) && (digits[i] as u32) < 128);
    }
    lemma_ascii_width(raw);
    if raw.len() == 12 {
        lemma_pairs_come_back(raw);
        assert(ascii_upper(raw) =~= raw);
    }
}

proof fn lemma_stripped_filters(text: Seq<char>)
    ensures
        stripped(text) == text.filter(|c: char| c != '-' && c != ':' && c != '.'),
    decreases text.len(),
{
    reveal(Seq::filter);
    if text.len() > 0 {
        lemma_stripped_filters(text.drop_last());
    }
}

spec fn is_placed(form: Seq<char>, raw: Seq<char>, k: int) -> bool {
    form[3 * k] == raw[2 * k] && form[3 * k + 1] == raw[2 * k + 1]
}

spec fn is_parted(form: Seq<char>, k: int) -> bool {
    form[3 * k + 2] == ':'
}

proof fn lemma_pair_places(raw: Seq<char>)
    requires
        is_ascii_text(raw),
        raw.len() % 2 == 0,
    ensures
        byte_pairs(raw) is Some,
        ({
            let pieces = byte_pairs(raw)->0;
            let form = separated(pieces, ":"@);
            &&& pieces.len() * 2 == raw.len()
            &&& form.len() == (if raw.len() == 0 {
                0
            } else {
                pieces.len() * 3 - 1
            })
            &&& forall|k: int| 0 <= k < pieces.len() ==> #[trigger] is_placed(form, raw, k)
            &&& forall|k: int| 0 <= k < pieces.len() - 1 ==> #[trigger] is_parted(form, k)
        }),
    decreases raw.len(),
{
    reveal_strlit(":");
    if raw.len() > 0 {
        let front = raw.drop_last().drop_last();
        let piece = seq![raw[raw.len() - 2], raw.last()];
        assert forall|i: int| 0 <= i < front.len() implies (#[trigger] front[i] as u32) < 128 by {
            assert(front[i] == raw[i]);
        }
        lemma_pair_places(front);
        let pieces = byte_pairs(front)->0;
        assert((raw[raw.len() - 2] as u32) < 128 && (raw[raw.len() - 1] as u32) < 128);
        let all = pieces.push(piece);
        assert(byte_pairs(raw) == Some(all));
        assert(all.drop_last() == pieces);
        let form = separated(all, ":"@);
        let head = separated(pieces, ":"@);
        if pieces.len() > 0 {
            assert(form == head + ":"@ + piece);
        } else {
            assert(form == piece);
        }
        assert forall|k: int| 0 <= k < all.len() implies #[trigger] is_placed(form, raw, k) by {
            if k < pieces.len() {
                assert(is_placed(head, front, k));
            }
        }
        assert forall|k: int| 0 <= k < all.len() - 1 implies #[trigger] is_parted(form, k) by {
            if k < pieces.len() - 1 {
                assert(is_parted(head, k));
            }
        }
    }
}

/// The common form of a MAC address in ASCII: what is left without hyphens, colons and dots has to
/// be twelve characters, which stand in pairs with colons between them, small letters as capitals.
pub proof fn law_mac_form(text: Seq<char>, k: int)
    requires
        is_ascii_text(text),
        0 <= k < 6,
    ensures
        ({
            let digits = text.filter(|c: char| c != '-' && c != ':' && c != '.');
            let upper = |c: char|
                if 97 <= c as u32 <= 122 {
                    (c as u32 - 32) as char
                } else {
                    c
                };
            &&& digits.len() != 12 ==> ascii_mac(text) is None
            &&& digits.len() == 12 ==> (ascii_mac(text) matches Some(form) && form.len() == 17
                && form[3 * k] == upper(digits[2 * k]) && form[3 * k + 1] == upper(
                digits[2 * k + 1],
            ) && (k < 5 ==> form[3 * k + 2] == ':'))
        }),
{
    lemma_stripped_filters(text);
    lemma_stripped_is_ascii(text);
    let raw = ascii_upper(stripped(text));
    assert(is_ascii_text(raw)) by {
        assert forall|i: int| 0 <= i < raw.len() implies (#[trigger] raw[i] as u32) < 128 by {
            assert((stripped(text)[i] as u32) < 128);
        }
    }
    lemma_ascii_width(raw);
    if raw.len() == 12 {
        lemma_pair_places(raw);
        let form = separated(byte_pairs(raw)->0, ":"@);
        assert(is_placed(form, raw, k));
        if k < 5 {
            assert(is_parted(form, k));
        }
    }
}

/// Whatever the text, its digits are what `str::to_uppercase` makes of it without hyphens, colons and
/// dots; they have a common form only where they take twelve bytes.
pub proof fn law_mac_digits(text: Seq<char>)
    ensures
        mac_of(None) is None,
        mac_of(Some(text)) == colon_pairs(
            uppercase(text.filter(|c: char| c != '-' && c != ':' && c != '.')),
        ),
        text_width(uppercase(text.filter(|c: char| c != '-' && c != ':' && c != '.'))) != 12
            ==> mac_of(Some(text)) is None,
{
    lemma_stripped_filters(text);
}

/// Any text that can be cut into pieces of two bytes is what the pieces make, one after the other.
pub proof fn law_byte_pairs(text: Seq<char>)
    ensures
        byte_pairs(text) matches Some(pieces) ==> concatenated(pieces) == text && forall|i: int|
            0 <= i < pieces.len() ==> text_width(#[trigger] pieces[i]) == 2,
        colon_pairs(text) == (match byte_pairs(text) {
            Some(pieces) => if text_width(text) == 12 {
                Some(separated(pieces, ":"@))
            } else {
                None
            },
            None => None,
        }),
    decreases text.len(),
{
    if text.len() > 0 {
        let last = text.last();
        if char_width(last) == 2 {
            let front = text.drop_last();
            law_byte_pairs(front);
            if let Some(pieces) = byte_pairs(front) {
                let piece = seq![last];
                lemma_concatenated_push(pieces, piece);
                assert(front + piece =~= text);
                assert(piece.drop_last() =~= Seq::empty());
                assert(text_width(piece.drop_last()) == 0);
                assert(text_width(piece) == 2);
            }
        } else if char_width(last) == 1 && text.len() >= 2 && char_width(text[text.len() - 2])
            == 1 {
            let front = text.drop_last().drop_last();
            law_byte_pairs(front);
            if let Some(pieces) = byte_pairs(front) {
                let piece = seq![text[text.len() - 2], last];
                lemma_concatenated_push(pieces, piece);
                assert(front + piece =~= text);
                let one = piece.drop_last();
                assert(one =~= seq![text[text.len() - 2]]);
                assert(one.drop_last() =~= Seq::empty());
                assert(text_width(one.drop_last()) == 0);
                assert(text_width(one) == 1);
                assert(text_width(piece) == 2);
            }
        }
    }
}

} // verus!
