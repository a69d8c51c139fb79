//! Text primitives: building, searching and comparing character sequences, and decimal numbers.
use vstd::prelude::*;

verus! {

/// `String::push` of std: the character is appended at the end of the text.
pub assume_specification[ String::push ](s: &mut String, c: char)
    ensures
        final(s)@ == old(s)@.push(c),
;

/// The characters of a text, one vector slot each.
pub fn chars_of(s: &str) -> (r: Vec<char>)
    ensures
        r@ == s@,
{
    let mut out: Vec<char> = Vec::new();
    for c in it: s.chars()
        invariant
            out@ == it.seq().take(it.index()),
            it.seq() == s@,
    {
        out.push(c);
    }
    assert(s@.take(s@.len() as int) == s@);
    out
}

/// The text made of the characters from `from` up to, not including, `to`.
pub fn text_of(chars: &Vec<char>, from: usize, to: usize) -> (r: String)
    requires
        from <= to <= chars@.len(),
    ensures
        r@ == chars@.subrange(from as int, to as int),
{
    let mut out = String::new();
    let mut i: usize = from;
    while i < to
        invariant
            from <= i <= to <= chars@.len(),
            out@ == chars@.subrange(from as int, i as int),
        decreases to - i,
    {
        out.push(chars[i]);
        i += 1;
    }
    out
}

/// Whether two texts hold the same characters.
pub fn same_text(a: &str, b: &str) -> (r: bool)
    ensures
        r == (a@ == b@),
{
    let x: String = a.to_owned();
    let y: String = b.to_owned();
    x == y
}

/// Two texts, one after the other.
pub fn joined(a: &str, b: &str) -> (r: String)
    ensures
        r@ == a@ + b@,
{
    a.to_owned().concat(b)
}

/// The views of a list of texts.
pub open spec fn texts(v: Seq<String>) -> Seq<Seq<char>> {
    v.map_values(|s: String| s@)
}

/// Every text of the list, one after the other.
pub open spec fn concatenated(parts: Seq<Seq<char>>) -> Seq<char>
    decreases parts.len(),
{
    if parts.len() == 0 {
        Seq::empty()
    } else {
        concatenated(parts.drop_last()) + parts.last()
    }
}

/// Concatenation of a list with one text more.
pub proof fn lemma_concatenated_push(a: Seq<Seq<char>>, x: Seq<char>)
    ensures
        concatenated(a.push(x)) == concatenated(a) + x,
{
    assert(a.push(x).drop_last() == a);
}

/// Concatenation goes through appending of lists.
pub proof fn lemma_concatenated_add(a: Seq<Seq<char>>, b: Seq<Seq<char>>)
    ensures
        concatenated(a + b) == concatenated(a) + concatenated(b),
    decreases b.len(),
{
    if b.len() == 0 {
        assert(a + b == a);
        assert(concatenated(a) + concatenated(b) == concatenated(a));
    } else {
        assert((a + b).drop_last() == a + b.drop_last());
        lemma_concatenated_add(a, b.drop_last());
        assert(concatenated(a) + concatenated(b.drop_last()) + b.last() == concatenated(a) + (
        concatenated(b.drop_last()) + b.last()));
    }
}

/// The texts of the list with `separator` between neighbours.
pub open spec fn separated(parts: Seq<Seq<char>>, separator: Seq<char>) -> Seq<char>
    decreases parts.len(),
{
    if parts.len() == 0 {
        Seq::empty()
    } else if parts.len() == 1 {
        parts[0]
    } else {
        separated(parts.drop_last(), separator) + separator + parts.last()
    }
}

/// Joins texts with a separator between neighbours.
pub fn separate(parts: &Vec<String>, separator: &str) -> (r: String)
    ensures
        r@ == separated(texts(parts@), separator@),
{
    let mut out = String::new();
    let mut i: usize = 0;
    while i < parts.len()
        invariant
            i <= parts@.len(),
            out@ == separated(texts(parts@).take(i as int), separator@),
        decreases parts@.len() - i,
    {
        proof {
            assert(texts(parts@).take(i + 1).drop_last() == texts(parts@).take(i as int));
        }
        if i > 0 {
            out.append(separator);
        }
        out.append(parts[i].as_str());
        i += 1;
    }
    assert(texts(parts@).take(parts@.len() as int) == texts(parts@));
    out
}

// ---------------------------------------------------------------------------------------------
// Searching

/// `needle` stands in `text` at position `at`.
pub open spec fn occurs_at(text: Seq<char>, needle: Seq<char>, at: int) -> bool {
    &&& 0 <= at
    &&& at + needle.len() <= text.len()
    &&& text.subrange(at, at + needle.len()) == needle
}

/// `needle` stands somewhere in `text`.
pub open spec fn occurs(text: Seq<char>, needle: Seq<char>) -> bool {
    exists|at: int| occurs_at(text, needle, at)
}

/// Whether `needle` stands in `text` at position `at`.
fn matches_at(text: &Vec<char>, needle: &Vec<char>, at: usize) -> (r: bool)
    requires
        at + needle@.len() <= text@.len(),
    ensures
        r == occurs_at(text@, needle@, at as int),
{
    let length: usize = text.len();
    let mut k: usize = 0;
    while k < needle.len()
        invariant
            k <= needle@.len(),
            at + needle@.len() <= length == text@.len(),
            forall|j: int| 0 <= j < k ==> text@[at + j] == needle@[j],
        decreases needle@.len() - k,
    {
        if text[at + k] != needle[k] {
            assert(text@.subrange(at as int, at + needle@.len())[k as int] != needle@[k as int]);
            return false;
        }
        k += 1;
    }
    assert(text@.subrange(at as int, at + needle@.len()) =~= needle@);
    true
}

/// The first position at which `needle` stands in `text`.
pub fn find(text: &Vec<char>, needle: &Vec<char>) -> (r: Option<usize>)
    ensures
        r matches Some(at) ==> occurs_at(text@, needle@, at as int) && forall|j: int|
            0 <= j < at ==> !occurs_at(text@, needle@, j),
        r is None <==> !occurs(text@, needle@),
{
    if needle.len() > text.len() {
        return None;
    }
    let last: usize = text.len() - needle.len();
    let mut i: usize = 0;
    while i <= last
        invariant
            i <= last + 1,
            last + needle@.len() == text@.len(),
            forall|j: int| 0 <= j < i ==> !occurs_at(text@, needle@, j),
        decreases last + 1 - i,
    {
        if matches_at(text, needle, i) {
            return Some(i);
        }
        if i == last {
            return None;
        }
        i += 1;
    }
    None
}

/// Whether `needle` stands somewhere in `text`.
pub fn contains(text: &str, needle: &str) -> (r: bool)
    ensures
        r == occurs(text@, needle@),
{
    let t = chars_of(text);
    let n = chars_of(needle);
    find(&t, &n).is_some()
}

/// The two sides of the first `mark` in a text; nothing where it has none.
pub open spec fn cut_at(text: Seq<char>, mark: char) -> Option<(Seq<char>, Seq<char>)>
    decreases text.len(),
{
    if text.len() == 0 {
        None
    } else if text[0] == mark {
        Some((Seq::empty(), text.skip(1)))
    } else {
        match cut_at(text.skip(1), mark) {
            Some(sides) => Some((seq![text[0]] + sides.0, sides.1)),
            None => None,
        }
    }
}

/// Where the first `mark` of a text stands, the sides are what is before and behind it.
pub proof fn lemma_cut_at(text: Seq<char>, mark: char, at: int)
    requires
        0 <= at <= text.len(),
        forall|j: int| 0 <= j < at ==> text[j] != mark,
        at < text.len() ==> text[at] == mark,
    ensures
        at < text.len() ==> cut_at(text, mark) == Some((text.take(at), text.skip(at + 1))),
        at == text.len() ==> cut_at(text, mark) is None,
    decreases text.len(),
{
    if text.len() > 0 {
        if at == 0 {
            assert(text.take(0) == Seq::<char>::empty());
        } else {
            let rest = text.skip(1);
            assert forall|j: int| 0 <= j < at - 1 implies rest[j] != mark by {
                assert(rest[j] == text[j + 1]);
            }
            lemma_cut_at(rest, mark, at - 1);
            assert(seq![text[0]] + rest.take(at - 1) =~= text.take(at));
            if at < text.len() {
                assert(rest.skip(at) =~= text.skip(at + 1));
            }
        }
    }
}

/// Splits a text at its first `mark`.
pub fn split_once(text: &str, mark: char) -> (r: Option<(String, String)>)
    ensures
        r is Some <==> cut_at(text@, mark) is Some,
        r matches Some(sides) ==> cut_at(text@, mark) == Some((sides.0@, sides.1@)),
{
    let chars = chars_of(text);
    let mut i: usize = 0;
    while i < chars.len()
        invariant
            i <= chars@.len(),
            chars@ == text@,
            forall|j: int| 0 <= j < i ==> chars@[j] != mark,
        decreases chars@.len() - i,
    {
        if chars[i] == mark {
            proof {
                lemma_cut_at(text@, mark, i as int);
            }
            return Some((text_of(&chars, 0, i), text_of(&chars, i + 1, chars.len())));
        }
        i += 1;
    }
    proof {
        lemma_cut_at(text@, mark, i as int);
    }
    None
}

/// The two sides of the last `mark` in a text; nothing where it has none.
pub open spec fn cut_at_last(text: Seq<char>, mark: char) -> Option<(Seq<char>, Seq<char>)>
    decreases text.len(),
{
    if text.len() == 0 {
        None
    } else if text.last() == mark {
        Some((text.drop_last(), Seq::empty()))
    } else {
        match cut_at_last(text.drop_last(), mark) {
            Some(sides) => Some((sides.0, sides.1.push(text.last()))),
            None => None,
        }
    }
}

/// Where the last `mark` of a text stands, the sides are what is before and behind it.
proof fn lemma_cut_at_last(text: Seq<char>, mark: char, at: int)
    requires
        -1 <= at < text.len(),
        at >= 0 ==> text[at] == mark,
        forall|j: int| at < j < text.len() ==> text[j] != mark,
    ensures
        at >= 0 ==> cut_at_last(text, mark) == Some((text.take(at), text.skip(at + 1))),
        at < 0 ==> cut_at_last(text, mark) is None,
    decreases text.len(),
{
    if text.len() > 0 {
        if at == text.len() - 1 {
            assert(text.take(at) == text.drop_last());
            assert(text.skip(at + 1) == Seq::<char>::empty());
        } else {
            let front = text.drop_last();
            assert(text[text.len() - 1] != mark);
            lemma_cut_at_last(front, mark, at);
            if at >= 0 {
                assert(front.take(at) == text.take(at));
                assert(front.skip(at + 1).push(text.last()) =~= text.skip(at + 1));
            }
        }
    }
}

/// Splits a text at its last `mark`.
pub fn split_last(text: &str, mark: char) -> (r: Option<(String, String)>)
    ensures
        r is Some <==> cut_at_last(text@, mark) is Some,
        r matches Some(sides) ==> cut_at_last(text@, mark) == Some((sides.0@, sides.1@)),
{
    let chars = chars_of(text);
    let mut end: usize = chars.len();
    while end > 0
        invariant
            end <= chars@.len(),
            chars@ == text@,
            forall|j: int| end <= j < chars@.len() ==> chars@[j] != mark,
        decreases end,
    {
        if chars[end - 1] == mark {
            proof {
                lemma_cut_at_last(text@, mark, end - 1);
            }
            return Some((text_of(&chars, 0, end - 1), text_of(&chars, end, chars.len())));
        }
        end -= 1;
    }
    proof {
        lemma_cut_at_last(text@, mark, -1);
    }
    None
}

/// A text without the run of `mark` at its end.
pub open spec fn trimmed_end(text: Seq<char>, mark: char) -> Seq<char>
    decreases text.len(),
{
    if text.len() > 0 && text.last() == mark {
        trimmed_end(text.drop_last(), mark)
    } else {
        text
    }
}

/// Drops the run of `mark` at the end of a text.
pub fn trim_end(text: &str, mark: char) -> (r: String)
    ensures
        r@ == trimmed_end(text@, mark),
{
    let chars = chars_of(text);
    let mut end: usize = chars.len();
    assert(text@.take(end as int) == text@);
    while end > 0 && chars[end - 1] == mark
        invariant
            end <= chars@.len(),
            chars@ == text@,
            trimmed_end(text@.take(end as int), mark) == trimmed_end(text@, mark),
        decreases end,
    {
        assert(text@.take(end as int).drop_last() == text@.take(end - 1));
        end -= 1;
    }
    text_of(&chars, 0, end)
}

// ---------------------------------------------------------------------------------------------
// Letters

/// The lower-case form of an ASCII letter; any other character as it is.
pub open spec fn lower_char(c: char) -> char {
    if 'A' <= c <= 'Z' {
        (c as u8 + 32u8) as char
    } else {
        c
    }
}

/// The text with its ASCII letters in lower case.
pub open spec fn lowered(text: Seq<char>) -> Seq<char> {
    text.map_values(|c: char| lower_char(c))
}

fn to_lower_char(c: char) -> (r: char)
    ensures
        r == lower_char(c),
{
    if 'A' <= c && c <= 'Z' {
        (c as u8 + 32) as char
    } else {
        c
    }
}

/// Puts the ASCII letters of a text in lower case.
pub fn to_lower(text: &str) -> (r: String)
    ensures
        r@ == lowered(text@),
{
    let mut out = String::new();
    for c in it: text.chars()
        invariant
            out@ == lowered(it.seq().take(it.index())),
            it.seq() == text@,
    {
        out.push(to_lower_char(c));
        proof {
            assert(lowered(text@.take(it.index() + 1)) == lowered(text@.take(it.index())).push(
                lower_char(c),
            ));
        }
    }
    assert(text@.take(text@.len() as int) == text@);
    out
}

// ---------------------------------------------------------------------------------------------
// Decimal numbers

/// The digit of a number below ten.
pub open spec fn digit_char(d: nat) -> char {
    ('0' as u8 + d) as char
}

/// A number written in decimal, without leading zeros.
pub open spec fn decimal_text(n: nat) -> Seq<char>
    decreases n,
{
    if n < 10 {
        seq![digit_char(n)]
    } else {
        decimal_text(n / 10).push(digit_char(n % 10))
    }
}

/// Writes a number in decimal.
pub fn decimal(n: u64) -> (r: String)
    ensures
        r@ == decimal_text(n as nat),
    decreases n,
{
    let digit: char = (48 + (n % 10) as u8) as char;
    let mut out = if n < 10 {
        String::new()
    } else {
        decimal(n / 10)
    };
    out.push(digit);
    assert(n < 10 ==> out@ =~= decimal_text(n as nat));
    out
}

/// Whether a character is a decimal digit.
pub open spec fn is_digit(c: char) -> bool {
    '0' <= c <= '9'
}

/// The number that a run of digits stands for.
pub open spec fn digits_value(digits: Seq<char>) -> nat
    decreases digits.len(),
{
    if digits.len() == 0 {
        0
    } else {
        digits_value(digits.drop_last()) * 10 + (digits.last() as u8 - '0' as u8) as nat
    }
}

/// A text without the plus sign that it may start with.
pub open spec fn behind_sign(text: Seq<char>) -> Seq<char> {
    if text.len() > 0 && text[0] == '+' {
        text.skip(1)
    } else {
        text
    }
}

/// The number that a text stands for: digits, behind at most one plus sign, within 64 bits.
pub open spec fn parsed_number(text: Seq<char>) -> Option<u64> {
    let digits = behind_sign(text);
    if digits.len() > 0 && (forall|i: int| 0 <= i < digits.len() ==> is_digit(#[trigger] digits[i]))
        && digits_value(digits) <= u64::MAX {
        Some(digits_value(digits) as u64)
    } else {
        None
    }
}

proof fn lemma_digits_value_grows(digits: Seq<char>, n: int)
    requires
        0 <= n <= digits.len(),
        forall|i: int| 0 <= i < digits.len() ==> is_digit(#[trigger] digits[i]),
    ensures
        digits_value(digits.take(n)) <= digits_value(digits),
    decreases digits.len(),
{
    if n == digits.len() {
        assert(digits.take(n) == digits);
    } else {
        assert(digits.drop_last().take(n) == digits.take(n));
        lemma_digits_value_grows(digits.drop_last(), n);
    }
}

/// Reads a number from a text.
pub fn parse_number(text: &str) -> (r: Option<u64>)
    ensures
        r == parsed_number(text@),
{
    let chars = chars_of(text);
    let start: usize = if chars.len() > 0 && chars[0] == '+' {
        1
    } else {
        0
    };
    let ghost digits = behind_sign(text@);
    assert(digits == text@.skip(start as int));
    if start == chars.len() {
        return None;
    }
    // Every character is looked at before the value is formed, so that the value is formed of
    // digits alone.
    let mut i: usize = start;
    while i < chars.len()
        invariant
            start <= i <= chars@.len(),
            chars@ == text@,
            digits == behind_sign(text@),
            digits == text@.skip(start as int),
            forall|j: int| 0 <= j < i - start ==> is_digit(#[trigger] digits[j]),
        decreases chars@.len() - i,
    {
        if chars[i] < '0' || '9' < chars[i] {
            assert(!is_digit(digits[i - start]));
            return None;
        }
        i += 1;
    }
    let mut value: u64 = 0;
    let mut k: usize = start;
    while k < chars.len()
        invariant
            start <= k <= chars@.len(),
            chars@ == text@,
            digits == behind_sign(text@),
            digits == text@.skip(start as int),
            forall|j: int| 0 <= j < digits.len() ==> is_digit(#[trigger] digits[j]),
            value == digits_value(digits.take(k - start)),
        decreases chars@.len() - k,
    {
        proof {
            let next = digits.take(k - start + 1);
            assert(next.drop_last() == digits.take(k - start));
            assert(next.last() == digits[k - start]);
            lemma_digits_value_grows(digits, k - start + 1);
        }
        assert(is_digit(digits[k - start]));
        let digit: u64 = (chars[k] as u8 - 48) as u64;
        match value.checked_mul(10) {
            Some(tens) => match tens.checked_add(digit) {
                Some(next) => {
                    value = next;
                },
                None => {
                    return None;
                },
            },
            None => {
                return None;
            },
        }
        k += 1;
    }
    assert(digits.take(digits.len() as int) == digits);
    Some(value)
}

/// A number that was written in decimal reads back as itself.
pub proof fn law_decimal_reads_back(n: u64)
    ensures
        parsed_number(decimal_text(n as nat)) == Some(n),
{
    lemma_decimal_digits(n as nat);
    assert(decimal_text(n as nat)[0] != '+') by {
        assert(is_digit(decimal_text(n as nat)[0]));
    }
}

pub proof fn lemma_decimal_digits(n: nat)
    ensures
        decimal_text(n).len() > 0,
        forall|i: int| 0 <= i < decimal_text(n).len() ==> is_digit(#[trigger] decimal_text(n)[i]),
        digits_value(decimal_text(n)) == n,
    decreases n,
{
    let t = decimal_text(n);
    if n < 10 {
        assert(t.drop_last() == Seq::<char>::empty());
        assert(digits_value(t.drop_last()) == 0);
    } else {
        lemma_decimal_digits(n / 10);
        assert(t.drop_last() == decimal_text(n / 10));
    }
}

// ---------------------------------------------------------------------------------------------
// Bytes

/// The number of bytes of a character in UTF-8.
pub open spec fn char_width(c: char) -> nat {
    if (c as u32) < 0x80 {
        1
    } else if (c as u32) < 0x800 {
        2
    } else if (c as u32) < 0x10000 {
        3
    } else {
        4
    }
}

/// Counts the bytes of a character in UTF-8.
pub fn width_of(c: char) -> (r: usize)
    ensures
        r == char_width(c),
        1 <= r <= 4,
{
    let code: u32 = c as u32;
    if code < 0x80 {
        1
    } else if code < 0x800 {
        2
    } else if code < 0x10000 {
        3
    } else {
        4
    }
}

// ---------------------------------------------------------------------------------------------
// What holds of texts

/// A text holds another one exactly where it is made of that one with something before and behind
/// it.
pub proof fn law_occurs(text: Seq<char>, needle: Seq<char>, before: Seq<char>, behind: Seq<char>)
    ensures
        occurs(before + needle + behind, needle),
        occurs(text, needle) ==> exists|a: Seq<char>, b: Seq<char>|
            text == #[trigger] (a + needle + b),
{
    let whole = before + needle + behind;
    let at = before.len() as int;
    assert(whole.subrange(at, at + needle.len()) =~= needle);
    assert(occurs_at(whole, needle, at));
    if occurs(text, needle) {
        let at = choose|at: int| occurs_at(text, needle, at);
        let a = text.take(at);
        let b = text.skip(at + needle.len());
        assert((a + needle) + b =~= text) by {
            assert forall|i: int| 0 <= i < text.len() implies ((a + needle) + b)[i] == text[i] by {
                if at <= i < at + needle.len() {
                    assert(text.subrange(at, at + needle.len())[i - at] == text[i]);
                }
            }
        }
        assert(text == a + needle + b);
    }
}

/// The sides of the first mark make the text again with the mark between them, and there is no mark
/// on the left; a text without the mark has no sides.
pub proof fn law_cut_at(text: Seq<char>, mark: char)
    ensures
        cut_at(text, mark) matches Some((left, right)) ==> text == left.push(mark) + right
            && !left.contains(mark),
        cut_at(text, mark) is None <==> !text.contains(mark),
{
    if text.contains(mark) {
        let at = text.index_of_first(mark)->0;
        text.index_of_first_ensures(mark);
        assert forall|j: int| 0 <= j < at implies text[j] != mark by {}
        lemma_cut_at(text, mark, at);
        assert(text.take(at).push(mark) + text.skip(at + 1) =~= text);
        if text.take(at).contains(mark) {
            let j = choose|j: int| 0 <= j < at && text.take(at)[j] == mark;
            assert(text[j] == mark);
        }
    } else {
        assert forall|j: int| 0 <= j < text.len() implies text[j] != mark by {
            if text[j] == mark {
                assert(text.contains(mark));
            }
        }
        lemma_cut_at(text, mark, text.len() as int);
    }
}

/// The sides of the last mark make the text again with the mark between them, and there is no mark
/// on the right; a text without the mark has no sides.
pub proof fn law_cut_at_last(text: Seq<char>, mark: char)
    ensures
        cut_at_last(text, mark) matches Some((left, right)) ==> text == left.push(mark) + right
            && !right.contains(mark),
        cut_at_last(text, mark) is None <==> !text.contains(mark),
    decreases text.len(),
{
    if text.len() > 0 {
        let front = text.drop_last();
        law_cut_at_last(front, mark);
        assert(front.push(text.last()) =~= text);
        assert(text[text.len() - 1] == text.last());
        if front.contains(mark) {
            let j = choose|j: int| 0 <= j < front.len() && front[j] == mark;
            assert(text[j] == mark);
        }
        if text.contains(mark) && text.last() != mark {
            let j = choose|j: int| 0 <= j < text.len() && text[j] == mark;
            assert(front[j] == mark);
        }
        if text.last() == mark {
            assert(front.push(mark) + Seq::<char>::empty() =~= text);
        } else if let Some((left, right)) = cut_at_last(front, mark) {
            assert(left.push(mark) + right.push(text.last()) =~= text);
            if right.push(text.last()).contains(mark) {
                let j = choose|j: int|
                    0 <= j < right.push(text.last()).len() && right.push(text.last())[j] == mark;
                assert(right[j] == mark);
            }
        }
    }
}

/// Trimming takes away marks at the end, and all of them.
pub proof fn law_trimmed_end(text: Seq<char>, marks: nat, mark: char)
    requires
        text.len() == 0 || text.last() != mark,
    ensures
        trimmed_end(text + Seq::new(marks, |i: int| mark), mark) == text,
    decreases marks,
{
    let whole = text + Seq::new(marks, |i: int| mark);
    if marks == 0 {
        assert(whole =~= text);
    } else {
        law_trimmed_end(text, (marks - 1) as nat, mark);
        assert(whole.last() == mark);
        assert(whole.drop_last() =~= text + Seq::new((marks - 1) as nat, |i: int| mark));
    }
}

/// In lower case every character stands at its place: a capital letter as the small one, which is
/// 32 codes behind it, and any other character as it was.
pub proof fn law_lowered(text: Seq<char>, i: int)
    requires
        0 <= i < text.len(),
    ensures
        lowered(text).len() == text.len(),
        65 <= text[i] as u32 <= 90 ==> lowered(text)[i] as u32 == text[i] as u32 + 32,
        !(65 <= text[i] as u32 <= 90) ==> lowered(text)[i] == text[i],
{
}

/// Texts with a separator between them: one text stands alone, and each further one comes behind a
/// separator.
pub proof fn law_separated(parts: Seq<Seq<char>>, separator: Seq<char>, text: Seq<char>)
    ensures
        separated(Seq::empty(), separator) == Seq::<char>::empty(),
        separated(seq![text], separator) == text,
        parts.len() > 0 ==> separated(parts.push(text), separator) == separated(parts, separator)
            + separator + text,
{
    assert(parts.push(text).drop_last() == parts);
}

/// A number is written with its last digit behind the number without it, and a single digit by the
/// character for it.
pub proof fn law_decimal_digits(n: nat, digit: nat)
    requires
        digit < 10,
    ensures
        decimal_text(digit).len() == 1,
        decimal_text(digit)[0] as u32 == 48 + digit,
        n > 0 ==> decimal_text(10 * n + digit) == decimal_text(n) + decimal_text(digit),
{
    if n > 0 {
        assert((10 * n + digit) / 10 == n);
        assert((10 * n + digit) % 10 == digit);
        assert(decimal_text(n) + decimal_text(digit) =~= decimal_text(n).push(digit_char(digit)));
    }
}

proof fn lemma_number_of_digits(digits: Seq<char>, last: char)
    requires
        digits.len() > 0,
        digits[0] != '+',
    ensures
        ({
            let digit = last as u32 - 48;
            parsed_number(digits.push(last)) == (match parsed_number(digits) {
                Some(n) => if 0 <= digit <= 9 && 10 * n + digit <= u64::MAX {
                    Some((10 * n + digit) as u64)
                } else {
                    None
                },
                None => None,
            })
        }),
{
    let more = digits.push(last);
    assert(more.drop_last() == digits);
    assert(more[more.len() - 1] == last);
    assert(behind_sign(more) == more);
    assert(behind_sign(digits) == digits);
    let all = forall|i: int| 0 <= i < digits.len() ==> is_digit(#[trigger] digits[i]);
    let all_more = forall|i: int| 0 <= i < more.len() ==> is_digit(#[trigger] more[i]);
    if all_more {
        assert forall|i: int| 0 <= i < digits.len() implies is_digit(#[trigger] digits[i]) by {
            assert(is_digit(more[i]));
        }
        assert(is_digit(more[more.len() - 1]));
    }
    if all && is_digit(last) {
        assert forall|i: int| 0 <= i < more.len() implies is_digit(#[trigger] more[i]) by {
            if i < digits.len() {
                assert(is_digit(digits[i]));
            }
        }
    }
}

/// A text stands for a number where it is made of digits: one digit for its value, and a further
/// digit behind a number for ten times the number and its value, as long as that fits into 64 bits.
/// One plus sign may stand before the first digit. Anything else stands for no number.
pub proof fn law_parsed_number(text: Seq<char>, last: char)
    ensures
        parsed_number(Seq::empty()) is None,
        parsed_number(seq![last]) == (if 48 <= last as u32 <= 57 {
            Some((last as u32 - 48) as u64)
        } else {
            None
        }),
        text.len() > 0 && text[0] != '+' ==> ({
            let digit = last as u32 - 48;
            parsed_number(text.push(last)) == (match parsed_number(text) {
                Some(n) => if 0 <= digit <= 9 && 10 * n + digit <= u64::MAX {
                    Some((10 * n + digit) as u64)
                } else {
                    None
                },
                None => None,
            })
        }),
        text.len() > 0 && text[0] != '+' ==> parsed_number(seq!['+'] + text) == parsed_number(text),
        parsed_number(seq!['+']) is None,
        parsed_number(seq!['+', '+'] + text) is None,
{
    let one = seq![last];
    assert(one.drop_last() =~= Seq::<char>::empty());
    assert(digits_value(one.drop_last()) == 0);
    if last != '+' {
        assert(behind_sign(one) == one);
        if is_digit(last) {
            assert(forall|i: int| 0 <= i < one.len() ==> is_digit(#[trigger] one[i]));
        } else {
            assert(!is_digit(one[0]));
        }
    } else {
        assert(one.skip(1) =~= Seq::<char>::empty());
    }
    assert(seq!['+'].skip(1) =~= Seq::<char>::empty());
    if text.len() > 0 && text[0] != '+' {
        lemma_number_of_digits(text, last);
        assert((seq!['+'] + text).skip(1) =~= text);
        assert(behind_sign(text) == text);
    }
    let twice = seq!['+', '+'] + text;
    assert(!is_digit(twice.skip(1)[0]));
}

/// The bytes of a character in UTF-8, by its code.
pub proof fn law_char_width(c: char)
    ensures
        c as u32 <= 0x7F ==> char_width(c) == 1,
        0x80 <= c as u32 <= 0x7FF ==> char_width(c) == 2,
        0x800 <= c as u32 <= 0xFFFF ==> char_width(c) == 3,
        0x10000 <= c as u32 ==> char_width(c) == 4,
{
}

} // verus!
