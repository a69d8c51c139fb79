//! Query parameters and upstream URLs.
use crate::error::{Failure, ProxyError};
use crate::text::{
    char_width, chars_of, joined, law_trimmed_end, parse_number, parsed_number, same_text, trim_end,
    trimmed_end, width_of,
};
use vstd::prelude::*;

verus! {

// ---------------------------------------------------------------------------------------------
// Query parameters

/// Query parameters, in order.
pub type Pairs = Seq<(Seq<char>, Seq<char>)>;

/// The texts of a list of parameters.
pub open spec fn pair_texts(pairs: Seq<(String, String)>) -> Pairs {
    pairs.map_values(|p: (String, String)| (p.0@, p.1@))
}

/// The parameters whose key is not `key`, in order.
pub open spec fn without_key(pairs: Pairs, key: Seq<char>) -> Pairs
    decreases pairs.len(),
{
    if pairs.len() == 0 {
        Seq::empty()
    } else if pairs.last().0 == key {
        without_key(pairs.drop_last(), key)
    } else {
        without_key(pairs.drop_last(), key).push(pairs.last())
    }
}

/// The parameters with `value` under `key` alone, behind all others.
pub open spec fn with_query(pairs: Pairs, key: Seq<char>, value: Seq<char>) -> Pairs {
    without_key(pairs, key).push((key, value))
}

/// The value of the first parameter with a key.
pub open spec fn first_value(pairs: Pairs, key: Seq<char>) -> Option<Seq<char>>
    decreases pairs.len(),
{
    if pairs.len() == 0 {
        None
    } else {
        match first_value(pairs.drop_last(), key) {
            Some(value) => Some(value),
            None => if pairs.last().0 == key {
                Some(pairs.last().1)
            } else {
                None
            },
        }
    }
}

/// The number under a key; `start` where there is none.
pub open spec fn number_under(pairs: Pairs, key: Seq<char>, start: u64) -> u64 {
    match first_value(pairs, key) {
        Some(value) => match parsed_number(value) {
            Some(n) => n,
            None => start,
        },
        None => start,
    }
}

/// Sets a query parameter: every parameter with that key is dropped, and the new one is appended.
pub fn set_query(pairs: &mut Vec<(String, String)>, key: &str, value: &str)
    ensures
        pair_texts(final(pairs)@) == with_query(pair_texts(old(pairs)@), key@, value@),
{
    let ghost all = pair_texts(pairs@);
    let mut kept: Vec<(String, String)> = Vec::new();
    let mut i: usize = 0;
    while i < pairs.len()
        invariant
            i <= pairs@.len(),
            all == pair_texts(pairs@),
            pair_texts(kept@) == without_key(all.take(i as int), key@),
        decreases pairs@.len() - i,
    {
        assert(all.take(i + 1).drop_last() == all.take(i as int));
        if !same_text(pairs[i].0.as_str(), key) {
            let ghost earlier = kept@;
            kept.push((pairs[i].0.clone(), pairs[i].1.clone()));
            assert(pair_texts(kept@) =~= pair_texts(earlier).push(all[i as int]));
        }
        i += 1;
    }
    assert(all.take(all.len() as int) == all);
    let ghost earlier = kept@;
    kept.push((key.to_owned(), value.to_owned()));
    assert(pair_texts(kept@) =~= pair_texts(earlier).push((key@, value@)));
    *pairs = kept;
}

proof fn lemma_first_value_is_first(pairs: Pairs, key: Seq<char>, i: int)
    requires
        0 <= i < pairs.len(),
        first_value(pairs.take(i), key) is None,
        pairs[i].0 == key,
    ensures
        first_value(pairs, key) == Some(pairs[i].1),
    decreases pairs.len(),
{
    if i == pairs.len() - 1 {
        assert(pairs.take(i) == pairs.drop_last());
    } else {
        assert(pairs.drop_last().take(i) == pairs.take(i));
        lemma_first_value_is_first(pairs.drop_last(), key, i);
    }
}

/// Reads the number under a key.
pub fn read_number(pairs: &Vec<(String, String)>, key: &str, start: u64) -> (r: u64)
    ensures
        r == number_under(pair_texts(pairs@), key@, start),
{
    let ghost all = pair_texts(pairs@);
    let mut i: usize = 0;
    while i < pairs.len()
        invariant
            i <= pairs@.len(),
            all == pair_texts(pairs@),
            first_value(all.take(i as int), key@) is None,
        decreases pairs@.len() - i,
    {
        if same_text(pairs[i].0.as_str(), key) {
            proof {
                lemma_first_value_is_first(all, key@, i as int);
            }
            return match parse_number(pairs[i].1.as_str()) {
                Some(n) => n,
                None => start,
            };
        }
        assert(all.take(i + 1).drop_last() == all.take(i as int));
        i += 1;
    }
    assert(all.take(all.len() as int) == all);
    start
}

proof fn lemma_without_key(pairs: Pairs, key: Seq<char>, other: Seq<char>)
    ensures
        first_value(without_key(pairs, key), key) is None,
        other != key ==> first_value(without_key(pairs, key), other) == first_value(pairs, other),
        without_key(without_key(pairs, key), key) == without_key(pairs, key),
    decreases pairs.len(),
{
    if pairs.len() > 0 {
        let rest = pairs.drop_last();
        lemma_without_key(rest, key, other);
        assert(without_key(rest, key).push(pairs.last()).drop_last() == without_key(rest, key));
    }
}

/// Dropping two keys gives the same in either order.
pub proof fn lemma_without_keys(pairs: Pairs, a: Seq<char>, b: Seq<char>)
    ensures
        without_key(without_key(pairs, a), b) == without_key(without_key(pairs, b), a),
    decreases pairs.len(),
{
    if pairs.len() > 0 {
        let rest = pairs.drop_last();
        lemma_without_keys(rest, a, b);
        assert(without_key(rest, a).push(pairs.last()).drop_last() == without_key(rest, a));
        assert(without_key(rest, b).push(pairs.last()).drop_last() == without_key(rest, b));
    }
}

/// Dropping one key and setting another gives the same in either order.
pub proof fn lemma_without_other_key(
    pairs: Pairs,
    key: Seq<char>,
    other: Seq<char>,
    value: Seq<char>,
)
    requires
        key != other,
    ensures
        without_key(with_query(pairs, other, value), key) == with_query(
            without_key(pairs, key),
            other,
            value,
        ),
{
    lemma_without_keys(pairs, key, other);
    assert(with_query(pairs, other, value).drop_last() == without_key(pairs, other));
}

/// Setting a parameter gives it the new value, and leaves every other parameter as it was.
pub proof fn law_set_query(pairs: Pairs, key: Seq<char>, value: Seq<char>, other: Seq<char>)
    ensures
        first_value(with_query(pairs, key, value), key) == Some(value),
        other != key ==> first_value(with_query(pairs, key, value), other) == first_value(
            pairs,
            other,
        ),
        without_key(with_query(pairs, key, value), key) == without_key(pairs, key),
{
    lemma_without_key(pairs, key, other);
    assert(with_query(pairs, key, value).drop_last() == without_key(pairs, key));
}

/// Setting a parameter again replaces the earlier setting.
pub proof fn law_set_query_again(
    pairs: Pairs,
    key: Seq<char>,
    first: Seq<char>,
    second: Seq<char>,
)
    ensures
        with_query(with_query(pairs, key, first), key, second) == with_query(pairs, key, second),
{
    law_set_query(pairs, key, first, key);
}

/// Setting a parameter drops those with its key, keeps all others in order, and puts the new one
/// behind them.
pub proof fn law_set_query_keeps_others(pairs: Pairs, key: Seq<char>, value: Seq<char>)
    ensures
        with_query(pairs, key, value) == pairs.filter(
            |pair: (Seq<char>, Seq<char>)| pair.0 != key,
        ).push((key, value)),
{
    lemma_without_key_filters(pairs, key);
}

pub proof fn lemma_without_key_filters(pairs: Pairs, key: Seq<char>)
    ensures
        without_key(pairs, key) == pairs.filter(|pair: (Seq<char>, Seq<char>)| pair.0 != key),
    decreases pairs.len(),
{
    reveal(Seq::filter);
    if pairs.len() > 0 {
        lemma_without_key_filters(pairs.drop_last(), key);
    }
}

/// The parameter that is read is the first one with its key.
pub proof fn law_first_value(pairs: Pairs, key: Seq<char>, i: int)
    requires
        0 <= i <= pairs.len(),
        forall|j: int| 0 <= j < i ==> (#[trigger] pairs[j]).0 != key,
        i < pairs.len() ==> pairs[i].0 == key,
    ensures
        first_value(pairs, key) == (if i < pairs.len() {
            Some(pairs[i].1)
        } else {
            None
        }),
        forall|start: u64| #[trigger]
            number_under(pairs, key, start) == (if i < pairs.len() {
                match parsed_number(pairs[i].1) {
                    Some(n) => n,
                    None => start,
                }
            } else {
                start
            }),
{
    lemma_no_value(pairs.take(i), key);
    if i < pairs.len() {
        lemma_first_value_is_first(pairs, key, i);
    } else {
        assert(pairs.take(i) == pairs);
    }
}

proof fn lemma_no_value(pairs: Pairs, key: Seq<char>)
    requires
        forall|j: int| 0 <= j < pairs.len() ==> (#[trigger] pairs[j]).0 != key,
    ensures
        first_value(pairs, key) is None,
    decreases pairs.len(),
{
    if pairs.len() > 0 {
        assert forall|j: int| 0 <= j < pairs.drop_last().len() implies (
        #[trigger] pairs.drop_last()[j]).0 != key by {
            assert(pairs[j].0 != key);
        }
        lemma_no_value(pairs.drop_last(), key);
        assert(pairs[pairs.len() - 1].0 != key);
    }
}

// ---------------------------------------------------------------------------------------------
// `url`

/// The parameters that `url::form_urlencoded::parse` reads from a query string.
pub uninterp spec fn form_pairs(query: Seq<char>) -> Pairs;

/// The query string that `url::form_urlencoded::Serializer` writes for parameters.
pub uninterp spec fn form_text(pairs: Pairs) -> Seq<char>;

/// The path of the URL that a text holds, by `url::Url::path`, or the error of
/// `url::Url::parse`.
pub uninterp spec fn url_path(text: Seq<char>) -> Result<Seq<char>, Seq<char>>;

/// The URL that a text holds with another path and query, by `url::Url::set_path` and
/// `url::Url::set_query`, or the error of `url::Url::parse`.
pub uninterp spec fn url_composed(
    text: Seq<char>,
    path: Seq<char>,
    query: Seq<char>,
) -> Result<Seq<char>, Seq<char>>;

/// The URL that a link stands for on the page at a URL, by `url::Url::join`, or the error of
/// `url::Url`.
pub uninterp spec fn url_joined(text: Seq<char>, link: Seq<char>) -> Result<Seq<char>, Seq<char>>;

/// The scheme, host and port of the http or https URL that a text holds, as `url::Origin` writes
/// them.
pub uninterp spec fn url_origin(text: Seq<char>) -> Option<Seq<char>>;

/// The URL that a text holds, as `url::Url` writes it, or the error of `url::Url::parse`.
pub uninterp spec fn url_text(text: Seq<char>) -> Result<Seq<char>, Seq<char>>;

/// The scheme of the URL that a text holds; nothing where the text is no URL.
pub uninterp spec fn url_scheme(text: Seq<char>) -> Option<Seq<char>>;

/// Whether a text holds an http or https URL.
pub open spec fn is_web_url(text: Seq<char>) -> bool {
    url_scheme(text) == Some("http"@) || url_scheme(text) == Some("https"@)
}

/// The host of the URL that a text holds; nothing where the text is no URL or has none.
pub uninterp spec fn url_host(text: Seq<char>) -> Option<Seq<char>>;

/// The texts of a result.
pub open spec fn result_texts(r: Result<String, String>) -> Result<Seq<char>, Seq<char>> {
    match r {
        Ok(text) => Ok(text@),
        Err(message) => Err(message@),
    }
}

/// The text of an optional string.
pub open spec fn option_text(r: Option<String>) -> Option<Seq<char>> {
    match r {
        Some(text) => Some(text@),
        None => None,
    }
}

/// `url::form_urlencoded::parse`: a function of the query string.
#[verifier::external_body]
pub(crate) fn parse_form(query: &str) -> (r: Vec<(String, String)>)
    ensures
        pair_texts(r@) == form_pairs(query@),
{
    url::form_urlencoded::parse(query.as_bytes()).into_owned().collect()
}

/// `url::form_urlencoded::Serializer::extend_pairs` from an empty string: a function of the
/// parameters, from which `url::form_urlencoded::parse` reads them back. It holds only characters
/// that a form is written with.
#[verifier::external_body]
fn write_form(pairs: &Vec<(String, String)>) -> (r: String)
    ensures
        r@ == form_text(pair_texts(pairs@)),
        form_pairs(r@) == pair_texts(pairs@),
        is_form_text(r@),
{
    url::form_urlencoded::Serializer::new(String::new()).extend_pairs(pairs).finish()
}

/// `url::Url::path` of the URL that a text holds.
#[verifier::external_body]
pub(crate) fn path_of_url(text: &str) -> (r: Result<String, String>)
    ensures
        result_texts(r) == url_path(text@),
{
    url::Url::parse(text).map(|url| url.path().to_string()).map_err(|error| error.to_string())
}

/// `url::Url::to_string` of the URL that a text holds.
#[verifier::external_body]
fn text_of_url(text: &str) -> (r: Result<String, String>)
    ensures
        result_texts(r) == url_text(text@),
{
    url::Url::parse(text).map(|url| url.to_string()).map_err(|error| error.to_string())
}

/// Whether a text holds only characters that a form is written with: letters, digits, what stands
/// for itself, escapes, and what parts the names from the values.
pub open spec fn is_form_text(text: Seq<char>) -> bool {
    forall|i: int| 0 <= i < text.len() ==> is_form_char(#[trigger] text[i])
}

/// Whether a form is written with a character.
pub open spec fn is_form_char(c: char) -> bool {
    ||| 'a' <= c <= 'z'
    ||| 'A' <= c <= 'Z'
    ||| '0' <= c <= '9'
    ||| c == '*' || c == '-' || c == '.' || c == '_'
    ||| c == '%' || c == '+' || c == '&' || c == '='
}

/// Whether a character is percent-encoded in the path of a URL.
pub open spec fn is_encoded(c: char) -> bool {
    ||| c <= ' ' || '~' < c
    ||| c == '"' || c == '<' || c == '>' || c == '`'
    ||| c == '#' || c == '?' || c == '{' || c == '}'
}

/// The number of bytes of a path with every character that is percent-encoded written so: three
/// for each of its bytes.
pub open spec fn encoded_length(path: Seq<char>) -> nat
    decreases path.len(),
{
    if path.len() == 0 {
        0
    } else if is_encoded(path.last()) {
        encoded_length(path.drop_last()) + 3 * char_width(path.last())
    } else {
        encoded_length(path.drop_last()) + 1
    }
}

/// Whether a URL of so many bytes is sure to stay within four gigabytes with another path in place
/// of the one it has, and a query in addition. The slashes and the question mark that are added make
/// four bytes at most.
pub open spec fn url_fits(url: nat, old_path: nat, path: nat, query: nat) -> bool {
    url <= u32::MAX && url + path + query + 4 <= u32::MAX + old_path
}

/// `url::Url::set_path` and `url::Url::set_query` on the URL that a text holds: a function of the
/// three texts. Both calls panic on a URL of more than four gigabytes. What `url::Url` writes is
/// ASCII text, which has as many bytes as characters, and the query is taken over as it is.
#[verifier::external_body]
fn compose_url(text: &str, path: &str, query: &str) -> (r: Result<String, String>)
    requires
        is_form_text(query@),
        url_text(text@) matches Ok(url) ==> url_path(text@) matches Ok(old_path) && url_fits(
            url.len(),
            old_path.len(),
            encoded_length(path@),
            query@.len(),
        ),
    ensures
        result_texts(r) == url_composed(text@, path@, query@),
{
    let mut url = url::Url::parse(text).map_err(|error| error.to_string())?;
    url.set_path(path);
    url.set_query(Some(query));
    Ok(url.to_string())
}

/// `url::Url::join` on the URL that a text holds.
#[verifier::external_body]
pub(crate) fn join_url(text: &str, link: &str) -> (r: Result<String, String>)
    ensures
        result_texts(r) == url_joined(text@, link@),
{
    url::Url::parse(text).and_then(|url| url.join(link)).map(|url| url.to_string()).map_err(
        |error| error.to_string(),
    )
}

/// `url::Url::scheme` of the URL that a text holds.
#[verifier::external_body]
pub(crate) fn scheme_of_url(text: &str) -> (r: Option<String>)
    ensures
        option_text(r) == url_scheme(text@),
{
    url::Url::parse(text).ok().map(|url| url.scheme().to_string())
}

/// `url::Url::host_str` of the URL that a text holds.
#[verifier::external_body]
pub(crate) fn host_of_url(text: &str) -> (r: Option<String>)
    ensures
        option_text(r) == url_host(text@),
{
    url::Url::parse(text).ok()?.host_str().map(|host| host.to_string())
}

/// `url::Url::origin` of the http or https URL that a text holds, as text. Of any other URL the call
/// may not return: it descends into the path of a blob URL without limit.
#[verifier::external_body]
fn origin_of_url(text: &str) -> (r: Option<String>)
    requires
        is_web_url(text@),
    ensures
        option_text(r) == url_origin(text@),
{
    let origin = url::Url::parse(text).ok()?.origin();
    match &origin {
        url::Origin::Opaque(_) => None,
        url::Origin::Tuple(..) => Some(origin.ascii_serialization()),
    }
}

// ---------------------------------------------------------------------------------------------
// Upstream URLs

/// The path of an upstream request: the inbound path behind the path of the base URL.
pub open spec fn appended_path(base_path: Seq<char>, path: Seq<char>) -> Seq<char> {
    trimmed_end(base_path, '/') + path
}

/// The URL of an upstream request. One that does not read back as a URL of the same origin, as where
/// the host is too long in its ASCII form, is refused.
pub open spec fn upstream_url(base: Seq<char>, path: Seq<char>, pairs: Pairs) -> Result<
    Seq<char>,
    Failure,
> {
    match (url_text(base), url_path(base)) {
        (Err(message), _) => Err(Failure::Config(message)),
        (_, Err(message)) => Err(Failure::Config(message)),
        (Ok(url), Ok(base_path)) => {
            let full = appended_path(base_path, path);
            let query = form_text(pairs);
            if !url_fits(url.len(), base_path.len(), encoded_length(full), query.len()) {
                Err(Failure::Config("upstream URL is too long"@))
            } else {
                match url_composed(base, full, query) {
                    Err(message) => Err(Failure::Config(message)),
                    Ok(url) => if is_web_url(base) && !same_origin(base, url) {
                        Err(Failure::Config("upstream URL cannot be read back"@))
                    } else {
                        Ok(url)
                    },
                }
            }
        },
    }
}

/// The failure of a result.
pub open spec fn url_result(r: Result<String, ProxyError>) -> Result<Seq<char>, Failure> {
    match r {
        Ok(url) => Ok(url@),
        Err(error) => Err(error@),
    }
}

/// Appends the inbound path to the path of the base URL.
pub fn append_path(base_path: &str, path: &str) -> (r: String)
    ensures
        r@ == appended_path(base_path@, path@),
{
    joined(trim_end(base_path, '/').as_str(), path)
}

/// Counts the bytes of a path when it is percent-encoded.
pub fn count_encoded(path: &str) -> (r: u128)
    ensures
        r == encoded_length(path@),
        r <= 12 * usize::MAX,
{
    let chars = chars_of(path);
    let mut total: u128 = 0;
    let mut i: usize = 0;
    while i < chars.len()
        invariant
            i <= chars@.len(),
            chars@ == path@,
            total == encoded_length(path@.take(i as int)),
            total <= 12 * i,
        decreases chars@.len() - i,
    {
        assert(path@.take(i + 1).drop_last() == path@.take(i as int));
        let c: char = chars[i];
        let kept: bool = ' ' < c && c <= '~' && c != '"' && c != '<' && c != '>' && c != '`' && c
            != '#' && c != '?' && c != '{' && c != '}';
        total += if kept {
            1
        } else {
            3 * (width_of(c) as u128)
        };
        i += 1;
    }
    assert(path@.take(path@.len() as int) == path@);
    total
}

/// Whether a URL with another path and a query is sure to stay within four gigabytes.
pub fn is_short(url: &str, old_path: &str, path: &str, query: &str) -> (r: bool)
    ensures
        r == url_fits(url@.len(), old_path@.len(), encoded_length(path@), query@.len()),
{
    let url_length: u128 = chars_of(url).len() as u128;
    let old_length: u128 = chars_of(old_path).len() as u128;
    let path_length: u128 = count_encoded(path);
    let query_length: u128 = chars_of(query).len() as u128;
    url_length <= u32::MAX as u128 && url_length + path_length + query_length + 4 <= u32::MAX as u128
        + old_length
}

/// Builds the URL of an upstream request: the base URL, the inbound path, and the parameters,
/// which are read back from the query that is written for them.
pub fn build_url(base: &str, path: &str, pairs: &Vec<(String, String)>) -> (r: Result<
    String,
    ProxyError,
>)
    ensures
        url_result(r) == upstream_url(base@, path@, pair_texts(pairs@)),
        r matches Ok(url) ==> is_web_url(base@) ==> same_origin(base@, url@),
        r is Ok ==> form_pairs(form_text(pair_texts(pairs@))) == pair_texts(pairs@),
{
    let base_text = match text_of_url(base) {
        Ok(base_text) => base_text,
        Err(message) => {
            return Err(ProxyError::Config(message));
        },
    };
    let base_path = match path_of_url(base) {
        Ok(base_path) => base_path,
        Err(message) => {
            return Err(ProxyError::Config(message));
        },
    };
    let full = append_path(base_path.as_str(), path);
    let query = write_form(pairs);
    if !is_short(base_text.as_str(), base_path.as_str(), full.as_str(), query.as_str()) {
        return Err(ProxyError::Config("upstream URL is too long".to_owned()));
    }
    match compose_url(base, full.as_str(), query.as_str()) {
        Ok(url) => if is_web_scheme(scheme_of_url(base)) && !is_same_origin(base, url.as_str()) {
            Err(ProxyError::Config("upstream URL cannot be read back".to_owned()))
        } else {
            Ok(url)
        },
        Err(message) => Err(ProxyError::Config(message)),
    }
}

/// Whether two http or https URLs have the same scheme, host and port.
pub open spec fn same_origin(a: Seq<char>, b: Seq<char>) -> bool {
    is_web_url(a) && is_web_url(b) && url_origin(a) is Some && url_origin(a) == url_origin(b)
}

/// Whether a scheme is http or https.
pub fn is_web_scheme(scheme: Option<String>) -> (r: bool)
    ensures
        r == (option_text(scheme) == Some("http"@) || option_text(scheme) == Some("https"@)),
{
    match scheme {
        Some(scheme) => same_text(scheme.as_str(), "http") || same_text(scheme.as_str(), "https"),
        None => false,
    }
}

/// Whether two http or https URLs have the same scheme, host and port.
pub fn is_same_origin(a: &str, b: &str) -> (r: bool)
    ensures
        r == same_origin(a@, b@),
{
    is_web_scheme(scheme_of_url(a)) && is_web_scheme(scheme_of_url(b)) && origins_match(
        origin_of_url(a),
        origin_of_url(b),
    )
}

/// Whether two origins are known and the same.
pub fn origins_match(a: Option<String>, b: Option<String>) -> (r: bool)
    ensures
        r == (option_text(a) is Some && option_text(a) == option_text(b)),
{
    match (a, b) {
        (Some(x), Some(y)) => same_text(x.as_str(), y.as_str()),
        _ => false,
    }
}

/// The URL of the next page, where its link stays within the origin of the upstream.
pub open spec fn next_page_url(base: Seq<char>, current: Seq<char>, link: Seq<char>) -> Option<
    Seq<char>,
> {
    match url_joined(current, link) {
        Ok(url) => if same_origin(base, url) {
            Some(url)
        } else {
            None
        },
        Err(_) => None,
    }
}

/// Resolves the link of the next page against the URL of the current one. A link that leaves the
/// origin of the upstream is refused.
pub fn follow_link(base: &str, current: &str, link: &str) -> (r: Option<String>)
    ensures
        option_text(r) == next_page_url(base@, current@, link@),
{
    match join_url(current, link) {
        Ok(url) => if is_same_origin(base, url.as_str()) {
            Some(url)
        } else {
            None
        },
        Err(_) => None,
    }
}

// ---------------------------------------------------------------------------------------------
// What holds of upstream URLs

proof fn lemma_encoded_length(path: Seq<char>)
    ensures
        encoded_length(path) <= 12 * path.len(),
    decreases path.len(),
{
    if path.len() > 0 {
        lemma_encoded_length(path.drop_last());
    }
}

/// An upstream request goes to the base URL with the path of the client behind its own path, with
/// one slash between them however many the base URL ends with, and with the parameters as its query.
/// Nothing but the URL crate, four gigabytes, and the origin of the base URL stand in its way.
pub proof fn law_upstream_url(
    base: Seq<char>,
    written: Seq<char>,
    base_path: Seq<char>,
    slashes: nat,
    path: Seq<char>,
    pairs: Pairs,
)
    requires
        url_text(base) == Ok::<Seq<char>, Seq<char>>(written),
        url_path(base) == Ok::<Seq<char>, Seq<char>>(base_path + Seq::new(slashes, |i: int| '/')),
        base_path.len() == 0 || base_path.last() != '/',
        written.len() + 12 * (base_path.len() + path.len()) + form_text(pairs).len() + 4
            <= u32::MAX,
    ensures
        match url_composed(base, base_path + path, form_text(pairs)) {
            Ok(url) => {
                let web = url_scheme(base) == Some("http"@) || url_scheme(base) == Some("https"@);
                let stays = (url_scheme(url) == Some("http"@) || url_scheme(url) == Some("https"@))
                    && url_origin(url) is Some && url_origin(url) == url_origin(base);
                upstream_url(base, path, pairs) == (if web && !stays {
                    Err::<Seq<char>, Failure>(
                        Failure::Config("upstream URL cannot be read back"@),
                    )
                } else {
                    Ok(url)
                })
            },
            Err(message) => upstream_url(base, path, pairs) == Err::<Seq<char>, Failure>(
                Failure::Config(message),
            ),
        },
{
    law_trimmed_end(base_path, slashes, '/');
    lemma_encoded_length(base_path + path);
}

/// A base URL that is none is an error of the configuration.
pub proof fn law_upstream_url_needs_a_base(
    base: Seq<char>,
    message: Seq<char>,
    path: Seq<char>,
    pairs: Pairs,
)
    requires
        url_text(base) == Err::<Seq<char>, Seq<char>>(message),
    ensures
        upstream_url(base, path, pairs) == Err::<Seq<char>, Failure>(Failure::Config(message)),
{
}

/// A link is followed exactly where it stands for an http or https URL with the scheme, host and port
/// of the base URL, and then to that URL.
pub proof fn law_followed(base: Seq<char>, current: Seq<char>, link: Seq<char>, url: Seq<char>)
    ensures
        next_page_url(base, current, link) == Some(url) <==> {
            &&& url_joined(current, link) == Ok::<Seq<char>, Seq<char>>(url)
            &&& url_scheme(base) == Some("http"@) || url_scheme(base) == Some("https"@)
            &&& url_scheme(url) == Some("http"@) || url_scheme(url) == Some("https"@)
            &&& url_origin(base) is Some
            &&& url_origin(base) == url_origin(url)
        },
{
}

/// The length that a path is counted with: a byte for each visible ASCII character that a URL holds
/// as it is, and three for each byte of any other character.
pub proof fn law_encoded_length(path: Seq<char>, c: char)
    ensures
        encoded_length(Seq::empty()) == 0,
        ({
            let code = c as u32;
            let kept = 33 <= code <= 126 && c != '"' && c != '<' && c != '>' && c != '`' && c != '#'
                && c != '?' && c != '{' && c != '}';
            encoded_length(path.push(c)) - encoded_length(path) == (if kept {
                1int
            } else if code < 0x80 {
                3
            } else if code < 0x800 {
                6
            } else if code < 0x10000 {
                9
            } else {
                12
            })
        }),
{
    assert(path.push(c).drop_last() == path);
}

/// Two URLs have the same origin where both are http or https URLs and their schemes, hosts and ports
/// are known and the same. A URL is short enough where it fits into 32 bits before and behind the
/// change of its path and query, with four bytes to spare.
pub proof fn law_same_origin(a: Seq<char>, b: Seq<char>, url: nat, old: nat, path: nat, query: nat)
    ensures
        same_origin(a, b) <==> {
            &&& url_scheme(a) == Some("http"@) || url_scheme(a) == Some("https"@)
            &&& url_scheme(b) == Some("http"@) || url_scheme(b) == Some("https"@)
            &&& url_origin(a) is Some
            &&& url_origin(a) == url_origin(b)
        },
        url_fits(url, old, path, query) <==> url <= 0xFFFF_FFFF && url - old + path + query + 4
            <= 0xFFFF_FFFF,
{
}

} // verus!
