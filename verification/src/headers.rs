//! Request headers: the header map of the HTTP client, the common headers of
//! every page request, and the assembly of a request's headers.

use vstd::prelude::*;
use reqwest::header::{HeaderMap, HeaderValue, InvalidHeaderValue};
use crate::text::{is_printable_ascii, lemma_printable_ascii_bytes, lemma_utf8_concat, utf8_of};

verus! {

#[verifier::external_type_specification]
#[verifier::external_body]
#[verifier::reject_recursive_types(T)]
pub struct ExHeaderMap<T>(HeaderMap<T>);

#[verifier::external_type_specification]
#[verifier::external_body]
pub struct ExHeaderValue(HeaderValue);

#[verifier::external_type_specification]
#[verifier::external_body]
pub struct ExInvalidHeaderValue(InvalidHeaderValue);

/// What a header map holds: for each header name, in lower case, the bytes of
/// its values in the order they were added.
pub uninterp spec fn header_entries(m: HeaderMap) -> Map<Seq<char>, Seq<Seq<u8>>>;

/// The characters allowed in a header name.
pub open spec fn is_token_char(c: char) -> bool {
    ('a' <= c && c <= 'z') || ('A' <= c && c <= 'Z') || ('0' <= c && c <= '9') || c == '!'
        || c == '#' || c == '$' || c == '%' || c == '&' || c == '\'' || c == '*' || c == '+'
        || c == '-' || c == '.' || c == '^' || c == '_' || c == '`' || c == '|' || c == '~'
}

/// A header name that the map accepts from a static string: one to 64 token
/// characters.
pub open spec fn is_header_name(name: Seq<char>) -> bool {
    &&& 1 <= name.len() <= 64
    &&& forall|i: int| 0 <= i < name.len() ==> is_token_char(#[trigger] name[i])
}

/// A character in lower case (only `A` to `Z` change).
pub open spec fn lower_char(c: char) -> char {
    if 'A' <= c && c <= 'Z' {
        ((c as u32) + 32) as char
    } else {
        c
    }
}

/// The key under which the map files a header name: the name in lower case.
pub open spec fn header_key(name: Seq<char>) -> Seq<char> {
    name.map_values(|c: char| lower_char(c))
}

/// A byte allowed in a header value: a tab, or any byte from 32 up but 127.
pub open spec fn is_header_value_byte(b: u8) -> bool {
    (b >= 32 && b != 127) || b == 9
}

/// Text whose UTF-8 bytes all may stand in a header value.
pub open spec fn is_header_value(v: Seq<char>) -> bool {
    forall|i: int| 0 <= i < utf8_of(v).len() ==> is_header_value_byte(#[trigger] utf8_of(v)[i])
}

/// A fresh `HeaderMap::new()` holds nothing.
#[verifier::external_body]
pub(crate) fn new_header_map() -> (m: HeaderMap)
    ensures
        header_entries(m).dom().finite(),
        header_entries(m).dom().len() == 0,
{
    HeaderMap::new()
}

/// How many distinct names a header map takes in for sure. The map refuses
/// (and `insert` panics) when its table would grow past 2^15 slots; it grows
/// when full at three quarters of its slots, and, after many hash collisions,
/// as soon as five times its names reach its slot count. Below 6554 names
/// neither growth can pass 2^15 slots.
pub open spec fn header_name_limit() -> nat {
    6554
}

/// Parses `value` as a `HeaderValue` (`str::parse`, which fails exactly when
/// a byte is not allowed) and, when it parses, `HeaderMap::insert`s it under
/// `name`, which replaces every value held under that name. The map panics on
/// an invalid static name and when its table cannot grow; both are left out.
#[verifier::external_body]
pub(crate) fn insert_header(headers: &mut HeaderMap, name: &'static str, value: &str) -> (r: Result<(), InvalidHeaderValue>)
    requires
        is_header_name(name@),
        header_entries(*old(headers)).dom().finite(),
        header_entries(*old(headers)).dom().len() < header_name_limit(),
    ensures
        r is Ok <==> is_header_value(value@),
        r is Ok ==> header_entries(*final(headers)) == header_entries(*old(headers)).insert(header_key(name@), seq![utf8_of(value@)]),
        r is Err ==> header_entries(*final(headers)) == header_entries(*old(headers)),
{
    let parsed = value.parse::<HeaderValue>()?;
    headers.insert(name, parsed);
    Ok(())
}

/// The map after adding `pairs` of name and value in order, each replacing
/// what an earlier pair of the same name left.
pub open spec fn with_headers(base: Map<Seq<char>, Seq<Seq<u8>>>, pairs: Seq<(Seq<char>, Seq<char>)>) -> Map<Seq<char>, Seq<Seq<u8>>>
    decreases pairs.len(),
{
    if pairs.len() == 0 {
        base
    } else {
        with_headers(base, pairs.drop_last()).insert(header_key(pairs.last().0), seq![utf8_of(pairs.last().1)])
    }
}

/// The headers a browser sends with every page request.
pub open spec fn common_headers() -> Seq<(Seq<char>, Seq<char>)> {
    seq![
        ("Connection"@, "keep-alive"@),
        ("DNT"@, "1"@),
        ("User-Agent"@, "Mozilla/5.0 (Macintosh; Intel Mac OS X 10_12_6) AppleWebKit/537.36 (KHTML, like Gecko) Chrome/90.0.4430.93 Safari/537.36"@),
        ("Upgrade-Insecure-Requests"@, "1"@),
        ("Accept"@, "text/html,application/xhtml+xml,application/xml;q=0.9,image/webp,image/apng,*/*;q=0.8,application/signed-exchange;v=b3;q=0.9"@),
        ("Accept-Language"@, "zh-CN,zh;q=0.9,en;q=0.8,en-GB;q=0.7,en-US;q=0.6"@),
        ("Cache-Control"@, "max-age=0"@),
    ]
}

/// The names and values of header pairs, as text.
pub open spec fn pairs_view(add_on: Seq<(&str, &str)>) -> Seq<(Seq<char>, Seq<char>)> {
    add_on.map_values(|p: (&str, &str)| (p.0@, p.1@))
}

/// Header pairs that the map accepts.
pub open spec fn valid_pairs(pairs: Seq<(Seq<char>, Seq<char>)>) -> bool {
    forall|i: int| 0 <= i < pairs.len() ==> is_header_name(#[trigger] pairs[i].0) && is_header_value(pairs[i].1)
}

/// The headers of a request: the common ones when `default` holds, then the
/// `add_on` pairs in order, a later pair replacing an earlier one of the same
/// name.
pub open spec fn request_headers(add_on: Seq<(Seq<char>, Seq<char>)>, default: bool) -> Map<Seq<char>, Seq<Seq<u8>>> {
    with_headers(
        if default { with_headers(Map::empty(), common_headers()) } else { Map::empty() },
        add_on,
    )
}

proof fn lemma_with_headers_size(base: Map<Seq<char>, Seq<Seq<u8>>>, pairs: Seq<(Seq<char>, Seq<char>)>)
    requires
        base.dom().finite(),
    ensures
        with_headers(base, pairs).dom().finite(),
        with_headers(base, pairs).dom().len() <= base.dom().len() + pairs.len(),
    decreases pairs.len(),
{
    if pairs.len() > 0 {
        lemma_with_headers_size(base, pairs.drop_last());
    }
}

/// A key that no pair names keeps what the base map held under it.
pub proof fn lemma_untouched_key(base: Map<Seq<char>, Seq<Seq<u8>>>, pairs: Seq<(Seq<char>, Seq<char>)>, key: Seq<char>)
    requires
        forall|j: int| 0 <= j < pairs.len() ==> header_key(#[trigger] pairs[j].0) != key,
    ensures
        with_headers(base, pairs).dom().contains(key) == base.dom().contains(key),
        base.dom().contains(key) ==> with_headers(base, pairs)[key] == base[key],
    decreases pairs.len(),
{
    if pairs.len() > 0 {
        assert(header_key(pairs[pairs.len() - 1].0) != key);
        lemma_untouched_key(base, pairs.drop_last(), key);
    }
}

/// The last pair of a name decides what the map holds under that name.
pub proof fn lemma_last_pair_wins(base: Map<Seq<char>, Seq<Seq<u8>>>, pairs: Seq<(Seq<char>, Seq<char>)>, i: int)
    requires
        0 <= i < pairs.len(),
        forall|j: int| i < j < pairs.len() ==> header_key(#[trigger] pairs[j].0) != header_key(pairs[i].0),
    ensures
        with_headers(base, pairs).dom().contains(header_key(pairs[i].0)),
        with_headers(base, pairs)[header_key(pairs[i].0)] == seq![utf8_of(pairs[i].1)],
    decreases pairs.len(),
{
    if i < pairs.len() - 1 {
        assert(header_key(pairs[pairs.len() - 1].0) != header_key(pairs[i].0));
        assert(pairs.drop_last()[i] == pairs[i]);
        lemma_last_pair_wins(base, pairs.drop_last(), i);
    }
}

/// Of the request headers, an added pair that no later pair renames is sent
/// with its own value, whether or not the common headers are sent.
pub proof fn law_added_header_sent(add_on: Seq<(Seq<char>, Seq<char>)>, default: bool, i: int)
    requires
        0 <= i < add_on.len(),
        forall|j: int| i < j < add_on.len() ==> header_key(#[trigger] add_on[j].0) != header_key(add_on[i].0),
    ensures
        request_headers(add_on, default).dom().contains(header_key(add_on[i].0)),
        request_headers(add_on, default)[header_key(add_on[i].0)] == seq![utf8_of(add_on[i].1)],
{
    let base: Map<Seq<char>, Seq<Seq<u8>>> = if default { with_headers(Map::empty(), common_headers()) } else { Map::empty() };
    lemma_last_pair_wins(base, add_on, i);
}

/// With the common headers on, a common header that no added pair renames is
/// sent with its common value; with them off, a name no pair gives is not sent.
pub proof fn law_common_header_kept(add_on: Seq<(Seq<char>, Seq<char>)>, default: bool, k: int)
    requires
        0 <= k < 7,
        forall|j: int| 0 <= j < add_on.len() ==> header_key(#[trigger] add_on[j].0) != header_key(common_headers()[k].0),
    ensures
        default ==> request_headers(add_on, default).dom().contains(header_key(common_headers()[k].0)),
        default ==> request_headers(add_on, default)[header_key(common_headers()[k].0)] == seq![utf8_of(common_headers()[k].1)],
        !default ==> !request_headers(add_on, default).dom().contains(header_key(common_headers()[k].0)),
{
    let c = common_headers();
    let key = header_key(c[k].0);
    let base: Map<Seq<char>, Seq<Seq<u8>>> = if default { with_headers(Map::empty(), c) } else { Map::empty() };
    lemma_untouched_key(base, add_on, key);
    if default {
        reveal_strlit("Connection");
        reveal_strlit("DNT");
        reveal_strlit("User-Agent");
        reveal_strlit("Upgrade-Insecure-Requests");
        reveal_strlit("Accept");
        reveal_strlit("Accept-Language");
        reveal_strlit("Cache-Control");
        assert forall|j: int| k < j < c.len() implies header_key(#[trigger] c[j].0) != header_key(c[k].0) by {
            assert(header_key(c[j].0).len() == c[j].0.len());
            assert(header_key(c[k].0).len() == c[k].0.len());
            assert(c[0].0.len() == 10 && c[1].0.len() == 3 && c[2].0.len() == 10 && c[3].0.len() == 25);
            assert(c[4].0.len() == 6 && c[5].0.len() == 15 && c[6].0.len() == 13);
            if k == 0 && j == 2 {
                assert(header_key(c[j].0)[0] == 'u');
                assert(header_key(c[k].0)[0] == 'c');
            }
        }
        lemma_last_pair_wins(Map::empty(), c, k);
    }
}

/// The names in the map after the first `i` pairs are among those after all.
proof fn lemma_with_headers_prefix(base: Map<Seq<char>, Seq<Seq<u8>>>, pairs: Seq<(Seq<char>, Seq<char>)>, i: int)
    requires
        0 <= i <= pairs.len(),
    ensures
        with_headers(base, pairs.take(i)).dom().subset_of(with_headers(base, pairs).dom()),
    decreases pairs.len(),
{
    if i < pairs.len() {
        assert(pairs.drop_last().take(i) =~= pairs.take(i));
        lemma_with_headers_prefix(base, pairs.drop_last(), i);
    } else {
        assert(pairs.take(i) =~= pairs);
    }
}

/// The request headers hold at most the common names and one name per pair.
pub proof fn lemma_request_headers_size(add_on: Seq<(Seq<char>, Seq<char>)>, default: bool)
    ensures
        request_headers(add_on, default).dom().finite(),
        request_headers(add_on, default).dom().len() <= 7 + add_on.len(),
{
    lemma_with_headers_size(Map::empty(), common_headers());
    let base: Map<Seq<char>, Seq<Seq<u8>>> = if default { with_headers(Map::empty(), common_headers()) } else { Map::empty() };
    lemma_with_headers_size(base, add_on);
}

/// Adds one pair that is known to be valid.
fn insert_valid(headers: &mut HeaderMap, name: &'static str, value: &str)
    requires
        is_header_name(name@),
        is_header_value(value@),
        header_entries(*old(headers)).dom().finite(),
        header_entries(*old(headers)).dom().len() < header_name_limit(),
    ensures
        header_entries(*final(headers)) == header_entries(*old(headers)).insert(header_key(name@), seq![utf8_of(value@)]),
{
    let r = insert_header(headers, name, value);
    assert(r is Ok);
}

/// Printable ASCII text may stand in a header value.
pub proof fn lemma_printable_value(s: Seq<char>)
    requires
        is_printable_ascii(s),
    ensures
        is_header_value(s),
{
    lemma_printable_ascii_bytes(s);
}

/// Joined text may stand in a header value exactly when both parts may.
pub proof fn lemma_header_value_concat(a: Seq<char>, b: Seq<char>)
    ensures
        is_header_value(a + b) == (is_header_value(a) && is_header_value(b)),
{
    lemma_utf8_concat(a, b);
    let (x, y) = (utf8_of(a), utf8_of(b));
    assert(utf8_of(a + b) == x + y);
    if is_header_value(a) && is_header_value(b) {
        assert forall|i: int| 0 <= i < (x + y).len() implies is_header_value_byte(#[trigger] (x + y)[i]) by {
            if i < x.len() {
                assert((x + y)[i] == x[i]);
            } else {
                assert((x + y)[i] == y[i - x.len()]);
            }
        }
    }
    if is_header_value(a + b) {
        assert forall|i: int| 0 <= i < x.len() implies is_header_value_byte(#[trigger] x[i]) by {
            assert((x + y)[i] == x[i]);
        }
        assert forall|i: int| 0 <= i < y.len() implies is_header_value_byte(#[trigger] y[i]) by {
            assert((x + y)[i + x.len()] == y[i]);
        }
    }
}

/// Whether `s` may stand in a header value, as `HeaderValue::from_str`
/// decides it.
pub fn header_value_ok(s: &str) -> (r: bool)
    ensures
        r == is_header_value(s@),
{
    let bytes = s.as_bytes();
    let mut i: usize = 0;
    while i < bytes.len()
        invariant
            bytes@ == utf8_of(s@),
            i <= bytes@.len(),
            forall|k: int| 0 <= k < i ==> is_header_value_byte(#[trigger] bytes@[k]),
        decreases bytes@.len() - i,
    {
        let b = bytes[i];
        if !((b >= 32 && b != 127) || b == 9) {
            return false;
        }
        i += 1;
    }
    true
}

/// Builds the headers of a request: the common headers first when `default`
/// holds, then each pair of `add_on` in order.
pub fn tr(add_on: &[(&'static str, &str)], default: bool) -> (res: HeaderMap)
    requires
        valid_pairs(pairs_view(add_on@)),
        request_headers(pairs_view(add_on@), default).dom().len() < header_name_limit(),
    ensures
        header_entries(res) == request_headers(pairs_view(add_on@), default),
{
    let mut res = new_header_map();
    let ghost base: Map<Seq<char>, Seq<Seq<u8>>> = if default { with_headers(Map::empty(), common_headers()) } else { Map::empty() };
    if default {
        let ghost common = common_headers();
        proof {
            reveal_strlit("Connection");
            reveal_strlit("keep-alive");
            reveal_strlit("DNT");
            reveal_strlit("1");
            reveal_strlit("User-Agent");
            reveal_strlit("Mozilla/5.0 (Macintosh; Intel Mac OS X 10_12_6) AppleWebKit/537.36 (KHTML, like Gecko) Chrome/90.0.4430.93 Safari/537.36");
            reveal_strlit("Upgrade-Insecure-Requests");
            reveal_strlit("Accept");
            reveal_strlit("text/html,application/xhtml+xml,application/xml;q=0.9,image/webp,image/apng,*/*;q=0.8,application/signed-exchange;v=b3;q=0.9");
            reveal_strlit("Accept-Language");
            reveal_strlit("zh-CN,zh;q=0.9,en;q=0.8,en-GB;q=0.7,en-US;q=0.6");
            reveal_strlit("Cache-Control");
            reveal_strlit("max-age=0");
            lemma_printable_value("keep-alive"@);
            lemma_printable_value("1"@);
            lemma_printable_value("Mozilla/5.0 (Macintosh; Intel Mac OS X 10_12_6) AppleWebKit/537.36 (KHTML, like Gecko) Chrome/90.0.4430.93 Safari/537.36"@);
            lemma_printable_value("text/html,application/xhtml+xml,application/xml;q=0.9,image/webp,image/apng,*/*;q=0.8,application/signed-exchange;v=b3;q=0.9"@);
            lemma_printable_value("zh-CN,zh;q=0.9,en;q=0.8,en-GB;q=0.7,en-US;q=0.6"@);
            lemma_printable_value("max-age=0"@);
        }
        insert_valid(&mut res, "Connection", "keep-alive");
        insert_valid(&mut res, "DNT", "1");
        insert_valid(&mut res, "User-Agent", "Mozilla/5.0 (Macintosh; Intel Mac OS X 10_12_6) AppleWebKit/537.36 (KHTML, like Gecko) Chrome/90.0.4430.93 Safari/537.36");
        insert_valid(&mut res, "Upgrade-Insecure-Requests", "1");
        insert_valid(&mut res, "Accept", "text/html,application/xhtml+xml,application/xml;q=0.9,image/webp,image/apng,*/*;q=0.8,application/signed-exchange;v=b3;q=0.9");
        insert_valid(&mut res, "Accept-Language", "zh-CN,zh;q=0.9,en;q=0.8,en-GB;q=0.7,en-US;q=0.6");
        insert_valid(&mut res, "Cache-Control", "max-age=0");
        proof {
            reveal_with_fuel(with_headers, 8);
            assert(header_entries(res) =~= base);
        }
    } else {
        assert(header_entries(res) =~= base);
    }
    proof {
        lemma_with_headers_size(Map::empty(), common_headers());
        lemma_with_headers_size(base, pairs_view(add_on@));
    }
    let ghost pairs = pairs_view(add_on@);
    let mut i: usize = 0;
    while i < add_on.len()
        invariant
            i <= add_on@.len(),
            pairs == pairs_view(add_on@),
            valid_pairs(pairs),
            with_headers(base, pairs).dom().finite(),
            with_headers(base, pairs).dom().len() < header_name_limit(),
            header_entries(res) == with_headers(base, pairs.take(i as int)),
        decreases add_on@.len() - i,
    {
        proof {
            lemma_with_headers_prefix(base, pairs, i as int);
            vstd::set_lib::lemma_len_subset(with_headers(base, pairs.take(i as int)).dom(), with_headers(base, pairs).dom());
            assert(is_header_name(pairs[i as int].0));
        }
        let (name, value) = add_on[i];
        insert_valid(&mut res, name, value);
        proof {
            assert(pairs.take(i + 1).drop_last() =~= pairs.take(i as int));
        }
        i += 1;
    }
    proof {
        assert(pairs.take(add_on@.len() as int) =~= pairs);
    }
    res
}

} // verus!
