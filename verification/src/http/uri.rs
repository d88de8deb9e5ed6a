//! The request target: a path, and a query that is percent-decoded and then
//! read either as a list of tokens or as pairs of key and value.

use crate::http::strmap::map_of;
use crate::http::strmap::put;
use crate::http::strmap::Entry;
use crate::http::strmap::StringMap;
use crate::http::text::chars_of;
use crate::http::text::copy_range;
use crate::http::text::find_char;
use crate::http::text::index_of;
use crate::http::text::lemma_index_of;
use crate::http::text::split;
use crate::http::text::split_at_char;
use crate::http::text::string_of;
use crate::http::text::texts;
use vstd::prelude::*;

verus! {

/// The value of a hexadecimal digit, in either case.
pub open spec fn hex_value(c: char) -> Option<int> {
    if '0' <= c <= '9' {
        Some(c as int - '0' as int)
    } else if 'a' <= c <= 'f' {
        Some(c as int - 'a' as int + 10)
    } else if 'A' <= c <= 'F' {
        Some(c as int - 'A' as int + 10)
    } else {
        None
    }
}

/// The character that an escape with the two characters `high` and `low`
/// stands for: the one whose code the two hexadecimal digits give, or NUL
/// where either is no hexadecimal digit.
pub open spec fn escaped(high: char, low: char) -> char {
    match (hex_value(high), hex_value(low)) {
        (Some(h), Some(l)) => ((16 * h + l) as u8) as char,
        _ => '\0',
    }
}

/// How far an escape has been read.
pub enum Escape {
    /// No escape is open.
    Closed,
    /// A `%` was read, and after it the character held here, if any.
    Open(Option<char>),
}

/// The decoding of `s` from index `i` on, where the characters before `i`
/// left the escape in `state`.
///
/// A `%` opens an escape and is never copied. The next two characters that
/// are not `%` close the escape and give one character; a `%` inside an open
/// escape changes nothing. An escape that the end of the text cuts short
/// gives nothing.
pub open spec fn decode_from(s: Seq<char>, i: int, state: Escape) -> Seq<char>
    decreases s.len() - i,
{
    if i < 0 || i >= s.len() {
        Seq::empty()
    } else if s[i] == '%' {
        match state {
            Escape::Closed => decode_from(s, i + 1, Escape::Open(None)),
            open => decode_from(s, i + 1, open),
        }
    } else {
        match state {
            Escape::Closed => seq![s[i]] + decode_from(s, i + 1, Escape::Closed),
            Escape::Open(None) => decode_from(s, i + 1, Escape::Open(Some(s[i]))),
            Escape::Open(Some(high)) => seq![escaped(high, s[i])] + decode_from(
                s,
                i + 1,
                Escape::Closed,
            ),
        }
    }
}

/// The percent-decoding of `s`: `%` and two hexadecimal digits become the
/// character with that code; every other character, `+` among them, stays.
pub open spec fn percent_decode(s: Seq<char>) -> Seq<char> {
    decode_from(s, 0, Escape::Closed)
}

/// Text without `%` is its own decoding.
pub proof fn law_plain_text_is_unchanged(s: Seq<char>)
    requires
        !s.contains('%'),
    ensures
        percent_decode(s) == s,
{
    lemma_plain_rest_is_unchanged(s, 0);
    assert(s.skip(0) =~= s);
}

proof fn lemma_plain_rest_is_unchanged(s: Seq<char>, i: int)
    requires
        0 <= i <= s.len(),
        !s.contains('%'),
    ensures
        decode_from(s, i, Escape::Closed) == s.skip(i),
    decreases s.len() - i,
{
    if i < s.len() {
        assert(s.contains(s[i]));
        lemma_plain_rest_is_unchanged(s, i + 1);
        assert(seq![s[i]] + s.skip(i + 1) =~= s.skip(i));
    } else {
        assert(s.skip(i) =~= Seq::<char>::empty());
    }
}

/// What follows a prefix is decoded as it would be alone, given the state
/// in which the prefix leaves the escape.
proof fn lemma_decode_after_prefix(prefix: Seq<char>, rest: Seq<char>, i: int, state: Escape)
    requires
        0 <= i <= rest.len(),
    ensures
        decode_from(prefix + rest, prefix.len() + i, state) == decode_from(rest, i, state),
    decreases rest.len() - i,
{
    let whole = prefix + rest;
    if i < rest.len() {
        assert(whole[prefix.len() + i] == rest[i]);
        match state {
            Escape::Closed => {
                lemma_decode_after_prefix(prefix, rest, i + 1, Escape::Closed);
                lemma_decode_after_prefix(prefix, rest, i + 1, Escape::Open(None));
            },
            Escape::Open(None) => {
                lemma_decode_after_prefix(prefix, rest, i + 1, Escape::Open(None));
                lemma_decode_after_prefix(prefix, rest, i + 1, Escape::Open(Some(rest[i])));
            },
            Escape::Open(Some(high)) => {
                lemma_decode_after_prefix(prefix, rest, i + 1, Escape::Open(Some(high)));
                lemma_decode_after_prefix(prefix, rest, i + 1, Escape::Closed);
            },
        }
    }
}

/// A character that is not `%` and stands outside an escape is copied.
pub proof fn law_plain_character_is_copied(c: char, rest: Seq<char>)
    requires
        c != '%',
    ensures
        percent_decode(seq![c] + rest) == seq![c] + percent_decode(rest),
{
    let prefix = seq![c];
    let whole = prefix + rest;
    assert(whole[0] == c);
    lemma_decode_after_prefix(prefix, rest, 0, Escape::Closed);
}

/// A `%` with two characters after it, neither of them `%`, gives the one
/// character that the escape stands for; what follows is decoded as it would
/// be alone.
pub proof fn law_escape_is_decoded(high: char, low: char, rest: Seq<char>)
    requires
        high != '%',
        low != '%',
    ensures
        percent_decode(seq!['%', high, low] + rest) == seq![escaped(high, low)] + percent_decode(
            rest,
        ),
{
    let prefix = seq!['%', high, low];
    let whole = prefix + rest;
    assert(whole[0] == '%' && whole[1] == high && whole[2] == low);
    reveal_with_fuel(decode_from, 4);
    lemma_decode_after_prefix(prefix, rest, 0, Escape::Closed);
}

/// An escape that the end of the text cuts short gives nothing.
pub proof fn law_cut_escape_gives_nothing(s: Seq<char>)
    requires
        s.len() == 1 && s[0] == '%' || s.len() == 2 && s[0] == '%' && s[1] != '%',
    ensures
        percent_decode(s) == Seq::<char>::empty(),
{
    reveal_with_fuel(decode_from, 4);
}

/// The value of the hexadecimal digit `c`.
fn hex_digit(c: char) -> (value: Option<u8>)
    ensures
        match value {
            Some(v) => hex_value(c) == Some(v as int),
            None => hex_value(c) is None,
        },
{
    if '0' <= c && c <= '9' {
        Some(c as u8 - 48)
    } else if 'a' <= c && c <= 'f' {
        Some(c as u8 - 87)
    } else if 'A' <= c && c <= 'F' {
        Some(c as u8 - 55)
    } else {
        None
    }
}

/// The character that the escape `%`, `high`, `low` stands for.
fn unescape(high: char, low: char) -> (c: char)
    ensures
        c == escaped(high, low),
{
    match (hex_digit(high), hex_digit(low)) {
        (Some(h), Some(l)) => (16 * h + l) as char,
        _ => '\0',
    }
}

/// The percent-decoding of a sequence of characters.
pub fn decode_chars(raw: &[char]) -> (decoded: Vec<char>)
    ensures
        decoded@ == percent_decode(raw@),
{
    let mut decoded: Vec<char> = Vec::new();
    let mut state = Escape::Closed;
    let mut i: usize = 0;
    while i < raw.len()
        invariant
            i <= raw.len(),
            percent_decode(raw@) == decoded@ + decode_from(raw@, i as int, state),
        decreases raw.len() - i,
    {
        let c = raw[i];
        let ghost before = decoded@;
        let ghost rest = decode_from(raw@, i as int, state);
        if c == '%' {
            match state {
                Escape::Closed => {
                    state = Escape::Open(None);
                },
                _ => {},
            }
        } else {
            match state {
                Escape::Closed => {
                    decoded.push(c);
                    assert(decoded@ + decode_from(raw@, i + 1, Escape::Closed) =~= before + rest);
                },
                Escape::Open(None) => {
                    state = Escape::Open(Some(c));
                },
                Escape::Open(Some(high)) => {
                    decoded.push(unescape(high, c));
                    state = Escape::Closed;
                    assert(decoded@ + decode_from(raw@, i + 1, Escape::Closed) =~= before + rest);
                },
            }
        }
        i += 1;
    }
    assert(decoded@ + Seq::<char>::empty() =~= decoded@);
    decoded
}

/// Decodes the percent escapes of `string_with_hex`.
pub fn parse_hex(string_with_hex: &str) -> (parsed: String)
    ensures
        parsed@ == percent_decode(string_with_hex@),
{
    let raw = chars_of(string_with_hex);
    let decoded = decode_chars(raw.as_slice());
    string_of(decoded.as_slice())
}

/// The query of a request target, in one of two shapes that the decoded
/// text decides: pairs of key and value where it holds a `=` anywhere, a
/// list of tokens where it holds none.
#[derive(Debug, PartialEq)]
pub enum URIQuery {
    SingleParamsList(Vec<String>),
    PairList(StringMap),
}

/// A request target: the path, and the query if the target has one.
pub type URI = (String, Option<URIQuery>);

/// What a `URIQuery` stands for.
pub enum QueryView {
    /// The tokens, in the order of the query.
    Tokens(Seq<Seq<char>>),
    /// The value of each key.
    Pairs(Map<Seq<char>, Seq<char>>),
}

/// The texts of a sequence of strings.
pub open spec fn strings(v: Seq<String>) -> Seq<Seq<char>> {
    Seq::new(v.len(), |i: int| v[i]@)
}

impl View for URIQuery {
    type V = QueryView;

    open spec fn view(&self) -> QueryView {
        match self {
            URIQuery::SingleParamsList(tokens) => QueryView::Tokens(strings(tokens@)),
            URIQuery::PairList(pairs) => QueryView::Pairs(pairs@),
        }
    }
}

impl Clone for URIQuery {
    fn clone(&self) -> (copy: URIQuery)
        ensures
            copy@ == self@,
    {
        match self {
            URIQuery::SingleParamsList(tokens) => {
                let mut copies: Vec<String> = Vec::new();
                let mut i: usize = 0;
                while i < tokens.len()
                    invariant
                        i <= tokens.len(),
                        strings(copies@) =~= strings(tokens@).take(i as int),
                    decreases tokens.len() - i,
                {
                    let ghost before = strings(copies@);
                    copies.push(tokens[i].clone());
                    assert(strings(copies@) =~= before.push(tokens@[i as int]@));
                    i += 1;
                }
                assert(strings(copies@) =~= strings(tokens@));
                URIQuery::SingleParamsList(copies)
            },
            URIQuery::PairList(pairs) => URIQuery::PairList(pairs.clone()),
        }
    }
}

/// What a request target stands for: the path and the view of the query.
pub open spec fn uri_view(uri: URI) -> (Seq<char>, Option<QueryView>) {
    (
        uri.0@,
        match uri.1 {
            Some(query) => Some(query@),
            None => None,
        },
    )
}

/// The key and the value of one segment of a query: what stands before its
/// first `=` and what stands after it. A segment without `=` gives no pair.
pub open spec fn pair_of(segment: Seq<char>) -> Option<Entry> {
    match index_of(segment, '=') {
        Some(i) => Some((segment.take(i), segment.skip(i + 1))),
        None => None,
    }
}

/// The entries that the segments of a query give, taken from left to right:
/// a key that comes again gets the later value.
pub open spec fn pairs_of(segments: Seq<Seq<char>>) -> Seq<Entry>
    decreases segments.len(),
{
    if segments.len() == 0 {
        Seq::empty()
    } else {
        let before = pairs_of(segments.drop_last());
        match pair_of(segments.last()) {
            Some(entry) => put(before, entry.0, entry.1),
            None => before,
        }
    }
}

/// The reading of a decoded query. Its segments are the pieces between `&`.
pub open spec fn classify(query: Seq<char>) -> QueryView {
    if query.contains('=') {
        QueryView::Pairs(map_of(pairs_of(split(query, seq!['&']))))
    } else {
        QueryView::Tokens(split(query, seq!['&']))
    }
}

/// The reading of a request target, or `None` where a `%` stands in its
/// path. The path is what stands before the first `?`, or the whole target
/// where there is none; the query is what stands after that `?`,
/// percent-decoded and then classified.
pub open spec fn parse_uri(raw: Seq<char>) -> Option<(Seq<char>, Option<QueryView>)> {
    match index_of(raw, '?') {
        Some(mark) => if raw.take(mark).contains('%') {
            None
        } else {
            Some((raw.take(mark), Some(classify(percent_decode(raw.skip(mark + 1))))))
        },
        None => if raw.contains('%') {
            None
        } else {
            Some((raw, None))
        },
    }
}

/// The reading of a decoded query.
pub fn classify_query(query: &[char]) -> (parsed: URIQuery)
    ensures
        parsed@ == classify(query@),
{
    proof {
        lemma_index_of(query@, '=');
    }
    let segments = split_at_char(query, '&');
    if find_char(query, '=').is_some() {
        let mut pairs = StringMap::new();
        let mut k: usize = 0;
        while k < segments.len()
            invariant
                k <= segments.len(),
                pairs.entries() == pairs_of(texts(segments@).take(k as int)),
            decreases segments.len() - k,
        {
            let segment = segments[k].as_slice();
            let ghost taken = texts(segments@).take(k + 1);
            assert(taken.drop_last() =~= texts(segments@).take(k as int));
            assert(taken.last() == segment@);
            match find_char(segment, '=') {
                Some(i) => {
                    let key = string_of(copy_range(segment, 0, i).as_slice());
                    let value = string_of(copy_range(segment, i + 1, segment.len()).as_slice());
                    assert(key@ =~= segment@.take(i as int));
                    assert(value@ =~= segment@.skip(i + 1));
                    pairs.insert(key, value);
                },
                None => {},
            }
            k += 1;
        }
        assert(texts(segments@).take(segments@.len() as int) =~= texts(segments@));
        URIQuery::PairList(pairs)
    } else {
        let mut tokens: Vec<String> = Vec::new();
        let mut k: usize = 0;
        while k < segments.len()
            invariant
                k <= segments.len(),
                strings(tokens@) =~= texts(segments@).take(k as int),
            decreases segments.len() - k,
        {
            let ghost before = strings(tokens@);
            let token = string_of(segments[k].as_slice());
            tokens.push(token);
            assert(strings(tokens@) =~= before.push(segments@[k as int]@));
            k += 1;
        }
        assert(strings(tokens@) =~= texts(segments@));
        URIQuery::SingleParamsList(tokens)
    }
}

/// The reading of the characters of a request target.
pub fn uri_of_chars(raw: &[char]) -> (parsed: Option<URI>)
    ensures
        match parsed {
            Some(uri) => parse_uri(raw@) == Some(uri_view(uri)),
            None => parse_uri(raw@) is None,
        },
{
    let mark = find_char(raw, '?');
    let path_end: usize = match mark {
        Some(at) => at,
        None => raw.len(),
    };
    proof {
        lemma_index_of(raw@, '?');
        assert(raw@.take(raw@.len() as int) =~= raw@);
    }
    let path = copy_range(raw, 0, path_end);
    assert(path@ =~= raw@.take(path_end as int));
    proof {
        lemma_index_of(path@, '%');
    }
    if find_char(path.as_slice(), '%').is_some() {
        return None;
    }
    let query = match mark {
        Some(at) => {
            assert(at < raw.len());
            let rest = copy_range(raw, at + 1, raw.len());
            assert(rest@ =~= raw@.skip(at + 1));
            let decoded = decode_chars(rest.as_slice());
            Some(classify_query(decoded.as_slice()))
        },
        None => None,
    };
    Some((string_of(path.as_slice()), query))
}

/// Reads a request target. Returns `None` exactly where a `%` stands in the
/// path, that is, before the first `?`.
pub fn parse_from_unsafe(uri: String) -> (parsed: Option<URI>)
    ensures
        match parsed {
            Some(target) => parse_uri(uri@) == Some(uri_view(target)),
            None => parse_uri(uri@) is None,
        },
{
    let raw = chars_of(uri.as_str());
    uri_of_chars(raw.as_slice())
}

} // verus!
