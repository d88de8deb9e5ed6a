//! Searching and splitting sequences, and the passage between `str` and
//! sequences of `char`.
//!
//! Requests are framed on characters, not on bytes: a line, a token or a
//! header name is a run of `char`s between two separators. The specifications
//! here are stated over `Seq<T>` so that the same definitions serve the byte
//! buffer (where the blank line is searched) and the decoded text.

use vstd::prelude::*;
use vstd::slice::slice_subrange;
use vstd::slice::slice_to_vec;
use vstd::utf8::encode_utf8;
use vstd::utf8::encode_utf8_decode_utf8;

verus! {

/// `pat` stands in `s` at index `i`.
pub open spec fn occurs_at<T>(s: Seq<T>, pat: Seq<T>, i: int) -> bool {
    &&& 0 <= i
    &&& i + pat.len() <= s.len()
    &&& forall|k: int| 0 <= k < pat.len() ==> s[i + k] == #[trigger] pat[k]
}

/// `pat` stands somewhere in `s`.
pub open spec fn occurs<T>(s: Seq<T>, pat: Seq<T>) -> bool {
    exists|i: int| occurs_at(s, pat, i)
}

/// The least index at or after `from` where `pat` stands in `s`.
pub open spec fn find_from<T>(s: Seq<T>, pat: Seq<T>, from: int) -> Option<int>
    decreases s.len() - from,
{
    if from < 0 || from + pat.len() > s.len() {
        None
    } else if occurs_at(s, pat, from) {
        Some(from)
    } else {
        find_from(s, pat, from + 1)
    }
}

/// The least index where `pat` stands in `s`.
pub open spec fn find<T>(s: Seq<T>, pat: Seq<T>) -> Option<int> {
    find_from(s, pat, 0)
}

/// The pieces of `s` from `start` on, cut at every occurrence of `sep` found
/// by scanning from `pos`; an occurrence is consumed whole, so occurrences
/// never overlap.
pub open spec fn split_scan<T>(s: Seq<T>, sep: Seq<T>, start: int, pos: int) -> Seq<Seq<T>>
    decreases s.len() - pos,
{
    if pos < 0 || sep.len() == 0 || pos + sep.len() > s.len() {
        seq![s.subrange(start, s.len() as int)]
    } else if occurs_at(s, sep, pos) {
        seq![s.subrange(start, pos)] + split_scan(s, sep, pos + sep.len(), pos + sep.len())
    } else {
        split_scan(s, sep, start, pos + 1)
    }
}

/// The pieces of `s` between the occurrences of `sep`, in order. There is one
/// piece more than there are occurrences: a piece may be empty, and a
/// sequence without `sep` is its own single piece.
pub open spec fn split<T>(s: Seq<T>, sep: Seq<T>) -> Seq<Seq<T>> {
    split_scan(s, sep, 0, 0)
}

/// The views of a vector of texts.
pub open spec fn texts(v: Seq<Vec<char>>) -> Seq<Seq<char>> {
    Seq::new(v.len(), |i: int| v[i]@)
}

/// `find_from` returns an occurrence, and nothing stands between `from` and it.
pub proof fn lemma_find_from_some<T>(s: Seq<T>, pat: Seq<T>, from: int)
    requires
        find_from(s, pat, from) is Some,
    ensures
        from <= find_from(s, pat, from)->0,
        occurs_at(s, pat, find_from(s, pat, from)->0),
        forall|j: int| from <= j < find_from(s, pat, from)->0 ==> !occurs_at(s, pat, j),
    decreases s.len() - from,
{
    if from < 0 || from + pat.len() > s.len() {
    } else if occurs_at(s, pat, from) {
    } else {
        lemma_find_from_some(s, pat, from + 1);
    }
}

/// `find_from` fails only where nothing stands at or after `from`.
pub proof fn lemma_find_from_none<T>(s: Seq<T>, pat: Seq<T>, from: int)
    requires
        0 <= from,
        find_from(s, pat, from) is None,
    ensures
        forall|j: int| from <= j ==> !occurs_at(s, pat, j),
    decreases s.len() - from,
{
    if from + pat.len() > s.len() {
    } else {
        lemma_find_from_some_or_step(s, pat, from);
        lemma_find_from_none(s, pat, from + 1);
    }
}

proof fn lemma_find_from_some_or_step<T>(s: Seq<T>, pat: Seq<T>, from: int)
    requires
        0 <= from,
        from + pat.len() <= s.len(),
        find_from(s, pat, from) is None,
    ensures
        !occurs_at(s, pat, from),
        find_from(s, pat, from + 1) is None,
{
}

/// `find` is `None` exactly where `pat` does not occur in `s`.
pub proof fn lemma_find_none_iff_absent<T>(s: Seq<T>, pat: Seq<T>)
    ensures
        find(s, pat) is None <==> !occurs(s, pat),
{
    if find(s, pat) is None {
        lemma_find_from_none(s, pat, 0);
    } else {
        lemma_find_from_some(s, pat, 0);
    }
}

/// A sequence in which the separator does not occur is its own single piece.
pub proof fn lemma_split_without_separator<T>(s: Seq<T>, sep: Seq<T>)
    requires
        !occurs(s, sep),
    ensures
        split(s, sep) == seq![s],
{
    lemma_split_scan_without_separator(s, sep, 0);
    assert(s.subrange(0, s.len() as int) =~= s);
}

proof fn lemma_split_scan_without_separator<T>(s: Seq<T>, sep: Seq<T>, pos: int)
    requires
        0 <= pos,
        !occurs(s, sep),
    ensures
        split_scan(s, sep, 0, pos) == seq![s.subrange(0, s.len() as int)],
    decreases s.len() - pos,
{
    if sep.len() == 0 || pos + sep.len() > s.len() {
    } else {
        assert(!occurs_at(s, sep, pos));
        lemma_split_scan_without_separator(s, sep, pos + 1);
    }
}

/// Splitting yields at least one piece.
pub proof fn lemma_split_scan_nonempty<T>(s: Seq<T>, sep: Seq<T>, start: int, pos: int)
    ensures
        split_scan(s, sep, start, pos).len() >= 1,
        split_scan(s, sep, start, pos).len() >= 2 ==> exists|i: int|
            pos <= i && occurs_at(s, sep, i),
    decreases s.len() - pos,
{
    if pos < 0 || sep.len() == 0 || pos + sep.len() > s.len() {
    } else if occurs_at(s, sep, pos) {
    } else {
        lemma_split_scan_nonempty(s, sep, start, pos + 1);
    }
}

/// The pieces put together again, with `sep` between each two.
pub open spec fn join<T>(pieces: Seq<Seq<T>>, sep: Seq<T>) -> Seq<T>
    decreases pieces.len(),
{
    if pieces.len() == 0 {
        Seq::empty()
    } else if pieces.len() == 1 {
        pieces[0]
    } else {
        pieces[0] + sep + join(pieces.skip(1), sep)
    }
}

/// Splitting loses nothing: the pieces, joined by the separator, are the
/// sequence that was split.
pub proof fn law_split_joins_back<T>(s: Seq<T>, sep: Seq<T>)
    ensures
        join(split(s, sep), sep) == s,
{
    lemma_split_scan_joins_back(s, sep, 0, 0);
    assert(s.subrange(0, s.len() as int) =~= s);
}

proof fn lemma_split_scan_joins_back<T>(s: Seq<T>, sep: Seq<T>, start: int, pos: int)
    requires
        0 <= start <= pos,
        start <= s.len(),
    ensures
        join(split_scan(s, sep, start, pos), sep) == s.subrange(start, s.len() as int),
    decreases s.len() - pos,
{
    if sep.len() == 0 || pos + sep.len() > s.len() {
    } else if occurs_at(s, sep, pos) {
        let next = pos + sep.len();
        let rest = split_scan(s, sep, next, next);
        let all = seq![s.subrange(start, pos)] + rest;
        lemma_split_scan_joins_back(s, sep, next, next);
        lemma_split_scan_nonempty(s, sep, next, next);
        assert(all[0] == s.subrange(start, pos));
        assert(all.skip(1) =~= rest);
        assert(s.subrange(pos, next) =~= sep) by {
            assert forall|k: int| 0 <= k < sep.len() implies s.subrange(pos, next)[k] == sep[k] by {
                assert(s[pos + k] == sep[k]);
            }
        }
        assert(s.subrange(start, pos) + sep + s.subrange(next, s.len() as int) =~= s.subrange(
            start,
            s.len() as int,
        ));
    } else {
        lemma_split_scan_joins_back(s, sep, start, pos + 1);
    }
}

/// The separator stands in no piece: every occurrence was cut out.
pub proof fn law_pieces_hold_no_separator<T>(s: Seq<T>, sep: Seq<T>, k: int)
    requires
        sep.len() > 0,
        0 <= k < split(s, sep).len(),
    ensures
        !occurs(split(s, sep)[k], sep),
{
    lemma_split_scan_pieces(s, sep, 0, 0, k);
}

proof fn lemma_split_scan_pieces<T>(s: Seq<T>, sep: Seq<T>, start: int, pos: int, k: int)
    requires
        sep.len() > 0,
        0 <= start <= pos,
        start <= s.len(),
        forall|q: int| start <= q < pos ==> !occurs_at(s, sep, q),
        0 <= k < split_scan(s, sep, start, pos).len(),
    ensures
        !occurs(split_scan(s, sep, start, pos)[k], sep),
    decreases s.len() - pos,
{
    if pos + sep.len() > s.len() {
        lemma_no_occurrence_in_piece(s, sep, start, s.len() as int, pos);
    } else if occurs_at(s, sep, pos) {
        let next = pos + sep.len();
        if k == 0 {
            lemma_no_occurrence_in_piece(s, sep, start, pos, pos);
        } else {
            lemma_split_scan_pieces(s, sep, next, next, k - 1);
        }
    } else {
        lemma_split_scan_pieces(s, sep, start, pos + 1, k);
    }
}

/// A piece that ends where no occurrence can still fit holds none, if none
/// begins in it before `clear`.
proof fn lemma_no_occurrence_in_piece<T>(s: Seq<T>, sep: Seq<T>, start: int, end: int, clear: int)
    requires
        sep.len() > 0,
        0 <= start <= end <= s.len(),
        forall|q: int| start <= q < clear ==> !occurs_at(s, sep, q),
        clear + sep.len() > end,
    ensures
        !occurs(s.subrange(start, end), sep),
{
    let piece = s.subrange(start, end);
    if occurs(piece, sep) {
        let j = choose|j: int| occurs_at(piece, sep, j);
        assert forall|i: int| 0 <= i < sep.len() implies s[start + j + i] == #[trigger] sep[i] by {
            assert(piece[j + i] == sep[i]);
        }
        assert(occurs_at(s, sep, start + j));
    }
}

/// Whether `pat` stands in `hay` at index `i`.
pub fn text_occurs_at(hay: &[char], pat: &[char], i: usize) -> (found: bool)
    ensures
        found == occurs_at(hay@, pat@, i as int),
{
    if i > hay.len() || pat.len() > hay.len() - i {
        return false;
    }
    let mut k: usize = 0;
    while k < pat.len()
        invariant
            k <= pat.len(),
            i + pat.len() <= hay.len(),
            forall|j: int| 0 <= j < k ==> hay@[i + j] == #[trigger] pat@[j],
        decreases pat.len() - k,
    {
        if hay[i + k] != pat[k] {
            return false;
        }
        k += 1;
    }
    true
}

/// The least index at or after `from` where `pat` stands in `hay`.
pub fn find_text(hay: &[char], pat: &[char], from: usize) -> (found: Option<usize>)
    ensures
        match found {
            Some(i) => find_from(hay@, pat@, from as int) == Some(i as int),
            None => find_from(hay@, pat@, from as int) is None,
        },
{
    if pat.len() > hay.len() {
        return None;
    }
    let last: usize = hay.len() - pat.len();
    let mut i: usize = from;
    while i <= last
        invariant
            from <= i,
            pat.len() <= hay.len(),
            last == hay.len() - pat.len(),
            find_from(hay@, pat@, from as int) == find_from(hay@, pat@, i as int),
        decreases last + 1 - i,
    {
        if text_occurs_at(hay, pat, i) {
            return Some(i);
        }
        i += 1;
    }
    None
}

/// The least index where the character `c` stands in `s`.
pub open spec fn index_of(s: Seq<char>, c: char) -> Option<int> {
    find(s, seq![c])
}

/// `index_of` finds a character exactly where the sequence contains it, and
/// then the first one.
pub proof fn lemma_index_of(s: Seq<char>, c: char)
    ensures
        index_of(s, c) is Some <==> s.contains(c),
        index_of(s, c) matches Some(i) ==> 0 <= i < s.len() && s[i] == c && !s.take(i).contains(c),
{
    let pat = seq![c];
    assert(pat[0] == c);
    if index_of(s, c) is Some {
        lemma_find_from_some(s, pat, 0);
        let i = index_of(s, c)->0;
        assert(s[i + 0] == pat[0]);
        assert(s[i] == c);
        if s.take(i).contains(c) {
            let j = choose|j: int| 0 <= j < s.take(i).len() && s.take(i)[j] == c;
            assert(occurs_at(s, pat, j));
        }
    } else {
        lemma_find_from_none(s, pat, 0);
        if s.contains(c) {
            let j = choose|j: int| 0 <= j < s.len() && s[j] == c;
            assert(occurs_at(s, pat, j));
        }
    }
}

/// The least index where the character `c` stands in `hay`.
pub fn find_char(hay: &[char], c: char) -> (found: Option<usize>)
    ensures
        match found {
            Some(i) => index_of(hay@, c) == Some(i as int) && i < hay@.len(),
            None => index_of(hay@, c) is None,
        },
{
    proof {
        lemma_index_of(hay@, c);
    }
    let pat: [char; 1] = [c];
    assert(pat@ =~= seq![c]);
    find_text(hay, pat.as_slice(), 0)
}

/// The pieces of `hay` between the occurrences of the character `c`.
pub fn split_at_char(hay: &[char], c: char) -> (pieces: Vec<Vec<char>>)
    ensures
        texts(pieces@) == split(hay@, seq![c]),
{
    let sep: [char; 1] = [c];
    assert(sep@ =~= seq![c]);
    split_text(hay, sep.as_slice())
}

/// Whether `hay` holds exactly the characters of `literal`.
pub fn text_is(hay: &[char], literal: &str) -> (same: bool)
    ensures
        same == (hay@ == literal@),
{
    let mut i: usize = 0;
    for c in it: literal.chars()
        invariant
            it.seq() == literal@,
            i == it.index(),
            i <= hay.len(),
            forall|j: int| 0 <= j < i ==> hay@[j] == literal@[j],
    {
        if i >= hay.len() || hay[i] != c {
            return false;
        }
        i += 1;
    }
    assert(i == hay.len() ==> hay@ =~= literal@);
    i == hay.len()
}

/// A copy of the characters of `hay` from `from` up to `to`.
pub(crate) fn copy_range(hay: &[char], from: usize, to: usize) -> (piece: Vec<char>)
    requires
        from <= to <= hay@.len(),
    ensures
        piece@ == hay@.subrange(from as int, to as int),
{
    slice_to_vec(slice_subrange(hay, from, to))
}

/// The pieces of `hay` between the occurrences of `sep`.
pub fn split_text(hay: &[char], sep: &[char]) -> (pieces: Vec<Vec<char>>)
    ensures
        texts(pieces@) == split(hay@, sep@),
{
    let mut pieces: Vec<Vec<char>> = Vec::new();
    let mut start: usize = 0;
    if sep.len() == 0 || sep.len() > hay.len() {
        pieces.push(copy_range(hay, 0, hay.len()));
        assert(texts(pieces@) =~= split(hay@, sep@));
        return pieces;
    }
    let last: usize = hay.len() - sep.len();
    let mut pos: usize = 0;
    while pos <= last
        invariant
            start <= pos <= hay.len(),
            0 < sep.len() <= hay.len(),
            last == hay.len() - sep.len(),
            split(hay@, sep@) == texts(pieces@) + split_scan(hay@, sep@, start as int, pos as int),
        decreases hay.len() - pos,
    {
        if text_occurs_at(hay, sep, pos) {
            let ghost before = texts(pieces@);
            let piece = copy_range(hay, start, pos);
            pieces.push(piece);
            assert(texts(pieces@) =~= before + seq![piece@]);
            pos += sep.len();
            start = pos;
        } else {
            pos += 1;
        }
    }
    let ghost before = texts(pieces@);
    pieces.push(copy_range(hay, start, hay.len()));
    assert(texts(pieces@) =~= before + seq![hay@.subrange(start as int, hay@.len() as int)]);
    pieces
}

/// Whether two string slices hold the same text. The comparison runs over
/// the UTF-8 bytes, which determine the characters.
pub fn same_text(a: &str, b: &str) -> (same: bool)
    ensures
        same == (a@ == b@),
{
    let left = a.as_bytes();
    let right = b.as_bytes();
    proof {
        encode_utf8_decode_utf8(a@);
        encode_utf8_decode_utf8(b@);
    }
    if left.len() != right.len() {
        return false;
    }
    let mut i: usize = 0;
    while i < left.len()
        invariant
            i <= left.len(),
            left.len() == right.len(),
            left@ == encode_utf8(a@),
            right@ == encode_utf8(b@),
            forall|j: int| 0 <= j < i ==> left@[j] == right@[j],
        decreases left.len() - i,
    {
        if left[i] != right[i] {
            return false;
        }
        i += 1;
    }
    assert(left@ =~= right@);
    true
}

/// The characters of a string slice.
pub fn chars_of(s: &str) -> (out: Vec<char>)
    ensures
        out@ == s@,
{
    let mut out: Vec<char> = Vec::new();
    for c in it: s.chars()
        invariant
            out@ == it.seq().take(it.index() as int),
            it.seq() == s@,
    {
        out.push(c);
    }
    out
}

/// `String::push` appends one character to the text.
pub assume_specification[ String::push ](s: &mut String, ch: char)
    ensures
        final(s)@ == old(s)@.push(ch),
;

/// The string made of the characters of `v`.
pub fn string_of(v: &[char]) -> (out: String)
    ensures
        out@ == v@,
{
    let mut out = String::new();
    let mut i: usize = 0;
    while i < v.len()
        invariant
            i <= v@.len(),
            out@ == v@.take(i as int),
        decreases v@.len() - i,
    {
        out.push(v[i]);
        i += 1;
    }
    out
}

} // verus!
