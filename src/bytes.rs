//! Byte-sequence building blocks shared by the request and response code:
//! searching, comparing, splitting and trimming, each with its model over `Seq<u8>`.
use vstd::prelude::*;

verus! {

pub const NUL: u8 = 0;

pub const TAB: u8 = 9;

pub const LF: u8 = 10;

pub const CR: u8 = 13;

pub const SPACE: u8 = 32;

pub const PLUS: u8 = 43;

pub const DOT: u8 = 46;

pub const SLASH: u8 = 47;

pub const DIGIT_ZERO: u8 = 48;

pub const DIGIT_NINE: u8 = 57;

pub const COLON: u8 = 58;

pub const EQUALS: u8 = 61;

pub const QUESTION: u8 = 63;

pub const AMPERSAND: u8 = 38;

pub const UPPER_A: u8 = 65;

pub const UPPER_Z: u8 = 90;

/// The blank line that ends the header block: `\r\n\r\n`.
pub open spec fn header_delimiter() -> Seq<u8> {
    seq![CR, LF, CR, LF]
}

/// `\r\n`, which ends every line of a response head.
pub open spec fn crlf() -> Seq<u8> {
    seq![CR, LF]
}

/// `": "`, which parts a header name from its value.
pub open spec fn colon_space() -> Seq<u8> {
    seq![COLON, SPACE]
}

/// `pat` occurs in `s` starting at index `i`.
pub open spec fn occurs_at(s: Seq<u8>, pat: Seq<u8>, i: int) -> bool {
    0 <= i && i + pat.len() <= s.len() && s.subrange(i, i + pat.len()) == pat
}

/// `pat` occurs somewhere in `s`.
pub open spec fn contains(s: Seq<u8>, pat: Seq<u8>) -> bool {
    exists|i: int| occurs_at(s, pat, i)
}

/// The first index at or after `from` where `pat` occurs in `s`.
pub open spec fn find_from(s: Seq<u8>, pat: Seq<u8>, from: int) -> Option<int>
    decreases s.len() + 1 - from,
{
    if from < 0 || from + pat.len() > s.len() {
        None
    } else if occurs_at(s, pat, from) {
        Some(from)
    } else {
        find_from(s, pat, from + 1)
    }
}

/// The first index where `pat` occurs in `s`.
pub open spec fn find(s: Seq<u8>, pat: Seq<u8>) -> Option<int> {
    find_from(s, pat, 0)
}

/// `s` begins with `prefix`.
pub open spec fn starts_with(s: Seq<u8>, prefix: Seq<u8>) -> bool {
    prefix.len() <= s.len() && s.subrange(0, prefix.len() as int) == prefix
}

/// The ASCII bytes that `char::is_whitespace` accepts.
pub open spec fn is_space(b: u8) -> bool {
    (TAB <= b && b <= CR) || b == SPACE
}

/// ASCII letters folded to lower case; every other byte is kept.
pub open spec fn lower(b: u8) -> u8 {
    if UPPER_A <= b && b <= UPPER_Z {
        (b + 32) as u8
    } else {
        b
    }
}

/// `a` and `b` are equal once ASCII letters are folded to lower case.
pub open spec fn eq_ignore_case(a: Seq<u8>, b: Seq<u8>) -> bool {
    a.len() == b.len() && forall|i: int| 0 <= i < a.len() ==> lower(#[trigger] a[i]) == lower(b[i])
}

/// The pieces of `s` between the occurrences of `sep`; there is always one more
/// piece than there are separators.
pub open spec fn split_on(s: Seq<u8>, sep: u8) -> Seq<Seq<u8>>
    decreases s.len(),
{
    if s.len() == 0 {
        seq![Seq::<u8>::empty()]
    } else if s.last() == sep {
        split_on(s.drop_last(), sep).push(Seq::<u8>::empty())
    } else {
        let p = split_on(s.drop_last(), sep);
        p.update(p.len() - 1, p.last().push(s.last()))
    }
}

/// The width in bytes of the whitespace character that starts at `i` in `s`,
/// or 0 when none does. These are the characters that `char::is_whitespace`
/// accepts, in their UTF-8 forms: ASCII tab to carriage return and space,
/// U+0085, U+00A0, U+1680, U+2000 to U+200A, U+2028, U+2029, U+202F, U+205F
/// and U+3000.
pub open spec fn space_width(s: Seq<u8>, i: int) -> int {
    if !(0 <= i < s.len()) {
        0
    } else if is_space(s[i]) {
        1
    } else if i + 1 < s.len() && s[i] == 0xC2 && (s[i + 1] == 0x85 || s[i + 1] == 0xA0) {
        2
    } else if i + 2 < s.len() && s[i] == 0xE1 && s[i + 1] == 0x9A && s[i + 2] == 0x80 {
        3
    } else if i + 2 < s.len() && s[i] == 0xE2 && s[i + 1] == 0x80 && ((0x80 <= s[i + 2]
        && s[i + 2] <= 0x8A) || s[i + 2] == 0xA8 || s[i + 2] == 0xA9 || s[i + 2] == 0xAF) {
        3
    } else if i + 2 < s.len() && s[i] == 0xE2 && s[i + 1] == 0x81 && s[i + 2] == 0x9F {
        3
    } else if i + 2 < s.len() && s[i] == 0xE3 && s[i + 1] == 0x80 && s[i + 2] == 0x80 {
        3
    } else {
        0
    }
}

/// The words of `s` from index `i` on, added to `found`, where the word being
/// read, if any, began at `start`: a whitespace character ends a word, and any
/// other byte begins or continues one.
pub open spec fn words_from(s: Seq<u8>, i: int, start: Option<int>, found: Seq<Seq<u8>>) -> Seq<
    Seq<u8>,
>
    decreases s.len() - i,
{
    if i < 0 || i >= s.len() {
        match start {
            Some(st) => found.push(s.subrange(st, s.len() as int)),
            None => found,
        }
    } else if space_width(s, i) > 0 {
        let found2 = match start {
            Some(st) => found.push(s.subrange(st, i)),
            None => found,
        };
        words_from(s, i + space_width(s, i), None, found2)
    } else {
        words_from(s, i + 1, if start is None { Some(i) } else { start }, found)
    }
}

/// The maximal runs of `s` that hold no whitespace character, in order: what
/// `str::split_whitespace` gives.
pub open spec fn words(s: Seq<u8>) -> Seq<Seq<u8>> {
    words_from(s, 0, None, Seq::empty())
}

/// Where the text of `s` begins once the whitespace characters from `i` on are
/// passed over.
pub open spec fn skip_spaces(s: Seq<u8>, i: int) -> int
    decreases s.len() - i,
{
    if 0 <= i < s.len() && space_width(s, i) > 0 {
        skip_spaces(s, i + space_width(s, i))
    } else {
        i
    }
}

/// Where the text of `s` ends: just after the last byte, at or after `i`, that is
/// no part of a whitespace character; `end` when there is none.
pub open spec fn text_end(s: Seq<u8>, i: int, end: int) -> int
    decreases s.len() - i,
{
    if i < 0 || i >= s.len() {
        end
    } else if space_width(s, i) > 0 {
        text_end(s, i + space_width(s, i), end)
    } else {
        text_end(s, i + 1, i + 1)
    }
}

/// `s` without its leading and trailing whitespace characters: what `str::trim`
/// gives.
pub open spec fn trim(s: Seq<u8>) -> Seq<u8> {
    let start = skip_spaces(s, 0);
    s.subrange(start, text_end(s, start, start))
}

/// Whether `b` is one of the space bytes.
pub fn is_space_byte(b: u8) -> (r: bool)
    ensures
        r == is_space(b),
{
    (TAB <= b && b <= CR) || b == SPACE
}

/// Copies `src` onto the end of `dst`.
pub fn append_bytes(dst: &mut Vec<u8>, src: &[u8])
    ensures
        final(dst)@ == old(dst)@ + src@,
{
    let mut i: usize = 0;
    while i < src.len()
        invariant
            0 <= i <= src.len(),
            dst@ == old(dst)@ + src@.subrange(0, i as int),
        decreases src.len() - i,
    {
        dst.push(src[i]);
        i += 1;
        assert(dst@ =~= old(dst)@ + src@.subrange(0, i as int));
    }
    assert(src@.subrange(0, src.len() as int) =~= src@);
}

/// A fresh vector holding `s[from..to]`.
pub fn copy_range(s: &[u8], from: usize, to: usize) -> (r: Vec<u8>)
    requires
        from <= to <= s.len(),
    ensures
        r@ == s@.subrange(from as int, to as int),
{
    let mut r: Vec<u8> = Vec::new();
    let mut i: usize = from;
    while i < to
        invariant
            from <= i <= to <= s.len(),
            r@ == s@.subrange(from as int, i as int),
        decreases to - i,
    {
        r.push(s[i]);
        i += 1;
        assert(r@ =~= s@.subrange(from as int, i as int));
    }
    r
}

/// Whether `a` and `b` hold the same bytes.
pub fn bytes_eq(a: &[u8], b: &[u8]) -> (r: bool)
    ensures
        r == (a@ == b@),
{
    if a.len() != b.len() {
        return false;
    }
    let mut i: usize = 0;
    while i < a.len()
        invariant
            0 <= i <= a.len(),
            a.len() == b.len(),
            forall|j: int| 0 <= j < i ==> a@[j] == b@[j],
        decreases a.len() - i,
    {
        if a[i] != b[i] {
            return false;
        }
        i += 1;
    }
    assert(a@ =~= b@);
    true
}

/// Whether `a` and `b` are equal once ASCII letters are folded to lower case.
pub fn bytes_eq_ignore_case(a: &[u8], b: &[u8]) -> (r: bool)
    ensures
        r == eq_ignore_case(a@, b@),
{
    if a.len() != b.len() {
        return false;
    }
    let mut i: usize = 0;
    while i < a.len()
        invariant
            0 <= i <= a.len(),
            a.len() == b.len(),
            forall|j: int| 0 <= j < i ==> lower(#[trigger] a@[j]) == lower(b@[j]),
        decreases a.len() - i,
    {
        let x = a[i];
        let y = b[i];
        let lx = if UPPER_A <= x && x <= UPPER_Z { x + 32 } else { x };
        let ly = if UPPER_A <= y && y <= UPPER_Z { y + 32 } else { y };
        if lx != ly {
            return false;
        }
        i += 1;
    }
    true
}

/// Whether `pat` occurs in `s` at index `i`.
pub fn matches_at(s: &[u8], pat: &[u8], i: usize) -> (r: bool)
    ensures
        r == occurs_at(s@, pat@, i as int),
{
    if i > s.len() || pat.len() > s.len() - i {
        return false;
    }
    let mut k: usize = 0;
    while k < pat.len()
        invariant
            0 <= k <= pat.len(),
            i + pat.len() <= s.len(),
            forall|j: int| 0 <= j < k ==> s@[i + j] == pat@[j],
        decreases pat.len() - k,
    {
        if s[i + k] != pat[k] {
            assert(s@.subrange(i as int, i + pat.len())[k as int] != pat@[k as int]);
            return false;
        }
        k += 1;
    }
    assert(s@.subrange(i as int, i + pat.len()) =~= pat@);
    true
}

/// Whether `s` begins with `prefix`.
pub fn has_prefix(s: &[u8], prefix: &[u8]) -> (r: bool)
    ensures
        r == starts_with(s@, prefix@),
{
    matches_at(s, prefix, 0)
}

/// Whether `pat` occurs anywhere in `s`.
pub fn contains_bytes(s: &[u8], pat: &[u8]) -> (r: bool)
    ensures
        r == contains(s@, pat@),
{
    let mut i: usize = 0;
    while i < s.len() && pat.len() <= s.len() - i
        invariant
            0 <= i <= s.len(),
            forall|j: int| 0 <= j < i ==> !occurs_at(s@, pat@, j),
        decreases s.len() - i,
    {
        if matches_at(s, pat, i) {
            return true;
        }
        i += 1;
    }
    if i == s.len() && pat.len() == 0 {
        assert(occurs_at(s@, pat@, i as int)) by {
            assert(s@.subrange(i as int, i as int) =~= pat@);
        }
        return true;
    }
    assert forall|j: int| !occurs_at(s@, pat@, j) by {
        if 0 <= j && j + pat@.len() <= s@.len() {
            assert(j < i);
        }
    }
    false
}

/// The first index at which `pat` occurs in `s`.
pub fn find_bytes(s: &[u8], pat: &[u8]) -> (r: Option<usize>)
    ensures
        r matches Some(i) ==> find(s@, pat@) == Some(i as int),
        r is None ==> find(s@, pat@) is None,
{
    let mut i: usize = 0;
    while i < s.len() && pat.len() <= s.len() - i
        invariant
            0 <= i <= s.len(),
            find(s@, pat@) == find_from(s@, pat@, i as int),
        decreases s.len() - i,
    {
        if matches_at(s, pat, i) {
            return Some(i);
        }
        i += 1;
    }
    if i == s.len() && pat.len() == 0 {
        assert(occurs_at(s@, pat@, i as int)) by {
            assert(s@.subrange(i as int, i as int) =~= pat@);
        }
        return Some(i);
    }
    None
}


/// `v` holds, one vector each, the byte sequences of `m`.
pub open spec fn holds_pieces(v: Seq<Vec<u8>>, m: Seq<Seq<u8>>) -> bool {
    v.len() == m.len() && forall|i: int| 0 <= i < v.len() ==> (#[trigger] v[i])@ == m[i]
}

/// `s` cut at each occurrence of `sep`.
pub fn split_bytes(s: &[u8], sep: u8) -> (r: Vec<Vec<u8>>)
    ensures
        holds_pieces(r@, split_on(s@, sep)),
{
    let mut pieces: Vec<Vec<u8>> = Vec::new();
    let mut current: Vec<u8> = Vec::new();
    let mut i: usize = 0;
    assert(s@.subrange(0, 0) =~= Seq::<u8>::empty());
    while i < s.len()
        invariant
            0 <= i <= s.len(),
            holds_pieces(pieces@.push(current), split_on(s@.subrange(0, i as int), sep)),
        decreases s.len() - i,
    {
        let b = s[i];
        let ghost prev = split_on(s@.subrange(0, i as int), sep);
        let ghost old_v = pieces@.push(current);
        assert(s@.subrange(0, i + 1).drop_last() =~= s@.subrange(0, i as int));
        if b == sep {
            pieces.push(current);
            current = Vec::new();
            proof {
                let v = pieces@.push(current);
                let next = split_on(s@.subrange(0, i + 1), sep);
                assert(next == prev.push(Seq::<u8>::empty()));
                assert(v =~= old_v.push(current));
                assert(current@ =~= Seq::<u8>::empty());
            }
        } else {
            let ghost old_current = current@;
            current.push(b);
            proof {
                let v = pieces@.push(current);
                let next = split_on(s@.subrange(0, i + 1), sep);
                assert(next == prev.update(prev.len() - 1, prev.last().push(b)));
                assert(v.len() == next.len());
                assert forall|k: int| 0 <= k < v.len() implies (#[trigger] v[k])@ == next[k] by {
                    if k < v.len() - 1 {
                        assert(v[k] == old_v[k]);
                    } else {
                        assert(old_v[k]@ == prev[k]);
                        assert(old_v[k]@ == old_current);
                        assert(current@ == old_current.push(b));
                    }
                }
            }
        }
        i += 1;
    }
    assert(s@.subrange(0, s.len() as int) =~= s@);
    pieces.push(current);
    pieces
}


/// The width in bytes of the whitespace character that starts at `i` in `s`,
/// or 0 when none does.
pub fn space_width_at(s: &[u8], i: usize) -> (r: usize)
    requires
        i < s@.len(),
    ensures
        r as int == space_width(s@, i as int),
        r <= 3,
{
    let n = s.len();
    let b = s[i];
    if is_space_byte(b) {
        1
    } else if n - i > 1 && b == 0xC2 && (s[i + 1] == 0x85 || s[i + 1] == 0xA0) {
        2
    } else if n - i > 2 && b == 0xE1 && s[i + 1] == 0x9A && s[i + 2] == 0x80 {
        3
    } else if n - i > 2 && b == 0xE2 && s[i + 1] == 0x80 && ((0x80 <= s[i + 2] && s[i + 2]
        <= 0x8A) || s[i + 2] == 0xA8 || s[i + 2] == 0xA9 || s[i + 2] == 0xAF) {
        3
    } else if n - i > 2 && b == 0xE2 && s[i + 1] == 0x81 && s[i + 2] == 0x9F {
        3
    } else if n - i > 2 && b == 0xE3 && s[i + 1] == 0x80 && s[i + 2] == 0x80 {
        3
    } else {
        0
    }
}

/// The words of `s`: its maximal runs that hold no whitespace character.
pub fn split_words(s: &[u8]) -> (r: Vec<Vec<u8>>)
    ensures
        holds_pieces(r@, words(s@)),
{
    let n = s.len();
    let mut found: Vec<Vec<u8>> = Vec::new();
    let mut start: Option<usize> = None;
    let mut i: usize = 0;
    assert(views(found@) =~= Seq::<Seq<u8>>::empty());
    while i < n
        invariant
            n == s@.len(),
            0 <= i <= n,
            start matches Some(st) ==> st <= i,
            words(s@) == words_from(
                s@,
                i as int,
                match start {
                    Some(st) => Some(st as int),
                    None => None,
                },
                views(found@),
            ),
        decreases n - i,
    {
        let w = space_width_at(s, i);
        if w > 0 {
            match start {
                Some(st) => {
                    let word = copy_range(s, st, i);
                    let ghost before = views(found@);
                    found.push(word);
                    assert(views(found@) =~= before.push(s@.subrange(st as int, i as int)));
                },
                None => {},
            }
            start = None;
            i = i + w;
        } else {
            if start.is_none() {
                start = Some(i);
            }
            i = i + 1;
        }
    }
    match start {
        Some(st) => {
            let word = copy_range(s, st, n);
            let ghost before = views(found@);
            found.push(word);
            assert(views(found@) =~= before.push(s@.subrange(st as int, n as int)));
        },
        None => {},
    }
    assert(holds_pieces(found@, words(s@))) by {
        assert forall|k: int| 0 <= k < found@.len() implies (#[trigger] found@[k])@ == words(
            s@,
        )[k] by {
            assert(views(found@)[k] == found@[k]@);
        }
    }
    found
}

/// `s` without its leading and trailing whitespace characters.
pub fn trim_spaces(s: &[u8]) -> (r: Vec<u8>)
    ensures
        r@ == trim(s@),
{
    let n = s.len();
    let mut start: usize = 0;
    while start < n && space_width_at(s, start) > 0
        invariant
            n == s@.len(),
            0 <= start <= n,
            skip_spaces(s@, 0) == skip_spaces(s@, start as int),
        decreases n - start,
    {
        start = start + space_width_at(s, start);
    }
    let mut end: usize = start;
    let mut i: usize = start;
    while i < n
        invariant
            n == s@.len(),
            start <= end <= i <= n,
            text_end(s@, start as int, start as int) == text_end(s@, i as int, end as int),
        decreases n - i,
    {
        let w = space_width_at(s, i);
        if w > 0 {
            i = i + w;
        } else {
            i = i + 1;
            end = i;
        }
    }
    copy_range(s, start, end)
}

/// The byte sequences that the vectors of `v` hold.
pub open spec fn views(v: Seq<Vec<u8>>) -> Seq<Seq<u8>> {
    v.map_values(|x: Vec<u8>| x@)
}

/// Vectors that hold the pieces of `m`, viewed, are `m`.
pub proof fn lemma_pieces_views(v: Seq<Vec<u8>>, m: Seq<Seq<u8>>)
    requires
        holds_pieces(v, m),
    ensures
        views(v) == m,
{
    assert(views(v) =~= m);
}

/// Splitting always gives at least one piece.
pub proof fn lemma_split_nonempty(s: Seq<u8>, sep: u8)
    ensures
        split_on(s, sep).len() >= 1,
    decreases s.len(),
{
    if s.len() > 0 {
        lemma_split_nonempty(s.drop_last(), sep);
    }
}

/// `\r\n\r\n` as a vector.
pub fn header_delimiter_bytes() -> (r: Vec<u8>)
    ensures
        r@ == header_delimiter(),
{
    let r = vec![CR, LF, CR, LF];
    assert(r@ =~= header_delimiter());
    r
}


/// An index that `find_from` gives is an occurrence, at or after where the search began.
pub proof fn lemma_find_from_in_bounds(s: Seq<u8>, pat: Seq<u8>, from: int)
    ensures
        find_from(s, pat, from) matches Some(i) ==> occurs_at(s, pat, i) && from <= i,
    decreases s.len() + 1 - from,
{
    if !(from < 0 || from + pat.len() > s.len()) && !occurs_at(s, pat, from) {
        lemma_find_from_in_bounds(s, pat, from + 1);
    }
}


/// The first occurrence of `pat` in `s` is also the first in a prefix of `s`
/// long enough to hold it, and a shorter prefix holds none.
pub proof fn lemma_find_from_prefix(s: Seq<u8>, p: Seq<u8>, pat: Seq<u8>, e: int, from: int)
    requires
        find_from(s, pat, from) == Some(e),
        0 <= from,
        p.len() <= s.len(),
        s.subrange(0, p.len() as int) == p,
    ensures
        e + pat.len() <= p.len() ==> find_from(p, pat, from) == Some(e),
        p.len() < e + pat.len() ==> find_from(p, pat, from) is None,
    decreases s.len() + 1 - from,
{
    lemma_find_from_in_bounds(s, pat, from);
    if from + pat.len() <= p.len() {
        assert forall|k: int| 0 <= k < p.len() implies #[trigger] p[k] == s[k] by {
            assert(p[k] == s.subrange(0, p.len() as int)[k]);
        }
        assert(p.subrange(from, from + pat.len()) =~= s.subrange(from, from + pat.len()));
        if !occurs_at(s, pat, from) {
            lemma_find_from_prefix(s, p, pat, e, from + 1);
        }
    }
}

} // verus!
