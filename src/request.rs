//! What is read from a request before and after parsing: its path, whether it is
//! an API request, whether its path is safe, and its query parameters.
use vstd::prelude::*;
use vstd::slice::slice_subrange;
use vstd::string::StringSliceAdditionalSpecFns;
use vstd::utf8::valid_utf8;
use crate::bytes::{
    contains, contains_bytes, copy_range, find, find_bytes, has_prefix, lemma_find_from_in_bounds,
    lemma_pieces_views, occurs_at, split_bytes, split_on, split_words, starts_with, views, words,
    AMPERSAND, CR, DOT, EQUALS, LF, NUL, QUESTION, SLASH,
};
use crate::fields::FieldMap;
use crate::routes::{handle_400, handle_408, handle_500};
use crate::status::ParseError;
use crate::text::utf8_string;
use crate::types::{ParsedRequest, UniversalBody};

verus! {

/// `..`
pub open spec fn parent_step() -> Seq<u8> {
    seq![DOT, DOT]
}

/// `/.`
pub open spec fn hidden_step() -> Seq<u8> {
    seq![SLASH, DOT]
}

/// A path is refused when it holds `..`, a NUL byte or `/.`.
pub open spec fn path_refused(path: Seq<u8>) -> bool {
    contains(path, parent_step()) || contains(path, seq![NUL]) || contains(path, hidden_step())
}

/// The index of the first CR or LF of `s` at or after `from`, or its length.
pub open spec fn line_end_from(s: Seq<u8>, from: int) -> int
    decreases s.len() - from,
{
    if from < 0 || from >= s.len() {
        s.len() as int
    } else if s[from] == CR || s[from] == LF {
        from
    } else {
        line_end_from(s, from + 1)
    }
}

/// The first line of `buffer`, up to its first CR or LF.
pub open spec fn first_line(buffer: Seq<u8>) -> Seq<u8> {
    buffer.subrange(0, line_end_from(buffer, 0))
}

/// The second word of the first line, when that line is UTF-8 and has one.
pub open spec fn request_path(buffer: Seq<u8>) -> Option<Seq<u8>> {
    let line = first_line(buffer);
    if valid_utf8(line) && words(line).len() >= 2 {
        Some(words(line)[1])
    } else {
        None
    }
}

/// A request goes to the API when its path starts with `/api/`.
pub open spec fn is_api(buffer: Seq<u8>) -> bool {
    match request_path(buffer) {
        Some(p) => starts_with(p, "/api/".spec_bytes()),
        None => false,
    }
}

/// A query piece read as a name and a value, parted at the first `=`; without
/// one the value is empty.
pub open spec fn query_pair(piece: Seq<u8>) -> (Seq<u8>, Seq<u8>) {
    match find(piece, seq![EQUALS]) {
        Some(i) => (piece.subrange(0, i), piece.subrange(i + 1, piece.len() as int)),
        None => (piece, Seq::empty()),
    }
}

/// The parameters of the query pieces, a later one winning over an earlier one
/// with the same name.
pub open spec fn query_of(pieces: Seq<Seq<u8>>) -> Map<Seq<u8>, Seq<u8>>
    decreases pieces.len(),
{
    if pieces.len() == 0 {
        Map::empty()
    } else {
        query_of(pieces.drop_last()).insert(
            query_pair(pieces.last()).0,
            query_pair(pieces.last()).1,
        )
    }
}

/// The parameters of a query string: its `&`-separated pieces.
pub open spec fn query_params(query: Seq<u8>) -> Map<Seq<u8>, Seq<u8>> {
    query_of(split_on(query, AMPERSAND))
}

/// The path of a request target: what precedes the first `?`.
pub open spec fn target_path(target: Seq<u8>) -> Seq<u8> {
    match find(target, seq![QUESTION]) {
        Some(i) => target.subrange(0, i),
        None => target,
    }
}

/// The query of a request target: what follows the first `?`, empty without one.
pub open spec fn target_query(target: Seq<u8>) -> Seq<u8> {
    match find(target, seq![QUESTION]) {
        Some(i) => target.subrange(i + 1, target.len() as int),
        None => Seq::empty(),
    }
}

/// `Some(path)` when `path` holds none of `..`, a NUL byte and `/.`.
pub fn sanitize_path(path: &[u8]) -> (r: Option<&[u8]>)
    ensures
        r is None <==> path_refused(path@),
        r matches Some(p) ==> p@ == path@,
{
    let parent = vec![DOT, DOT];
    let nul = vec![NUL];
    let hidden = vec![SLASH, DOT];
    assert(parent@ =~= parent_step());
    assert(nul@ =~= seq![NUL]);
    assert(hidden@ =~= hidden_step());
    if contains_bytes(path, parent.as_slice()) || contains_bytes(path, nul.as_slice())
        || contains_bytes(path, hidden.as_slice()) {
        None
    } else {
        Some(path)
    }
}

/// The path of the request line of `buffer`: the second word of its first line.
/// `None` when that line is not UTF-8 or has fewer than two words.
pub fn extract_path_from_buffer(buffer: &[u8]) -> (r: Option<Vec<u8>>)
    ensures
        r matches Some(p) ==> request_path(buffer@) == Some(p@),
        r is None ==> request_path(buffer@) is None,
{
    let mut end: usize = 0;
    while end < buffer.len() && buffer[end] != CR && buffer[end] != LF
        invariant
            0 <= end <= buffer@.len(),
            line_end_from(buffer@, 0) == line_end_from(buffer@, end as int),
        decreases buffer@.len() - end,
    {
        end += 1;
    }
    let line = slice_subrange(buffer, 0, end);
    if utf8_string(line).is_none() {
        return None;
    }
    let mut parts = split_words(line);
    if parts.len() < 2 {
        return None;
    }
    let ghost w = parts@;
    let mut parts_tail = parts.split_off(1);
    let path = parts_tail.swap_remove(0);
    assert(path@ == w[1]@);
    Some(path)
}

/// Whether the path of the request line of `buffer` starts with `/api/`; false
/// when there is no readable path.
pub fn is_api_request(buffer: &[u8]) -> (r: bool)
    ensures
        r == is_api(buffer@),
{
    match extract_path_from_buffer(buffer) {
        Some(path) => has_prefix(path.as_slice(), "/api/".as_bytes()),
        None => false,
    }
}

/// The parameters of a query string: `&`-separated pieces, each parted at its
/// first `=` into a name and a value, empty without `=`; a later piece wins.
pub fn query_to_map(query: &[u8]) -> (r: FieldMap)
    ensures
        r.wf(),
        r@ == query_params(query@),
{
    let pieces = split_bytes(query, AMPERSAND);
    proof {
        lemma_pieces_views(pieces@, split_on(query@, AMPERSAND));
    }
    let equals = vec![EQUALS];
    assert(equals@ =~= seq![EQUALS]);
    let mut map = FieldMap::new();
    let mut i: usize = 0;
    while i < pieces.len()
        invariant
            0 <= i <= pieces@.len(),
            equals@ == seq![EQUALS],
            views(pieces@) == split_on(query@, AMPERSAND),
            map.wf(),
            map@ == query_of(views(pieces@).subrange(0, i as int)),
        decreases pieces@.len() - i,
    {
        let piece = pieces[i].as_slice();
        let ghost before = views(pieces@).subrange(0, i as int);
        let ghost after = views(pieces@).subrange(0, i + 1);
        assert(after.drop_last() =~= before);
        assert(after.last() == piece@);
        let (name, value) = match find_bytes(piece, equals.as_slice()) {
            Some(k) => {
                proof {
                    lemma_find_from_in_bounds(piece@, seq![EQUALS], 0);
                    assert(occurs_at(piece@, seq![EQUALS], k as int));
                }
                let n = piece.len();
                (copy_range(piece, 0, k), copy_range(piece, k + 1, n))
            },
            None => (copy_range(piece, 0, piece.len()), Vec::new()),
        };
        assert(name@ =~= query_pair(piece@).0);
        assert(value@ =~= query_pair(piece@).1);
        map.insert(name, value);
        i += 1;
    }
    assert(views(pieces@).subrange(0, i as int) =~= views(pieces@));
    map
}

/// Takes a parsed request apart into its body, its path without the query, its
/// method, its query parameters and its headers.
pub fn extract_request_parts(parsed_request: ParsedRequest) -> (r: (
    UniversalBody,
    Vec<u8>,
    Vec<u8>,
    FieldMap,
    FieldMap,
))
    requires
        parsed_request.headers_wf(),
    ensures
        r.0@ == parsed_request.request_view().body,
        r.1@ == target_path(parsed_request.request_view().path),
        r.2@ == parsed_request.request_view().method,
        r.3.wf(),
        r.3@ == query_params(target_query(parsed_request.request_view().path)),
        r.4.wf(),
        r.4@ == parsed_request.request_view().headers,
{
    let (target, method, body, headers) = match parsed_request {
        ParsedRequest::Api(req) => (req.path, req.method, req.body, req.headers),
        ParsedRequest::HTTP(req) => (req.path, req.method, req.body, req.headers),
    };
    let question = vec![QUESTION];
    assert(question@ =~= seq![QUESTION]);
    let (path, query) = match find_bytes(target.as_slice(), question.as_slice()) {
        Some(i) => {
            proof {
                lemma_find_from_in_bounds(target@, seq![QUESTION], 0);
                assert(occurs_at(target@, seq![QUESTION], i as int));
            }
            let n = target.len();
            (copy_range(target.as_slice(), 0, i), copy_range(target.as_slice(), i + 1, n))
        },
        None => {
            let whole = copy_range(target.as_slice(), 0, target.len());
            assert(whole@ =~= target@);
            (whole, Vec::new())
        },
    };
    assert(query@ =~= target_query(target@));
    let query_map = query_to_map(query.as_slice());
    (body, path, method, query_map, headers)
}

/// The response for a request that failed: 400 when it was malformed, 408 when
/// the peer went away or was too slow, 500 otherwise.
pub fn error_handler(error: ParseError) -> (r: Vec<u8>)
    ensures
        r@ == error_page(error),
{
    match error {
        ParseError::MalformedRequest => handle_400(),
        ParseError::ConnectionAborted => handle_408(),
        ParseError::IoError => handle_500(),
    }
}

/// The response for a request that failed with `error`.
pub open spec fn error_page(error: ParseError) -> Seq<u8> {
    match error {
        ParseError::MalformedRequest => crate::routes::bad_request_page(),
        ParseError::ConnectionAborted => crate::routes::timeout_page(),
        ParseError::IoError => crate::response::server_error_wire(),
    }
}

} // verus!
