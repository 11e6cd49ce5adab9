use vstd::prelude::*;

use crate::routing::{lemma_pair_views_push, pair_views};
use crate::text::{split_all, split_on};

verus! {

/// The index of the first `c` in `s` at or after `i`, or the length of `s`.
pub open spec fn index_of_from(s: Seq<char>, c: char, i: int) -> int
    decreases s.len() - i,
{
    if i < 0 || i >= s.len() {
        s.len() as int
    } else if s[i] == c {
        i
    } else {
        index_of_from(s, c, i + 1)
    }
}

/// A `name=value` piece of a query string split at its first `=`; a piece
/// without `=` is a name with an empty value.
pub open spec fn query_pair(piece: Seq<char>) -> (Seq<char>, Seq<char>) {
    let p = index_of_from(piece, '=', 0);
    if p < piece.len() {
        (piece.take(p), piece.skip(p + 1))
    } else {
        (piece, Seq::empty())
    }
}

/// The pairs of a query string: one for each `&`-separated piece, in order.
pub open spec fn query_pairs(q: Seq<char>) -> Seq<(Seq<char>, Seq<char>)> {
    split_all(q, '&').map_values(|piece: Seq<char>| query_pair(piece))
}

/// Splits one query piece at its first `=`.
pub fn split_pair(piece: &str) -> (r: (String, String))
    ensures
        (r.0@, r.1@) == query_pair(piece@),
{
    let n = piece.unicode_len();
    let mut i: usize = 0;
    while i < n
        invariant
            n == piece@.len(),
            i <= n,
            index_of_from(piece@, '=', 0) == index_of_from(piece@, '=', i as int),
        decreases n - i,
    {
        if piece.get_char(i) == '=' {
            let name = piece.substring_char(0, i).to_owned();
            let value = piece.substring_char(i + 1, n).to_owned();
            proof {
                assert(name@ =~= piece@.take(i as int));
                assert(value@ =~= piece@.skip(i + 1));
            }
            return (name, value);
        }
        i = i + 1;
    }
    (piece.to_owned(), String::new())
}

/// The name/value pairs of a request's query string, in order; no query gives none.
pub fn parse_query(query: Option<&str>) -> (r: Vec<(String, String)>)
    ensures
        match query {
            None => r@.len() == 0,
            Some(q) => pair_views(r@) == query_pairs(q@),
        },
{
    match query {
        None => Vec::new(),
        Some(q) => {
            let pieces = split_on(q, '&');
            let mut out: Vec<(String, String)> = Vec::new();
            let mut i: usize = 0;
            while i < pieces.len()
                invariant
                    i <= pieces@.len(),
                    crate::text::views(pieces@) == split_all(q@, '&'),
                    pair_views(out@) == query_pairs(q@).take(i as int),
                decreases pieces@.len() - i,
            {
                let pair = split_pair(pieces[i].as_str());
                proof {
                    assert(crate::text::views(pieces@)[i as int] == pieces@[i as int]@);
                    assert(query_pairs(q@)[i as int] == query_pair(pieces@[i as int]@));
                    assert(query_pairs(q@).len() == pieces@.len());
                    lemma_pair_views_push(out@, pair);
                    assert(pair_views(out@.push(pair)) =~= query_pairs(q@).take(i + 1));
                }
                out.push(pair);
                i = i + 1;
            }
            proof {
                assert(query_pairs(q@).take(pieces@.len() as int) =~= query_pairs(q@));
            }
            out
        },
    }
}

} // verus!
