use vstd::prelude::*;

verus! {

/// The pieces of `s` between occurrences of `sep`, empty pieces included:
/// a string with `n` separators has `n + 1` pieces.
pub open spec fn split_all(s: Seq<char>, sep: char) -> Seq<Seq<char>>
    decreases s.len(),
{
    if s.len() == 0 {
        seq![Seq::<char>::empty()]
    } else {
        let prev = split_all(s.drop_last(), sep);
        if s.last() == sep {
            prev.push(Seq::<char>::empty())
        } else {
            prev.update(prev.len() - 1, prev.last().push(s.last()))
        }
    }
}

/// The members of `pieces` that are not empty, in their order.
pub open spec fn non_empty(pieces: Seq<Seq<char>>) -> Seq<Seq<char>>
    decreases pieces.len(),
{
    if pieces.len() == 0 {
        Seq::empty()
    } else {
        let rest = non_empty(pieces.drop_last());
        if pieces.last().len() > 0 {
            rest.push(pieces.last())
        } else {
            rest
        }
    }
}

/// `parts` with `sep` between each two neighbours.
pub open spec fn join(parts: Seq<Seq<char>>, sep: Seq<char>) -> Seq<char>
    decreases parts.len(),
{
    if parts.len() == 0 {
        Seq::empty()
    } else if parts.len() == 1 {
        parts[0]
    } else {
        join(parts.drop_last(), sep) + sep + parts.last()
    }
}

/// The character sequences that a list of strings holds.
pub open spec fn views(v: Seq<String>) -> Seq<Seq<char>> {
    v.map_values(|s: String| s@)
}

pub proof fn lemma_views_push(v: Seq<String>, s: String)
    ensures
        views(v.push(s)) == views(v).push(s@),
{
    assert(views(v.push(s)) =~= views(v).push(s@));
}

/// Splits `s` at every `sep`; empty pieces are kept.
pub fn split_on(s: &str, sep: char) -> (r: Vec<String>)
    ensures
        views(r@) == split_all(s@, sep),
{
    let n = s.unicode_len();
    let mut out: Vec<String> = Vec::new();
    let mut start: usize = 0;
    let mut j: usize = 0;
    proof {
        assert(s@.take(0) =~= Seq::<char>::empty());
        assert(views(out@) =~= Seq::<Seq<char>>::empty());
        assert(s@.subrange(0, 0) =~= Seq::<char>::empty());
        assert(split_all(Seq::<char>::empty(), sep) =~= views(out@).push(Seq::<char>::empty()));
    }
    while j < n
        invariant
            n == s@.len(),
            start <= j <= n,
            split_all(s@.take(j as int), sep) == views(out@).push(
                s@.subrange(start as int, j as int),
            ),
        decreases n - j,
    {
        let c = s.get_char(j);
        proof {
            assert(s@.take(j + 1).drop_last() =~= s@.take(j as int));
            assert(s@.take(j + 1).last() == c);
        }
        if c == sep {
            let piece = s.substring_char(start, j).to_owned();
            proof {
                lemma_views_push(out@, piece);
                assert(s@.subrange((j + 1) as int, (j + 1) as int) =~= Seq::<char>::empty());
            }
            out.push(piece);
            start = j + 1;
        } else {
            proof {
                let prev = split_all(s@.take(j as int), sep);
                assert(prev.last().push(c) =~= s@.subrange(start as int, (j + 1) as int));
                assert(prev.update(prev.len() - 1, prev.last().push(c)) =~= views(out@).push(
                    s@.subrange(start as int, (j + 1) as int),
                ));
            }
        }
        j = j + 1;
    }
    let last = s.substring_char(start, n).to_owned();
    proof {
        lemma_views_push(out@, last);
        assert(s@.take(n as int) =~= s@);
    }
    out.push(last);
    out
}

/// Keeps the non-empty strings of `pieces`, in their order.
pub fn keep_non_empty(pieces: &Vec<String>) -> (r: Vec<String>)
    ensures
        views(r@) == non_empty(views(pieces@)),
{
    let mut out: Vec<String> = Vec::new();
    let mut i: usize = 0;
    while i < pieces.len()
        invariant
            i <= pieces@.len(),
            views(out@) == non_empty(views(pieces@).take(i as int)),
        decreases pieces@.len() - i,
    {
        proof {
            assert(views(pieces@).take(i + 1).drop_last() =~= views(pieces@).take(i as int));
            assert(views(pieces@).take(i + 1).last() == pieces@[i as int]@);
        }
        if pieces[i].unicode_len() > 0 {
            let p = pieces[i].clone();
            proof {
                lemma_views_push(out@, p);
            }
            out.push(p);
        }
        i = i + 1;
    }
    proof {
        assert(views(pieces@).take(pieces@.len() as int) =~= views(pieces@));
    }
    out
}

/// The non-empty pieces of `s` between occurrences of `sep`.
pub fn segments_of(s: &str, sep: char) -> (r: Vec<String>)
    ensures
        views(r@) == non_empty(split_all(s@, sep)),
{
    let pieces = split_on(s, sep);
    keep_non_empty(&pieces)
}

/// Joins `parts[from..]` with `sep` between each two neighbours.
pub fn join_from(parts: &Vec<String>, from: usize, sep: &str) -> (r: String)
    requires
        from <= parts@.len(),
    ensures
        r@ == join(views(parts@).subrange(from as int, parts@.len() as int), sep@),
{
    let mut out = String::new();
    let mut i: usize = from;
    while i < parts.len()
        invariant
            from <= i <= parts@.len(),
            out@ == join(views(parts@).subrange(from as int, i as int), sep@),
        decreases parts@.len() - i,
    {
        let ghost before = views(parts@).subrange(from as int, i as int);
        let ghost after = views(parts@).subrange(from as int, i + 1);
        proof {
            assert(after.drop_last() =~= before);
            assert(after.last() == parts@[i as int]@);
        }
        if i > from {
            out.append(sep);
        }
        out.append(parts[i].as_str());
        proof {
            if i == from {
                assert(out@ =~= after[0]);
            }
        }
        i = i + 1;
    }
    out
}

} // verus!
