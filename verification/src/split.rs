//! Splitting text at a separator into a fixed number of pieces.
use crate::text::{lemma_first_occurrence, lemma_split_first_some, occurs, occurs_at, split_first, str_split_once};
use vstd::prelude::*;

verus! {

/// `s` cut at the first `n - 1` occurrences of `sep`, one after another: at
/// most `n` pieces, the last one holding the rest of the text.
#[verifier::opaque]
pub open spec fn pieces(s: Seq<char>, sep: Seq<char>, n: nat) -> Seq<Seq<char>>
    decreases n,
{
    if n <= 1 {
        seq![s]
    } else {
        match split_first(s, sep) {
            None => seq![s],
            Some((a, rest)) => seq![a] + pieces(rest, sep, (n - 1) as nat),
        }
    }
}

/// The `i`-th piece, if there is one.
pub open spec fn piece(ps: Seq<Seq<char>>, i: int) -> Option<Seq<char>> {
    if 0 <= i < ps.len() {
        Some(ps[i])
    } else {
        None
    }
}

/// The text of an optional slice.
pub open spec fn opt_text(o: Option<&str>) -> Option<Seq<char>> {
    match o {
        Some(x) => Some(x@),
        None => None,
    }
}

/// Pieces joined back with the separator between them.
pub open spec fn join_pieces(ps: Seq<Seq<char>>, sep: Seq<char>) -> Seq<char>
    decreases ps.len(),
{
    if ps.len() == 0 {
        Seq::empty()
    } else if ps.len() == 1 {
        ps[0]
    } else {
        ps[0] + sep + join_pieces(ps.drop_first(), sep)
    }
}

/// A text with the separator in it is cut at its first occurrence.
proof fn lemma_pieces_cons(s: Seq<char>, sep: Seq<char>, n: nat)
    requires
        n >= 2,
        split_first(s, sep) is Some,
    ensures
        pieces(s, sep, n) == seq![split_first(s, sep).unwrap().0] + pieces(
            split_first(s, sep).unwrap().1,
            sep,
            (n - 1) as nat,
        ),
{
    reveal(pieces);
}

/// A text without the separator, or that is not to be cut any more, is one piece.
proof fn lemma_pieces_stop(s: Seq<char>, sep: Seq<char>, n: nat)
    requires
        n <= 1 || split_first(s, sep) is None,
    ensures
        pieces(s, sep, n) == seq![s],
{
    reveal(pieces);
}

/// The text before and after the first occurrence of `sep`; nothing when `sep`
/// does not occur.
pub fn split_once<'a>(in_string: &'a str, sep: &str) -> (r: Option<(&'a str, &'a str)>)
    ensures
        r is Some == split_first(in_string@, sep@) is Some,
        r matches Some((a, b)) ==> split_first(in_string@, sep@) == Some((a@, b@)),
        r is Some == (pieces(in_string@, sep@, 2).len() == 2),
        r matches Some((a, b)) ==> a@ == pieces(in_string@, sep@, 2)[0] && b@ == pieces(in_string@, sep@, 2)[1],
{
    let r = str_split_once(in_string, sep);
    proof {
        lemma_split_first_some(in_string@, sep@);
        match split_first(in_string@, sep@) {
            Some((a, b)) => {
                lemma_pieces_cons(in_string@, sep@, 2);
                lemma_pieces_stop(b, sep@, 1);
            },
            None => lemma_pieces_stop(in_string@, sep@, 2),
        }
    }
    r
}

/// The three pieces around the first two occurrences of `sep`; nothing when
/// there are fewer.
pub fn split_twice<'a>(in_string: &'a str, sep: &str) -> (r: Option<(&'a str, &'a str, &'a str)>)
    ensures
        r is Some == (pieces(in_string@, sep@, 3).len() == 3),
        r matches Some((a, b, c)) ==> a@ == pieces(in_string@, sep@, 3)[0] && b@ == pieces(in_string@, sep@, 3)[1]
            && c@ == pieces(in_string@, sep@, 3)[2],
{
    let r0 = in_string;
    let (p0, r1) = match split_once(r0, sep) {
        None => {
            proof { lemma_pieces_stop(r0@, sep@, 3); }
            return None;
        },
        Some(x) => x,
    };
    proof { lemma_pieces_cons(r0@, sep@, 3); }
    let (p1, r2) = match split_once(r1, sep) {
        None => {
            proof { lemma_pieces_stop(r1@, sep@, 2); }
            return None;
        },
        Some(x) => x,
    };
    proof { lemma_pieces_cons(r1@, sep@, 2); }
    proof { lemma_pieces_stop(r2@, sep@, 1); }
    Some((p0, p1, r2))
}

/// The four pieces around the first three occurrences of `sep`; nothing when
/// there are fewer.
pub fn split_thrice<'a>(in_string: &'a str, sep: &str) -> (r: Option<(&'a str, &'a str, &'a str, &'a str)>)
    ensures
        r is Some == (pieces(in_string@, sep@, 4).len() == 4),
        r matches Some((a, b, c, d)) ==> a@ == pieces(in_string@, sep@, 4)[0] && b@ == pieces(in_string@, sep@, 4)[1]
            && c@ == pieces(in_string@, sep@, 4)[2] && d@ == pieces(in_string@, sep@, 4)[3],
{
    let r0 = in_string;
    let (p0, r1) = match split_once(r0, sep) {
        None => {
            proof { lemma_pieces_stop(r0@, sep@, 4); }
            return None;
        },
        Some(x) => x,
    };
    proof { lemma_pieces_cons(r0@, sep@, 4); }
    let (p1, r2) = match split_once(r1, sep) {
        None => {
            proof { lemma_pieces_stop(r1@, sep@, 3); }
            return None;
        },
        Some(x) => x,
    };
    proof { lemma_pieces_cons(r1@, sep@, 3); }
    let (p2, r3) = match split_once(r2, sep) {
        None => {
            proof { lemma_pieces_stop(r2@, sep@, 2); }
            return None;
        },
        Some(x) => x,
    };
    proof { lemma_pieces_cons(r2@, sep@, 2); }
    proof { lemma_pieces_stop(r3@, sep@, 1); }
    Some((p0, p1, p2, r3))
}

/// The five pieces around the first four occurrences of `sep`; nothing when
/// there are fewer.
pub fn split_quice<'a>(in_string: &'a str, sep: &str) -> (r: Option<(&'a str, &'a str, &'a str, &'a str, &'a str)>)
    ensures
        r is Some == (pieces(in_string@, sep@, 5).len() == 5),
        r matches Some((a, b, c, d, e)) ==> a@ == pieces(in_string@, sep@, 5)[0] && b@ == pieces(in_string@, sep@, 5)[1]
            && c@ == pieces(in_string@, sep@, 5)[2] && d@ == pieces(in_string@, sep@, 5)[3] && e@ == pieces(
            in_string@,
            sep@,
            5,
        )[4],
{
    let r0 = in_string;
    let (p0, r1) = match split_once(r0, sep) {
        None => {
            proof { lemma_pieces_stop(r0@, sep@, 5); }
            return None;
        },
        Some(x) => x,
    };
    proof { lemma_pieces_cons(r0@, sep@, 5); }
    let (p1, r2) = match split_once(r1, sep) {
        None => {
            proof { lemma_pieces_stop(r1@, sep@, 4); }
            return None;
        },
        Some(x) => x,
    };
    proof { lemma_pieces_cons(r1@, sep@, 4); }
    let (p2, r3) = match split_once(r2, sep) {
        None => {
            proof { lemma_pieces_stop(r2@, sep@, 3); }
            return None;
        },
        Some(x) => x,
    };
    proof { lemma_pieces_cons(r2@, sep@, 3); }
    let (p3, r4) = match split_once(r3, sep) {
        None => {
            proof { lemma_pieces_stop(r3@, sep@, 2); }
            return None;
        },
        Some(x) => x,
    };
    proof { lemma_pieces_cons(r3@, sep@, 2); }
    proof { lemma_pieces_stop(r4@, sep@, 1); }
    Some((p0, p1, p2, p3, r4))
}

/// The text before the first occurrence of `sep` and, if it occurs, the text after it.
pub fn split_once_maybe<'a>(in_string: &'a str, sep: &str) -> (r: (Option<&'a str>, Option<&'a str>))
    ensures
        opt_text(r.0) == piece(pieces(in_string@, sep@, 2), 0),
        opt_text(r.1) == piece(pieces(in_string@, sep@, 2), 1),
{
    let r0 = in_string;
    let (p0, r1) = match split_once(r0, sep) {
        None => {
            proof { lemma_pieces_stop(r0@, sep@, 2); }
            return (Some(r0), None);
        },
        Some(x) => x,
    };
    proof { lemma_pieces_cons(r0@, sep@, 2); }
    proof { lemma_pieces_stop(r1@, sep@, 1); }
    (Some(p0), Some(r1))
}

/// Up to three pieces around the first two occurrences of `sep`; the pieces
/// that are not there are `None`.
pub fn split_twice_maybe<'a>(in_string: &'a str, sep: &str) -> (r: (Option<&'a str>, Option<&'a str>, Option<&'a str>))
    ensures
        opt_text(r.0) == piece(pieces(in_string@, sep@, 3), 0),
        opt_text(r.1) == piece(pieces(in_string@, sep@, 3), 1),
        opt_text(r.2) == piece(pieces(in_string@, sep@, 3), 2),
{
    let r0 = in_string;
    let (p0, r1) = match split_once(r0, sep) {
        None => {
            proof { lemma_pieces_stop(r0@, sep@, 3); }
            return (Some(r0), None, None);
        },
        Some(x) => x,
    };
    proof { lemma_pieces_cons(r0@, sep@, 3); }
    let (p1, r2) = match split_once(r1, sep) {
        None => {
            proof { lemma_pieces_stop(r1@, sep@, 2); }
            return (Some(p0), Some(r1), None);
        },
        Some(x) => x,
    };
    proof { lemma_pieces_cons(r1@, sep@, 2); }
    proof { lemma_pieces_stop(r2@, sep@, 1); }
    (Some(p0), Some(p1), Some(r2))
}

/// Up to four pieces around the first three occurrences of `sep`; the pieces
/// that are not there are `None`.
pub fn split_thrice_maybe<'a>(in_string: &'a str, sep: &str) -> (r: (
    Option<&'a str>,
    Option<&'a str>,
    Option<&'a str>,
    Option<&'a str>,
))
    ensures
        opt_text(r.0) == piece(pieces(in_string@, sep@, 4), 0),
        opt_text(r.1) == piece(pieces(in_string@, sep@, 4), 1),
        opt_text(r.2) == piece(pieces(in_string@, sep@, 4), 2),
        opt_text(r.3) == piece(pieces(in_string@, sep@, 4), 3),
{
    let r0 = in_string;
    let (p0, r1) = match split_once(r0, sep) {
        None => {
            proof { lemma_pieces_stop(r0@, sep@, 4); }
            return (Some(r0), None, None, None);
        },
        Some(x) => x,
    };
    proof { lemma_pieces_cons(r0@, sep@, 4); }
    let (p1, r2) = match split_once(r1, sep) {
        None => {
            proof { lemma_pieces_stop(r1@, sep@, 3); }
            return (Some(p0), Some(r1), None, None);
        },
        Some(x) => x,
    };
    proof { lemma_pieces_cons(r1@, sep@, 3); }
    let (p2, r3) = match split_once(r2, sep) {
        None => {
            proof { lemma_pieces_stop(r2@, sep@, 2); }
            return (Some(p0), Some(p1), Some(r2), None);
        },
        Some(x) => x,
    };
    proof { lemma_pieces_cons(r2@, sep@, 2); }
    proof { lemma_pieces_stop(r3@, sep@, 1); }
    (Some(p0), Some(p1), Some(p2), Some(r3))
}

/// Up to five pieces around the first four occurrences of `sep`; the pieces
/// that are not there are `None`.
pub fn split_quice_maybe<'a>(in_string: &'a str, sep: &str) -> (r: (
    Option<&'a str>,
    Option<&'a str>,
    Option<&'a str>,
    Option<&'a str>,
    Option<&'a str>,
))
    ensures
        opt_text(r.0) == piece(pieces(in_string@, sep@, 5), 0),
        opt_text(r.1) == piece(pieces(in_string@, sep@, 5), 1),
        opt_text(r.2) == piece(pieces(in_string@, sep@, 5), 2),
        opt_text(r.3) == piece(pieces(in_string@, sep@, 5), 3),
        opt_text(r.4) == piece(pieces(in_string@, sep@, 5), 4),
{
    let r0 = in_string;
    let (p0, r1) = match split_once(r0, sep) {
        None => {
            proof { lemma_pieces_stop(r0@, sep@, 5); }
            return (Some(r0), None, None, None, None);
        },
        Some(x) => x,
    };
    proof { lemma_pieces_cons(r0@, sep@, 5); }
    let (p1, r2) = match split_once(r1, sep) {
        None => {
            proof { lemma_pieces_stop(r1@, sep@, 4); }
            return (Some(p0), Some(r1), None, None, None);
        },
        Some(x) => x,
    };
    proof { lemma_pieces_cons(r1@, sep@, 4); }
    let (p2, r3) = match split_once(r2, sep) {
        None => {
            proof { lemma_pieces_stop(r2@, sep@, 3); }
            return (Some(p0), Some(p1), Some(r2), None, None);
        },
        Some(x) => x,
    };
    proof { lemma_pieces_cons(r2@, sep@, 3); }
    let (p3, r4) = match split_once(r3, sep) {
        None => {
            proof { lemma_pieces_stop(r3@, sep@, 2); }
            return (Some(p0), Some(p1), Some(p2), Some(r3), None);
        },
        Some(x) => x,
    };
    proof { lemma_pieces_cons(r3@, sep@, 2); }
    proof { lemma_pieces_stop(r4@, sep@, 1); }
    (Some(p0), Some(p1), Some(p2), Some(p3), Some(r4))
}

/// Splitting at the first occurrence of a separator cuts the text there: the
/// pieces joined with the separator give the text back, and the separator
/// does not start anywhere before the cut.
pub proof fn lemma_split_first_rejoins(s: Seq<char>, sep: Seq<char>)
    requires
        split_first(s, sep) is Some,
    ensures
        split_first(s, sep).unwrap().0 + sep + split_first(s, sep).unwrap().1 == s,
        forall|j: int| 0 <= j < split_first(s, sep).unwrap().0.len() ==> !occurs_at(s, sep, j),
{
    reveal(split_first);
    lemma_first_occurrence(s, sep);
    let (a, b) = split_first(s, sep).unwrap();
    let i = a.len() as int;
    assert(occurs_at(s, sep, i));
    assert(a + sep + b =~= s);
}

/// However many pieces a text is cut into, joining them back with the
/// separator gives the text.
pub proof fn lemma_pieces_rejoin(s: Seq<char>, sep: Seq<char>, n: nat)
    ensures
        join_pieces(pieces(s, sep, n), sep) == s,
        1 <= pieces(s, sep, n).len() <= if n == 0 { 1 } else { n },
    decreases n,
{
    if n <= 1 || split_first(s, sep) is None {
        lemma_pieces_stop(s, sep, n);
    } else {
        let (a, rest) = split_first(s, sep).unwrap();
        lemma_split_first_rejoins(s, sep);
        lemma_pieces_rejoin(rest, sep, (n - 1) as nat);
        lemma_pieces_cons(s, sep, n);
        let tail = pieces(rest, sep, (n - 1) as nat);
        let ps = pieces(s, sep, n);
        assert(ps.drop_first() =~= tail);
        assert(ps.len() >= 2);
        assert(join_pieces(ps, sep) == ps[0] + sep + join_pieces(ps.drop_first(), sep));
    }
}

/// The text before the first occurrence of a non-empty separator holds no
/// occurrence of it.
pub proof fn lemma_split_first_head_clear(s: Seq<char>, sep: Seq<char>)
    requires
        sep.len() > 0,
        split_first(s, sep) is Some,
    ensures
        !occurs(split_first(s, sep).unwrap().0, sep),
{
    lemma_split_first_rejoins(s, sep);
    let a = split_first(s, sep).unwrap().0;
    let b = split_first(s, sep).unwrap().1;
    assert(a + sep + b == s);
    if occurs(a, sep) {
        let j = choose|j: int| occurs_at(a, sep, j);
        assert(s.subrange(j, j + sep.len()) =~= a.subrange(j, j + sep.len()));
        assert(occurs_at(s, sep, j));
        assert(j < a.len());
    }
}

/// Every piece but the last holds no occurrence of a non-empty separator: the
/// text is cut at the first occurrences, one after another.
pub proof fn lemma_pieces_clear(s: Seq<char>, sep: Seq<char>, n: nat)
    requires
        sep.len() > 0,
    ensures
        forall|i: int| 0 <= i < pieces(s, sep, n).len() - 1 ==> !occurs(#[trigger] pieces(s, sep, n)[i], sep),
    decreases n,
{
    if n <= 1 || split_first(s, sep) is None {
        lemma_pieces_stop(s, sep, n);
    } else {
        let (a, rest) = split_first(s, sep).unwrap();
        lemma_split_first_head_clear(s, sep);
        lemma_pieces_clear(rest, sep, (n - 1) as nat);
        lemma_pieces_cons(s, sep, n);
        let tail = pieces(rest, sep, (n - 1) as nat);
        let ps = pieces(s, sep, n);
        assert forall|i: int| 0 <= i < ps.len() - 1 implies !occurs(#[trigger] ps[i], sep) by {
            if i > 0 {
                assert(ps[i] == tail[i - 1]);
            }
        }
    }
}

/// When `split_thrice` cuts a text at a non-empty separator, its four parts
/// joined with the separator give the text back, and none of the first three
/// holds the separator.
pub proof fn lemma_split_thrice_parts(s: Seq<char>, sep: Seq<char>)
    requires
        sep.len() > 0,
        pieces(s, sep, 4).len() == 4,
    ensures
        pieces(s, sep, 4)[0] + sep + pieces(s, sep, 4)[1] + sep + pieces(s, sep, 4)[2] + sep + pieces(s, sep, 4)[3] == s,
        !occurs(pieces(s, sep, 4)[0], sep),
        !occurs(pieces(s, sep, 4)[1], sep),
        !occurs(pieces(s, sep, 4)[2], sep),
{
    let ps = pieces(s, sep, 4);
    lemma_pieces_rejoin(s, sep, 4);
    lemma_pieces_clear(s, sep, 4);
    assert(!occurs(ps[0], sep));
    assert(!occurs(ps[1], sep));
    assert(!occurs(ps[2], sep));
    let t1 = ps.drop_first();
    let t2 = t1.drop_first();
    let t3 = t2.drop_first();
    assert(t3.len() == 1 && t3[0] == ps[3]);
    assert(join_pieces(t3, sep) == ps[3]);
    assert(join_pieces(t2, sep) == ps[2] + sep + ps[3]);
    assert(join_pieces(t1, sep) == ps[1] + sep + (ps[2] + sep + ps[3]));
    assert(join_pieces(ps, sep) == ps[0] + sep + (ps[1] + sep + (ps[2] + sep + ps[3])));
    assert(ps[0] + sep + ps[1] + sep + ps[2] + sep + ps[3] =~= ps[0] + sep + (ps[1] + sep + (ps[2] + sep + ps[3])));
}

} // verus!
