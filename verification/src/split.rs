//! Lists of codes, written as one string with `+` between the codes.

use crate::code::code_texts;
use vstd::prelude::*;
use vstd::string::*;

verus! {

/// The character that stands between two codes of a list.
pub const SEPARATOR: char = '+';

/// The pieces in order, each followed by a separator.
pub open spec fn terminated(pieces: Seq<Seq<char>>) -> Seq<char>
    decreases pieces.len(),
{
    if pieces.len() == 0 {
        Seq::empty()
    } else {
        terminated(pieces.drop_last()) + pieces.last() + seq![SEPARATOR]
    }
}

/// The pieces in order, with a separator between each two.
pub open spec fn joined(pieces: Seq<Seq<char>>) -> Seq<char> {
    if pieces.len() == 0 {
        Seq::empty()
    } else {
        terminated(pieces.drop_last()) + pieces.last()
    }
}

/// Whether `text` holds no separator.
pub open spec fn plain(text: Seq<char>) -> bool {
    forall|j: int| 0 <= j < text.len() ==> #[trigger] text[j] != SEPARATOR
}

/// Whether none of the pieces holds a separator.
pub open spec fn separator_free(pieces: Seq<Seq<char>>) -> bool {
    forall|i: int| 0 <= i < pieces.len() ==> plain(#[trigger] pieces[i])
}

/// Whether `text` is empty or ends in a separator.
spec fn closed_off(text: Seq<char>) -> bool {
    text.len() == 0 || text.last() == SEPARATOR
}

/// Pieces that are each followed by a separator make a text that is empty or
/// ends in one.
proof fn lemma_terminated_closed_off(pieces: Seq<Seq<char>>)
    ensures
        closed_off(terminated(pieces)),
        pieces.len() > 0 ==> terminated(pieces).len() > 0,
{
}

/// A text falls in one way only into a part that is empty or ends in a
/// separator and a part without separator.
proof fn lemma_tail_unique(u: Seq<char>, p: Seq<char>, v: Seq<char>, q: Seq<char>)
    requires
        u + p == v + q,
        closed_off(u),
        closed_off(v),
        plain(p),
        plain(q),
    ensures
        u == v,
        p == q,
{
    let text = u + p;
    assert(text.len() == u.len() + p.len());
    assert(text.len() == v.len() + q.len());
    if u.len() > v.len() {
        let at = u.len() - 1;
        assert(text[at] == u[at]);
        assert((v + q)[at] == q[at - v.len()]);
        assert(false);
    }
    if v.len() > u.len() {
        let at = v.len() - 1;
        assert((v + q)[at] == v[at]);
        assert(text[at] == p[at - u.len()]);
        assert(false);
    }
    assert(u =~= text.subrange(0, u.len() as int));
    assert(v =~= (v + q).subrange(0, v.len() as int));
    assert(p =~= text.subrange(u.len() as int, text.len() as int));
    assert(q =~= (v + q).subrange(v.len() as int, text.len() as int));
}

/// Lists of pieces without separator that give the same text, each piece
/// followed by a separator, are the same list.
proof fn lemma_terminated_unique(a: Seq<Seq<char>>, b: Seq<Seq<char>>)
    requires
        separator_free(a),
        separator_free(b),
        terminated(a) == terminated(b),
    ensures
        a == b,
    decreases a.len(),
{
    lemma_terminated_closed_off(a);
    lemma_terminated_closed_off(b);
    if a.len() == 0 || b.len() == 0 {
        assert(a =~= b);
    } else {
        let head_a = terminated(a.drop_last()) + a.last();
        let head_b = terminated(b.drop_last()) + b.last();
        assert(terminated(a) == head_a + seq![SEPARATOR]);
        assert(terminated(b) == head_b + seq![SEPARATOR]);
        assert(head_a =~= terminated(a).drop_last());
        assert(head_b =~= terminated(b).drop_last());
        lemma_last_piece_unique(a, b);
        lemma_terminated_unique(a.drop_last(), b.drop_last());
        assert(a =~= a.drop_last().push(a.last()));
        assert(b =~= b.drop_last().push(b.last()));
    }
}

/// Lists of pieces without separator whose last pieces, after the rest with
/// a separator behind each piece, give the same text, end in the same piece
/// and agree on the text before it.
proof fn lemma_last_piece_unique(a: Seq<Seq<char>>, b: Seq<Seq<char>>)
    requires
        a.len() >= 1,
        b.len() >= 1,
        separator_free(a),
        separator_free(b),
        terminated(a.drop_last()) + a.last() == terminated(b.drop_last()) + b.last(),
    ensures
        a.last() == b.last(),
        terminated(a.drop_last()) == terminated(b.drop_last()),
        separator_free(a.drop_last()),
        separator_free(b.drop_last()),
{
    lemma_terminated_closed_off(a.drop_last());
    lemma_terminated_closed_off(b.drop_last());
    assert(plain(a[a.len() - 1]));
    assert(plain(b[b.len() - 1]));
    lemma_tail_unique(terminated(a.drop_last()), a.last(), terminated(b.drop_last()), b.last());
    assert forall|i: int| 0 <= i < a.drop_last().len() implies plain(
        #[trigger] a.drop_last()[i],
    ) by {
        assert(plain(a[i]));
    }
    assert forall|i: int| 0 <= i < b.drop_last().len() implies plain(
        #[trigger] b.drop_last()[i],
    ) by {
        assert(plain(b[i]));
    }
}

/// A text is split in one way only: two lists of pieces without separator
/// that join to the same text are the same list.
pub proof fn lemma_split_unique(a: Seq<Seq<char>>, b: Seq<Seq<char>>)
    requires
        a.len() >= 1,
        b.len() >= 1,
        separator_free(a),
        separator_free(b),
        joined(a) == joined(b),
    ensures
        a == b,
{
    lemma_last_piece_unique(a, b);
    lemma_terminated_unique(a.drop_last(), b.drop_last());
    assert(a =~= a.drop_last().push(a.last()));
    assert(b =~= b.drop_last().push(b.last()));
}

/// Joining puts one separator between each two pieces: a list of one piece
/// joins to that piece, and a further piece adds a separator and itself.
pub proof fn lemma_joined_push(pieces: Seq<Seq<char>>, piece: Seq<char>)
    requires
        pieces.len() >= 1,
    ensures
        joined(seq![piece]) == piece,
        joined(pieces.push(piece)) == joined(pieces) + seq![SEPARATOR] + piece,
{
    assert(seq![piece].drop_last() =~= Seq::<Seq<char>>::empty());
    assert(joined(seq![piece]) =~= piece);
    assert(pieces.push(piece).drop_last() =~= pieces);
}

/// Splits `list` at each separator. The pieces, of which there is at least
/// one, hold no separator, and joined again they give `list`: a list without
/// separator is one piece, and an empty piece stands on either side of a
/// separator that has nothing next to it.
pub fn split_codes(list: &str) -> (codes: Vec<&str>)
    ensures
        codes@.len() >= 1,
        separator_free(code_texts(codes@)),
        joined(code_texts(codes@)) == list@,
{
    let n = list.unicode_len();
    let mut codes: Vec<&str> = Vec::new();
    let mut start: usize = 0;
    let mut i: usize = 0;
    while i < n
        invariant
            n == list@.len(),
            start <= i <= n,
            separator_free(code_texts(codes@)),
            forall|j: int| start <= j < i ==> list@[j] != SEPARATOR,
            terminated(code_texts(codes@)) + list@.subrange(start as int, i as int)
                == list@.subrange(0, i as int),
        decreases n - i,
    {
        if list.get_char(i) == SEPARATOR {
            let piece = list.substring_char(start, i);
            proof {
                let before = code_texts(codes@);
                let after = code_texts(codes@.push(piece));
                assert(after =~= before.push(piece@));
                assert(after.drop_last() =~= before);
                assert(list@.subrange(0, i + 1) =~= list@.subrange(0, i as int) + seq![SEPARATOR]);
                assert(list@.subrange(i + 1, i + 1) =~= Seq::<char>::empty());
                assert(terminated(after) + Seq::<char>::empty() =~= terminated(after));
            }
            codes.push(piece);
            start = i + 1;
        } else {
            proof {
                assert(list@.subrange(start as int, i + 1) =~= list@.subrange(
                    start as int,
                    i as int,
                ) + seq![list@[i as int]]);
                assert(list@.subrange(0, i + 1) =~= list@.subrange(0, i as int) + seq![
                    list@[i as int],
                ]);
                assert(terminated(code_texts(codes@)) + (list@.subrange(start as int, i as int)
                    + seq![list@[i as int]]) =~= (terminated(code_texts(codes@))
                    + list@.subrange(start as int, i as int)) + seq![list@[i as int]]);
            }
        }
        i += 1;
    }
    let piece = list.substring_char(start, n);
    proof {
        let before = code_texts(codes@);
        let after = code_texts(codes@.push(piece));
        assert(after =~= before.push(piece@));
        assert(after.drop_last() =~= before);
        assert(list@.subrange(0, n as int) =~= list@);
    }
    codes.push(piece);
    codes
}

} // verus!
