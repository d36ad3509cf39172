//! Exploding a mesh into fragments by slicing it again and again.
//!
//! Each piece is cut in two by the caller's `split` function (which slices the mesh
//! along a random plane); what is verified here is the bookkeeping of the rounds.
use vstd::prelude::*;

verus! {

/// The number of slicing rounds tried before an explosion gives up.
pub const MAX_ITERATIONS: usize = 10;

/// A request to explode an entity's meshes into fragments.
pub struct ExplodeMesh {
    /// The number of fragments to create.
    pub fragment_count: usize,
}

impl Default for ExplodeMesh {
    fn default() -> (r: ExplodeMesh)
        ensures
            r.fragment_count == 4,
    {
        ExplodeMesh { fragment_count: 4 }
    }
}

/// `a` and `b` are the two halves that `split` gave for some piece.
pub open spec fn split_pair<M, F: Fn(M) -> Option<(M, M)>>(split: F, a: M, b: M) -> bool {
    exists|piece: M| #[trigger] split.ensures((piece,), Some((a, b)))
}

/// The fragments come in pairs, each pair the two halves of one split.
pub open spec fn paired_halves<M, F: Fn(M) -> Option<(M, M)>>(split: F, fragments: Seq<M>) -> bool {
    &&& fragments.len() % 2 == 0
    &&& forall|k: int|
        0 <= k < fragments.len() / 2 ==> split_pair(split, #[trigger] fragments[2 * k], fragments[2 * k + 1])
}

/// `fragments` is what one round makes of `pieces`: each piece, first to last, is
/// handed to `split`, and the two halves it gives are appended; a piece that it cannot
/// split adds nothing.
pub open spec fn split_round_of<M, F: Fn(M) -> Option<(M, M)>>(
    split: F,
    pieces: Seq<M>,
    fragments: Seq<M>,
) -> bool
    decreases pieces.len(),
{
    if pieces.len() == 0 {
        fragments.len() == 0
    } else {
        let piece = pieces.last();
        let earlier = pieces.drop_last();
        let n = fragments.len();
        ||| split.ensures((piece,), None) && split_round_of(split, earlier, fragments)
        ||| n >= 2 && split.ensures((piece,), Some((fragments[n - 2], fragments[n - 1])))
            && split_round_of(split, earlier, fragments.subrange(0, n - 2))
    }
}

/// `r` is an outcome of exploding `pieces` in at most `rounds` rounds: each round
/// splits every piece; the explosion succeeds with the fragments of the first round
/// that makes at least `count` of them, fails when a round makes none, and fails when
/// the rounds run out.
pub open spec fn explosion<M, F: Fn(M) -> Option<(M, M)>>(
    split: F,
    pieces: Seq<M>,
    count: nat,
    rounds: nat,
    r: Option<Seq<M>>,
) -> bool
    decreases rounds,
{
    if rounds == 0 {
        r is None
    } else {
        exists|fragments: Seq<M>|
            #[trigger] split_round_of(split, pieces, fragments) && (if fragments.len() >= count {
                r == Some(fragments)
            } else if fragments.len() == 0 {
                r is None
            } else {
                explosion(split, fragments, count, (rounds - 1) as nat, r)
            })
    }
}

/// Splits every piece of the queue once, first to last; pieces that cannot be split
/// are dropped.
fn split_round<M, F: Fn(M) -> Option<(M, M)>>(queue: Vec<M>, split: &F) -> (r: Vec<M>)
    requires
        forall|m: M| #[trigger] split.requires((m,)),
    ensures
        split_round_of(*split, queue@, r@),
        paired_halves(*split, r@),
        r@.len() <= 2 * queue@.len(),
{
    let ghost pieces = queue@;
    let mut queue = queue;
    let mut fragments: Vec<M> = Vec::new();
    let ghost mut done: int = 0;
    while queue.len() > 0
        invariant
            forall|m: M| #[trigger] split.requires((m,)),
            0 <= done <= pieces.len(),
            queue@ == pieces.skip(done),
            split_round_of(*split, pieces.take(done), fragments@),
            paired_halves(*split, fragments@),
            fragments@.len() + 2 * queue@.len() <= 2 * pieces.len(),
        decreases queue@.len(),
    {
        let piece = queue.remove(0);
        let ghost before = fragments@;
        proof {
            assert(piece == pieces[done]);
            assert(pieces.take(done + 1).drop_last() == pieces.take(done));
            assert(pieces.take(done + 1).last() == piece);
        }
        match split(piece) {
            None => {},
            Some((a, b)) => {
                fragments.push(a);
                fragments.push(b);
                proof {
                    assert(split.ensures((piece,), Some((a, b))));
                    assert(split_pair(*split, a, b));
                    let n = before.len() / 2;
                    assert(fragments@.len() / 2 == n + 1);
                    assert(fragments@.subrange(0, fragments@.len() - 2) == before);
                    assert forall|k: int|
                        0 <= k < fragments@.len() / 2 implies split_pair(
                        *split,
                        #[trigger] fragments@[2 * k],
                        fragments@[2 * k + 1],
                    ) by {
                        if k < n {
                            assert(fragments@[2 * k] == before[2 * k]);
                            assert(fragments@[2 * k + 1] == before[2 * k + 1]);
                        } else {
                            assert(k == n);
                        }
                    }
                }
            },
        }
        proof {
            done = done + 1;
            assert(queue@ == pieces.skip(done));
        }
    }
    proof {
        assert(pieces.take(done) == pieces);
    }
    fragments
}

/// Explodes a mesh into at least `fragment_count` fragments: in each of at most
/// `max_iterations` rounds every piece is split in two. Succeeds as soon as a round
/// yields at least `fragment_count` fragments (with a count of zero, the first round
/// succeeds whatever it yields, even nothing); otherwise fails when a round yields
/// none or the rounds run out.
pub fn explode_mesh<M, F: Fn(M) -> Option<(M, M)>>(
    mesh: M,
    fragment_count: usize,
    max_iterations: usize,
    split: &F,
) -> (r: Option<Vec<M>>)
    requires
        forall|m: M| #[trigger] split.requires((m,)),
    ensures
        explosion(
            *split,
            seq![mesh],
            fragment_count as nat,
            max_iterations as nat,
            match r {
                Some(v) => Some(v@),
                None => None,
            },
        ),
        max_iterations == 0 ==> r is None,
        (max_iterations > 0 && fragment_count == 0) ==> r is Some,
        r matches Some(v) ==> v@.len() >= fragment_count && paired_halves(*split, v@),
{
    let mut queue: Vec<M> = Vec::new();
    queue.push(mesh);
    let ghost count = fragment_count as nat;
    let ghost start = queue@;
    assert(start == seq![mesh]);
    let mut i: usize = 0;
    while i < max_iterations
        invariant
            forall|m: M| #[trigger] split.requires((m,)),
            0 <= i <= max_iterations,
            fragment_count == 0 ==> i == 0,
            count == fragment_count as nat,
            start == seq![mesh],
            forall|out: Option<Seq<M>>|
                #[trigger] explosion(*split, queue@, count, (max_iterations - i) as nat, out)
                    ==> explosion(*split, start, count, max_iterations as nat, out),
        decreases max_iterations - i,
    {
        let fragments = split_round(queue, split);
        let ghost left = (max_iterations - i) as nat;
        let ghost pieces = queue@;
        if fragments.len() >= fragment_count {
            proof {
                assert(split_round_of(*split, pieces, fragments@));
                assert(explosion(*split, pieces, count, left, Some(fragments@)));
            }
            return Some(fragments);
        } else if fragments.len() == 0 {
            proof {
                assert(split_round_of(*split, pieces, fragments@));
                assert(explosion(*split, pieces, count, left, None));
            }
            return None;
        }
        proof {
            assert forall|out: Option<Seq<M>>|
                #[trigger] explosion(*split, fragments@, count, (left - 1) as nat, out) implies explosion(
                *split,
                start,
                count,
                max_iterations as nat,
                out,
            ) by {
                assert(split_round_of(*split, pieces, fragments@));
                assert(explosion(*split, pieces, count, left, out));
            }
        }
        queue = fragments;
        i = i + 1;
    }
    proof {
        assert(i == max_iterations);
        assert(explosion(*split, queue@, count, (max_iterations - i) as nat, None));
    }
    None
}

/// One piece alone: the round makes nothing of it when `split` cannot cut it, and
/// otherwise exactly the two halves that `split` gave.
pub proof fn lemma_round_of_one_piece<M, F: Fn(M) -> Option<(M, M)>>(
    split: F,
    piece: M,
    fragments: Seq<M>,
)
    ensures
        split_round_of(split, seq![piece], fragments) <==> ((split.ensures((piece,), None)
            && fragments.len() == 0) || (fragments.len() == 2 && split.ensures(
            (piece,),
            Some((fragments[0], fragments[1])),
        ))),
{
    let s = seq![piece];
    assert(s.drop_last() =~= Seq::<M>::empty());
    assert(s.last() == piece);
    assert(split_round_of(split, Seq::<M>::empty(), fragments) == (fragments.len() == 0));
    if fragments.len() >= 2 {
        assert(split_round_of(split, Seq::<M>::empty(), fragments.subrange(0, fragments.len() - 2))
            == (fragments.len() == 2));
    }
}

/// Pieces are split independently of each other: the fragments that a round makes of
/// `first` followed by those it makes of `second` are what it makes of the pieces of
/// `first` followed by those of `second`. A piece that `split` cannot cut removes only
/// itself; the pieces after it are still split.
pub proof fn lemma_round_of_joined_pieces<M, F: Fn(M) -> Option<(M, M)>>(
    split: F,
    first: Seq<M>,
    second: Seq<M>,
    first_fragments: Seq<M>,
    second_fragments: Seq<M>,
)
    requires
        split_round_of(split, first, first_fragments),
        split_round_of(split, second, second_fragments),
    ensures
        split_round_of(split, first + second, first_fragments + second_fragments),
    decreases second.len(),
{
    let f = first_fragments + second_fragments;
    if second.len() == 0 {
        assert(first + second =~= first);
        assert(f =~= first_fragments);
    } else {
        let last = second.last();
        let rest = second.drop_last();
        let whole = first + second;
        assert(whole.drop_last() =~= first + rest);
        assert(whole.last() == last);
        if split.ensures((last,), None) && split_round_of(split, rest, second_fragments) {
            lemma_round_of_joined_pieces(split, first, rest, first_fragments, second_fragments);
        } else {
            let n2 = second_fragments.len();
            let g2 = second_fragments.subrange(0, n2 - 2);
            lemma_round_of_joined_pieces(split, first, rest, first_fragments, g2);
            let n = f.len();
            assert(f[n - 2] == second_fragments[n2 - 2]);
            assert(f[n - 1] == second_fragments[n2 - 1]);
            assert(f.subrange(0, n - 2) =~= first_fragments + g2);
        }
    }
}

/// Conversely, what a round makes of the pieces of `first` followed by those of
/// `second` falls apart into what it makes of `first`, followed by what it makes of
/// `second`.
pub proof fn lemma_round_of_pieces_falls_apart<M, F: Fn(M) -> Option<(M, M)>>(
    split: F,
    first: Seq<M>,
    second: Seq<M>,
    fragments: Seq<M>,
) -> (parts: (Seq<M>, Seq<M>))
    requires
        split_round_of(split, first + second, fragments),
    ensures
        fragments == parts.0 + parts.1,
        split_round_of(split, first, parts.0),
        split_round_of(split, second, parts.1),
    decreases second.len(),
{
    let whole = first + second;
    if second.len() == 0 {
        assert(whole =~= first);
        assert(fragments =~= fragments + Seq::<M>::empty());
        (fragments, Seq::<M>::empty())
    } else {
        let last = second.last();
        let rest = second.drop_last();
        assert(whole.drop_last() =~= first + rest);
        assert(whole.last() == last);
        if split.ensures((last,), None) && split_round_of(split, first + rest, fragments) {
            let (a, b) = lemma_round_of_pieces_falls_apart(split, first, rest, fragments);
            (a, b)
        } else {
            let n = fragments.len();
            let g = fragments.subrange(0, n - 2);
            let (a, b) = lemma_round_of_pieces_falls_apart(split, first, rest, g);
            let b2 = b.push(fragments[n - 2]).push(fragments[n - 1]);
            assert(n >= 2);
            assert(fragments =~= g.push(fragments[n - 2]).push(fragments[n - 1]));
            assert(a + b2 =~= (a + b).push(fragments[n - 2]).push(fragments[n - 1]));
            assert(fragments =~= a + b2);
            let m = b2.len();
            assert(b2[m - 2] == fragments[n - 2]);
            assert(b2[m - 1] == fragments[n - 1]);
            assert(b2.subrange(0, m - 2) =~= b);
            (a, b2)
        }
    }
}

} // verus!
