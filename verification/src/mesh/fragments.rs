//! Gathering the fragments of all the meshes of an exploding entity.
//!
//! The entity explodes only as a whole: when one of its meshes cannot be exploded,
//! no fragment of any of them is kept.
use vstd::prelude::*;

verus! {

/// The fragments of the results, first to last; a failed result adds nothing.
pub open spec fn joined<T>(results: Seq<Option<Vec<T>>>) -> Seq<T>
    decreases results.len(),
{
    if results.len() == 0 {
        Seq::empty()
    } else {
        joined(results.drop_last()) + match results.last() {
            Some(v) => v@,
            None => Seq::empty(),
        }
    }
}

/// `r` is what gathering the fragments of `meshes` gives when `results` are the
/// answers of `explode` for the meshes it was handed, first to last: every mesh is
/// handed over and `r` holds all their fragments in order, or the meshes are handed
/// over up to the first one that `explode` fails on, and `r` is `None`.
pub open spec fn gathering<M, T, F: Fn(M) -> Option<Vec<T>>>(
    explode: F,
    meshes: Seq<M>,
    results: Seq<Option<Vec<T>>>,
    r: Option<Seq<T>>,
) -> bool {
    &&& results.len() <= meshes.len()
    &&& forall|i: int| 0 <= i < results.len() ==> explode.ensures((meshes[i],), #[trigger] results[i])
    &&& forall|i: int| 0 <= i < results.len() - 1 ==> (#[trigger] results[i]) is Some
    &&& match r {
        Some(all) => results.len() == meshes.len() && (results.len() == 0 || results.last() is Some)
            && all == joined(results),
        None => results.len() > 0 && results.last() is None,
    }
}

/// The fragments that a gathering holds, by their view.
pub open spec fn option_view<T>(r: Option<Vec<T>>) -> Option<Seq<T>> {
    match r {
        Some(v) => Some(v@),
        None => None,
    }
}

/// Explodes every mesh of an entity, first to last, and gathers all their fragments;
/// `None`, with nothing gathered, as soon as one of them cannot be exploded.
pub fn explode_all<M: Copy, T, F: Fn(M) -> Option<Vec<T>>>(meshes: &Vec<M>, explode: &F) -> (r: Option<
    Vec<T>,
>)
    requires
        forall|m: M| #[trigger] explode.requires((m,)),
    ensures
        exists|results: Seq<Option<Vec<T>>>|
            #[trigger] gathering(*explode, meshes@, results, option_view(r)),
{
    let mut all: Vec<T> = Vec::new();
    let ghost mut results: Seq<Option<Vec<T>>> = Seq::empty();
    let n = meshes.len();
    let mut i: usize = 0;
    while i < n
        invariant
            n == meshes@.len(),
            0 <= i <= n,
            forall|m: M| #[trigger] explode.requires((m,)),
            results.len() == i,
            forall|k: int| 0 <= k < i ==> explode.ensures((meshes@[k],), #[trigger] results[k]),
            forall|k: int| 0 <= k < i ==> (#[trigger] results[k]) is Some,
            all@ == joined(results),
        decreases n - i,
    {
        let mesh = meshes[i];
        let res = explode(mesh);
        let ghost before = results;
        proof {
            results = results.push(res);
            assert(results.drop_last() == before);
            assert(results[i as int] == res);
        }
        match res {
            None => {
                proof {
                    assert(gathering(*explode, meshes@, results, option_view(None::<Vec<T>>)));
                }
                return None;
            },
            Some(more) => {
                let ghost m = more@;
                let mut more = more;
                all.append(&mut more);
                proof {
                    assert(results.last() == res);
                    assert(all@ == joined(results));
                }
            },
        }
        i = i + 1;
    }
    proof {
        assert(gathering(*explode, meshes@, results, option_view(Some(all))));
    }
    Some(all)
}

/// The fragments of two runs of results, one after the other, are those of the first
/// followed by those of the second: no mesh's fragments are lost, doubled or moved.
pub proof fn lemma_joined_concat<T>(first: Seq<Option<Vec<T>>>, second: Seq<Option<Vec<T>>>)
    ensures
        joined(first + second) == joined(first) + joined(second),
    decreases second.len(),
{
    if second.len() == 0 {
        assert(first + second =~= first);
        assert(joined(first) + joined(second) =~= joined(first));
    } else {
        lemma_joined_concat(first, second.drop_last());
        assert((first + second).drop_last() =~= first + second.drop_last());
        assert((first + second).last() == second.last());
        let tail = match second.last() {
            Some(v) => v@,
            None => Seq::<T>::empty(),
        };
        assert(joined(first) + joined(second.drop_last()) + tail =~= joined(first) + (joined(
            second.drop_last(),
        ) + tail));
    }
}

} // verus!
