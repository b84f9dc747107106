//! The release filter: of a page of candidates, keep those whose latest
//! release could be fetched. Probing costs one request per candidate, a
//! deliberate trade of request volume for results that can be downloaded.

use crate::model::Repo;
use vstd::prelude::*;

verus! {

/// The items of `s` whose flag in `keep` is set, in their order.
pub open spec fn kept<T>(s: Seq<T>, keep: Seq<bool>) -> Seq<T>
    recommends
        s.len() == keep.len(),
    decreases s.len(),
{
    if s.len() == 0 {
        seq![]
    } else if keep.last() {
        kept(s.drop_last(), keep.drop_last()).push(s.last())
    } else {
        kept(s.drop_last(), keep.drop_last())
    }
}

/// The candidates whose release probe succeeded, `has_release[i]` telling
/// of `candidates[i]`; their relative order is kept.
pub fn keep_with_release(candidates: Vec<Repo>, has_release: &Vec<bool>) -> (r: Vec<Repo>)
    requires
        candidates@.len() == has_release@.len(),
    ensures
        r@ == kept(candidates@, has_release@),
{
    let mut r: Vec<Repo> = Vec::new();
    let mut rest = candidates;
    let mut tail: Vec<Repo> = Vec::new();
    let n = rest.len();
    // Take the candidates off the end, then put the kept ones back in order.
    let mut i = n;
    assert(candidates@.take(n as int) =~= candidates@);
    assert(has_release@.take(n as int) =~= has_release@);
    assert(tail@.reverse() =~= Seq::<Repo>::empty());
    assert(kept(candidates@, has_release@) + Seq::<Repo>::empty() =~= kept(candidates@, has_release@));
    while i > 0
        invariant
            i <= n == has_release@.len(),
            n == candidates@.len(),
            rest@ == candidates@.take(i as int),
            kept(candidates@, has_release@) == kept(candidates@.take(i as int), has_release@.take(i as int))
                + tail@.reverse(),
        decreases i,
    {
        let c = rest.pop().unwrap();
        let ghost pre = candidates@.take(i as int);
        let ghost flags = has_release@.take(i as int);
        assert(pre.drop_last() =~= candidates@.take(i - 1));
        assert(flags.drop_last() =~= has_release@.take(i - 1));
        if has_release[i - 1] {
            let ghost old_tail = tail@;
            tail.push(c);
            assert(tail@.reverse() =~= seq![pre.last()] + old_tail.reverse());
            assert(kept(pre, flags) == kept(pre.drop_last(), flags.drop_last()).push(pre.last()));
            assert(kept(pre.drop_last(), flags.drop_last()).push(pre.last()) + old_tail.reverse()
                =~= kept(pre.drop_last(), flags.drop_last()) + tail@.reverse());
        }
        i = i - 1;
    }
    assert(kept(candidates@.take(0), has_release@.take(0)) =~= Seq::<Repo>::empty());
    assert(Seq::<Repo>::empty() + tail@.reverse() =~= tail@.reverse());
    while tail.len() > 0
        invariant
            kept(candidates@, has_release@) == r@ + tail@.reverse(),
        decreases tail@.len(),
    {
        let ghost old_tail = tail@;
        let c = tail.pop().unwrap();
        r.push(c);
        assert(old_tail.reverse() =~= seq![c] + tail@.reverse());
    }
    assert(tail@.reverse() =~= Seq::<Repo>::empty());
    assert(r@ + Seq::<Repo>::empty() =~= r@);
    r
}

} // verus!
