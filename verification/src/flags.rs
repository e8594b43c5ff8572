//! The set of directory handles whose listing has been delivered.

use crate::path::{copy_bytes, copy_segments, same_bytes, views};
use vstd::prelude::*;

verus! {

/// The handles held in `v`, as a set.
pub open spec fn handle_set(v: Seq<Vec<u8>>) -> Set<Seq<u8>> {
    Set::new(|h: Seq<u8>| views(v).contains(h))
}

/// Whether `handle` is among `flags`.
pub fn holds(flags: &Vec<Vec<u8>>, handle: &[u8]) -> (yes: bool)
    ensures
        yes == handle_set(flags@).contains(handle@),
{
    let mut i: usize = 0;
    while i < flags.len()
        invariant
            0 <= i <= flags.len(),
            forall|j: int| 0 <= j < i ==> #[trigger] views(flags@)[j] != handle@,
        decreases flags.len() - i,
    {
        if same_bytes(flags[i].as_slice(), handle) {
            proof {
                assert(views(flags@)[i as int] == handle@);
            }
            return true;
        }
        i += 1;
    }
    false
}

/// The handles of `flags`, and `handle` among them.
pub fn raised(flags: &Vec<Vec<u8>>, handle: &[u8]) -> (all: Vec<Vec<u8>>)
    ensures
        handle_set(all@) == handle_set(flags@).insert(handle@),
{
    let mut all = copy_segments(flags, 0, flags.len());
    let copy = copy_bytes(handle);
    let ghost before = views(all@);
    all.push(copy);
    proof {
        assert(views(flags@).subrange(0, flags.len() as int) =~= views(flags@));
        let after = views(all@);
        assert(after =~= before.push(handle@));
        assert forall|h: Seq<u8>| after.contains(h) <==> (before.contains(h) || h == handle@) by {
            if before.contains(h) {
                let j = choose|j: int| 0 <= j < before.len() && before[j] == h;
                assert(after[j] == h);
            }
            if h == handle@ {
                assert(after[before.len() as int] == h);
            }
        }
        assert(handle_set(all@) =~= handle_set(flags@).insert(handle@));
    }
    all
}

/// The handles of `flags` but `handle`.
pub fn lowered(flags: &Vec<Vec<u8>>, handle: &[u8]) -> (others: Vec<Vec<u8>>)
    ensures
        handle_set(others@) == handle_set(flags@).remove(handle@),
{
    let mut rest: Vec<Vec<u8>> = Vec::new();
    let mut i: usize = 0;
    let ghost all = views(flags@);
    assert(views(rest@) =~= Seq::<Seq<u8>>::empty());
    while i < flags.len()
        invariant
            0 <= i <= flags.len(),
            all == views(flags@),
            forall|h: Seq<u8>|
                views(rest@).contains(h) <==> (h != handle@ && all.subrange(0, i as int).contains(
                    h,
                )),
        decreases flags.len() - i,
    {
        let ghost seen = all.subrange(0, i as int);
        let ghost next = all.subrange(0, i + 1);
        let ghost kept = views(rest@);
        proof {
            assert(next =~= seen.push(all[i as int]));
            assert(all[i as int] == flags@[i as int]@);
        }
        if !same_bytes(flags[i].as_slice(), handle) {
            let copy = copy_bytes(flags[i].as_slice());
            rest.push(copy);
            proof {
                let grown = views(rest@);
                assert(grown =~= kept.push(all[i as int]));
                assert forall|h: Seq<u8>|
                    grown.contains(h) <==> (h != handle@ && next.contains(h)) by {
                    if grown.contains(h) {
                        let j = choose|j: int| 0 <= j < grown.len() && grown[j] == h;
                        if j < kept.len() {
                            assert(kept[j] == h);
                            assert(kept.contains(h));
                            let k = choose|k: int| 0 <= k < seen.len() && seen[k] == h;
                            assert(next[k] == h);
                        } else {
                            assert(next[i as int] == h);
                        }
                    }
                    if h != handle@ && next.contains(h) {
                        let k = choose|k: int| 0 <= k < next.len() && next[k] == h;
                        if k < i {
                            assert(seen[k] == h);
                            assert(seen.contains(h));
                            assert(kept.contains(h));
                            let j = choose|j: int| 0 <= j < kept.len() && kept[j] == h;
                            assert(grown[j] == h);
                        } else {
                            assert(grown[kept.len() as int] == h);
                        }
                    }
                }
            }
        } else {
            proof {
                assert forall|h: Seq<u8>|
                    kept.contains(h) <==> (h != handle@ && next.contains(h)) by {
                    if kept.contains(h) {
                        let k = choose|k: int| 0 <= k < seen.len() && seen[k] == h;
                        assert(next[k] == h);
                    }
                    if h != handle@ && next.contains(h) {
                        let k = choose|k: int| 0 <= k < next.len() && next[k] == h;
                        assert(k < i);
                        assert(seen[k] == h);
                    }
                }
            }
        }
        i += 1;
    }
    proof {
        assert(all.subrange(0, i as int) =~= all);
        assert(handle_set(rest@) =~= handle_set(flags@).remove(handle@));
    }
    rest
}

} // verus!
