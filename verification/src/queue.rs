//! The queue builder: turns a catalog, a chosen start index and the shuffle
//! flag into the concrete playback order for one session. Sequential mode
//! rotates the catalog so the chosen entry comes first; shuffle mode pins
//! the chosen entry first and rearranges the rest at random.

use crate::catalog::CatalogEntry;
use crate::rng::shuffle_entries;
use vstd::prelude::*;

verus! {

/// A start index outside the catalog was handed to sequential queue
/// building: an internal-consistency fault of the caller.
#[derive(Debug)]
pub struct IndexError {
    pub index: usize,
}

/// The catalog rotated so that position `i` comes first, relative order
/// kept, wrapping around.
pub open spec fn rotated(s: Seq<CatalogEntry>, i: int) -> Seq<CatalogEntry> {
    s.subrange(i, s.len() as int) + s.subrange(0, i)
}

/// Builds the playback queue for one session.
///
/// Sequential mode demands a start index inside the catalog and returns the
/// rotation beginning there. Shuffle mode pins the chosen entry first and
/// follows it with the remaining entries in some rearrangement; a start
/// index out of range under shuffle degrades to a rearrangement of the
/// whole catalog with no pinned head.
pub fn build_queue(catalog: &Vec<CatalogEntry>, start_index: usize, shuffle: bool) -> (r: Result<
    Vec<CatalogEntry>,
    IndexError,
>)
    ensures
        match r {
            Ok(q) => {
                &&& q@.len() == catalog@.len()
                &&& (!shuffle ==> start_index < catalog@.len() && q@ == rotated(
                    catalog@,
                    start_index as int,
                ))
                &&& (shuffle && start_index < catalog@.len() ==> q@[0] == catalog@[start_index as int]
                    && q@.skip(1).to_multiset() == catalog@.remove(
                    start_index as int,
                ).to_multiset())
                &&& (shuffle && start_index >= catalog@.len() ==> q@.to_multiset()
                    == catalog@.to_multiset())
            },
            Err(e) => !shuffle && start_index >= catalog@.len() && e.index == start_index,
        },
{
    broadcast use vstd::seq_lib::group_to_multiset_ensures;

    let n: usize = catalog.len();
    if !shuffle {
        if start_index >= n {
            return Err(IndexError { index: start_index });
        }
        let mut q: Vec<CatalogEntry> = Vec::new();
        let mut i: usize = start_index;
        while i < n
            invariant
                start_index <= i <= n,
                n == catalog@.len(),
                q@ == catalog@.subrange(start_index as int, i as int),
            decreases n - i,
        {
            q.push(catalog[i].clone());
            proof {
                assert(q@ =~= catalog@.subrange(start_index as int, i as int + 1));
            }
            i = i + 1;
        }
        let mut j: usize = 0;
        while j < start_index
            invariant
                j <= start_index,
                start_index <= n,
                n == catalog@.len(),
                q@ == catalog@.subrange(start_index as int, n as int) + catalog@.subrange(
                    0,
                    j as int,
                ),
            decreases start_index - j,
        {
            q.push(catalog[j].clone());
            proof {
                assert(q@ =~= catalog@.subrange(start_index as int, n as int) + catalog@.subrange(
                    0,
                    j as int + 1,
                ));
            }
            j = j + 1;
        }
        Ok(q)
    } else if start_index < n {
        let mut rest: Vec<CatalogEntry> = Vec::new();
        let mut i: usize = 0;
        while i < n
            invariant
                i <= n,
                start_index < n,
                n == catalog@.len(),
                i <= start_index ==> rest@ == catalog@.subrange(0, i as int),
                i > start_index ==> rest@ == catalog@.subrange(0, start_index as int)
                    + catalog@.subrange(start_index as int + 1, i as int),
            decreases n - i,
        {
            if i != start_index {
                rest.push(catalog[i].clone());
            }
            proof {
                if i + 1 <= start_index {
                    assert(rest@ =~= catalog@.subrange(0, i as int + 1));
                } else {
                    assert(rest@ =~= catalog@.subrange(0, start_index as int) + catalog@.subrange(
                        start_index as int + 1,
                        i as int + 1,
                    ));
                }
            }
            i = i + 1;
        }
        proof {
            assert(rest@ == catalog@.remove(start_index as int));
        }
        shuffle_entries(&mut rest);
        let ghost shuffled = rest@;
        let mut q: Vec<CatalogEntry> = Vec::new();
        q.push(catalog[start_index].clone());
        q.append(&mut rest);
        proof {
            assert(q@[0] == catalog@[start_index as int]);
            assert(q@.skip(1) =~= shuffled);
            assert(catalog@.remove(start_index as int).len() == catalog@.len() - 1);
        }
        Ok(q)
    } else {
        let mut q: Vec<CatalogEntry> = Vec::new();
        let mut i: usize = 0;
        while i < n
            invariant
                i <= n,
                n == catalog@.len(),
                q@ == catalog@.subrange(0, i as int),
            decreases n - i,
        {
            q.push(catalog[i].clone());
            proof {
                assert(q@ =~= catalog@.subrange(0, i as int + 1));
            }
            i = i + 1;
        }
        proof {
            assert(q@ =~= catalog@);
        }
        shuffle_entries(&mut q);
        Ok(q)
    }
}

} // verus!
