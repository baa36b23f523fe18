//! Pages of a listing.
//!
//! A bound or a position that is the largest number there is counts as not
//! given. Ids come in ascending order, so that a page is the same whenever it is
//! asked for.
use vstd::prelude::*;

verus! {

/// A number that stands for one that was not given.
pub const NOT_GIVEN: u64 = u64::MAX;

/// Whether an id lies in a range.
pub open spec fn in_range(id: u64, id_min: u64, id_max: u64) -> bool {
    (id_min == NOT_GIVEN || id >= id_min) && (id_max == NOT_GIVEN || id <= id_max)
}

/// The ids that lie in a range.
pub open spec fn ranged(ids: Seq<u64>, id_min: u64, id_max: u64) -> Seq<u64> {
    ids.filter(|id: u64| in_range(id, id_min, id_max))
}

/// Where a page starts.
pub open spec fn page_start(n: nat, skip: u64) -> int {
    if skip == NOT_GIVEN {
        0
    } else if skip < n {
        skip as int
    } else {
        n as int
    }
}

/// Where a page that starts at `start` ends.
pub open spec fn page_end(n: nat, start: int, limit: u64) -> int {
    if limit == NOT_GIVEN || start + limit > n {
        n as int
    } else {
        start + limit
    }
}

/// A page of what there is.
pub open spec fn page<A>(all: Seq<A>, skip: u64, limit: u64) -> Seq<A> {
    let start = page_start(all.len(), skip);
    all.subrange(start, page_end(all.len(), start, limit))
}

/// The ids that lie in a range.
pub fn ids_in_range(ids: &Vec<u64>, id_min: u64, id_max: u64) -> (r: Vec<u64>)
    ensures
        r@ == ranged(ids@, id_min, id_max),
{
    let mut out: Vec<u64> = Vec::new();
    let mut i: usize = 0;
    let ghost keep = |id: u64| in_range(id, id_min, id_max);
    proof {
        reveal(Seq::filter);
        assert(ids@.take(0) =~= Seq::<u64>::empty());
        assert(out@ =~= ids@.take(0).filter(keep));
    }
    while i < ids.len()
        invariant
            i <= ids.len(),
            keep == |id: u64| in_range(id, id_min, id_max),
            out@ == ids@.take(i as int).filter(keep),
        decreases ids.len() - i,
    {
        let id: u64 = ids[i];
        proof {
            reveal(Seq::filter);
            let next = ids@.take(i + 1);
            assert(next.drop_last() =~= ids@.take(i as int));
            assert(next.last() == id);
            assert(keep(id) == in_range(id, id_min, id_max));
        }
        if (id_min == NOT_GIVEN || id >= id_min) && (id_max == NOT_GIVEN || id <= id_max) {
            out.push(id);
        }
        i = i + 1;
    }
    proof {
        assert(ids@.take(ids@.len() as int) =~= ids@);
    }
    out
}

/// Where a page starts and ends.
pub fn window(n: usize, skip: u64, limit: u64) -> (r: (usize, usize))
    ensures
        r.0 == page_start(n as nat, skip),
        r.1 == page_end(n as nat, r.0 as int, limit),
        r.0 <= r.1 <= n,
{
    let start: usize = if skip == NOT_GIVEN {
        0
    } else if skip < n as u64 {
        skip as usize
    } else {
        n
    };
    let end: usize = if limit == NOT_GIVEN || limit > (n - start) as u64 {
        n
    } else {
        start + limit as usize
    };
    (start, end)
}

/// A page of ids, and how many there are on all pages.
pub fn page_of_ids(ids: &Vec<u64>, id_min: u64, id_max: u64, skip: u64, limit: u64) -> (r: (
    Vec<u64>,
    u64,
))
    ensures
        r.0@ == page(ranged(ids@, id_min, id_max), skip, limit),
        r.1 == ranged(ids@, id_min, id_max).len(),
{
    let hits = ids_in_range(ids, id_min, id_max);
    let (start, end) = window(hits.len(), skip, limit);
    let mut out: Vec<u64> = Vec::new();
    let mut i: usize = start;
    while i < end
        invariant
            start <= i <= end <= hits.len(),
            out@ == hits@.subrange(start as int, i as int),
        decreases end - i,
    {
        out.push(hits[i]);
        proof {
            assert(hits@.subrange(start as int, i + 1) =~= hits@.subrange(
                start as int,
                i as int,
            ).push(hits@[i as int]));
        }
        i = i + 1;
    }
    let total: u64 = hits.len() as u64;
    (out, total)
}

/// What lies in a range is one of the ids there are, and lies in the range.
pub proof fn ranged_within(ids: Seq<u64>, id_min: u64, id_max: u64, i: int)
    requires
        0 <= i < ranged(ids, id_min, id_max).len(),
    ensures
        ids.contains(ranged(ids, id_min, id_max)[i]),
        in_range(ranged(ids, id_min, id_max)[i], id_min, id_max),
    decreases ids.len(),
{
    reveal(Seq::filter);
    if ids.len() > 0 {
        let rest = ids.drop_last();
        let before = ranged(rest, id_min, id_max);
        let hits = ranged(ids, id_min, id_max);
        if i < before.len() {
            assert(hits[i] == before[i]);
            ranged_within(rest, id_min, id_max, i);
            let j = choose|j: int| 0 <= j < rest.len() && rest[j] == before[i];
            assert(ids[j] == hits[i]);
        } else {
            assert(hits[i] == ids.last());
            assert(ids[ids.len() - 1] == hits[i]);
        }
    }
}

/// Pages of one size after each other leave nothing out and show nothing twice:
/// the page after a full one starts where that one ends.
pub proof fn pages_follow<A>(all: Seq<A>, skip: u64, limit: u64)
    requires
        skip + limit < NOT_GIVEN,
        skip + limit <= all.len(),
    ensures
        page(all, skip, limit) + page(all, (skip + limit) as u64, NOT_GIVEN) == page(
            all,
            skip,
            NOT_GIVEN,
        ),
{
    assert(page(all, skip, limit) + page(all, (skip + limit) as u64, NOT_GIVEN) =~= page(
        all,
        skip,
        NOT_GIVEN,
    ));
}

/// A page of no size is empty, however many there are.
pub proof fn empty_page<A>(all: Seq<A>, skip: u64)
    ensures
        page(all, skip, 0).len() == 0,
{
}

/// With nothing given, the page is everything.
pub proof fn whole_page<A>(all: Seq<A>)
    ensures
        page(all, NOT_GIVEN, NOT_GIVEN) == all,
{
    assert(page(all, NOT_GIVEN, NOT_GIVEN) =~= all);
}

/// An id lies in a range where it is not below the lower bound and not above the
/// upper; a bound that is not given bounds nothing.
pub proof fn what_lies_in_a_range(id: u64, low: u64, high: u64)
    requires
        low < u64::MAX,
        high < u64::MAX,
    ensures
        in_range(id, low, high) <==> low <= id <= high,
        in_range(id, low, u64::MAX) <==> low <= id,
        in_range(id, u64::MAX, high) <==> id <= high,
        in_range(id, u64::MAX, u64::MAX),
{
}

/// Every id that lies in a range is among those that do.
pub proof fn nothing_in_range_is_left_out(ids: Seq<u64>, id_min: u64, id_max: u64, i: int)
    requires
        0 <= i < ids.len(),
        in_range(ids[i], id_min, id_max),
    ensures
        ranged(ids, id_min, id_max).contains(ids[i]),
{
    ids.lemma_filter_contains(|id: u64| in_range(id, id_min, id_max), i);
}

/// A page holds what stands behind what is skipped, in order, as many as are asked
/// for or as there are. A position or a size that is not given skips nothing and
/// bounds nothing.
pub proof fn what_a_page_holds<A>(all: Seq<A>, skip: u64, limit: u64, i: int)
    requires
        all.len() < u64::MAX,
    ensures
        ({
            let p = page(all, skip, limit);
            let from = if skip == u64::MAX {
                0
            } else if skip > all.len() {
                all.len() as int
            } else {
                skip as int
            };
            let left = all.len() - from;
            &&& limit == u64::MAX || limit >= left ==> p.len() == left
            &&& limit < left && limit != u64::MAX ==> p.len() == limit
            &&& 0 <= i < p.len() ==> p[i] == all[from + i]
        }),
{
}

} // verus!
