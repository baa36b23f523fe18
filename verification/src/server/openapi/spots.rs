//! The operations of a document, each with the place it answers at, and their
//! order.
use crate::json::{Json, JsonView};
use crate::text;
use crate::text::{before, same};
use vstd::prelude::*;

verus! {

/// An operation, with the path and the method that it answers to.
#[derive(Clone, Copy)]
pub struct Spot<'a> {
    pub path: &'a str,
    pub method: &'a str,
    pub op: &'a Json,
}

/// An operation, with the path and the method that it answers to.
pub struct SpotView {
    pub path: Seq<char>,
    pub method: Seq<char>,
    pub op: JsonView,
}

impl<'a> View for Spot<'a> {
    type V = SpotView;

    open spec fn view(&self) -> SpotView {
        SpotView { path: self.path@, method: self.method@, op: self.op@ }
    }
}

/// The views of a list of operations.
pub open spec fn spot_views(s: Seq<Spot<'_>>) -> Seq<SpotView> {
    Seq::new(s.len(), |i: int| s[i]@)
}

/// Whether one operation comes before another: by path, then by method.
pub open spec fn spot_before(a: SpotView, b: SpotView) -> bool {
    text::precedes(a.path, b.path) || (a.path == b.path && text::precedes(a.method, b.method))
}

/// Whether operations are in order.
pub open spec fn spots_in_order(s: Seq<SpotView>) -> bool {
    forall|i: int, j: int|
        #![trigger s[i], s[j]]
        0 <= i < j < s.len() ==> !spot_before(s[j], s[i])
}

/// Operations with one put before the first that it comes before.
pub open spec fn spot_inserted(s: Seq<SpotView>, x: SpotView) -> Seq<SpotView>
    decreases s.len(),
{
    if s.len() == 0 {
        seq![x]
    } else if spot_before(x, s[0]) {
        seq![x] + s
    } else {
        seq![s[0]] + spot_inserted(s.drop_first(), x)
    }
}

/// Operations in order; those of one place stay in the order they had.
pub open spec fn spots_sorted(s: Seq<SpotView>) -> Seq<SpotView>
    decreases s.len(),
{
    if s.len() == 0 {
        Seq::empty()
    } else {
        spot_inserted(spots_sorted(s.drop_last()), s.last())
    }
}

proof fn spot_before_irreflexive(a: SpotView)
    ensures
        !spot_before(a, a),
{
    text::precedes_irreflexive(a.path);
    text::precedes_irreflexive(a.method);
}

proof fn spot_before_transitive(a: SpotView, b: SpotView, c: SpotView)
    requires
        spot_before(a, b),
        spot_before(b, c),
    ensures
        spot_before(a, c),
{
    if text::precedes(a.path, b.path) && text::precedes(b.path, c.path) {
        text::precedes_transitive(a.path, b.path, c.path);
    }
    if text::precedes(a.method, b.method) && text::precedes(b.method, c.method) {
        text::precedes_transitive(a.method, b.method, c.method);
    }
}

proof fn spot_inserted_in_order(s: Seq<SpotView>, x: SpotView)
    requires
        spots_in_order(s),
    ensures
        spots_in_order(spot_inserted(s, x)),
        spot_inserted(s, x).to_multiset() == s.to_multiset().insert(x),
    decreases s.len(),
{
    broadcast use vstd::seq_lib::group_to_multiset_ensures;

    let r = spot_inserted(s, x);
    if s.len() == 0 {
        assert(r =~= s.push(x));
    } else if spot_before(x, s[0]) {
        assert(r =~= s.insert(0, x));
        assert forall|i: int, j: int| 0 <= i < j < r.len() implies !spot_before(r[j], r[i]) by {
            if i == 0 {
                if spot_before(s[j - 1], x) {
                    spot_before_transitive(s[j - 1], x, s[0]);
                    if j == 1 {
                        spot_before_irreflexive(s[0]);
                    }
                }
            } else {
                assert(r[i] == s[i - 1] && r[j] == s[j - 1]);
            }
        }
    } else {
        let rest = s.drop_first();
        assert(spots_in_order(rest)) by {
            assert forall|i: int, j: int| 0 <= i < j < rest.len() implies !spot_before(
                #[trigger] rest[j],
                #[trigger] rest[i],
            ) by {
                assert(s[i + 1] == rest[i] && s[j + 1] == rest[j]);
            }
        }
        spot_inserted_in_order(rest, x);
        let q = spot_inserted(rest, x);
        assert(rest.insert(0, s[0]) =~= s);
        assert(q.insert(0, s[0]) =~= r);
        assert(r.to_multiset() =~= s.to_multiset().insert(x));
        assert forall|i: int, j: int| 0 <= i < j < r.len() implies !spot_before(r[j], r[i]) by {
            if i == 0 {
                let y = q[j - 1];
                assert(q.to_multiset().contains(y));
                if y != x {
                    assert(rest.to_multiset().contains(y));
                    let k = choose|k: int| 0 <= k < rest.len() && rest[k] == y;
                    assert(s[k + 1] == y);
                    assert(!spot_before(s[k + 1], s[0]));
                }
            } else {
                assert(r[i] == q[i - 1] && r[j] == q[j - 1]);
            }
        }
    }
}

/// Sorting gives the same operations, each as often as it was there, in order.
pub proof fn sorting_orders(s: Seq<SpotView>)
    ensures
        spots_in_order(spots_sorted(s)),
        spots_sorted(s).to_multiset() == s.to_multiset(),
    decreases s.len(),
{
    broadcast use vstd::seq_lib::group_to_multiset_ensures;

    if s.len() > 0 {
        sorting_orders(s.drop_last());
        spot_inserted_in_order(spots_sorted(s.drop_last()), s.last());
        assert(s =~= s.drop_last().push(s.last()));
    } else {
        assert(spots_sorted(s) =~= s);
    }
}

/// An operation is among the sorted ones exactly where it was there before.
pub proof fn sorting_keeps(s: Seq<SpotView>, x: SpotView)
    ensures
        spots_sorted(s).contains(x) == s.contains(x),
{
    broadcast use vstd::seq_lib::group_to_multiset_ensures;

    sorting_orders(s);
    assert(spots_sorted(s).to_multiset().count(x) == s.to_multiset().count(x));
}

fn comes_before(a: &Spot<'_>, b: &Spot<'_>) -> (r: bool)
    ensures
        r == spot_before(a@, b@),
{
    before(a.path, b.path) || (same(a.path, b.path) && before(a.method, b.method))
}

fn insert_spot<'a>(v: &mut Vec<Spot<'a>>, x: Spot<'a>)
    ensures
        spot_views(final(v)@) == spot_inserted(spot_views(old(v)@), x@),
{
    let ghost was = spot_views(v@);
    let ghost held = v@;
    let mut i: usize = 0;
    proof {
        assert(was.skip(0) =~= was);
        assert(was.take(0) + spot_inserted(was, x@) =~= spot_inserted(was, x@));
    }
    while i < v.len() && !comes_before(&x, &v[i])
        invariant
            v@ == held,
            was == spot_views(held),
            i <= v.len(),
            spot_inserted(was, x@) == was.take(i as int) + spot_inserted(was.skip(i as int), x@),
        decreases v.len() - i,
    {
        proof {
            let rest = was.skip(i as int);
            assert(rest[0] == was[i as int]);
            assert(rest.drop_first() =~= was.skip(i + 1));
            assert(was.take(i as int) + (seq![was[i as int]] + spot_inserted(was.skip(i + 1), x@))
                =~= was.take(i + 1) + spot_inserted(was.skip(i + 1), x@));
        }
        i = i + 1;
    }
    v.insert(i, x);
    proof {
        let rest = was.skip(i as int);
        if i < held.len() {
            assert(rest[0] == was[i as int]);
            assert(spot_views(v@) =~= was.take(i as int) + (seq![x@] + rest));
        } else {
            assert(spot_views(v@) =~= was.take(i as int) + seq![x@]);
        }
    }
}

/// The operations, in order.
pub fn sort_spots<'a>(v: &Vec<Spot<'a>>) -> (r: Vec<Spot<'a>>)
    ensures
        spot_views(r@) == spots_sorted(spot_views(v@)),
{
    let mut r: Vec<Spot<'a>> = Vec::new();
    let mut i: usize = 0;
    proof {
        assert(spot_views(v@).take(0) =~= Seq::<SpotView>::empty());
        assert(spot_views(r@) =~= Seq::<SpotView>::empty());
    }
    while i < v.len()
        invariant
            i <= v.len(),
            spot_views(r@) == spots_sorted(spot_views(v@).take(i as int)),
        decreases v.len() - i,
    {
        proof {
            let more = spot_views(v@).take(i + 1);
            assert(more.drop_last() =~= spot_views(v@).take(i as int));
            assert(more.last() == v@[i as int]@);
        }
        insert_spot(&mut r, v[i]);
        i = i + 1;
    }
    proof {
        assert(spot_views(v@).take(v@.len() as int) =~= spot_views(v@));
    }
    r
}

} // verus!
