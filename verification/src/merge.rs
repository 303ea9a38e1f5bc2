//! Bounded, order-preserving merge of a sorted batch into a sorted,
//! capacity-limited vector.
use vstd::prelude::*;
use core::cmp::Ordering;

verus! {

/// A caller-supplied total preorder on `T`: `leq(a, b)` says the comparator
/// ranks `a` no later than `b`. Distinct values may rank equal; the order
/// must be total and transitive, and `compare` must report it faithfully.
pub trait Comparator<T>: Sized {
    /// The order itself, at the specification level.
    spec fn leq(&self, a: T, b: T) -> bool;

    /// Any two values are ordered one way or the other.
    proof fn leq_total(&self, a: T, b: T)
        ensures
            self.leq(a, b) || self.leq(b, a),
    ;

    /// The order is transitive.
    proof fn leq_trans(&self, a: T, b: T, c: T)
        requires
            self.leq(a, b),
            self.leq(b, c),
        ensures
            self.leq(a, c),
    ;

    /// Three-way comparison agreeing with `leq`.
    fn compare(&self, a: &T, b: &T) -> (r: Ordering)
        ensures
            (r == Ordering::Less) <==> (self.leq(*a, *b) && !self.leq(*b, *a)),
            (r == Ordering::Equal) <==> (self.leq(*a, *b) && self.leq(*b, *a)),
            (r == Ordering::Greater) <==> !self.leq(*a, *b),
    ;
}

/// `a` and `b` rank equal under `c`.
pub open spec fn ranks_equal<T, C: Comparator<T>>(c: C, a: T, b: T) -> bool {
    c.leq(a, b) && c.leq(b, a)
}

/// `a` ranks strictly before `b` under `c`.
pub open spec fn ranks_before<T, C: Comparator<T>>(c: C, a: T, b: T) -> bool {
    !c.leq(b, a)
}

/// The sequence is sorted under `c`.
pub open spec fn sorted_by<T, C: Comparator<T>>(c: C, s: Seq<T>) -> bool {
    forall|i: int, j: int| 0 <= i < j < s.len() ==> #[trigger] c.leq(s[i], s[j])
}

/// Some element of `v` at or after position `from` ranks equal to `x`.
pub open spec fn has_match<T, C: Comparator<T>>(c: C, v: Seq<T>, from: int, x: T) -> bool {
    exists|j: int| from <= j < v.len() && #[trigger] ranks_equal(c, v[j], x)
}

/// The position where `x` would be inserted into `v`, searching from `from`
/// onward: the first index whose element does not rank strictly before `x`.
pub open spec fn insertion_index<T, C: Comparator<T>>(c: C, v: Seq<T>, from: int, x: T) -> int
    decreases v.len() - from,
{
    if from >= v.len() {
        v.len() as int
    } else if ranks_before(c, v[from], x) {
        insertion_index(c, v, from + 1, x)
    } else {
        from
    }
}

/// One step of the bounded merge: how a container `v` with search floor
/// `floor` absorbs a single item `x` under capacity `limit`. An item that
/// ranks equal to an existing element is dropped; a fresh item is inserted
/// at its search position when there is room; a full container evicts its
/// last element to admit an item placed before the end, and discards an
/// item placed at the end.
pub open spec fn merge_step<T, C: Comparator<T>>(
    c: C,
    v: Seq<T>,
    floor: int,
    x: T,
    limit: int,
) -> (Seq<T>, int) {
    if has_match(c, v, floor, x) {
        (v, floor)
    } else {
        let i = insertion_index(c, v, floor, x);
        if v.len() < limit {
            (v.insert(i, x), i)
        } else if i < v.len() {
            (v.drop_last().insert(i, x), i)
        } else {
            (v, i)
        }
    }
}

/// The bounded merge over a whole batch, carrying the search floor along.
pub open spec fn merge_state<T, C: Comparator<T>>(
    c: C,
    v: Seq<T>,
    floor: int,
    items: Seq<T>,
    limit: int,
) -> (Seq<T>, int)
    decreases items.len(),
{
    if items.len() == 0 {
        (v, floor)
    } else {
        let s = merge_step(c, v, floor, items[0], limit);
        merge_state(c, s.0, s.1, items.drop_first(), limit)
    }
}

/// The container that the bounded merge leaves behind.
pub open spec fn merge_sorted<T, C: Comparator<T>>(
    c: C,
    v: Seq<T>,
    items: Seq<T>,
    limit: int,
) -> Seq<T> {
    merge_state(c, v, 0, items, limit).0
}

proof fn lemma_insertion_index_bounds<T, C: Comparator<T>>(c: C, v: Seq<T>, from: int, x: T)
    requires
        0 <= from <= v.len(),
    ensures
        from <= insertion_index(c, v, from, x) <= v.len(),
        forall|j: int|
            from <= j < insertion_index(c, v, from, x) ==> #[trigger] ranks_before(c, v[j], x),
        insertion_index(c, v, from, x) < v.len() ==> !ranks_before(
            c,
            v[insertion_index(c, v, from, x)],
            x,
        ),
    decreases v.len() - from,
{
    if from < v.len() && ranks_before(c, v[from], x) {
        lemma_insertion_index_bounds(c, v, from + 1, x);
    }
}

/// The insertion index is pinned by its characteristic property: everything
/// before it ranks strictly before `x`, and its own element (if any) does not.
proof fn lemma_insertion_index_char<T, C: Comparator<T>>(c: C, v: Seq<T>, from: int, x: T, i: int)
    requires
        0 <= from <= i <= v.len(),
        forall|j: int| from <= j < i ==> #[trigger] ranks_before(c, v[j], x),
        i < v.len() ==> !ranks_before(c, v[i], x),
    ensures
        insertion_index(c, v, from, x) == i,
    decreases i - from,
{
    if from < i {
        assert(ranks_before(c, v[from], x));
        lemma_insertion_index_char(c, v, from + 1, x, i);
    }
}

/// Binary search under `c` over `v[from..]`: `Ok(i)` points at an element
/// ranking equal to `x`; `Err(i)` is the absolute insertion index for `x`,
/// and no element at or after `from` ranks equal to `x`.
fn search_from<T: Copy, C: Comparator<T>>(c: &C, v: &Vec<T>, from: usize, x: &T) -> (r: Result<
    usize,
    usize,
>)
    requires
        from <= v@.len(),
        sorted_by(*c, v@),
    ensures
        r matches Ok(i) ==> from <= i < v@.len() && ranks_equal(*c, v@[i as int], *x),
        r matches Err(i) ==> {
            &&& i == insertion_index(*c, v@, from as int, *x)
            &&& from <= i <= v@.len()
            &&& !has_match(*c, v@, from as int, *x)
        },
{
    let mut lo: usize = from;
    let mut hi: usize = v.len();
    while lo < hi
        invariant
            from <= lo <= hi <= v@.len(),
            sorted_by(*c, v@),
            forall|j: int| from <= j < lo ==> #[trigger] ranks_before(*c, v@[j], *x),
            forall|j: int| hi <= j < v@.len() ==> #[trigger] ranks_before(*c, *x, v@[j]),
        decreases hi - lo,
    {
        let mid: usize = lo + (hi - lo) / 2;
        match c.compare(&v[mid], x) {
            Ordering::Less => {
                proof {
                    assert forall|j: int| from <= j < mid + 1 implies #[trigger] ranks_before(
                        *c,
                        v@[j],
                        *x,
                    ) by {
                        if j < mid {
                            assert(c.leq(v@[j], v@[mid as int]));
                            if c.leq(*x, v@[j]) {
                                c.leq_trans(*x, v@[j], v@[mid as int]);
                            }
                        }
                    }
                }
                lo = mid + 1;
            },
            Ordering::Greater => {
                proof {
                    assert forall|j: int| mid <= j < v@.len() implies #[trigger] ranks_before(
                        *c,
                        *x,
                        v@[j],
                    ) by {
                        if mid < j {
                            assert(c.leq(v@[mid as int], v@[j]));
                            if c.leq(v@[j], *x) {
                                c.leq_trans(v@[mid as int], v@[j], *x);
                            }
                        }
                    }
                }
                hi = mid;
            },
            Ordering::Equal => {
                return Ok(mid);
            },
        }
    }
    proof {
        if lo < v@.len() {
            assert(ranks_before(*c, *x, v@[lo as int]));
            c.leq_total(*x, v@[lo as int]);
            assert(!ranks_before(*c, v@[lo as int], *x));
        }
        lemma_insertion_index_char(*c, v@, from as int, *x, lo as int);
        assert forall|j: int| from <= j < v@.len() implies !ranks_equal(*c, v@[j], *x) by {
            if j < lo {
                assert(ranks_before(*c, v@[j], *x));
            } else {
                assert(ranks_before(*c, *x, v@[j]));
            }
        }
        assert(!has_match(*c, v@, from as int, *x));
    }
    Err(lo)
}

proof fn lemma_drop_last_sorted<T, C: Comparator<T>>(c: C, v: Seq<T>)
    requires
        sorted_by(c, v),
        v.len() > 0,
    ensures
        sorted_by(c, v.drop_last()),
{
    assert forall|i: int, j: int| 0 <= i < j < v.drop_last().len() implies #[trigger] c.leq(
        v.drop_last()[i],
        v.drop_last()[j],
    ) by {
        assert(c.leq(v[i], v[j]));
    }
}

proof fn lemma_insert_sorted<T, C: Comparator<T>>(c: C, v: Seq<T>, i: int, x: T)
    requires
        sorted_by(c, v),
        0 <= i <= v.len(),
        forall|j: int| 0 <= j < i ==> #[trigger] c.leq(v[j], x),
        forall|j: int| i <= j < v.len() ==> #[trigger] c.leq(x, v[j]),
    ensures
        sorted_by(c, v.insert(i, x)),
{
    let w = v.insert(i, x);
    assert forall|p: int, q: int| 0 <= p < q < w.len() implies #[trigger] c.leq(w[p], w[q]) by {
        if p < i && q < i {
            assert(c.leq(v[p], v[q]));
        } else if p < i && q == i {
            assert(c.leq(v[p], x));
        } else if p < i && q > i {
            assert(c.leq(v[p], v[q - 1]));
        } else if p == i {
            assert(c.leq(x, v[q - 1]));
        } else {
            assert(c.leq(v[p - 1], v[q - 1]));
        }
    }
}

/// Merges the sorted batch `new_items` into the sorted vector `vec` in
/// place, keeping the vector sorted under `cmp` and never letting it grow
/// past `limit` elements. The result is exactly the bounded merge of the
/// model: an item ranking equal to an element already present is dropped;
/// otherwise it enters at the position a binary search selects, a full
/// vector evicting its last element when the position lies before the end
/// and discarding the item when the position lies at the end. Elements are
/// plain copyable values: the batch is read in place and items enter the
/// vector by copy.
pub fn extend_sorted<T: Copy, C: Comparator<T>>(
    vec: &mut Vec<T>,
    new_items: &Vec<T>,
    limit: usize,
    cmp: &C,
)
    requires
        sorted_by(*cmp, old(vec)@),
        old(vec)@.len() <= limit,
        sorted_by(*cmp, new_items@),
    ensures
        final(vec)@ == merge_sorted(*cmp, old(vec)@, new_items@, limit as int),
        sorted_by(*cmp, final(vec)@),
        final(vec)@.len() <= limit,
{
    let ghost orig = vec@;
    let ghost goal = merge_state(*cmp, orig, 0, new_items@, limit as int);
    let mut start_index: usize = 0;
    let mut k: usize = 0;
    proof {
        assert(new_items@.skip(0) =~= new_items@);
    }
    while k < new_items.len()
        invariant
            k <= new_items@.len(),
            start_index <= vec@.len(),
            vec@.len() <= limit,
            sorted_by(*cmp, vec@),
            sorted_by(*cmp, new_items@),
            forall|j: int|
                0 <= j < start_index && k < new_items@.len() ==> #[trigger] ranks_before(
                    *cmp,
                    vec@[j],
                    new_items@[k as int],
                ),
            merge_state(*cmp, vec@, start_index as int, new_items@.skip(k as int), limit as int)
                == goal,
            goal == merge_state(*cmp, orig, 0, new_items@, limit as int),
        decreases new_items@.len() - k,
    {
        let new_item = new_items[k];
        let ghost pre_v = vec@;
        let ghost pre_floor = start_index as int;
        let ghost rest = new_items@.skip(k as int);
        let ghost s = merge_step(*cmp, pre_v, pre_floor, new_item, limit as int);
        proof {
            assert(rest[0] == new_items@[k as int]);
            assert(rest.drop_first() =~= new_items@.skip(k as int + 1));
            assert(merge_state(*cmp, pre_v, pre_floor, rest, limit as int) == merge_state(
                *cmp,
                s.0,
                s.1,
                rest.drop_first(),
                limit as int,
            ));
        }
        match search_from(cmp, vec, start_index, &new_item) {
            Ok(_matched) => {
                proof {
                    assert(has_match(*cmp, pre_v, pre_floor, new_item));
                    assert(s == (pre_v, pre_floor));
                }
            },
            Err(i) => {
                proof {
                    lemma_insertion_index_bounds(*cmp, pre_v, pre_floor, new_item);
                    assert forall|j: int| 0 <= j < i implies #[trigger] ranks_before(
                        *cmp,
                        pre_v[j],
                        new_item,
                    ) by {}
                    assert forall|j: int| 0 <= j < i implies #[trigger] cmp.leq(
                        pre_v[j],
                        new_item,
                    ) by {
                        assert(ranks_before(*cmp, pre_v[j], new_item));
                        cmp.leq_total(pre_v[j], new_item);
                    }
                    assert forall|j: int| i <= j < pre_v.len() implies #[trigger] cmp.leq(
                        new_item,
                        pre_v[j],
                    ) by {
                        assert(!ranks_before(*cmp, pre_v[i as int], new_item));
                        if i < j {
                            assert(cmp.leq(pre_v[i as int], pre_v[j]));
                            cmp.leq_trans(new_item, pre_v[i as int], pre_v[j]);
                        }
                    }
                }
                if vec.len() < limit {
                    vec.insert(i, new_item);
                    proof {
                        lemma_insert_sorted(*cmp, pre_v, i as int, new_item);
                        assert(vec@ == s.0);
                    }
                } else if i < vec.len() {
                    vec.pop();
                    proof {
                        assert(vec@ =~= pre_v.drop_last());
                        lemma_drop_last_sorted(*cmp, pre_v);
                        assert forall|j: int| i <= j < pre_v.drop_last().len()
                            implies #[trigger] cmp.leq(new_item, pre_v.drop_last()[j]) by {
                            assert(cmp.leq(new_item, pre_v[j]));
                        }
                    }
                    vec.insert(i, new_item);
                    proof {
                        lemma_insert_sorted(*cmp, pre_v.drop_last(), i as int, new_item);
                        assert(vec@ == s.0);
                    }
                } else {
                    proof {
                        assert(vec@ == s.0);
                    }
                }
                start_index = i;
            },
        }
        proof {
            assert(vec@ == s.0 && start_index as int == s.1);
            if k + 1 < new_items@.len() {
                let y = new_items@[k as int + 1];
                assert(cmp.leq(new_items@[k as int], y));
                assert forall|j: int| 0 <= j < start_index implies #[trigger] ranks_before(
                    *cmp,
                    vec@[j],
                    y,
                ) by {
                    assert(ranks_before(*cmp, vec@[j], new_item));
                    if cmp.leq(y, vec@[j]) {
                        cmp.leq_trans(new_item, y, vec@[j]);
                    }
                }
            }
        }
        k = k + 1;
    }
    proof {
        assert(new_items@.skip(new_items@.len() as int) =~= Seq::<T>::empty());
        assert(merge_state(
            *cmp,
            vec@,
            start_index as int,
            new_items@.skip(new_items@.len() as int),
            limit as int,
        ) == (vec@, start_index as int));
    }
}

/// Law: merging an empty batch leaves the container unchanged.
pub proof fn lemma_merge_empty_batch<T, C: Comparator<T>>(c: C, v: Seq<T>, limit: int)
    ensures
        merge_sorted(c, v, Seq::<T>::empty(), limit) == v,
{
}

/// Law: an item that ranks equal to an element already in the container is
/// dropped, and the container is left unchanged.
pub proof fn lemma_matching_item_dropped<T, C: Comparator<T>>(c: C, v: Seq<T>, x: T, limit: int)
    requires
        has_match(c, v, 0, x),
    ensures
        merge_sorted(c, v, seq![x], limit) == v,
{
    let s = merge_step(c, v, 0, x, limit);
    assert(seq![x].drop_first() =~= Seq::<T>::empty());
    assert(merge_state(c, s.0, s.1, Seq::<T>::empty(), limit) == (s.0, s.1));
}

/// Law: a full container that receives a fresh item whose sorted position
/// lies strictly before the end evicts its last element; the item enters at
/// that position and the length stays at the limit.
pub proof fn lemma_full_container_evicts<T, C: Comparator<T>>(c: C, v: Seq<T>, x: T, limit: int)
    requires
        sorted_by(c, v),
        v.len() == limit,
        !has_match(c, v, 0, x),
        insertion_index(c, v, 0, x) < v.len(),
    ensures
        merge_sorted(c, v, seq![x], limit) == v.drop_last().insert(
            insertion_index(c, v, 0, x),
            x,
        ),
        merge_sorted(c, v, seq![x], limit).len() == limit,
{
    lemma_insertion_index_bounds(c, v, 0, x);
    let s = merge_step(c, v, 0, x, limit);
    assert(seq![x].drop_first() =~= Seq::<T>::empty());
    assert(merge_state(c, s.0, s.1, Seq::<T>::empty(), limit) == (s.0, s.1));
}

/// Law: a full container discards a fresh item whose sorted position lies at
/// the end, and is left unchanged.
pub proof fn lemma_full_container_discards<T, C: Comparator<T>>(c: C, v: Seq<T>, x: T, limit: int)
    requires
        sorted_by(c, v),
        v.len() == limit,
        !has_match(c, v, 0, x),
        insertion_index(c, v, 0, x) == v.len(),
    ensures
        merge_sorted(c, v, seq![x], limit) == v,
{
    let s = merge_step(c, v, 0, x, limit);
    assert(seq![x].drop_first() =~= Seq::<T>::empty());
    assert(merge_state(c, s.0, s.1, Seq::<T>::empty(), limit) == (s.0, s.1));
}

/// The descending order on machine integers, under which a larger number
/// ranks earlier.
pub struct Descending;

impl Comparator<i32> for Descending {
    open spec fn leq(&self, a: i32, b: i32) -> bool {
        a >= b
    }

    proof fn leq_total(&self, a: i32, b: i32) {
    }

    proof fn leq_trans(&self, a: i32, b: i32, c: i32) {
    }

    fn compare(&self, a: &i32, b: &i32) -> (r: Ordering) {
        if *a > *b {
            Ordering::Less
        } else if *a == *b {
            Ordering::Equal
        } else {
            Ordering::Greater
        }
    }
}

} // verus!
