use vstd::prelude::*;
use vstd::seq_lib::to_multiset_insert;

verus! {

/// Every element is strictly smaller than the ones after it.
pub open spec fn strictly_ascending(s: Seq<i32>) -> bool {
    forall|i: int, j: int| 0 <= i < j < s.len() ==> s[i] < s[j]
}

/// Every element is at most the ones after it.
pub open spec fn ascending(s: Seq<i32>) -> bool {
    forall|i: int, j: int| 0 <= i <= j < s.len() ==> s[i] <= s[j]
}

/// First position of `v` whose element is not below `x`.
fn lower_bound(v: &Vec<i32>, x: i32) -> (r: usize)
    requires
        ascending(v@),
    ensures
        r <= v@.len(),
        forall|k: int| 0 <= k < r ==> v@[k] < x,
        forall|k: int| r <= k < v@.len() ==> v@[k] >= x,
{
    let mut lo: usize = 0;
    let mut hi: usize = v.len();
    while lo < hi
        invariant
            lo <= hi <= v@.len(),
            ascending(v@),
            forall|k: int| 0 <= k < lo ==> v@[k] < x,
            forall|k: int| hi <= k < v@.len() ==> v@[k] >= x,
        decreases hi - lo,
    {
        let mid: usize = lo + (hi - lo) / 2;
        if v[mid] < x {
            lo = mid + 1;
        } else {
            hi = mid;
        }
    }
    lo
}

/// Position of `x` in the ascending `v`, if it occurs there.
pub fn position_sorted(v: &Vec<i32>, x: i32) -> (r: Option<usize>)
    requires
        ascending(v@),
    ensures
        r matches Some(k) ==> k < v@.len() && v@[k as int] == x,
        r is None <==> !v@.contains(x),
{
    let k = lower_bound(v, x);
    if k < v.len() && v[k] == x {
        Some(k)
    } else {
        proof {
            assert forall|j: int| 0 <= j < v@.len() implies v@[j] != x by {
                if j >= k {
                    assert(v@[j] >= x);
                    if k < v@.len() {
                        assert(v@[k as int] <= v@[j]);
                    }
                }
            }
        }
        None
    }
}

/// Whether `x` occurs in the ascending `v`.
pub fn contains_sorted(v: &Vec<i32>, x: i32) -> (r: bool)
    requires
        ascending(v@),
    ensures
        r == v@.contains(x),
{
    position_sorted(v, x).is_some()
}

/// Whether `x` occurs in `v`, in any order.
pub fn contains_id(v: &Vec<i32>, x: i32) -> (r: bool)
    ensures
        r == v@.contains(x),
{
    let mut i: usize = 0;
    while i < v.len()
        invariant
            i <= v@.len(),
            forall|k: int| 0 <= k < i ==> v@[k] != x,
        decreases v@.len() - i,
    {
        if v[i] == x {
            return true;
        }
        i += 1;
    }
    false
}

/// Adds `x` to a strictly ascending vector unless it is already there.
pub fn insert_unique(v: &mut Vec<i32>, x: i32)
    requires
        strictly_ascending(old(v)@),
    ensures
        strictly_ascending(final(v)@),
        forall|y: i32| final(v)@.contains(y) <==> (old(v)@.contains(y) || y == x),
{
    let k = lower_bound(v, x);
    if k < v.len() && v[k] == x {
        return;
    }
    let ghost before = v@;
    v.insert(k, x);
    proof {
        before.insert_ensures(k as int, x);
        assert forall|y: i32| v@.contains(y) <==> (before.contains(y) || y == x) by {
            if v@.contains(y) {
                let j = choose|j: int| 0 <= j < v@.len() && v@[j] == y;
                if j < k {
                    assert(before[j] == y);
                } else if j > k {
                    assert(before[j - 1] == y);
                }
            }
            if before.contains(y) {
                let j = choose|j: int| 0 <= j < before.len() && before[j] == y;
                if j < k {
                    assert(v@[j] == y);
                } else {
                    assert(v@[j + 1] == y);
                }
            }
            if y == x {
                assert(v@[k as int] == y);
            }
        }
    }
}

/// Adds `x` to an ascending vector at its place, keeping any equal elements.
pub fn insert_sorted(v: &mut Vec<i32>, x: i32)
    requires
        ascending(old(v)@),
    ensures
        ascending(final(v)@),
        final(v)@.to_multiset() == old(v)@.to_multiset().insert(x),
{
    let k = lower_bound(v, x);
    let ghost before = v@;
    v.insert(k, x);
    proof {
        before.insert_ensures(k as int, x);
        to_multiset_insert(before, k as int, x);
        assert forall|i: int, j: int| 0 <= i <= j < v@.len() implies v@[i] <= v@[j] by {
            if i < k && j > k {
                assert(v@[j] == before[j - 1]);
            } else if i > k {
                assert(v@[i] == before[i - 1] && v@[j] == before[j - 1]);
            } else if j < k {
                assert(v@[i] == before[i] && v@[j] == before[j]);
            }
        }
    }
}

/// The distinct elements of `ids`, in ascending order.
pub fn sorted_unique(ids: &Vec<i32>) -> (r: Vec<i32>)
    ensures
        strictly_ascending(r@),
        forall|y: i32| r@.contains(y) <==> ids@.contains(y),
{
    let mut r: Vec<i32> = Vec::new();
    let mut i: usize = 0;
    while i < ids.len()
        invariant
            i <= ids@.len(),
            strictly_ascending(r@),
            forall|y: i32| r@.contains(y) <==> ids@.subrange(0, i as int).contains(y),
        decreases ids@.len() - i,
    {
        insert_unique(&mut r, ids[i]);
        proof {
            let pre = ids@.subrange(0, i as int);
            assert(ids@.subrange(0, i + 1) =~= pre.push(ids@[i as int]));
            assert forall|y: i32| pre.push(ids@[i as int]).contains(y) <==> (pre.contains(y) || y
                == ids@[i as int]) by {
                if pre.contains(y) {
                    let j = choose|j: int| 0 <= j < pre.len() && pre[j] == y;
                    assert(pre.push(ids@[i as int])[j] == y);
                }
                if y == ids@[i as int] {
                    assert(pre.push(ids@[i as int])[pre.len() as int] == y);
                }
            }
        }
        i += 1;
    }
    proof {
        assert(ids@.subrange(0, i as int) =~= ids@);
    }
    r
}

/// Two strictly ascending sequences with the same elements are equal.
pub proof fn lemma_ascending_same_elements(a: Seq<i32>, b: Seq<i32>)
    requires
        strictly_ascending(a),
        strictly_ascending(b),
        forall|x: i32| a.contains(x) <==> b.contains(x),
    ensures
        a == b,
    decreases a.len() + b.len(),
{
    if a.len() == 0 {
        if b.len() > 0 {
            assert(b.contains(b[0]));
        }
        assert(a =~= b);
    } else if b.len() == 0 {
        assert(a.contains(a[0]));
    } else {
        assert(a.contains(a[0]));
        assert(b.contains(b[0]));
        let i = choose|i: int| 0 <= i < b.len() && b[i] == a[0];
        let j = choose|j: int| 0 <= j < a.len() && a[j] == b[0];
        assert(b[0] <= b[i]);
        assert(a[0] <= a[j]);
        assert(a[0] == b[0]);
        let a1 = a.drop_first();
        let b1 = b.drop_first();
        assert forall|x: i32| a1.contains(x) <==> b1.contains(x) by {
            if a1.contains(x) {
                let k = choose|k: int| 0 <= k < a1.len() && a1[k] == x;
                assert(a[k + 1] == x && a[0] < x);
                assert(b.contains(x));
                let m = choose|m: int| 0 <= m < b.len() && b[m] == x;
                assert(m != 0);
                assert(b1[m - 1] == x);
            }
            if b1.contains(x) {
                let k = choose|k: int| 0 <= k < b1.len() && b1[k] == x;
                assert(b[k + 1] == x && b[0] < x);
                assert(a.contains(x));
                let m = choose|m: int| 0 <= m < a.len() && a[m] == x;
                assert(m != 0);
                assert(a1[m - 1] == x);
            }
        }
        lemma_ascending_same_elements(a1, b1);
        assert(a =~= seq![a[0]] + a1);
        assert(b =~= seq![b[0]] + b1);
    }
}

} // verus!
