//! The arrangement that dropping dead objects by swap-removal leaves behind, and what it keeps.
//!
//! Dead objects are removed from the highest position down: a dead object at position `j` is
//! exchanged with the last live slot, which is then cut off. `sweep` is the arrangement of a
//! sequence after that pass; positions below the final length hold the survivors.

use vstd::prelude::*;

verus! {

/// `s` with the elements at positions `i` and `j` exchanged.
pub open spec fn swap_at<X>(s: Seq<X>, i: int, j: int) -> Seq<X> {
    s.update(i, s[j]).update(j, s[i])
}

/// The arrangement of `s` after visiting positions `i - 1` down to `0`, where `len` is the
/// number of live slots: a position marked dead in `dead` is exchanged with the last live slot,
/// and the live slots shrink by one.
pub open spec fn sweep<X>(s: Seq<X>, dead: Seq<bool>, i: nat, len: nat) -> Seq<X>
    decreases i,
{
    if i == 0 {
        s
    } else {
        let j = (i - 1) as nat;
        if dead[j as int] {
            sweep(swap_at(s, j as int, len - 1), dead, j, (len - 1) as nat)
        } else {
            sweep(s, dead, j, len)
        }
    }
}

/// The number of positions in `[i, n)` that `dead` does not mark.
pub open spec fn alive_from(dead: Seq<bool>, i: nat, n: nat) -> nat
    decreases n - i,
{
    if i >= n {
        0
    } else {
        (if dead[i as int] {
            0nat
        } else {
            1nat
        }) + alive_from(dead, i + 1, n)
    }
}

/// The number of survivors among the first `n` positions.
pub open spec fn survivors(dead: Seq<bool>, n: nat) -> nat {
    alive_from(dead, 0, n)
}

/// The positions `0, 1, ..., count - 1`.
pub open spec fn positions(count: nat) -> Seq<int> {
    Seq::new(count, |k: int| k)
}

/// No two positions of `s` hold the same value.
pub open spec fn distinct(s: Seq<int>) -> bool {
    forall|a: int, b: int| 0 <= a < s.len() && 0 <= b < s.len() && a != b ==> s[a] != s[b]
}

/// At most `n - i` of the positions `[i, n)` survive; a dead one among them makes it fewer.
pub proof fn lemma_alive_from_bound(dead: Seq<bool>, i: nat, n: nat)
    requires
        i <= n,
    ensures
        alive_from(dead, i, n) <= n - i,
        (exists|j: int| i <= j < n && dead[j]) ==> alive_from(dead, i, n) < n - i,
    decreases n - i,
{
    if i < n {
        lemma_alive_from_bound(dead, i + 1, n);
        if exists|j: int| i <= j < n && dead[j] {
            let j = choose|j: int| i <= j < n && dead[j];
            if j != i {
                assert(i + 1 <= j < n && dead[j]);
            }
        }
    }
}

/// Sweeping keeps a sequence's length.
pub proof fn lemma_sweep_len<X>(s: Seq<X>, dead: Seq<bool>, i: nat, len: nat)
    requires
        i <= len <= s.len(),
    ensures
        sweep(s, dead, i, len).len() == s.len(),
    decreases i,
{
    if i > 0 {
        let j = (i - 1) as nat;
        if dead[j as int] {
            lemma_sweep_len(swap_at(s, j as int, len - 1), dead, j, (len - 1) as nat);
        } else {
            lemma_sweep_len(s, dead, j, len);
        }
    }
}

/// Sweeping moves elements by position only: sweeping the images of a sequence's elements is
/// the image of the swept sequence. Sequences swept with the same marks therefore stay
/// aligned, position by position.
pub proof fn lemma_sweep_map<X, Y>(s: Seq<X>, f: spec_fn(X) -> Y, dead: Seq<bool>, i: nat, len: nat)
    requires
        i <= len <= s.len(),
    ensures
        sweep(s.map_values(f), dead, i, len) == sweep(s, dead, i, len).map_values(f),
    decreases i,
{
    if i > 0 {
        let j = (i - 1) as nat;
        if dead[j as int] {
            let t = swap_at(s, j as int, len - 1);
            assert(swap_at(s.map_values(f), j as int, len - 1) =~= t.map_values(f));
            lemma_sweep_map(t, f, dead, j, (len - 1) as nat);
        } else {
            lemma_sweep_map(s, f, dead, j, len);
        }
    }
}

/// The state of the position sequence part-way through the pass, at visit index `i` with `len`
/// live slots.
pub open spec fn partway(a: Seq<int>, dead: Seq<bool>, i: nat, len: nat, n: nat) -> bool {
    &&& i <= len <= n <= a.len()
    &&& n <= dead.len()
    &&& distinct(a)
    &&& forall|k: int| 0 <= k < i ==> a[k] == k
    &&& forall|k: int| i <= k < len ==> i <= #[trigger] a[k] < n && !dead[a[k]]
    &&& forall|k: int| len <= k < n ==> i <= #[trigger] a[k] < n && dead[a[k]]
    &&& forall|k: int| n <= k < a.len() ==> #[trigger] a[k] == k
    &&& len == i + alive_from(dead, i, n)
}

proof fn lemma_partway_covers(a: Seq<int>, dead: Seq<bool>, i: nat, len: nat, n: nat, v: int)
    requires
        partway(a, dead, i, len, n),
        0 <= v < a.len(),
    ensures
        exists|k: int| 0 <= k < a.len() && a[k] == v,
{
    if v < i {
        assert(a[v] == v);
    } else if v >= n {
        assert(a[v] == v);
    } else {
        // The positions [i, n) hold n - i distinct values of [i, n); by counting they hold them all.
        lemma_distinct_range_covers(a, i as int, n as int, v);
    }
}

/// `n - i` distinct values, all in `[i, n)`, placed at the positions `[i, n)`, include every value
/// of `[i, n)`.
proof fn lemma_distinct_range_covers(a: Seq<int>, lo: int, hi: int, v: int)
    requires
        0 <= lo <= v < hi <= a.len(),
        forall|x: int, y: int| lo <= x < hi && lo <= y < hi && x != y ==> a[x] != a[y],
        forall|k: int| lo <= k < hi ==> lo <= #[trigger] a[k] < hi,
    ensures
        exists|k: int| lo <= k < hi && a[k] == v,
{
    let vals = a.subrange(lo, hi).to_set();
    let range = Set::new(|x: int| lo <= x < hi);
    assert(range =~= vstd::set_lib::set_int_range(lo, hi));
    vstd::set_lib::lemma_int_range(lo, hi);
    vstd::seq_lib::seq_to_set_is_finite(a.subrange(lo, hi));
    assert(vals.subset_of(range)) by {
        assert forall|x: int| vals.contains(x) implies range.contains(x) by {
            let k = choose|k: int| 0 <= k < hi - lo && a.subrange(lo, hi)[k] == x;
            assert(a[lo + k] == x);
        }
    }
    assert(a.subrange(lo, hi).no_duplicates()) by {
        assert forall|x: int, y: int|
            0 <= x < hi - lo && 0 <= y < hi - lo && x != y implies a.subrange(lo, hi)[x]
            != a.subrange(lo, hi)[y] by {
            assert(a.subrange(lo, hi)[x] == a[lo + x]);
            assert(a.subrange(lo, hi)[y] == a[lo + y]);
        }
    }
    a.subrange(lo, hi).unique_seq_to_set();
    vstd::set_lib::lemma_subset_equality(vals, range);
    assert(vals.contains(v));
    let k = choose|k: int| 0 <= k < hi - lo && a.subrange(lo, hi)[k] == v;
    assert(a[lo + k] == v);
}

/// One step of the pass keeps `partway`.
proof fn lemma_partway_step(a: Seq<int>, dead: Seq<bool>, i: nat, len: nat, n: nat)
    requires
        partway(a, dead, i, len, n),
        i > 0,
    ensures
        ({
            let j = (i - 1) as nat;
            if dead[j as int] {
                partway(swap_at(a, j as int, len - 1), dead, j, (len - 1) as nat, n)
            } else {
                partway(a, dead, j, len, n)
            }
        }),
{
    let j = (i - 1) as nat;
    assert(a[j as int] == j);
    assert(alive_from(dead, j, n) == (if dead[j as int] {
        0nat
    } else {
        1nat
    }) + alive_from(dead, i, n));
    if dead[j as int] {
        let b = swap_at(a, j as int, len - 1);
        assert forall|x: int, y: int| 0 <= x < b.len() && 0 <= y < b.len() && x != y implies b[x]
            != b[y] by {
            let sx = if x == j {
                len - 1
            } else if x == len - 1 {
                j as int
            } else {
                x
            };
            let sy = if y == j {
                len - 1
            } else if y == len - 1 {
                j as int
            } else {
                y
            };
            assert(b[x] == a[sx]);
            assert(b[y] == a[sy]);
            assert(sx != sy);
            assert(a[sx] != a[sy]);
        }
        assert forall|k: int| j <= k < len - 1 implies j <= #[trigger] b[k] < n && !dead[b[k]] by {
            if k == j {
                assert(b[k] == a[len - 1]);
                assert(i <= len - 1 < len);
            } else {
                assert(b[k] == a[k]);
            }
        }
        assert forall|k: int| len - 1 <= k < n implies j <= #[trigger] b[k] < n && dead[b[k]] by {
            if k == len - 1 {
                if len - 1 != j {
                    assert(b[k] == a[j as int]);
                }
            } else {
                assert(b[k] == a[k]);
            }
        }
        assert forall|k: int| 0 <= k < j implies b[k] == k by {
            assert(b[k] == a[k]);
        }
        assert forall|k: int| n <= k < b.len() implies #[trigger] b[k] == k by {
            assert(b[k] == a[k]);
        }
    } else {
        assert forall|k: int| j <= k < len implies j <= #[trigger] a[k] < n && !dead[a[k]] by {
            if k == j {
                assert(a[k] == j);
            }
        }
    }
}

/// What the pass leaves of the positions themselves, when started on `partway` state.
proof fn lemma_sweep_partway(a: Seq<int>, dead: Seq<bool>, i: nat, len: nat, n: nat)
    requires
        partway(a, dead, i, len, n),
    ensures
        partway(sweep(a, dead, i, len), dead, 0, survivors(dead, n), n),
    decreases i,
{
    if i > 0 {
        let j = (i - 1) as nat;
        lemma_partway_step(a, dead, i, len, n);
        if dead[j as int] {
            lemma_sweep_partway(swap_at(a, j as int, len - 1), dead, j, (len - 1) as nat, n);
        } else {
            lemma_sweep_partway(a, dead, j, len, n);
        }
    }
}

/// The pass over the first `n` of `count` positions moves every position only once: the
/// result is a rearrangement of the positions in which the first `survivors(dead, n)` hold
/// exactly the live positions below `n`, the next ones up to `n` the dead ones, and the
/// positions from `n` on stay where they are.
pub proof fn lemma_sweep_positions(dead: Seq<bool>, n: nat, count: nat)
    requires
        n <= count,
        n <= dead.len(),
    ensures
        ({
            let p = sweep(positions(count), dead, n, n);
            let m = survivors(dead, n);
            &&& p.len() == count
            &&& m <= n
            &&& distinct(p)
            &&& forall|k: int| 0 <= k < m ==> 0 <= #[trigger] p[k] < n && !dead[p[k]]
            &&& forall|k: int| m <= k < n ==> 0 <= #[trigger] p[k] < n && dead[p[k]]
            &&& forall|k: int| n <= k < count ==> #[trigger] p[k] == k
            &&& forall|v: int| 0 <= v < n && !dead[v] ==> exists|k: int| 0 <= k < m && p[k] == v
            &&& forall|v: int| 0 <= v < n && dead[v] ==> exists|k: int| m <= k < n && p[k] == v
        }),
{
    let a = positions(count);
    lemma_alive_from_bound(dead, 0, n);
    assert(partway(a, dead, n, n, n));
    lemma_sweep_partway(a, dead, n, n, n);
    lemma_sweep_len(a, dead, n, n);
    let p = sweep(a, dead, n, n);
    let m = survivors(dead, n);
    assert forall|v: int| 0 <= v < n && !dead[v] implies exists|k: int| 0 <= k < m && p[k] == v by {
        lemma_partway_covers(p, dead, 0, m, n, v);
        let k = choose|k: int| 0 <= k < p.len() && p[k] == v;
        if k >= n {
            assert(p[k] == k);
        } else if k >= m {
            assert(dead[p[k]]);
        }
    }
    assert forall|v: int| 0 <= v < n && dead[v] implies exists|k: int| m <= k < n && p[k] == v by {
        lemma_partway_covers(p, dead, 0, m, n, v);
        let k = choose|k: int| 0 <= k < p.len() && p[k] == v;
        if k >= n {
            assert(p[k] == k);
        } else if k < m {
            assert(!dead[p[k]]);
        }
    }
}

/// Sweeping only moves elements below the live length, so it commutes with cutting the
/// sequence off at any `n` at or above that length.
pub proof fn lemma_sweep_take<X>(s: Seq<X>, dead: Seq<bool>, i: nat, len: nat, n: nat)
    requires
        i <= len <= n <= s.len(),
    ensures
        sweep(s, dead, i, len).take(n as int) == sweep(s.take(n as int), dead, i, len),
    decreases i,
{
    if i > 0 {
        let j = (i - 1) as nat;
        if dead[j as int] {
            let t = swap_at(s, j as int, len - 1);
            assert(t.take(n as int) =~= swap_at(s.take(n as int), j as int, len - 1));
            lemma_sweep_take(t, dead, j, (len - 1) as nat, n);
        } else {
            lemma_sweep_take(s, dead, j, len, n);
        }
    }
}

/// With no dead position below `i`, sweeping leaves a sequence as it is.
pub proof fn lemma_sweep_no_dead<X>(s: Seq<X>, dead: Seq<bool>, i: nat, len: nat)
    requires
        forall|k: int| 0 <= k < i ==> !dead[k],
    ensures
        sweep(s, dead, i, len) == s,
    decreases i,
{
    if i > 0 {
        lemma_sweep_no_dead(s, dead, (i - 1) as nat, len);
    }
}

} // verus!
