//! Connected regions of a text-detection mask: the pixels the detector
//! marked, grouped into regions of pixels that touch (the eight
//! neighbours count), numbered in the order in which a row-by-row scan
//! first meets them.

use vstd::prelude::*;

verus! {

/// Pixels `p` and `q` of a `w`-wide, `h`-high grid are different and
/// touch, side or corner.
pub open spec fn touching(w: int, h: int, p: int, q: int) -> bool {
    &&& 0 <= p < w * h
    &&& 0 <= q < w * h
    &&& p != q
    &&& -1 <= p % w - q % w <= 1
    &&& -1 <= p / w - q / w <= 1
}

/// `path` runs over marked pixels, each touching the next.
pub open spec fn is_walk(mask: Seq<bool>, w: int, h: int, path: Seq<int>) -> bool {
    &&& path.len() >= 1
    &&& forall|i: int| 0 <= i < path.len() ==> 0 <= #[trigger] path[i] < w * h && mask[path[i]]
    &&& forall|i: int| 0 <= i < path.len() - 1 ==> touching(w, h, #[trigger] path[i], path[i + 1])
}

/// Marked pixels `p` and `q` lie in one region: a walk leads from one to
/// the other.
pub open spec fn joined(mask: Seq<bool>, w: int, h: int, p: int, q: int) -> bool {
    exists|path: Seq<int>| #[trigger] is_walk(mask, w, h, path) && path[0] == p && path.last() == q
}

/// Pixel `p` is the first of its region in scan order.
pub open spec fn region_start(mask: Seq<bool>, w: int, h: int, p: int) -> bool {
    &&& 0 <= p < w * h
    &&& mask[p]
    &&& forall|q: int| 0 <= q < p ==> !joined(mask, w, h, q, p)
}

/// How many regions start before pixel `n`.
pub open spec fn starts_before(mask: Seq<bool>, w: int, h: int, n: int) -> int
    decreases n,
{
    if n <= 0 {
        0
    } else if region_start(mask, w, h, n - 1) {
        starts_before(mask, w, h, n - 1) + 1
    } else {
        starts_before(mask, w, h, n - 1)
    }
}

/// The labels of a region labelling: 0 for an unmarked pixel, the same
/// number for pixels of one region and different numbers for different
/// regions, and for the first pixel of each region the number of regions
/// that start up to it (so regions are numbered 1, 2, ... in scan order).
pub open spec fn is_region_labelling(mask: Seq<bool>, w: int, h: int, labels: Seq<u32>) -> bool {
    &&& labels.len() == w * h
    &&& forall|p: int| 0 <= p < w * h ==> (#[trigger] labels[p] == 0 <==> !mask[p])
    &&& forall|p: int, q: int|
        0 <= p < w * h && 0 <= q < w * h && mask[p] && mask[q] ==> (#[trigger] labels[p]
            == #[trigger] labels[q] <==> joined(mask, w, h, p, q))
    &&& forall|p: int| #[trigger] region_start(mask, w, h, p) ==> labels[p] == starts_before(mask, w, h, p) + 1
}

proof fn lemma_walk_single(mask: Seq<bool>, w: int, h: int, p: int)
    requires
        0 <= p < w * h,
        mask[p],
    ensures
        joined(mask, w, h, p, p),
{
    let path = seq![p];
    assert(is_walk(mask, w, h, path));
}

proof fn lemma_joined_step(mask: Seq<bool>, w: int, h: int, p: int, q: int, r: int)
    requires
        joined(mask, w, h, p, q),
        touching(w, h, q, r),
        mask[r],
    ensures
        joined(mask, w, h, p, r),
{
    let path = choose|path: Seq<int>| #[trigger] is_walk(mask, w, h, path) && path[0] == p && path.last() == q;
    let p2 = path.push(r);
    assert forall|i: int| 0 <= i < p2.len() - 1 implies touching(w, h, #[trigger] p2[i], p2[i + 1]) by {
        if i < path.len() - 1 {
            assert(p2[i] == path[i] && p2[i + 1] == path[i + 1]);
        } else {
            assert(p2[i] == q);
        }
    }
    assert(is_walk(mask, w, h, p2));
}

proof fn lemma_joined_symmetric(mask: Seq<bool>, w: int, h: int, p: int, q: int)
    requires
        joined(mask, w, h, p, q),
    ensures
        joined(mask, w, h, q, p),
{
    let path = choose|path: Seq<int>| #[trigger] is_walk(mask, w, h, path) && path[0] == p && path.last() == q;
    let r = path.reverse();
    assert forall|i: int| 0 <= i < r.len() - 1 implies touching(w, h, #[trigger] r[i], r[i + 1]) by {
        let j = path.len() - 2 - i;
        assert(r[i] == path[j + 1]);
        assert(r[i + 1] == path[j]);
        assert(touching(w, h, path[j], path[j + 1]));
    }
    assert forall|i: int| 0 <= i < r.len() implies 0 <= #[trigger] r[i] < w * h && mask[r[i]] by {
        assert(r[i] == path[path.len() - 1 - i]);
    }
    assert(is_walk(mask, w, h, r));
}

proof fn lemma_joined_trans(mask: Seq<bool>, w: int, h: int, p: int, q: int, r: int)
    requires
        joined(mask, w, h, p, q),
        joined(mask, w, h, q, r),
    ensures
        joined(mask, w, h, p, r),
{
    let a = choose|path: Seq<int>| #[trigger] is_walk(mask, w, h, path) && path[0] == p && path.last() == q;
    let b = choose|path: Seq<int>| #[trigger] is_walk(mask, w, h, path) && path[0] == q && path.last() == r;
    let c = a + b.drop_first();
    assert forall|i: int| 0 <= i < c.len() implies 0 <= #[trigger] c[i] < w * h && mask[c[i]] by {
        if i < a.len() {
            assert(c[i] == a[i]);
        } else {
            assert(c[i] == b[i - a.len() + 1]);
        }
    }
    assert forall|i: int| 0 <= i < c.len() - 1 implies touching(w, h, #[trigger] c[i], c[i + 1]) by {
        if i < a.len() - 1 {
            assert(c[i] == a[i] && c[i + 1] == a[i + 1]);
        } else if i == a.len() - 1 {
            assert(c[i] == q);
            assert(c[i + 1] == b[1]);
            assert(b[0] == q);
            assert(touching(w, h, b[0], b[1]));
        } else {
            assert(c[i] == b[i - a.len() + 1]);
            assert(c[i + 1] == b[i - a.len() + 2]);
        }
    }
    assert(is_walk(mask, w, h, c));
    if b.len() == 1 {
        assert(c.last() == a.last());
    } else {
        assert(c.last() == b.last());
    }
}

/// A set of marked pixels (those with label `k`) closed under touching
/// marked pixels holds every pixel joined to one of its members.
proof fn lemma_closed_holds_joined(mask: Seq<bool>, w: int, h: int, labels: Seq<u32>, k: u32, p: int, q: int)
    requires
        labels.len() == w * h,
        0 <= p < w * h,
        labels[p] == k,
        forall|a: int, b: int|
            0 <= a < w * h && labels[a] == k && #[trigger] touching(w, h, a, b) && mask[b] ==> labels[b]
                == k,
        joined(mask, w, h, p, q),
    ensures
        labels[q] == k,
{
    let path = choose|path: Seq<int>| #[trigger] is_walk(mask, w, h, path) && path[0] == p && path.last() == q;
    lemma_walk_in_label(mask, w, h, labels, k, path, path.len() - 1);
}

proof fn lemma_walk_in_label(mask: Seq<bool>, w: int, h: int, labels: Seq<u32>, k: u32, path: Seq<int>, i: int)
    requires
        labels.len() == w * h,
        is_walk(mask, w, h, path),
        labels[path[0]] == k,
        0 <= i < path.len(),
        forall|a: int, b: int|
            0 <= a < w * h && labels[a] == k && #[trigger] touching(w, h, a, b) && mask[b] ==> labels[b]
                == k,
    ensures
        labels[path[i]] == k,
    decreases i,
{
    if i > 0 {
        lemma_walk_in_label(mask, w, h, labels, k, path, i - 1);
        assert(touching(w, h, path[i - 1], path[i]));
        assert(mask[path[i]]);
        assert(0 <= path[i - 1] < w * h);
    }
}

proof fn lemma_cell(w: int, h: int, x: int, y: int)
    requires
        0 <= x < w,
        0 <= y < h,
    ensures
        (y * w + x) % w == x,
        (y * w + x) / w == y,
        0 <= y * w + x < w * h,
{
    vstd::arithmetic::div_mod::lemma_fundamental_div_mod_converse(y * w + x, w, y, x);
    assert(0 <= y * w + x < w * h) by (nonlinear_arith)
        requires
            0 <= x < w,
            0 <= y < h,
    ;
}

proof fn lemma_split(w: int, h: int, q: int)
    requires
        0 <= q < w * h,
        w > 0,
    ensures
        q == (q / w) * w + q % w,
        0 <= q % w < w,
        0 <= q / w < h,
{
    vstd::arithmetic::div_mod::lemma_fundamental_div_mod(q, w);
    vstd::arithmetic::div_mod::lemma_mod_bound(q, w);
    vstd::arithmetic::div_mod::lemma_div_pos_is_pos(q, w);
    assert(w * (q / w) == (q / w) * w) by (nonlinear_arith);
    assert(q / w < h) by (nonlinear_arith)
        requires
            0 <= q < w * h,
            w > 0,
            q == (q / w) * w + q % w,
            0 <= q % w < w,
    ;
}

/// The cell `dx` columns and `dy` rows away from cell `p`, when it lies in
/// the grid.
fn cell_at(p: usize, w: usize, h: usize, dx: i64, dy: i64) -> (r: Option<usize>)
    requires
        w > 0,
        w <= u32::MAX,
        h <= u32::MAX,
        w * h <= u32::MAX,
        p < w * h,
        -1 <= dx <= 1,
        -1 <= dy <= 1,
    ensures
        ({
            let x = p as int % w as int;
            let y = p as int / w as int;
            let nx = x + dx;
            let ny = y + dy;
            if 0 <= nx < w && 0 <= ny < h {
                r matches Some(q) && q as int % w as int == nx && q as int / w as int == ny && q < w * h
            } else {
                r is None
            }
        }),
{
    proof {
        lemma_split(w as int, h as int, p as int);
    }
    let x = (p % w) as i64;
    let y = (p / w) as i64;
    let nx = x + dx;
    let ny = y + dy;
    if 0 <= nx && nx < w as i64 && 0 <= ny && ny < h as i64 {
        proof {
            lemma_cell(w as int, h as int, nx as int, ny as int);
        }
        let q = (ny as usize) * w + (nx as usize);
        assert(q == ny * w + nx);
        Some(q)
    } else {
        None
    }
}

pub open spec fn ints(v: Seq<usize>) -> Seq<int> {
    v.map_values(|q: usize| q as int)
}

fn push_opt(out: &mut Vec<usize>, c: Option<usize>)
    ensures
        forall|v: int|
            #[trigger] ints(final(out)@).contains(v) <==> (ints(old(out)@).contains(v) || (c matches Some(q)
                && v == q as int)),
{
    let ghost before = ints(out@);
    if let Some(q) = c {
        out.push(q);
        assert forall|v: int| #[trigger] ints(out@).contains(v) <==> (before.contains(v) || v == q as int) by {
            if ints(out@).contains(v) {
                let i = choose|i: int| 0 <= i < ints(out@).len() && ints(out@)[i] == v;
                if i < before.len() {
                    assert(before[i] == v);
                }
            }
            if before.contains(v) {
                let i = choose|i: int| 0 <= i < before.len() && before[i] == v;
                assert(ints(out@)[i] == v);
            }
            if v == q as int {
                assert(ints(out@)[ints(out@).len() - 1] == v);
            }
        }
    } else {
        assert(ints(out@) =~= before);
    }
}

/// The cells that touch cell `p`.
fn touching_cells(p: usize, w: usize, h: usize) -> (r: Vec<usize>)
    requires
        w > 0,
        w <= u32::MAX,
        h <= u32::MAX,
        w * h <= u32::MAX,
        p < w * h,
    ensures
        forall|q: int| touching(w as int, h as int, p as int, q) <==> #[trigger] ints(r@).contains(q),
        forall|i: int| 0 <= i < r@.len() ==> r@[i] < w * h,
{
    let mut out: Vec<usize> = Vec::new();
    let c0 = cell_at(p, w, h, -1, -1);
    let c1 = cell_at(p, w, h, 0, -1);
    let c2 = cell_at(p, w, h, 1, -1);
    let c3 = cell_at(p, w, h, -1, 0);
    let c4 = cell_at(p, w, h, 1, 0);
    let c5 = cell_at(p, w, h, -1, 1);
    let c6 = cell_at(p, w, h, 0, 1);
    let c7 = cell_at(p, w, h, 1, 1);
    push_opt(&mut out, c0);
    push_opt(&mut out, c1);
    push_opt(&mut out, c2);
    push_opt(&mut out, c3);
    push_opt(&mut out, c4);
    push_opt(&mut out, c5);
    push_opt(&mut out, c6);
    push_opt(&mut out, c7);
    proof {
        let wi = w as int;
        let hi = h as int;
        let pi = p as int;
        lemma_split(wi, hi, pi);
        assert(ints(Seq::<usize>::empty()) =~= Seq::<int>::empty());
        assert forall|q: int| touching(wi, hi, pi, q) <==> #[trigger] ints(out@).contains(q) by {
            if touching(wi, hi, pi, q) {
                lemma_split(wi, hi, q);
                let dx = q % wi - pi % wi;
                let dy = q / wi - pi / wi;
                assert(!(dx == 0 && dy == 0));
                let c = if dy == -1 {
                    if dx == -1 {
                        c0
                    } else if dx == 0 {
                        c1
                    } else {
                        c2
                    }
                } else if dy == 0 {
                    if dx == -1 {
                        c3
                    } else {
                        c4
                    }
                } else if dx == -1 {
                    c5
                } else if dx == 0 {
                    c6
                } else {
                    c7
                };
                assert(c matches Some(q2) && q2 as int % wi == q % wi && q2 as int / wi == q / wi);
                let q2 = c->0;
                lemma_split(wi, hi, q2 as int);
                assert(q2 as int == q);
            }
            if ints(out@).contains(q) {
                let c = if c0 matches Some(v) && q == v {
                    c0
                } else if c1 matches Some(v) && q == v {
                    c1
                } else if c2 matches Some(v) && q == v {
                    c2
                } else if c3 matches Some(v) && q == v {
                    c3
                } else if c4 matches Some(v) && q == v {
                    c4
                } else if c5 matches Some(v) && q == v {
                    c5
                } else if c6 matches Some(v) && q == v {
                    c6
                } else {
                    c7
                };
                assert(c matches Some(v) && q == v);
                lemma_split(wi, hi, q);
                assert(q != pi);
            }
        }
        assert forall|i: int| 0 <= i < out@.len() implies out@[i] < w * h by {
            assert(ints(out@).contains(out@[i] as int)) by {
                assert(ints(out@)[i] == out@[i] as int);
            }
        }
    }
    out
}

/// How many pixels are still without a label.
pub open spec fn unlabelled(s: Seq<u32>) -> nat
    decreases s.len(),
{
    if s.len() == 0 {
        0
    } else {
        unlabelled(s.drop_last()) + if s.last() == 0 {
            1nat
        } else {
            0nat
        }
    }
}

proof fn lemma_unlabelled_set(s: Seq<u32>, i: int, v: u32)
    requires
        0 <= i < s.len(),
        s[i] == 0,
        v != 0,
    ensures
        unlabelled(s.update(i, v)) + 1 == unlabelled(s),
    decreases s.len(),
{
    let t = s.update(i, v);
    if i < s.len() - 1 {
        lemma_unlabelled_set(s.drop_last(), i, v);
        assert(t.drop_last() =~= s.drop_last().update(i, v));
    } else {
        assert(t.drop_last() =~= s.drop_last());
    }
}

proof fn lemma_starts_before_bound(mask: Seq<bool>, w: int, h: int, n: int)
    requires
        0 <= n,
    ensures
        0 <= starts_before(mask, w, h, n) <= n,
    decreases n,
{
    if n > 0 {
        lemma_starts_before_bound(mask, w, h, n - 1);
    }
}

/// Labels the regions of a `w`-wide, `h`-high mask, given row by row:
/// returns the labelling (see [`is_region_labelling`]) and the number of
/// regions.
#[verifier::rlimit(60)]
pub fn label_regions(mask: &Vec<bool>, w: usize, h: usize) -> (r: (Vec<u32>, u32))
    requires
        mask@.len() == w * h,
        w <= u32::MAX,
        h <= u32::MAX,
        w * h <= u32::MAX,
    ensures
        is_region_labelling(mask@, w as int, h as int, r.0@),
        r.1 == starts_before(mask@, w as int, h as int, w * h),
{
    let ghost wi = w as int;
    let ghost hi = h as int;
    let ghost m = mask@;
    let n = mask.len();
    let mut labels: Vec<u32> = Vec::new();
    let mut k: usize = 0;
    while k < n
        invariant
            k <= n,
            labels@.len() == k,
            forall|p: int| 0 <= p < k ==> labels@[p] == 0,
        decreases n - k,
    {
        labels.push(0);
        k = k + 1;
    }
    let mut cur: u32 = 0;
    let ghost mut starts: Seq<int> = Seq::empty();
    let mut st: usize = 0;
    if w == 0 {
        proof {
            assert(n == 0) by (nonlinear_arith)
                requires
                    n == w * h,
                    w == 0,
            ;
        }
    }
    while st < n
        invariant
            n == mask@.len(),
            n == w * h,
            m == mask@,
            wi == w,
            hi == h,
            w <= u32::MAX,
            h <= u32::MAX,
            w * h <= u32::MAX,
            st <= n,
            labels@.len() == n,
            forall|p: int| 0 <= p < n && !m[p] ==> labels@[p] == 0,
            forall|p: int| 0 <= p < st && m[p] ==> labels@[p] != 0,
            forall|p: int| 0 <= p < n ==> labels@[p] <= cur,
            forall|a: int, b: int|
                0 <= a < n && labels@[a] != 0 && #[trigger] touching(wi, hi, a, b) && m[b] ==> labels@[b]
                    == labels@[a],
            starts.len() == cur,
            forall|i: int|
                0 <= i < cur ==> 0 <= #[trigger] starts[i] < st && labels@[starts[i]] == i + 1
                    && region_start(m, wi, hi, starts[i]) && starts_before(m, wi, hi, starts[i]) == i,
            forall|p: int|
                0 <= p < n && labels@[p] != 0 ==> joined(m, wi, hi, p, starts[labels@[p] - 1]),
            cur == starts_before(m, wi, hi, st as int),
            forall|p: int|
                0 <= p < st && #[trigger] region_start(m, wi, hi, p) ==> exists|i: int|
                    0 <= i < cur && starts[i] == p,
        decreases n - st,
    {
        proof {
            lemma_starts_before_bound(m, wi, hi, st as int);
        }
        if mask[st] && labels[st] == 0 {
            proof {
                assert forall|q: int| 0 <= q < st implies !joined(m, wi, hi, q, st as int) by {
                    if joined(m, wi, hi, q, st as int) {
                        let path = choose|path: Seq<int>|
                            #[trigger] is_walk(m, wi, hi, path) && path[0] == q && path.last() == st as int;
                        assert(m[path[0]]);
                        lemma_closed_holds_joined(m, wi, hi, labels@, labels@[q], q, st as int);
                    }
                }
                assert(region_start(m, wi, hi, st as int));
            }
            let c = cur + 1;
            let ghost old_labels = labels@;
            let ghost old_starts = starts;
            labels.set(st, c);
            proof {
                starts = starts.push(st as int);
                lemma_walk_single(m, wi, hi, st as int);
                assert forall|i: int| 0 <= i < cur implies #[trigger] starts[i] == old_starts[i] by {}
            }
            let mut queue: Vec<usize> = vec![st];
            proof {
                assert(ints(queue@) =~= seq![st as int]);
                assert forall|a: int, b: int|
                    0 <= a < n && labels@[a] != 0 && #[trigger] touching(wi, hi, a, b) && m[b]
                        && !ints(queue@).contains(a) implies labels@[b] == labels@[a] by {
                    assert(ints(queue@)[0] == st as int);
                    assert(a != st as int);
                    assert(old_labels[a] == labels@[a]);
                    assert(old_labels[b] == old_labels[a]);
                }
                assert forall|p: int|
                    0 <= p < st && #[trigger] region_start(m, wi, hi, p) implies exists|i: int|
                        0 <= i < cur && starts[i] == p by {
                    let i = choose|i: int| 0 <= i < cur && old_starts[i] == p;
                    assert(starts[i] == p);
                }
            }
            while queue.len() > 0
                invariant
                    n == mask@.len(),
                    n == w * h,
                    m == mask@,
                    wi == w,
                    hi == h,
                    w <= u32::MAX,
                    h <= u32::MAX,
                    w * h <= u32::MAX,
                    w > 0,
                    st < n,
                    c == cur + 1,
                    cur == starts_before(m, wi, hi, st as int),
                    region_start(m, wi, hi, st as int),
                    labels@.len() == n,
                    labels@[st as int] == c,
                    forall|p: int| 0 <= p < n && !m[p] ==> labels@[p] == 0,
                    forall|p: int| 0 <= p < st && m[p] ==> labels@[p] != 0,
                    forall|p: int| 0 <= p < n ==> labels@[p] <= c,
                    forall|a: int, b: int|
                        0 <= a < n && labels@[a] != 0 && #[trigger] touching(wi, hi, a, b) && m[b]
                            && !ints(queue@).contains(a) ==> labels@[b] == labels@[a],
                    forall|i: int| 0 <= i < queue@.len() ==> #[trigger] queue@[i] < n && labels@[queue@[i] as int] == c,
                    queue@.no_duplicates(),
                    starts.len() == c,
                    starts[cur as int] == st,
                    forall|i: int|
                        0 <= i < cur ==> 0 <= #[trigger] starts[i] < st && labels@[starts[i]] == i + 1
                            && region_start(m, wi, hi, starts[i]) && starts_before(m, wi, hi, starts[i]) == i,
                    forall|p: int|
                        0 <= p < n && labels@[p] != 0 ==> joined(m, wi, hi, p, starts[labels@[p] - 1]),
                    forall|p: int|
                        0 <= p < st && #[trigger] region_start(m, wi, hi, p) ==> exists|i: int|
                            0 <= i < cur && starts[i] == p,
                decreases queue@.len() + 2 * unlabelled(labels@),
            {
                let ghost before = queue@.len() + 2 * unlabelled(labels@);
                let ghost full_queue = queue@;
                let p = queue.pop().unwrap();
                proof {
                    assert(full_queue =~= queue@.push(p));
                    assert forall|a: int| #[trigger] ints(queue@).contains(a) implies ints(full_queue).contains(a) by {
                        let i = choose|i: int| 0 <= i < ints(queue@).len() && ints(queue@)[i] == a;
                        assert(ints(full_queue)[i] == a);
                    }
                    assert(ints(full_queue)[full_queue.len() - 1] == p as int);
                    assert(labels@[p as int] == c);
                    assert(!queue@.contains(p)) by {
                        if queue@.contains(p) {
                            let i = choose|i: int| 0 <= i < queue@.len() && queue@[i] == p;
                        }
                    }
                    assert(!ints(queue@).contains(p as int)) by {
                        if ints(queue@).contains(p as int) {
                            let i = choose|i: int| 0 <= i < ints(queue@).len() && ints(queue@)[i] == p as int;
                            assert(queue@[i] == p);
                        }
                    }
                    assert forall|a: int, b: int|
                        0 <= a < n && labels@[a] != 0 && #[trigger] touching(wi, hi, a, b) && m[b]
                            && !ints(queue@).contains(a) && a != p implies labels@[b] == labels@[a] by {
                        if ints(full_queue).contains(a) {
                            let i = choose|i: int| 0 <= i < ints(full_queue).len() && ints(full_queue)[i] == a;
                            if i < queue@.len() {
                                assert(ints(queue@)[i] == a);
                            }
                        }
                    }
                }
                let nb = touching_cells(p, w, h);
                let mut t: usize = 0;
                while t < nb.len()
                    invariant
                        n == mask@.len(),
                        n == w * h,
                        m == mask@,
                        wi == w,
                        hi == h,
                        w <= u32::MAX,
                        h <= u32::MAX,
                        w * h <= u32::MAX,
                        w > 0,
                        st < n,
                        p < n,
                        c == cur + 1,
                        c >= 1,
                        cur == starts_before(m, wi, hi, st as int),
                        region_start(m, wi, hi, st as int),
                        labels@.len() == n,
                        labels@[st as int] == c,
                        labels@[p as int] == c,
                        t <= nb@.len(),
                        forall|q: int| touching(wi, hi, p as int, q) <==> #[trigger] ints(nb@).contains(q),
                        forall|i: int| 0 <= i < nb@.len() ==> nb@[i] < w * h,
                        forall|i: int| 0 <= i < t && m[nb@[i] as int] ==> labels@[nb@[i] as int] == c,
                        forall|p2: int| 0 <= p2 < n && !m[p2] ==> labels@[p2] == 0,
                        forall|p2: int| 0 <= p2 < st && m[p2] ==> labels@[p2] != 0,
                        forall|p2: int| 0 <= p2 < n ==> labels@[p2] <= c,
                        forall|a: int, b: int|
                            0 <= a < n && labels@[a] != 0 && #[trigger] touching(wi, hi, a, b) && m[b]
                                && !ints(queue@).contains(a) && a != p ==> labels@[b] == labels@[a],
                        !ints(queue@).contains(p as int),
                        forall|i: int| 0 <= i < queue@.len() ==> #[trigger] queue@[i] < n && labels@[queue@[i] as int] == c,
                        queue@.no_duplicates(),
                        queue@.len() + 2 * unlabelled(labels@) < before,
                        starts.len() == c,
                        starts[cur as int] == st,
                        forall|i: int|
                            0 <= i < cur ==> 0 <= #[trigger] starts[i] < st && labels@[starts[i]] == i + 1
                                && region_start(m, wi, hi, starts[i]) && starts_before(m, wi, hi, starts[i]) == i,
                        forall|p2: int|
                            0 <= p2 < n && labels@[p2] != 0 ==> joined(m, wi, hi, p2, starts[labels@[p2] - 1]),
                        forall|p2: int|
                            0 <= p2 < st && #[trigger] region_start(m, wi, hi, p2) ==> exists|i: int|
                                0 <= i < cur && starts[i] == p2,
                    decreases nb@.len() - t,
                {
                    let q = nb[t];
                    proof {
                        assert(ints(nb@)[t as int] == q as int);
                        assert(ints(nb@).contains(q as int));
                        assert(touching(wi, hi, p as int, q as int));
                        assert(touching(wi, hi, q as int, p as int));
                        if m[q as int] && labels@[q as int] != 0 {
                            if ints(queue@).contains(q as int) {
                                let i = choose|i: int| 0 <= i < ints(queue@).len() && ints(queue@)[i] == q as int;
                                assert(queue@[i] == q);
                            } else {
                                assert(labels@[p as int] == labels@[q as int]);
                            }
                        }
                    }
                    let ghost labels_t = labels@;
                    if mask[q] && labels[q] == 0 {
                        proof {
                            lemma_unlabelled_set(labels@, q as int, c);
                            assert(joined(m, wi, hi, p as int, st as int));
                            lemma_joined_symmetric(m, wi, hi, p as int, st as int);
                            lemma_joined_step(m, wi, hi, st as int, p as int, q as int);
                            lemma_joined_symmetric(m, wi, hi, st as int, q as int);
                        }
                        let ghost old_labels = labels@;
                        let ghost old_queue = queue@;
                        labels.set(q, c);
                        queue.push(q);
                        proof {
                            assert forall|v: int| #[trigger] ints(queue@).contains(v) <==> (ints(old_queue).contains(v) || v == q as int) by {
                                if ints(queue@).contains(v) {
                                    let i = choose|i: int| 0 <= i < ints(queue@).len() && ints(queue@)[i] == v;
                                    if i < old_queue.len() {
                                        assert(ints(old_queue)[i] == v);
                                    }
                                }
                                if ints(old_queue).contains(v) {
                                    let i = choose|i: int| 0 <= i < ints(old_queue).len() && ints(old_queue)[i] == v;
                                    assert(ints(queue@)[i] == v);
                                }
                                if v == q as int {
                                    assert(ints(queue@)[queue@.len() - 1] == v);
                                }
                            }
                            assert(!old_queue.contains(q)) by {
                                if old_queue.contains(q) {
                                    let i = choose|i: int| 0 <= i < old_queue.len() && old_queue[i] == q;
                                }
                            }
                            assert forall|a: int, b: int| 0 <= a < n && labels@[a] != 0 && #[trigger] touching(wi, hi, a, b)
                                && m[b] && !ints(queue@).contains(a) && a != p implies labels@[b] == labels@[a] by {
                                assert(a != q);
                                assert(old_labels[a] == labels@[a]);
                                if b == q {
                                    assert(old_labels[b] == old_labels[a]);
                                }
                            }
                        }
                    }
                    proof {
                        assert forall|i: int| 0 <= i < t + 1 && m[nb@[i] as int] implies labels@[nb@[i] as int] == c by {
                            if i < t {
                                assert(labels_t[nb@[i] as int] == c);
                            }
                        }
                    }
                    t = t + 1;
                }
                proof {
                    assert forall|a: int, b: int| 0 <= a < n && labels@[a] != 0 && #[trigger] touching(wi, hi, a, b)
                        && m[b] && !ints(queue@).contains(a) implies labels@[b] == labels@[a] by {
                        if a == p {
                            assert(ints(nb@).contains(b));
                            let i = choose|i: int| 0 <= i < ints(nb@).len() && ints(nb@)[i] == b;
                            assert(nb@[i] as int == b);
                        }
                    }
                }
            }
            cur = c;
        } else {
            proof {
                if m[st as int] {
                    let lab = labels@[st as int];
                    let s0 = starts[lab - 1];
                    lemma_joined_symmetric(m, wi, hi, st as int, s0);
                    assert(!region_start(m, wi, hi, st as int));
                }
            }
        }
        st = st + 1;
    }
    proof {
        assert forall|p: int, q: int|
            0 <= p < wi * hi && 0 <= q < wi * hi && m[p] && m[q] implies (#[trigger] labels@[p]
                == #[trigger] labels@[q] <==> joined(m, wi, hi, p, q)) by {
            if joined(m, wi, hi, p, q) {
                lemma_closed_holds_joined(m, wi, hi, labels@, labels@[p], p, q);
            }
            if labels@[p] == labels@[q] {
                let s0 = starts[labels@[p] - 1];
                lemma_joined_symmetric(m, wi, hi, q, s0);
                lemma_joined_trans(m, wi, hi, p, s0, q);
            }
        }
        assert forall|p: int| #[trigger] region_start(m, wi, hi, p) implies labels@[p] == starts_before(m, wi, hi, p) + 1 by {
            let i = choose|i: int| 0 <= i < cur && starts[i] == p;
        }
    }
    (labels, cur)
}


/// How many of the first `n` labels equal `k`.
pub open spec fn label_count(labels: Seq<u32>, k: u32, n: int) -> nat
    decreases n,
{
    if n <= 0 {
        0
    } else if labels[n - 1] == k {
        label_count(labels, k, n - 1) + 1
    } else {
        label_count(labels, k, n - 1)
    }
}

proof fn lemma_label_count_bound(labels: Seq<u32>, k: u32, n: int)
    requires
        0 <= n,
    ensures
        label_count(labels, k, n) <= n,
    decreases n,
{
    if n > 0 {
        lemma_label_count_bound(labels, k, n - 1);
    }
}

/// The smallest box, in columns `x0..=x1` and rows `y0..=y1`, that holds
/// the pixels of one region, and how many pixels the region has.
#[derive(Clone, Copy, Debug, PartialEq, Eq)]
pub struct RegionBox {
    pub x0: usize,
    pub y0: usize,
    pub x1: usize,
    pub y1: usize,
    pub pixels: usize,
}

/// The box and pixel count of the pixels labelled `k` in a `w`-wide
/// labelling, or `None` where no pixel has that label.
pub fn region_box(labels: &Vec<u32>, w: usize, k: u32) -> (r: Option<RegionBox>)
    requires
        w > 0,
    ensures
        r is None <==> (forall|p: int| 0 <= p < labels@.len() ==> labels@[p] != k),
        r matches Some(b) ==> {
            &&& forall|p: int| 0 <= p < labels@.len() && labels@[p] == k ==> b.x0 <= p % (w as int) <= b.x1
                && b.y0 <= p / (w as int) <= b.y1
            &&& exists|p: int| 0 <= p < labels@.len() && labels@[p] == k && p % (w as int) == b.x0
            &&& exists|p: int| 0 <= p < labels@.len() && labels@[p] == k && p % (w as int) == b.x1
            &&& exists|p: int| 0 <= p < labels@.len() && labels@[p] == k && p / (w as int) == b.y0
            &&& exists|p: int| 0 <= p < labels@.len() && labels@[p] == k && p / (w as int) == b.y1
            &&& b.pixels == label_count(labels@, k, labels@.len() as int)
        },
{
    let ghost wi = w as int;
    let mut found: Option<RegionBox> = None;
    let mut i: usize = 0;
    while i < labels.len()
        invariant
            i <= labels@.len(),
            wi == w,
            w > 0,
            found is None <==> (forall|p: int| 0 <= p < i ==> labels@[p] != k),
            found matches Some(b) ==> {
                &&& forall|p: int| 0 <= p < i && labels@[p] == k ==> b.x0 <= p % wi <= b.x1 && b.y0 <= p / wi <= b.y1
                &&& exists|p: int| 0 <= p < i && labels@[p] == k && p % wi == b.x0
                &&& exists|p: int| 0 <= p < i && labels@[p] == k && p % wi == b.x1
                &&& exists|p: int| 0 <= p < i && labels@[p] == k && p / wi == b.y0
                &&& exists|p: int| 0 <= p < i && labels@[p] == k && p / wi == b.y1
                &&& b.pixels == label_count(labels@, k, i as int)
            },
            found is None ==> label_count(labels@, k, i as int) == 0,
        decreases labels@.len() - i,
    {
        proof {
            lemma_label_count_bound(labels@, k, i as int);
        }
        if labels[i] == k {
            let x = i % w;
            let y = i / w;
            let ghost ip = i as int;
            match found {
                None => {
                    found = Some(RegionBox { x0: x, y0: y, x1: x, y1: y, pixels: 1 });
                    proof {
                        assert(labels@[ip] == k && ip % wi == x && ip / wi == y);
                    }
                },
                Some(b) => {
                    let nb = RegionBox {
                        x0: if x < b.x0 { x } else { b.x0 },
                        y0: if y < b.y0 { y } else { b.y0 },
                        x1: if x > b.x1 { x } else { b.x1 },
                        y1: if y > b.y1 { y } else { b.y1 },
                        pixels: b.pixels + 1,
                    };
                    proof {
                        assert(labels@[ip] == k && ip % wi == x && ip / wi == y);
                    }
                    found = Some(nb);
                },
            }
        }
        i = i + 1;
    }
    found
}

} // verus!
