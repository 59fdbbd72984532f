use std::marker::PhantomData;
use vstd::prelude::*;
use vstd::utf8::{decode_utf8, valid_utf8};

use super::error::{Utf8Error, WrapperError};
use super::ptr::Ptr;

verus! {

/// The raw links of one `wl_list` node, as libwayland lays them out.
///
/// A node is named by its slot in a [`ListPool`]; `None` stands where the C
/// struct holds a NULL pointer.
#[derive(Debug, Clone, Copy, PartialEq, Eq)]
pub struct Link {
    pub prev: Option<usize>,
    pub next: Option<usize>,
}

/// Index of the successor of position `k` in a ring of length `n`.
pub open spec fn succ_idx(n: int, k: int) -> int {
    if k + 1 == n {
        0
    } else {
        k + 1
    }
}

/// Index of the predecessor of position `k` in a ring of length `n`.
pub open spec fn pred_idx(n: int, k: int) -> int {
    if k == 0 {
        n - 1
    } else {
        k - 1
    }
}

/// The ring `s` read from position `k` onwards, wrapping around.
pub open spec fn rotate(s: Seq<usize>, k: int) -> Seq<usize> {
    s.subrange(k, s.len() as int) + s.subrange(0, k)
}

pub proof fn lemma_rotate_index(s: Seq<usize>, k: int)
    requires
        0 <= k < s.len(),
    ensures
        rotate(s, k).len() == s.len(),
        forall|t: int|
            0 <= t < s.len() ==> #[trigger] rotate(s, k)[t] == s[if k + t < s.len() {
                k + t
            } else {
                k + t - s.len()
            }],
{
    assert forall|t: int| 0 <= t < s.len() implies #[trigger] rotate(s, k)[t] == s[if k + t
        < s.len() {
        k + t
    } else {
        k + t - s.len()
    }] by {
        if t < s.len() - k {
            assert(rotate(s, k)[t] == s.subrange(k, s.len() as int)[t]);
        } else {
            assert(rotate(s, k)[t] == s.subrange(0, k)[t - (s.len() - k)]);
        }
    }
}

spec fn ring_ok(
    links: Seq<Link>,
    rings: Seq<Seq<usize>>,
    loc: Map<usize, (int, int)>,
    r: int,
    k: int,
) -> bool {
    let i = rings[r][k];
    let n = rings[r].len() as int;
    &&& i < links.len()
    &&& loc.contains_key(i)
    &&& loc[i] == (r, k)
    &&& links[i as int].next == Some(rings[r][succ_idx(n, k)])
    &&& links[i as int].prev == Some(rings[r][pred_idx(n, k)])
}

spec fn loc_ok(rings: Seq<Seq<usize>>, loc: Map<usize, (int, int)>, i: usize) -> bool {
    let (r, k) = loc[i];
    &&& 0 <= r < rings.len()
    &&& 0 <= k < rings[r].len()
    &&& rings[r][k] == i
}

spec fn free_ok(links: Seq<Link>, i: usize) -> bool {
    &&& links[i as int].next.is_none()
    &&& links[i as int].prev.is_none()
}

/// The raw links form the disjoint rings `rings`; `loc` tells where each
/// linked node sits; nodes outside every ring have NULL links.
spec fn parts_wf(links: Seq<Link>, rings: Seq<Seq<usize>>, loc: Map<usize, (int, int)>) -> bool {
    &&& forall|r: int, k: int|
        0 <= r < rings.len() && 0 <= k < rings[r].len() ==> #[trigger] ring_ok(
            links,
            rings,
            loc,
            r,
            k,
        )
    &&& forall|i: usize| loc.contains_key(i) ==> #[trigger] loc_ok(rings, loc, i)
    &&& forall|i: usize| i < links.len() && !loc.contains_key(i) ==> #[trigger] free_ok(links, i)
}

spec fn ring_view(rings: Seq<Seq<usize>>, loc: Map<usize, (int, int)>, i: usize) -> Seq<usize> {
    if loc.contains_key(i) {
        rotate(rings[loc[i].0], loc[i].1)
    } else {
        Seq::empty()
    }
}

proof fn lemma_linked_in_range(links: Seq<Link>, rings: Seq<Seq<usize>>, loc: Map<usize, (int, int)>, i: usize)
    requires
        parts_wf(links, rings, loc),
        loc.contains_key(i),
    ensures
        loc_ok(rings, loc, i),
        ring_ok(links, rings, loc, loc[i].0, loc[i].1),
        i < links.len(),
        links[i as int].next.is_some(),
        links[i as int].prev.is_some(),
{
    assert(loc_ok(rings, loc, i));
    assert(ring_ok(links, rings, loc, loc[i].0, loc[i].1));
}

proof fn lemma_free_node(links: Seq<Link>, rings: Seq<Seq<usize>>, loc: Map<usize, (int, int)>, i: usize)
    requires
        parts_wf(links, rings, loc),
        i < links.len(),
        !loc.contains_key(i),
    ensures
        links[i as int].next.is_none(),
        links[i as int].prev.is_none(),
{
    assert(free_ok(links, i));
}

// ---- insertion -------------------------------------------------------------

spec fn ins_links(links: Seq<Link>, list: usize, elm: usize) -> Seq<Link> {
    let lnext = links[list as int].next.unwrap();
    let l1 = links.update(elm as int, Link { prev: Some(list), next: Some(lnext) });
    let l2 = l1.update(list as int, Link { prev: l1[list as int].prev, next: Some(elm) });
    l2.update(lnext as int, Link { prev: Some(elm), next: l2[lnext as int].next })
}

spec fn ins_rings(rings: Seq<Seq<usize>>, loc: Map<usize, (int, int)>, list: usize, elm: usize) -> Seq<
    Seq<usize>,
> {
    let (r, k) = loc[list];
    let rings1 = if loc.contains_key(elm) {
        rings.update(loc[elm].0, Seq::empty())
    } else {
        rings
    };
    rings1.update(r, rings[r].insert(k + 1, elm))
}

spec fn ins_loc(loc: Map<usize, (int, int)>, list: usize, elm: usize) -> Map<usize, (int, int)> {
    let (r, k) = loc[list];
    Map::new(
        |j: usize| loc.contains_key(j) || j == elm,
        |j: usize|
            if j == elm {
                (r, k + 1)
            } else if loc[j].0 == r && loc[j].1 > k {
                (r, loc[j].1 + 1)
            } else {
                loc[j]
            },
    )
}

spec fn ins_pre(links: Seq<Link>, rings: Seq<Seq<usize>>, loc: Map<usize, (int, int)>, list: usize, elm: usize) -> bool {
    &&& parts_wf(links, rings, loc)
    &&& loc.contains_key(list)
    &&& elm < links.len()
    &&& elm != list
    &&& (loc.contains_key(elm) ==> rings[loc[elm].0].len() == 1)
}

proof fn lemma_ins_elm_elsewhere(links: Seq<Link>, rings: Seq<Seq<usize>>, loc: Map<usize, (int, int)>, list: usize, elm: usize)
    requires
        ins_pre(links, rings, loc, list, elm),
    ensures
        loc.contains_key(elm) ==> loc[elm].0 != loc[list].0 && loc[elm].1 == 0,
        !loc.contains_key(elm) ==> free_ok(links, elm),
        links[list as int].next == Some(rings[loc[list].0][succ_idx(rings[loc[list].0].len() as int, loc[list].1)]),
        loc_ok(rings, loc, list),
        loc.contains_key(elm) ==> loc_ok(rings, loc, elm),
        ring_ok(links, rings, loc, loc[list].0, loc[list].1),
        ring_ok(links, rings, loc, loc[list].0, succ_idx(rings[loc[list].0].len() as int, loc[list].1)),
        ins_links(links, list, elm).len() == links.len(),
{
    lemma_linked_in_range(links, rings, loc, list);
    assert(ring_ok(links, rings, loc, loc[list].0, succ_idx(rings[loc[list].0].len() as int, loc[list].1)));
    if loc.contains_key(elm) {
        lemma_linked_in_range(links, rings, loc, elm);
        if loc[elm].0 == loc[list].0 {
            assert(rings[loc[list].0][0] == elm);
        }
    } else {
        assert(free_ok(links, elm));
    }
}

proof fn lemma_ins_ring_ok(links: Seq<Link>, rings: Seq<Seq<usize>>, loc: Map<usize, (int, int)>, list: usize, elm: usize, rr: int, q: int)
    requires
        ins_pre(links, rings, loc, list, elm),
        0 <= rr < ins_rings(rings, loc, list, elm).len(),
        0 <= q < ins_rings(rings, loc, list, elm)[rr].len(),
    ensures
        ring_ok(ins_links(links, list, elm), ins_rings(rings, loc, list, elm), ins_loc(loc, list, elm), rr, q),
{
    let (r, k) = loc[list];
    let rl = rings[r];
    let n = rl.len() as int;
    let nr = rl.insert(k + 1, elm);
    let nl = ins_links(links, list, elm);
    let nrings = ins_rings(rings, loc, list, elm);
    let nloc = ins_loc(loc, list, elm);
    lemma_ins_elm_elsewhere(links, rings, loc, list, elm);
    rl.insert_ensures(k + 1, elm);
    let lnext = links[list as int].next.unwrap();
    if rr == r {
        assert(nrings[rr] == nr);
        assert(ring_ok(links, rings, loc, r, k));
        let j = nr[q];
        if q <= k {
            assert(nr[q] == rl[q]);
            assert(ring_ok(links, rings, loc, r, q));
        } else if q == k + 1 {
            assert(nr[q] == elm);
        } else {
            assert(nr[q] == rl[q - 1]);
            assert(ring_ok(links, rings, loc, r, q - 1));
        }
        if q < k {
            assert(nr[q + 1] == rl[q + 1]);
        } else if q == k + 1 && k + 1 < n {
            assert(nr[q + 1] == rl[k + 1]);
        } else if q > k + 1 && q < n {
            assert(nr[q + 1] == rl[q]);
        }
        if q > 0 && q <= k {
            assert(nr[q - 1] == rl[q - 1]);
        } else if q > k + 2 {
            assert(nr[q - 1] == rl[q - 2]);
        }
        assert(nr[0] == rl[0]);
        if k + 1 == n {
            assert(nr[n] == elm);
        } else {
            assert(nr[n] == rl[n - 1]);
        }
        if n > 1 {
            assert(ring_ok(links, rings, loc, r, succ_idx(n, k)));
        }
        if k == 0 {
            assert(ring_ok(links, rings, loc, r, n - 1));
        }
    } else {
        if loc.contains_key(elm) && rr == loc[elm].0 {
            assert(nrings[rr].len() == 0);
        }
        assert(nrings[rr] == rings[rr]);
        assert(ring_ok(links, rings, loc, rr, q));
        let j = rings[rr][q];
        assert(j != elm);
        assert(j != list);
        assert(j != lnext);
        assert(nl[j as int] == links[j as int]);
    }
}

proof fn lemma_ins_wf(links: Seq<Link>, rings: Seq<Seq<usize>>, loc: Map<usize, (int, int)>, list: usize, elm: usize)
    requires
        ins_pre(links, rings, loc, list, elm),
    ensures
        parts_wf(ins_links(links, list, elm), ins_rings(rings, loc, list, elm), ins_loc(loc, list, elm)),
{
    let (r, k) = loc[list];
    let rl = rings[r];
    let nr = rl.insert(k + 1, elm);
    let nl = ins_links(links, list, elm);
    let nrings = ins_rings(rings, loc, list, elm);
    let nloc = ins_loc(loc, list, elm);
    lemma_ins_elm_elsewhere(links, rings, loc, list, elm);
    rl.insert_ensures(k + 1, elm);
    assert forall|rr: int, q: int| 0 <= rr < nrings.len() && 0 <= q < nrings[rr].len() implies #[trigger] ring_ok(nl, nrings, nloc, rr, q) by {
        lemma_ins_ring_ok(links, rings, loc, list, elm, rr, q);
    }
    assert forall|j: usize| nloc.contains_key(j) implies #[trigger] loc_ok(nrings, nloc, j) by {
        if j != elm {
            assert(loc_ok(rings, loc, j));
            let (r0, q0) = loc[j];
            if r0 == r && q0 > k {
                assert(nr[q0 + 1] == rl[q0]);
            } else if r0 == r {
                assert(nr[q0] == rl[q0]);
            } else {
                assert(nrings[r0] == rings[r0]);
            }
        }
    }
    assert forall|i: usize| i < nl.len() && !nloc.contains_key(i) implies #[trigger] free_ok(nl, i) by {
        assert(free_ok(links, i));
        lemma_linked_in_range(links, rings, loc, list);
        assert(ring_ok(links, rings, loc, r, succ_idx(rl.len() as int, k)));
    }
}

proof fn lemma_ins_view(links: Seq<Link>, rings: Seq<Seq<usize>>, loc: Map<usize, (int, int)>, list: usize, elm: usize)
    requires
        ins_pre(links, rings, loc, list, elm),
    ensures
        ring_view(ins_rings(rings, loc, list, elm), ins_loc(loc, list, elm), list) == seq![list, elm]
            + ring_view(rings, loc, list).drop_first(),
        forall|j: usize|
            j != elm && loc.contains_key(j) && !ring_view(rings, loc, list).contains(j)
                ==> #[trigger] ring_view(ins_rings(rings, loc, list, elm), ins_loc(loc, list, elm), j)
                == ring_view(rings, loc, j),
{
    let (r, k) = loc[list];
    let rl = rings[r];
    let n = rl.len() as int;
    let nr = rl.insert(k + 1, elm);
    let nrings = ins_rings(rings, loc, list, elm);
    let nloc = ins_loc(loc, list, elm);
    lemma_ins_elm_elsewhere(links, rings, loc, list, elm);
    rl.insert_ensures(k + 1, elm);
    lemma_rotate_index(rl, k);
    lemma_rotate_index(nr, k);
    let old_view = ring_view(rings, loc, list);
    assert(ring_view(nrings, nloc, list) =~= seq![list, elm] + old_view.drop_first()) by {
        assert forall|t: int| 0 <= t < n + 1 implies #[trigger] ring_view(nrings, nloc, list)[t] == (
        seq![list, elm] + old_view.drop_first())[t] by {
            if t >= 2 {
                if k + t < n + 1 {
                    assert(nr[k + t] == rl[k + t - 1]);
                } else {
                    assert(nr[k + t - n - 1] == rl[k + t - n - 1]);
                }
            }
        }
    }
    assert forall|j: usize|
        j != elm && loc.contains_key(j) && !old_view.contains(j) implies #[trigger] ring_view(
        nrings,
        nloc,
        j,
    ) == ring_view(rings, loc, j) by {
        assert(loc_ok(rings, loc, j));
        let (r0, q0) = loc[j];
        if r0 == r {
            let t = if q0 >= k {
                q0 - k
            } else {
                q0 + n - k
            };
            assert(old_view[t] == j);
        }
        assert(nrings[r0] == rings[r0]);
    }
}

// ---- removal ---------------------------------------------------------------

spec fn rem_links(links: Seq<Link>, elm: usize) -> Seq<Link> {
    let p = links[elm as int].prev.unwrap();
    let nx = links[elm as int].next.unwrap();
    let l1 = links.update(p as int, Link { prev: links[p as int].prev, next: Some(nx) });
    let l2 = l1.update(nx as int, Link { prev: Some(p), next: l1[nx as int].next });
    l2.update(elm as int, Link { prev: None, next: None })
}

spec fn rem_rings(rings: Seq<Seq<usize>>, loc: Map<usize, (int, int)>, elm: usize) -> Seq<Seq<usize>> {
    let (r, k) = loc[elm];
    rings.update(r, rings[r].remove(k))
}

spec fn rem_loc(loc: Map<usize, (int, int)>, elm: usize) -> Map<usize, (int, int)> {
    let (r, k) = loc[elm];
    Map::new(
        |j: usize| loc.contains_key(j) && j != elm,
        |j: usize|
            if loc[j].0 == r && loc[j].1 > k {
                (r, loc[j].1 - 1)
            } else {
                loc[j]
            },
    )
}

spec fn rem_pre(links: Seq<Link>, rings: Seq<Seq<usize>>, loc: Map<usize, (int, int)>, elm: usize) -> bool {
    &&& parts_wf(links, rings, loc)
    &&& loc.contains_key(elm)
}

proof fn lemma_rem_basics(links: Seq<Link>, rings: Seq<Seq<usize>>, loc: Map<usize, (int, int)>, elm: usize)
    requires
        rem_pre(links, rings, loc, elm),
    ensures
        loc_ok(rings, loc, elm),
        ring_ok(links, rings, loc, loc[elm].0, loc[elm].1),
        ring_ok(links, rings, loc, loc[elm].0, succ_idx(rings[loc[elm].0].len() as int, loc[elm].1)),
        ring_ok(links, rings, loc, loc[elm].0, pred_idx(rings[loc[elm].0].len() as int, loc[elm].1)),
        rem_links(links, elm).len() == links.len(),
{
    lemma_linked_in_range(links, rings, loc, elm);
    let (r, k) = loc[elm];
    let n = rings[r].len() as int;
    assert(ring_ok(links, rings, loc, r, succ_idx(n, k)));
    assert(ring_ok(links, rings, loc, r, pred_idx(n, k)));
}

proof fn lemma_rem_ring_ok(links: Seq<Link>, rings: Seq<Seq<usize>>, loc: Map<usize, (int, int)>, elm: usize, rr: int, q: int)
    requires
        rem_pre(links, rings, loc, elm),
        0 <= rr < rem_rings(rings, loc, elm).len(),
        0 <= q < rem_rings(rings, loc, elm)[rr].len(),
    ensures
        ring_ok(rem_links(links, elm), rem_rings(rings, loc, elm), rem_loc(loc, elm), rr, q),
{
    let (r, k) = loc[elm];
    let rl = rings[r];
    let n = rl.len() as int;
    let nr = rl.remove(k);
    let nl = rem_links(links, elm);
    let nrings = rem_rings(rings, loc, elm);
    let nloc = rem_loc(loc, elm);
    lemma_rem_basics(links, rings, loc, elm);
    rl.remove_ensures(k);
    let p = rl[pred_idx(n, k)];
    let nx = rl[succ_idx(n, k)];
    if rr == r {
        assert(nrings[rr] == nr);
        let m = n - 1;
        let oq = if q < k { q } else { q + 1 };
        assert(nr[q] == rl[oq]);
        assert(ring_ok(links, rings, loc, r, oq));
        let os = succ_idx(n, oq);
        let op = pred_idx(n, oq);
        // successor in the new ring
        let ns = succ_idx(m, q);
        let np = pred_idx(m, q);
        assert(nr[ns] == if ns < k { rl[ns] } else { rl[ns + 1] });
        assert(nr[np] == if np < k { rl[np] } else { rl[np + 1] });
        if oq == pred_idx(n, k) {
            assert(nr[ns] == nx);
        } else {
            assert(nr[ns] == rl[os]);
        }
        if oq == succ_idx(n, k) {
            assert(nr[np] == p);
        } else {
            assert(nr[np] == rl[op]);
        }
    } else {
        assert(nrings[rr] == rings[rr]);
        assert(ring_ok(links, rings, loc, rr, q));
        let j = rings[rr][q];
        assert(j != elm);
        assert(j != p);
        assert(j != nx);
        assert(nl[j as int] == links[j as int]);
    }
}

proof fn lemma_rem_wf(links: Seq<Link>, rings: Seq<Seq<usize>>, loc: Map<usize, (int, int)>, elm: usize)
    requires
        rem_pre(links, rings, loc, elm),
    ensures
        parts_wf(rem_links(links, elm), rem_rings(rings, loc, elm), rem_loc(loc, elm)),
{
    let (r, k) = loc[elm];
    let rl = rings[r];
    let nr = rl.remove(k);
    let nl = rem_links(links, elm);
    let nrings = rem_rings(rings, loc, elm);
    let nloc = rem_loc(loc, elm);
    lemma_rem_basics(links, rings, loc, elm);
    rl.remove_ensures(k);
    assert forall|rr: int, q: int| 0 <= rr < nrings.len() && 0 <= q < nrings[rr].len() implies #[trigger] ring_ok(nl, nrings, nloc, rr, q) by {
        lemma_rem_ring_ok(links, rings, loc, elm, rr, q);
    }
    assert forall|j: usize| nloc.contains_key(j) implies #[trigger] loc_ok(nrings, nloc, j) by {
        assert(loc_ok(rings, loc, j));
        let (r0, q0) = loc[j];
        if r0 == r {
            assert(q0 != k);
            if q0 > k {
                assert(nr[q0 - 1] == rl[q0]);
            } else {
                assert(nr[q0] == rl[q0]);
            }
        } else {
            assert(nrings[r0] == rings[r0]);
        }
    }
    assert forall|i: usize| i < nl.len() && !nloc.contains_key(i) implies #[trigger] free_ok(nl, i) by {
        if i != elm {
            assert(free_ok(links, i));
            let p = rl[pred_idx(rl.len() as int, k)];
            let nx = rl[succ_idx(rl.len() as int, k)];
            assert(loc.contains_key(p) && loc.contains_key(nx));
        }
    }
}

proof fn lemma_rem_view_same_ring(links: Seq<Link>, rings: Seq<Seq<usize>>, loc: Map<usize, (int, int)>, elm: usize, j: usize, t: int)
    requires
        rem_pre(links, rings, loc, elm),
        loc.contains_key(j),
        j != elm,
        0 <= t < ring_view(rings, loc, j).len(),
        ring_view(rings, loc, j)[t] == elm,
    ensures
        ring_view(rem_rings(rings, loc, elm), rem_loc(loc, elm), j) == ring_view(rings, loc, j).remove(t),
{
    let (r, k) = loc[elm];
    let rl = rings[r];
    let n = rl.len() as int;
    let nr = rl.remove(k);
    let nrings = rem_rings(rings, loc, elm);
    let nloc = rem_loc(loc, elm);
    lemma_rem_basics(links, rings, loc, elm);
    rl.remove_ensures(k);
    assert(loc_ok(rings, loc, j));
    let (rj, oq) = loc[j];
    lemma_rotate_index(rings[rj], oq);
    let x = if oq + t < rings[rj].len() { oq + t } else { oq + t - rings[rj].len() };
    assert(ring_ok(links, rings, loc, rj, x));
    assert(rj == r);
    assert(x == k);
    assert(oq != k);
    let q = if oq < k { oq } else { oq - 1 };
    assert(nloc[j] == (r, q));
    lemma_rotate_index(nr, q);
    let old_view = rotate(rl, oq);
    let new_view = rotate(nr, q);
    old_view.remove_ensures(t);
    assert(new_view =~= old_view.remove(t)) by {
        assert forall|u: int| 0 <= u < n - 1 implies #[trigger] new_view[u] == old_view.remove(t)[u] by {
            if u < t {
                assert(old_view.remove(t)[u] == old_view[u]);
            } else {
                assert(old_view.remove(t)[u] == old_view[u + 1]);
            }
            let y = if q + u < n - 1 { q + u } else { q + u - (n - 1) };
            assert(new_view[u] == nr[y]);
            assert(nr[y] == if y < k { rl[y] } else { rl[y + 1] });
        }
    }
}

proof fn lemma_rem_view(links: Seq<Link>, rings: Seq<Seq<usize>>, loc: Map<usize, (int, int)>, elm: usize)
    requires
        rem_pre(links, rings, loc, elm),
    ensures
        forall|j: usize, t: int|
            loc.contains_key(j) && j != elm && 0 <= t < ring_view(rings, loc, j).len()
                && #[trigger] ring_view(rings, loc, j)[t] == elm
                ==> ring_view(rem_rings(rings, loc, elm), rem_loc(loc, elm), j)
                == ring_view(rings, loc, j).remove(t),
        forall|j: usize|
            loc.contains_key(j) && !ring_view(rings, loc, j).contains(elm)
                ==> #[trigger] ring_view(rem_rings(rings, loc, elm), rem_loc(loc, elm), j)
                == ring_view(rings, loc, j),
{
    let (r, k) = loc[elm];
    lemma_rem_basics(links, rings, loc, elm);
    assert forall|j: usize, t: int|
        loc.contains_key(j) && j != elm && 0 <= t < ring_view(rings, loc, j).len()
            && #[trigger] ring_view(rings, loc, j)[t] == elm implies ring_view(
        rem_rings(rings, loc, elm),
        rem_loc(loc, elm),
        j,
    ) == ring_view(rings, loc, j).remove(t) by {
        lemma_rem_view_same_ring(links, rings, loc, elm, j, t);
    }
    assert forall|j: usize|
        loc.contains_key(j) && !ring_view(rings, loc, j).contains(elm) implies #[trigger] ring_view(
        rem_rings(rings, loc, elm),
        rem_loc(loc, elm),
        j,
    ) == ring_view(rings, loc, j) by {
        assert(loc_ok(rings, loc, j));
        let (r0, q0) = loc[j];
        let n = rings[r].len() as int;
        if r0 == r {
            lemma_rotate_index(rings[r], q0);
            let t = if k >= q0 { k - q0 } else { k + n - q0 };
            assert(ring_view(rings, loc, j)[t] == elm);
        }
        assert(rem_rings(rings, loc, elm)[r0] == rings[r0]);
    }
}

/// The memory that holds every `wl_list` node of the library: the raw links
/// of each node, the notify function of the listener that embeds it (if any),
/// and, as ghost state, the rings that the links form.
pub struct ListPool {
    links: Vec<Link>,
    notify: Vec<Option<u64>>,
    rings: Ghost<Seq<Seq<usize>>>,
    loc: Ghost<Map<usize, (int, int)>>,
}

impl ListPool {
    /// Well-formedness: the raw links of the nodes form disjoint rings; every
    /// node in a ring has both links set to its neighbours, every other node
    /// has both links NULL.
    pub closed spec fn wf(&self) -> bool {
        &&& self.links.len() == self.notify.len()
        &&& parts_wf(self.links@, self.rings@, self.loc@)
    }

    /// Number of nodes in the pool.
    pub closed spec fn size(&self) -> nat {
        self.links@.len()
    }

    /// Node `i` is part of a ring (it was initialised or inserted, and not
    /// removed since).
    pub closed spec fn linked(&self, i: usize) -> bool {
        self.loc@.contains_key(i)
    }

    /// The ring that node `i` belongs to, read from `i` along the `next`
    /// links; empty when `i` is not linked.
    pub closed spec fn ring(&self, i: usize) -> Seq<usize> {
        ring_view(self.rings@, self.loc@, i)
    }

    /// The raw links of node `i`.
    pub closed spec fn link(&self, i: usize) -> Link {
        self.links[i as int]
    }

    /// The notify function stored beside node `i`.
    pub closed spec fn notify_of(&self, i: usize) -> Option<u64> {
        self.notify[i as int]
    }

    /// An empty pool.
    pub fn new() -> (pool: Self)
        ensures
            pool.wf(),
            pool.size() == 0,
    {
        ListPool {
            links: Vec::new(),
            notify: Vec::new(),
            rings: Ghost(Seq::empty()),
            loc: Ghost(Map::empty()),
        }
    }

    /// Number of nodes in the pool.
    pub fn len(&self) -> (n: usize)
        ensures
            n == self.size(),
    {
        self.links.len()
    }

    /// The raw links of node `i` (the `prev` and `next` fields of its
    /// `wl_list`).
    pub fn get_link(&self, i: usize) -> (l: Link)
        requires
            i < self.size(),
        ensures
            l == self.link(i),
    {
        self.links[i]
    }

    /// Places a new node with NULL links (a `wl_list` that is not initialised).
    fn place(&mut self, notify: Option<u64>) -> (i: usize)
        requires
            old(self).wf(),
            old(self).size() < usize::MAX,
        ensures
            final(self).wf(),
            i == old(self).size(),
            final(self).size() == old(self).size() + 1,
            !final(self).linked(i),
            final(self).link(i).next.is_none(),
            final(self).link(i).prev.is_none(),
            final(self).notify_of(i) == notify,
            forall|j: usize| j < old(self).size() ==> final(self).link(j) == old(self).link(j),
            forall|j: usize| j < old(self).size() ==> final(self).notify_of(j) == old(self).notify_of(j),
            forall|j: usize| #[trigger] final(self).linked(j) == old(self).linked(j),
            forall|j: usize| #[trigger] final(self).ring(j) == old(self).ring(j),
    {
        let ghost old_links = self.links@;
        let i = self.links.len();
        self.links.push(Link { prev: None, next: None });
        self.notify.push(notify);
        proof {
            if self.loc@.contains_key(i) {
                lemma_linked_in_range(old_links, self.rings@, self.loc@, i);
            }
            assert forall|r: int, k: int| 0 <= r < self.rings@.len() && 0 <= k < self.rings@[r].len() implies #[trigger] ring_ok(self.links@, self.rings@, self.loc@, r, k) by {
                assert(ring_ok(old_links, self.rings@, self.loc@, r, k));
            }
            assert forall|j: usize| j < self.links@.len() && !self.loc@.contains_key(j) implies #[trigger] free_ok(self.links@, j) by {
                if j < old_links.len() {
                    assert(free_ok(old_links, j));
                }
            }
        }
        i
    }

    /// `wl_list_init`: makes node `i` a ring of its own. Only its own links
    /// change: if it was linked to other nodes, they keep pointing at it, and
    /// the links no longer form rings.
    fn init_node(&mut self, i: usize)
        requires
            old(self).wf(),
            i < old(self).size(),
        ensures
            final(self).size() == old(self).size(),
            final(self).link(i) == (Link { prev: Some(i), next: Some(i) }),
            forall|j: usize| j < old(self).size() && j != i ==> final(self).link(j) == old(self).link(j),
            forall|j: usize| #[trigger] final(self).notify_of(j) == old(self).notify_of(j),
            !old(self).linked(i) || old(self).ring(i).len() == 1 ==> {
                &&& final(self).wf()
                &&& final(self).linked(i)
                &&& final(self).ring(i) == seq![i]
                &&& forall|j: usize| j != i ==> #[trigger] final(self).linked(j) == old(self).linked(j)
                &&& forall|j: usize| j != i ==> #[trigger] final(self).ring(j) == old(self).ring(j)
            },
    {
        let ghost old_links = self.links@;
        let ghost old_rings = self.rings@;
        let ghost old_loc = self.loc@;
        let l = self.links[i];
        if let Some(m) = l.next {
            proof {
                if !old_loc.contains_key(i) {
                    lemma_free_node(old_links, old_rings, old_loc, i);
                }
                lemma_linked_in_range(old_links, old_rings, old_loc, i);
                let (r, k) = old_loc[i];
                lemma_rotate_index(old_rings[r], k);
            }
            if m == i {
                proof {
                    let (r, k) = old_loc[i];
                    let n = old_rings[r].len() as int;
                    let s = succ_idx(n, k);
                    assert(ring_ok(old_links, old_rings, old_loc, r, s));
                    assert(s == k);
                    assert(old_rings[r].len() == 1);
                    assert(self.ring(i) =~= seq![i]);
                }
                return;
            }
            // a node linked with others: its neighbours keep pointing at it
            proof {
                let (r, k) = old_loc[i];
                if old_rings[r].len() == 1 {
                    assert(succ_idx(1, k) == k);
                }
            }
            self.links.set(i, Link { prev: Some(i), next: Some(i) });
            return;
        }
        proof {
            if old_loc.contains_key(i) {
                lemma_linked_in_range(old_links, old_rings, old_loc, i);
            }
        }
        let ghost r = old_rings.len() as int;
        self.links.set(i, Link { prev: Some(i), next: Some(i) });
        proof {
            self.rings@ = old_rings.push(seq![i]);
            self.loc@ = old_loc.insert(i, (r, 0int));
            assert forall|rr: int, k: int| 0 <= rr < self.rings@.len() && 0 <= k < self.rings@[rr].len() implies #[trigger] ring_ok(self.links@, self.rings@, self.loc@, rr, k) by {
                if rr < r {
                    assert(ring_ok(old_links, old_rings, old_loc, rr, k));
                    let j = old_rings[rr][k];
                    assert(j != i);
                }
            }
            assert forall|j: usize| self.loc@.contains_key(j) implies #[trigger] loc_ok(self.rings@, self.loc@, j) by {
                if j != i {
                    assert(loc_ok(old_rings, old_loc, j));
                }
            }
            assert forall|j: usize| j < self.links@.len() && !self.loc@.contains_key(j) implies #[trigger] free_ok(self.links@, j) by {
                assert(free_ok(old_links, j));
            }
            assert(self.ring(i) =~= seq![i]);
            assert forall|j: usize| j != i implies #[trigger] self.ring(j) == old(self).ring(j) by {
                if old_loc.contains_key(j) {
                    lemma_linked_in_range(old_links, old_rings, old_loc, j);
                    assert(self.rings@[old_loc[j].0] == old_rings[old_loc[j].0]);
                }
            }
        }
    }

    /// `wl_list_insert(list, elm)`: places node `elm` right after node `list`
    /// in the ring of `list`. Node `elm` must not be linked to other nodes.
    fn insert_after(&mut self, list: usize, elm: usize)
        requires
            old(self).wf(),
            old(self).linked(list),
            elm < old(self).size(),
            elm != list,
            !old(self).linked(elm) || old(self).ring(elm).len() == 1,
        ensures
            final(self).wf(),
            final(self).size() == old(self).size(),
            final(self).linked(elm),
            final(self).ring(list) == seq![list, elm] + old(self).ring(list).drop_first(),
            forall|j: usize| #[trigger] final(self).notify_of(j) == old(self).notify_of(j),
            forall|j: usize| #[trigger] final(self).linked(j) == (old(self).linked(j) || j == elm),
            forall|j: usize|
                j != elm && old(self).linked(j) && !old(self).ring(list).contains(j)
                    ==> #[trigger] final(self).ring(j) == old(self).ring(j),
    {
        let ghost old_links = self.links@;
        let ghost old_rings = self.rings@;
        let ghost old_loc = self.loc@;
        proof {
            lemma_linked_in_range(old_links, old_rings, old_loc, list);
            if old_loc.contains_key(elm) {
                lemma_linked_in_range(old_links, old_rings, old_loc, elm);
                let (r2, k2) = old_loc[elm];
                lemma_rotate_index(old_rings[r2], k2);
            }
            lemma_ins_elm_elsewhere(old_links, old_rings, old_loc, list, elm);
            let (r, k) = old_loc[list];
            assert(ring_ok(old_links, old_rings, old_loc, r, succ_idx(old_rings[r].len() as int, k)));
        }
        let lnext = self.links[list].next.unwrap();
        self.links.set(elm, Link { prev: Some(list), next: Some(lnext) });
        let lprev = self.links[list].prev;
        self.links.set(list, Link { prev: lprev, next: Some(elm) });
        let nn = self.links[lnext].next;
        self.links.set(lnext, Link { prev: Some(elm), next: nn });
        proof {
            assert(self.links@ =~= ins_links(old_links, list, elm));
            lemma_ins_wf(old_links, old_rings, old_loc, list, elm);
            lemma_ins_view(old_links, old_rings, old_loc, list, elm);
            self.rings@ = ins_rings(old_rings, old_loc, list, elm);
            self.loc@ = ins_loc(old_loc, list, elm);
        }
    }

    /// `wl_list_remove(elm)`: takes node `elm` out of its ring and sets its
    /// links to NULL.
    fn unlink(&mut self, elm: usize)
        requires
            old(self).wf(),
            old(self).linked(elm),
        ensures
            final(self).wf(),
            final(self).size() == old(self).size(),
            !final(self).linked(elm),
            final(self).link(elm).next.is_none(),
            final(self).link(elm).prev.is_none(),
            forall|j: usize| #[trigger] final(self).notify_of(j) == old(self).notify_of(j),
            forall|j: usize| j != elm ==> #[trigger] final(self).linked(j) == old(self).linked(j),
            forall|j: usize, t: int|
                old(self).linked(j) && j != elm && 0 <= t < old(self).ring(j).len()
                    && #[trigger] old(self).ring(j)[t] == elm
                    ==> final(self).ring(j) == old(self).ring(j).remove(t),
            forall|j: usize|
                old(self).linked(j) && !old(self).ring(j).contains(elm)
                    ==> #[trigger] final(self).ring(j) == old(self).ring(j),
    {
        let ghost old_links = self.links@;
        let ghost old_rings = self.rings@;
        let ghost old_loc = self.loc@;
        proof {
            lemma_rem_basics(old_links, old_rings, old_loc, elm);
        }
        let p = self.links[elm].prev.unwrap();
        let nx = self.links[elm].next.unwrap();
        let pl = self.links[p];
        self.links.set(p, Link { prev: pl.prev, next: Some(nx) });
        let nl = self.links[nx];
        self.links.set(nx, Link { prev: Some(p), next: nl.next });
        self.links.set(elm, Link { prev: None, next: None });
        proof {
            assert(self.links@ =~= rem_links(old_links, elm));
            lemma_rem_wf(old_links, old_rings, old_loc, elm);
            lemma_rem_view(old_links, old_rings, old_loc, elm);
            self.rings@ = rem_rings(old_rings, old_loc, elm);
            self.loc@ = rem_loc(old_loc, elm);
        }
    }

    /// Each node is either in a ring, with both links set, or outside every
    /// ring, with both links NULL: no `wl_list` is ever partially initialised.
    pub proof fn lemma_links_complete(&self, i: usize)
        requires
            self.wf(),
            i < self.size(),
        ensures
            self.link(i).next.is_some() == self.linked(i),
            self.link(i).prev.is_some() == self.linked(i),
    {
        if self.linked(i) {
            lemma_linked_in_range(self.links@, self.rings@, self.loc@, i);
        } else {
            lemma_free_node(self.links@, self.rings@, self.loc@, i);
        }
    }

    /// The ring of a linked node starts at the node, holds no node twice,
    /// holds only linked nodes of the pool, and agrees with the raw links:
    /// `next` leads to its second entry and `prev` to its last.
    pub proof fn lemma_ring_facts(&self, i: usize)
        requires
            self.wf(),
            self.linked(i),
        ensures
            self.ring(i).len() >= 1,
            self.ring(i)[0] == i,
            self.ring(i).no_duplicates(),
            forall|t: int|
                0 <= t < self.ring(i).len() ==> self.linked(#[trigger] self.ring(i)[t]) && self.ring(
                    i,
                )[t] < self.size(),
            i < self.size(),
            self.link(i).next == Some(self.ring(i)[succ_idx(self.ring(i).len() as int, 0)]),
            self.link(i).prev == Some(self.ring(i)[self.ring(i).len() - 1]),
    {
        let links = self.links@;
        let rings = self.rings@;
        let loc = self.loc@;
        lemma_linked_in_range(links, rings, loc, i);
        let (r, k) = loc[i];
        let rl = rings[r];
        let n = rl.len() as int;
        lemma_rotate_index(rl, k);
        let v = self.ring(i);
        assert forall|t: int| 0 <= t < n implies self.linked(#[trigger] v[t]) && v[t] < self.size() && loc[v[t]] == (r, if k + t < n { k + t } else { k + t - n }) by {
            let x = if k + t < n { k + t } else { k + t - n };
            assert(ring_ok(links, rings, loc, r, x));
        }
        assert forall|a: int, b: int| 0 <= a < n && 0 <= b < n && a != b implies v[a] != v[b] by {
            assert(self.linked(v[a]));
            assert(self.linked(v[b]));
        }
    }

    /// Following the ring of `i` for `t` steps reaches a node whose ring is
    /// the same ring, read from there: every node of a ring sees the same ring.
    pub proof fn lemma_ring_rotation(&self, i: usize, t: int)
        requires
            self.wf(),
            self.linked(i),
            0 <= t < self.ring(i).len(),
        ensures
            self.linked(self.ring(i)[t]),
            self.ring(self.ring(i)[t]) == rotate(self.ring(i), t),
    {
        let links = self.links@;
        let rings = self.rings@;
        let loc = self.loc@;
        lemma_linked_in_range(links, rings, loc, i);
        let (r, k) = loc[i];
        let rl = rings[r];
        let n = rl.len() as int;
        lemma_rotate_index(rl, k);
        let x = if k + t < n { k + t } else { k + t - n };
        assert(ring_ok(links, rings, loc, r, x));
        let j = rl[x];
        lemma_rotate_index(rl, x);
        let v = self.ring(i);
        lemma_rotate_index(v, t);
        assert(self.ring(j) =~= rotate(v, t)) by {
            assert forall|u: int| 0 <= u < n implies #[trigger] self.ring(j)[u] == rotate(v, t)[u] by {
                let y = if t + u < n { t + u } else { t + u - n };
                assert(rotate(v, t)[u] == v[y]);
            }
        }
    }

    /// Two nodes of one ring see the same members.
    pub proof fn lemma_ring_members(&self, i: usize, j: usize, x: usize)
        requires
            self.wf(),
            self.linked(i),
            self.ring(i).contains(j),
        ensures
            self.linked(j),
            self.ring(j).contains(i),
            self.ring(j).contains(x) == self.ring(i).contains(x),
    {
        let s = self.ring(i);
        let n = s.len() as int;
        let t = choose|t: int| 0 <= t < n && s[t] == j;
        self.lemma_ring_facts(i);
        self.lemma_ring_rotation(i, t);
        lemma_rotate_index(s, t);
        let v = self.ring(j);
        assert(v[if t == 0 { 0 } else { n - t }] == i);
        if s.contains(x) {
            let a = choose|a: int| 0 <= a < n && s[a] == x;
            let b = if a >= t { a - t } else { a + n - t };
            assert(v[b] == x);
        }
        if v.contains(x) {
            let b = choose|b: int| 0 <= b < n && v[b] == x;
            assert(s[if t + b < n { t + b } else { t + b - n }] == x);
        }
    }

    /// Stores the notify function beside node `i`.
    fn set_notify(&mut self, i: usize, notify: Option<u64>)
        requires
            old(self).wf(),
            i < old(self).size(),
        ensures
            final(self).wf(),
            final(self).size() == old(self).size(),
            final(self).notify_of(i) == notify,
            forall|j: usize| j < old(self).size() && j != i ==> #[trigger] final(self).notify_of(j) == old(self).notify_of(j),
            forall|j: usize| j < old(self).size() ==> final(self).link(j) == old(self).link(j),
            forall|j: usize| #[trigger] final(self).linked(j) == old(self).linked(j),
            forall|j: usize| #[trigger] final(self).ring(j) == old(self).ring(j),
    {
        self.notify.set(i, notify);
    }

    /// Inserts node `elm` right before node `head`, at the end of the ring
    /// read from `head` (what `wl_signal_add` does with a listener).
    fn insert_before(&mut self, head: usize, elm: usize)
        requires
            old(self).wf(),
            old(self).linked(head),
            elm < old(self).size(),
            elm != head,
            !old(self).linked(elm) || old(self).ring(elm).len() == 1,
        ensures
            final(self).wf(),
            final(self).size() == old(self).size(),
            final(self).linked(elm),
            final(self).ring(head) == old(self).ring(head).push(elm),
            forall|j: usize| #[trigger] final(self).notify_of(j) == old(self).notify_of(j),
            forall|j: usize| #[trigger] final(self).linked(j) == (old(self).linked(j) || j == elm),
            forall|j: usize|
                j != elm && old(self).linked(j) && !old(self).ring(head).contains(j)
                    ==> #[trigger] final(self).ring(j) == old(self).ring(j),
    {
        let ghost s = self.ring(head);
        let ghost n = s.len() as int;
        proof {
            self.lemma_ring_facts(head);
            lemma_rotate_index(s, n - 1);
            self.lemma_ring_rotation(head, n - 1);
            if self.linked(elm) && n > 1 {
                self.lemma_ring_facts(elm);
                if s.contains(elm) {
                    let t = choose|t: int| 0 <= t < n && s[t] == elm;
                    self.lemma_ring_rotation(head, t);
                }
            }
        }
        let p = self.links[head].prev.unwrap();
        proof {
            assert(p == s[n - 1]);
            if n > 1 {
                self.lemma_ring_facts(p);
                assert(elm != p);
            }
        }
        let ghost sp = self.ring(p);
        self.insert_after(p, elm);
        proof {
            if n == 1 {
                assert(s =~= seq![head]);
                assert(self.ring(head) =~= s.push(elm));
            } else {
                let np = self.ring(p);
                assert(np == seq![p, elm] + sp.drop_first());
                assert(np[2] == head);
                self.lemma_ring_rotation(p, 2);
                lemma_rotate_index(np, 2);
                assert(self.ring(head) =~= s.push(elm)) by {
                    assert forall|u: int| 0 <= u < n + 1 implies #[trigger] self.ring(head)[u] == s.push(elm)[u] by {
                        if u < n - 1 {
                            assert(np[u + 2] == sp[u + 1]);
                        }
                    }
                }
            }
            assert forall|j: usize|
                j != elm && old(self).linked(j) && !s.contains(j)
                    implies #[trigger] self.ring(j) == old(self).ring(j) by {
                if sp.contains(j) {
                    let t = choose|t: int| 0 <= t < n && sp[t] == j;
                    assert(s[if n - 1 + t < n { n - 1 + t } else { t - 1 }] == j);
                }
            }
        }
    }
}


/// A `wl_list` of the library: a handle to its node in a [`ListPool`].
pub struct List {
    node: usize,
}

impl View for List {
    type V = usize;

    closed spec fn view(&self) -> usize {
        self.node
    }
}

impl List {
    /// The node of the list in its pool.
    pub fn node(&self) -> (n: usize)
        ensures
            n == self@,
    {
        self.node
    }

    /// A list whose links are NULL: placed, but not initialised.
    pub fn empty(pool: &mut ListPool) -> (list: List)
        requires
            old(pool).wf(),
            old(pool).size() < usize::MAX,
        ensures
            final(pool).wf(),
            list@ == old(pool).size(),
            final(pool).size() == old(pool).size() + 1,
            !final(pool).linked(list@),
            final(pool).link(list@).next.is_none(),
            final(pool).link(list@).prev.is_none(),
            final(pool).notify_of(list@).is_none(),
            forall|j: usize| j < old(pool).size() ==> final(pool).notify_of(j) == old(pool).notify_of(j),
            forall|j: usize| #[trigger] final(pool).linked(j) == old(pool).linked(j),
            forall|j: usize| #[trigger] final(pool).ring(j) == old(pool).ring(j),
    {
        List { node: pool.place(None) }
    }

    /// `wl_list_init`: both links of the list point at itself. A list that
    /// was in no ring, or alone in its ring, becomes an empty ring holding
    /// only itself; one linked with other nodes leaves them pointing at it,
    /// and the pool's links no longer form rings.
    pub fn init(&self, pool: &mut ListPool)
        requires
            old(pool).wf(),
            self@ < old(pool).size(),
        ensures
            final(pool).size() == old(pool).size(),
            final(pool).link(self@) == (Link { prev: Some(self@), next: Some(self@) }),
            forall|j: usize| j < old(pool).size() && j != self@ ==> #[trigger] final(pool).link(j) == old(pool).link(j),
            forall|j: usize| #[trigger] final(pool).notify_of(j) == old(pool).notify_of(j),
            !old(pool).linked(self@) || old(pool).ring(self@).len() == 1 ==> {
                &&& final(pool).wf()
                &&& final(pool).ring(self@) == seq![self@]
                &&& final(pool).linked(self@)
                &&& forall|j: usize| j != self@ ==> #[trigger] final(pool).linked(j) == old(pool).linked(j)
                &&& forall|j: usize| j != self@ ==> #[trigger] final(pool).ring(j) == old(pool).ring(j)
            },
    {
        pool.init_node(self.node);
    }

    /// `wl_list_insert(self, other)`: `other` comes right after this list.
    pub fn insert(&self, pool: &mut ListPool, other: &List)
        requires
            old(pool).wf(),
            old(pool).linked(self@),
            other@ < old(pool).size(),
            other@ != self@,
            !old(pool).linked(other@) || old(pool).ring(other@).len() == 1,
        ensures
            final(pool).wf(),
            final(pool).size() == old(pool).size(),
            final(pool).linked(other@),
            final(pool).ring(self@) == seq![self@, other@] + old(pool).ring(self@).drop_first(),
            forall|j: usize| #[trigger] final(pool).notify_of(j) == old(pool).notify_of(j),
            forall|j: usize|
                #[trigger] final(pool).linked(j) == (old(pool).linked(j) || j == other@),
            forall|j: usize|
                j != other@ && old(pool).linked(j) && !old(pool).ring(self@).contains(j)
                    ==> #[trigger] final(pool).ring(j) == old(pool).ring(j),
    {
        pool.insert_after(self.node, other.node);
    }

    /// What dropping a `List` does: a linked list is taken out of its ring
    /// (`wl_list_remove`). Dropping a list that is not initialised is a
    /// bug that panics, so the list must be linked.
    pub fn release(self, pool: &mut ListPool)
        requires
            old(pool).wf(),
            old(pool).linked(self@),
        ensures
            final(pool).wf(),
            final(pool).size() == old(pool).size(),
            !final(pool).linked(self@),
            final(pool).link(self@).next.is_none(),
            final(pool).link(self@).prev.is_none(),
            forall|j: usize| #[trigger] final(pool).notify_of(j) == old(pool).notify_of(j),
            forall|j: usize| j != self@ ==> #[trigger] final(pool).linked(j) == old(pool).linked(j),
            forall|j: usize, t: int|
                old(pool).linked(j) && j != self@ && 0 <= t < old(pool).ring(j).len()
                    && #[trigger] old(pool).ring(j)[t] == self@
                    ==> final(pool).ring(j) == old(pool).ring(j).remove(t),
            forall|j: usize|
                old(pool).linked(j) && !old(pool).ring(j).contains(self@)
                    ==> #[trigger] final(pool).ring(j) == old(pool).ring(j),
    {
        pool.unlink(self.node);
    }
}

/// A `wl_listener`: its link node and, stored beside the node in the pool,
/// the notify function (named by a number that the caller dispatches on).
pub struct Listener<T> {
    link: List,
    _data: PhantomData<T>,
}

impl<T> View for Listener<T> {
    type V = usize;

    closed spec fn view(&self) -> usize {
        self.link@
    }
}

impl<T> Listener<T> {
    /// The node of the listener's link.
    pub fn node(&self) -> (n: usize)
        ensures
            n == self@,
    {
        self.link.node
    }

    /// A listener with the given notify function and a link that is not
    /// initialised.
    pub fn new(pool: &mut ListPool, notify: u64) -> (l: Self)
        requires
            old(pool).wf(),
            old(pool).size() < usize::MAX,
        ensures
            final(pool).wf(),
            l@ == old(pool).size(),
            final(pool).size() == old(pool).size() + 1,
            !final(pool).linked(l@),
            final(pool).notify_of(l@) == Some(notify),
            forall|j: usize| j < old(pool).size() ==> final(pool).notify_of(j) == old(pool).notify_of(j),
            forall|j: usize| #[trigger] final(pool).linked(j) == old(pool).linked(j),
            forall|j: usize| #[trigger] final(pool).ring(j) == old(pool).ring(j),
    {
        Listener { link: List { node: pool.place(Some(notify)) }, _data: PhantomData }
    }

    /// Sets the notify function and initialises the link (see
    /// [`List::init`]: a link that was in a ring with other nodes leaves them
    /// pointing at it).
    pub fn init(&self, pool: &mut ListPool, notify: u64)
        requires
            old(pool).wf(),
            self@ < old(pool).size(),
        ensures
            final(pool).size() == old(pool).size(),
            final(pool).notify_of(self@) == Some(notify),
            final(pool).link(self@) == (Link { prev: Some(self@), next: Some(self@) }),
            forall|j: usize| j < old(pool).size() && j != self@ ==> #[trigger] final(pool).link(j) == old(pool).link(j),
            forall|j: usize|
                j < old(pool).size() && j != self@ ==> #[trigger] final(pool).notify_of(j) == old(
                    pool,
                ).notify_of(j),
            !old(pool).linked(self@) || old(pool).ring(self@).len() == 1 ==> {
                &&& final(pool).wf()
                &&& final(pool).ring(self@) == seq![self@]
                &&& final(pool).linked(self@)
                &&& forall|j: usize| j != self@ ==> #[trigger] final(pool).linked(j) == old(pool).linked(j)
                &&& forall|j: usize| j != self@ ==> #[trigger] final(pool).ring(j) == old(pool).ring(j)
            },
    {
        pool.set_notify(self.link.node, Some(notify));
        pool.init_node(self.link.node);
    }

    /// A listener with no notify function and a link that is not initialised.
    pub fn empty(pool: &mut ListPool) -> (l: Self)
        requires
            old(pool).wf(),
            old(pool).size() < usize::MAX,
        ensures
            final(pool).wf(),
            l@ == old(pool).size(),
            final(pool).size() == old(pool).size() + 1,
            !final(pool).linked(l@),
            final(pool).notify_of(l@).is_none(),
            forall|j: usize| j < old(pool).size() ==> final(pool).notify_of(j) == old(pool).notify_of(j),
            forall|j: usize| #[trigger] final(pool).linked(j) == old(pool).linked(j),
            forall|j: usize| #[trigger] final(pool).ring(j) == old(pool).ring(j),
    {
        Listener { link: List { node: pool.place(None) }, _data: PhantomData }
    }

    /// What dropping a `Listener` does: its link is dropped (see
    /// [`List::release`]).
    pub fn release(self, pool: &mut ListPool)
        requires
            old(pool).wf(),
            old(pool).linked(self@),
        ensures
            final(pool).wf(),
            final(pool).size() == old(pool).size(),
            !final(pool).linked(self@),
            forall|j: usize| #[trigger] final(pool).notify_of(j) == old(pool).notify_of(j),
            forall|j: usize| j != self@ ==> #[trigger] final(pool).linked(j) == old(pool).linked(j),
            forall|j: usize, t: int|
                old(pool).linked(j) && j != self@ && 0 <= t < old(pool).ring(j).len()
                    && #[trigger] old(pool).ring(j)[t] == self@
                    ==> final(pool).ring(j) == old(pool).ring(j).remove(t),
            forall|j: usize|
                old(pool).linked(j) && !old(pool).ring(j).contains(self@)
                    ==> #[trigger] final(pool).ring(j) == old(pool).ring(j),
    {
        self.link.release(pool);
    }
}

/// Marks the signals that are emitted without an argument.
pub trait IsUnit {

}

impl IsUnit for () {

}

/// A `wl_signal`: the head node of its ring of listener links.
pub struct Signal<T> {
    listener_list: List,
    _data: PhantomData<T>,
}

impl<T> View for Signal<T> {
    type V = usize;

    closed spec fn view(&self) -> usize {
        self.listener_list@
    }
}

impl<T> Signal<T> {
    /// The node of the signal's list of listeners.
    pub fn node(&self) -> (n: usize)
        ensures
            n == self@,
    {
        self.listener_list.node
    }

    /// The listeners of the signal, in the order in which they are notified.
    pub open spec fn listeners(&self, pool: ListPool) -> Seq<usize> {
        pool.ring(self@).drop_first()
    }

    /// `wl_signal_add`: the listener is appended to the listeners of the
    /// signal (inserted before the head of the ring).
    pub fn add(&self, pool: &mut ListPool, listener: &Listener<T>)
        requires
            old(pool).wf(),
            old(pool).linked(self@),
            listener@ < old(pool).size(),
            listener@ != self@,
            !old(pool).linked(listener@) || old(pool).ring(listener@).len() == 1,
        ensures
            final(pool).wf(),
            final(pool).size() == old(pool).size(),
            final(pool).linked(listener@),
            final(pool).ring(self@) == old(pool).ring(self@).push(listener@),
            self.listeners(*final(pool)) == self.listeners(*old(pool)).push(listener@),
            forall|j: usize| #[trigger] final(pool).notify_of(j) == old(pool).notify_of(j),
            forall|j: usize|
                #[trigger] final(pool).linked(j) == (old(pool).linked(j) || j == listener@),
            forall|j: usize|
                j != listener@ && old(pool).linked(j) && !old(pool).ring(self@).contains(j)
                    ==> #[trigger] final(pool).ring(j) == old(pool).ring(j),
    {
        proof {
            old(pool).lemma_ring_facts(self@);
        }
        pool.insert_before(self.listener_list.node, listener.link.node);
        proof {
            assert(self.listeners(*pool) =~= self.listeners(*old(pool)).push(listener@));
        }
    }

    /// The signal's list initialised (see [`List::init`]): both its links
    /// point at itself. A signal whose list was in no ring, or alone in it,
    /// has no listeners; one that still had listeners leaves them pointing
    /// at it.
    pub fn init(&self, pool: &mut ListPool)
        requires
            old(pool).wf(),
            self@ < old(pool).size(),
        ensures
            final(pool).size() == old(pool).size(),
            final(pool).link(self@) == (Link { prev: Some(self@), next: Some(self@) }),
            forall|j: usize| j < old(pool).size() && j != self@ ==> #[trigger] final(pool).link(j) == old(pool).link(j),
            forall|j: usize| #[trigger] final(pool).notify_of(j) == old(pool).notify_of(j),
            !old(pool).linked(self@) || old(pool).ring(self@).len() == 1 ==> {
                &&& final(pool).wf()
                &&& final(pool).linked(self@)
                &&& final(pool).ring(self@) == seq![self@]
                &&& self.listeners(*final(pool)) == Seq::<usize>::empty()
                &&& forall|j: usize| j != self@ ==> #[trigger] final(pool).linked(j) == old(pool).linked(j)
                &&& forall|j: usize| j != self@ ==> #[trigger] final(pool).ring(j) == old(pool).ring(j)
            },
    {
        self.listener_list.init(pool);
        proof {
            if !old(pool).linked(self@) || old(pool).ring(self@).len() == 1 {
                assert(self.listeners(*pool) =~= Seq::<usize>::empty());
            }
        }
    }

    /// A signal whose list is placed but not initialised.
    pub fn empty(pool: &mut ListPool) -> (sig: Self)
        requires
            old(pool).wf(),
            old(pool).size() < usize::MAX,
        ensures
            final(pool).wf(),
            sig@ == old(pool).size(),
            final(pool).size() == old(pool).size() + 1,
            !final(pool).linked(sig@),
            forall|j: usize| j < old(pool).size() ==> final(pool).notify_of(j) == old(pool).notify_of(j),
            forall|j: usize| #[trigger] final(pool).linked(j) == old(pool).linked(j),
            forall|j: usize| #[trigger] final(pool).ring(j) == old(pool).ring(j),
    {
        Signal { listener_list: List::empty(pool), _data: PhantomData }
    }

    /// Starts `wl_signal_emit_mutable`: a cursor node is placed right after
    /// the head and an end node right before it, so that the ring read from
    /// the cursor holds the current listeners, then the end node.
    fn start_emission(&self, pool: &mut ListPool) -> (em: Emission)
        requires
            old(pool).wf(),
            old(pool).linked(self@),
            old(pool).size() + 2 <= usize::MAX,
        ensures
            final(pool).wf(),
            final(pool).size() == old(pool).size() + 2,
            em.cursor == old(pool).size(),
            em.end == old(pool).size() + 1,
            final(pool).ring(em.cursor) == seq![em.cursor] + self.listeners(*old(pool)) + seq![
                em.end,
                self@,
            ],
            forall|j: usize| j < old(pool).size() ==> final(pool).notify_of(j) == old(pool).notify_of(j),
            forall|j: usize|
                #[trigger] final(pool).linked(j) == (old(pool).linked(j) || j == em.cursor || j
                    == em.end),
            forall|j: usize|
                old(pool).linked(j) && !old(pool).ring(self@).contains(j)
                    ==> #[trigger] final(pool).ring(j) == old(pool).ring(j),
    {
        let ghost s = pool.ring(self@);
        proof {
            pool.lemma_ring_facts(self@);
        }
        let h = self.listener_list.node;
        let c = pool.place(None);
        let e = pool.place(None);
        pool.insert_after(h, c);
        let ghost s1 = pool.ring(h);
        pool.insert_before(h, e);
        proof {
            let s2 = pool.ring(h);
            assert(s2 == seq![h, c] + s.drop_first() + seq![e]);
            pool.lemma_ring_rotation(h, 1);
            lemma_rotate_index(s2, 1);
            assert(pool.ring(c) =~= seq![c] + s.drop_first() + seq![e, h]);
            assert forall|j: usize|
                old(pool).linked(j) && !s.contains(j) implies #[trigger] pool.ring(j) == old(pool).ring(j) by {
                assert(!s1.contains(j)) by {
                    if s1.contains(j) {
                        let t = choose|t: int| 0 <= t < s1.len() && s1[t] == j;
                        assert(t != 1);
                        if t == 0 {
                            assert(s[0] == j);
                        } else {
                            assert(s[t - 1] == j);
                        }
                    }
                }
            }
        }
        Emission { cursor: c, end: e }
    }

    /// `wl_signal_emit`: starts notifying the listeners; the notifications
    /// come one by one from [`Emission::next`].
    pub fn emit(&self, pool: &mut ListPool) -> (em: Emission) where T: IsUnit
        requires
            old(pool).wf(),
            old(pool).linked(self@),
            old(pool).size() + 2 <= usize::MAX,
        ensures
            final(pool).wf(),
            final(pool).size() == old(pool).size() + 2,
            em.cursor == old(pool).size(),
            em.end == old(pool).size() + 1,
            final(pool).ring(em.cursor) == seq![em.cursor] + self.listeners(*old(pool)) + seq![
                em.end,
                self@,
            ],
            forall|j: usize| j < old(pool).size() ==> final(pool).notify_of(j) == old(pool).notify_of(j),
            forall|j: usize|
                #[trigger] final(pool).linked(j) == (old(pool).linked(j) || j == em.cursor || j
                    == em.end),
            forall|j: usize|
                old(pool).linked(j) && !old(pool).ring(self@).contains(j)
                    ==> #[trigger] final(pool).ring(j) == old(pool).ring(j),
    {
        self.start_emission(pool)
    }

    /// `wl_signal_emit` with an argument: the same walk over the listeners;
    /// the caller hands its argument to each notify function.
    pub fn emit_arg(&self, pool: &mut ListPool) -> (em: Emission)
        requires
            old(pool).wf(),
            old(pool).linked(self@),
            old(pool).size() + 2 <= usize::MAX,
        ensures
            final(pool).wf(),
            final(pool).size() == old(pool).size() + 2,
            em.cursor == old(pool).size(),
            em.end == old(pool).size() + 1,
            final(pool).ring(em.cursor) == seq![em.cursor] + self.listeners(*old(pool)) + seq![
                em.end,
                self@,
            ],
            forall|j: usize| j < old(pool).size() ==> final(pool).notify_of(j) == old(pool).notify_of(j),
            forall|j: usize|
                #[trigger] final(pool).linked(j) == (old(pool).linked(j) || j == em.cursor || j
                    == em.end),
            forall|j: usize|
                old(pool).linked(j) && !old(pool).ring(self@).contains(j)
                    ==> #[trigger] final(pool).ring(j) == old(pool).ring(j),
    {
        self.start_emission(pool)
    }
}

/// An emission in progress (`wl_signal_emit_mutable`): the cursor node walks
/// the ring of the signal up to the end node. Listeners that are removed
/// before the cursor reaches them are not notified; listeners added during
/// the emission come after the end node and are not notified either.
pub struct Emission {
    pub cursor: usize,
    pub end: usize,
}

impl Emission {
    /// One step of the emission: the listener right after the cursor is
    /// returned with its notify function, and the cursor moves past it; when
    /// the end node comes next, the cursor and the end node are taken out of
    /// the ring and the emission is over.
    pub fn next(&self, pool: &mut ListPool) -> (res: Option<(usize, u64)>)
        requires
            old(pool).wf(),
            old(pool).linked(self.cursor),
            self.cursor != self.end,
            old(pool).ring(self.cursor).contains(self.end),
            old(pool).ring(self.cursor)[1] != self.end ==> old(pool).notify_of(
                old(pool).ring(self.cursor)[1],
            ).is_some(),
        ensures
            final(pool).wf(),
            final(pool).size() == old(pool).size(),
            forall|j: usize| #[trigger] final(pool).notify_of(j) == old(pool).notify_of(j),
            ({
                let s = old(pool).ring(self.cursor);
                if s[1] == self.end {
                    &&& res.is_none()
                    &&& !final(pool).linked(self.cursor)
                    &&& !final(pool).linked(self.end)
                    &&& forall|j: usize|
                        j != self.cursor && j != self.end ==> #[trigger] final(pool).linked(j)
                            == old(pool).linked(j)
                    &&& forall|j: usize, t: int|
                        old(pool).linked(j) && j != self.cursor && j != self.end && 0 <= t
                            < old(pool).ring(j).len() && #[trigger] old(pool).ring(j)[t]
                            == self.cursor ==> final(pool).ring(j) == old(pool).ring(j).remove(
                            t,
                        ).remove(t)
                } else {
                    &&& res == Some((s[1], old(pool).notify_of(s[1]).unwrap()))
                    &&& final(pool).linked(self.cursor)
                    &&& final(pool).ring(self.cursor) == seq![self.cursor] + s.subrange(
                        2,
                        s.len() as int,
                    ) + seq![s[1]]
                    &&& forall|j: usize| #[trigger] final(pool).linked(j) == old(pool).linked(j)
                }
            }),
            forall|j: usize|
                old(pool).linked(j) && !old(pool).ring(self.cursor).contains(j)
                    ==> #[trigger] final(pool).ring(j) == old(pool).ring(j),
    {
        let c = self.cursor;
        let e = self.end;
        let ghost s = pool.ring(c);
        let ghost n = s.len() as int;
        proof {
            pool.lemma_ring_facts(c);
            pool.lemma_ring_facts(e);
        }
        let x = pool.links[c].next.unwrap();
        proof {
            assert(n >= 2);
            assert(x == s[1]);
        }
        let nf = pool.notify[x];
        if x == e {
            let ghost p0 = *pool;
            pool.unlink(c);
            let ghost p1 = *pool;
            proof {
                assert forall|j: usize, t: int|
                    p0.linked(j) && j != c && j != e && 0 <= t < p0.ring(j).len() && #[trigger] p0.ring(j)[t] == c
                        implies p1.ring(j)[t] == e && p1.ring(j) == p0.ring(j).remove(t) && t < p1.ring(j).len() by {
                    p0.lemma_ring_facts(j);
                    p0.lemma_ring_rotation(j, t);
                    lemma_rotate_index(p0.ring(j), t);
                    let u = if t + 1 < p0.ring(j).len() { t + 1 } else { 0 };
                    assert(p0.ring(j)[u] == e);
                    assert(u == t + 1);
                    p0.ring(j).remove_ensures(t);
                }
                assert(p1.linked(e));
            }
            pool.unlink(e);
            proof {
                assert forall|j: usize|
                    p0.linked(j) && !s.contains(j) implies #[trigger] pool.ring(j) == p0.ring(j) by {
                    if p0.ring(j).contains(c) {
                        p0.lemma_ring_members(j, c, j);
                    }
                    assert(p1.ring(j) == p0.ring(j));
                    if p0.ring(j).contains(e) {
                        p0.lemma_ring_members(j, e, j);
                        p0.lemma_ring_members(c, e, j);
                    }
                }
                assert forall|j: usize, t: int|
                    p0.linked(j) && j != c && j != e && 0 <= t < p0.ring(j).len() && #[trigger] p0.ring(j)[t] == c
                        implies pool.ring(j) == p0.ring(j).remove(t).remove(t) by {
                    assert(p1.ring(j)[t] == e);
                    assert(p1.linked(j));
                }
            }
            None
        } else {
            let ghost p0 = *pool;
            proof {
                assert(x != c);
                p0.lemma_ring_rotation(c, 1);
                lemma_rotate_index(s, 1);
            }
            pool.unlink(c);
            let ghost p1 = *pool;
            proof {
                assert(p0.ring(x)[n - 1] == c);
                assert(p1.ring(x) =~= s.subrange(1, n)) by {
                    p0.ring(x).remove_ensures(n - 1);
                }
                assert(x != e);
            }
            pool.insert_after(x, c);
            proof {
                let r2 = pool.ring(x);
                assert(r2 == seq![x, c] + p1.ring(x).drop_first());
                pool.lemma_ring_rotation(x, 1);
                lemma_rotate_index(r2, 1);
                assert(pool.ring(c) =~= seq![c] + s.subrange(2, n) + seq![x]);
                assert forall|j: usize|
                    p0.linked(j) && !s.contains(j) implies #[trigger] pool.ring(j) == p0.ring(j) by {
                    if p0.ring(j).contains(c) {
                        p0.lemma_ring_members(j, c, j);
                    }
                    assert(p1.ring(j) == p0.ring(j));
                    assert(!p1.ring(x).contains(j)) by {
                        if p1.ring(x).contains(j) {
                            let t = choose|t: int| 0 <= t < p1.ring(x).len() && p1.ring(x)[t] == j;
                            assert(s[t + 1] == j);
                        }
                    }
                    assert(j != c);
                }
            }
            Some((x, nf.unwrap()))
        }
    }
}


/// The bytes are not UTF-8, and `valid_up_to` is the length of their
/// longest prefix that is (the largest length whose prefix is UTF-8).
pub open spec fn utf8_error_at(bytes: Seq<u8>, valid_up_to: usize) -> bool {
    &&& !valid_utf8(bytes)
    &&& valid_up_to <= bytes.len()
    &&& valid_utf8(bytes.subrange(0, valid_up_to as int))
    &&& forall|i: int| valid_up_to < i <= bytes.len() ==> !valid_utf8(#[trigger] bytes.subrange(0, i))
}

/// `String::from_utf8`: the bytes as a string when they are UTF-8; else the
/// length of their longest UTF-8 prefix (`Utf8Error::valid_up_to`).
#[verifier::external_body]
fn string_from_utf8(bytes: Vec<u8>) -> (r: Result<String, Utf8Error>)
    ensures
        match r {
            Ok(s) => valid_utf8(bytes@) && s@ == decode_utf8(bytes@),
            Err(e) => utf8_error_at(bytes@, e.valid_up_to),
        },
{
    match String::from_utf8(bytes) {
        Ok(s) => Ok(s),
        Err(e) => Err(Utf8Error { valid_up_to: e.utf8_error().valid_up_to() }),
    }
}

/// The name of the socket that `wl_display_add_socket_auto` returned, read
/// as UTF-8; `socket` holds the bytes of the C string, none for NULL.
pub open spec fn socket_name_ok(socket: Option<Vec<u8>>, r: Result<String, WrapperError>) -> bool {
    match socket {
        None => r == Err::<String, WrapperError>(WrapperError::FailedToAddSocket),
        Some(b) => match r {
            Ok(s) => valid_utf8(b@) && s@ == decode_utf8(b@),
            Err(WrapperError::Utf8Error(e)) => utf8_error_at(b@, e.valid_up_to),
            Err(_) => false,
        },
    }
}

/// The event loop of a display (`wl_event_loop`).
#[derive(Clone, Copy)]
pub struct EventLoop(pub Ptr);

/// The Wayland display (`wl_display`): it accepts clients on its socket
/// and holds the Wayland globals.
#[derive(Clone, Copy)]
pub struct Display(pub Ptr);

impl Display {
    /// `wl_display_create`; `created` is what the C call returned.
    pub fn try_create(created: usize) -> (r: Result<Display, WrapperError>)
        ensures
            match r {
                Ok(d) => created != 0 && d.0@ == created,
                Err(e) => created == 0 && e == WrapperError::FailedToCreateDisplay,
            },
    {
        match Ptr::new(created) {
            Some(p) => Ok(Display(p)),
            None => Err(WrapperError::FailedToCreateDisplay),
        }
    }

    /// `wl_display_add_socket_auto`: the name of the socket that was added.
    pub fn add_socket_auto(socket: Option<Vec<u8>>) -> (r: Result<String, WrapperError>)
        ensures
            socket_name_ok(socket, r),
    {
        match socket {
            None => Err(WrapperError::FailedToAddSocket),
            Some(b) => match string_from_utf8(b) {
                Ok(s) => Ok(s),
                Err(e) => Err(WrapperError::Utf8Error(e)),
            },
        }
    }

    /// `wl_display_get_event_loop`, which never returns NULL for a display
    /// (a NULL result panics).
    pub fn get_event_loop(event_loop: usize) -> (l: EventLoop)
        requires
            event_loop != 0,
        ensures
            l.0@ == event_loop,
    {
        EventLoop(Ptr::new(event_loop).unwrap())
    }
}

/// Adding a listener that is in no list to a signal and releasing it again
/// leaves the signal's ring as it was: `before` is the pool before
/// [`Signal::add`], `added` after it, `after` after [`Listener::release`],
/// related as those functions' contracts relate them.
pub proof fn law_add_then_release(before: ListPool, added: ListPool, after: ListPool, head: usize, l: usize)
    requires
        added.ring(head) == before.ring(head).push(l),
        forall|t: int|
            0 <= t < added.ring(head).len() && #[trigger] added.ring(head)[t] == l ==> after.ring(head)
                == added.ring(head).remove(t),
    ensures
        after.ring(head) == before.ring(head),
{
    let s = before.ring(head);
    let n = s.len() as int;
    assert(added.ring(head)[n] == l);
    assert(after.ring(head) == s.push(l).remove(n));
    assert(s.push(l).remove(n) =~= s);
}

/// An emission notifies the pending listeners first to last. While the ring
/// read from the cursor is the cursor, the pending listeners, the end node
/// and the rest, a step of [`Emission::next`] (`before` to `after`, giving
/// `res`, as its contract relates them) notifies the first pending listener
/// and leaves the others pending, in order; with none pending it ends the
/// emission.
pub proof fn law_emission_step(
    before: ListPool,
    after: ListPool,
    em: Emission,
    pending: Seq<usize>,
    rest: Seq<usize>,
    res: Option<(usize, u64)>,
)
    requires
        before.wf(),
        before.linked(em.cursor),
        before.ring(em.cursor) == seq![em.cursor] + pending + seq![em.end] + rest,
        ({
            let s = before.ring(em.cursor);
            if s[1] == em.end {
                res.is_none()
            } else {
                &&& res matches Some(r) && r.0 == s[1]
                &&& after.ring(em.cursor) == seq![em.cursor] + s.subrange(2, s.len() as int) + seq![s[1]]
            }
        }),
    ensures
        pending.len() == 0 ==> res.is_none(),
        pending.len() > 0 ==> {
            &&& res matches Some(r) && r.0 == pending[0]
            &&& after.ring(em.cursor) == seq![em.cursor] + pending.drop_first() + seq![em.end] + rest.push(
                pending[0],
            )
        },
{
    let s = before.ring(em.cursor);
    if pending.len() > 0 {
        assert(s[1] == pending[0]);
        before.lemma_ring_facts(em.cursor);
        assert(s[pending.len() + 1int] == em.end);
        assert(seq![em.cursor] + s.subrange(2, s.len() as int) + seq![s[1]] =~= seq![em.cursor]
            + pending.drop_first() + seq![em.end] + rest.push(pending[0]));
    } else {
        assert(s[1] == em.end);
    }
}

/// A listener released while an emission is pending on it is never
/// notified: when the ring read from the cursor is the cursor, the pending
/// listeners, the end node and the rest, releasing the `t`-th pending
/// listener (`before` to `after`, as [`Listener::release`] relates them for
/// the cursor's ring) leaves the others pending, in order.
pub proof fn law_release_while_pending(
    before: ListPool,
    after: ListPool,
    em: Emission,
    pending: Seq<usize>,
    rest: Seq<usize>,
    t: int,
)
    requires
        before.ring(em.cursor) == seq![em.cursor] + pending + seq![em.end] + rest,
        0 <= t < pending.len(),
        after.ring(em.cursor) == before.ring(em.cursor).remove(t + 1),
    ensures
        after.ring(em.cursor) == seq![em.cursor] + pending.remove(t) + seq![em.end] + rest,
{
    let s = before.ring(em.cursor);
    s.remove_ensures(t + 1);
    pending.remove_ensures(t);
    assert(after.ring(em.cursor) =~= seq![em.cursor] + pending.remove(t) + seq![em.end] + rest);
}

/// A listener added to a signal while it emits is not notified by that
/// emission: when the ring read from the cursor is the cursor, the pending
/// listeners, the end node and the rest, in which the signal's head sits at
/// `i`, adding a listener to the signal (`before` to `after`, as
/// [`Signal::add`] relates them) puts it among the rest, right before the
/// head, and leaves the pending listeners as they were.
pub proof fn law_add_while_emitting(
    before: ListPool,
    after: ListPool,
    em: Emission,
    pending: Seq<usize>,
    rest: Seq<usize>,
    i: int,
    l: usize,
)
    requires
        before.wf(),
        after.wf(),
        before.linked(em.cursor),
        before.ring(em.cursor) == seq![em.cursor] + pending + seq![em.end] + rest,
        0 <= i < rest.len(),
        after.ring(rest[i]) == before.ring(rest[i]).push(l),
    ensures
        after.ring(em.cursor) == seq![em.cursor] + pending + seq![em.end] + rest.insert(i, l),
{
    let c = em.cursor;
    let h = rest[i];
    let s = before.ring(c);
    let n = s.len() as int;
    let k = pending.len() + 2 + i;
    assert(s[k] == h);
    before.lemma_ring_facts(c);
    before.lemma_ring_rotation(c, k);
    lemma_rotate_index(s, k);
    let rh = before.ring(h);
    let ah = after.ring(h);
    assert(rh == rotate(s, k));
    assert(ah[n - k] == c) by {
        assert(rh[n - k] == s[0]);
    }
    after.lemma_ring_facts(h);
    assert(after.linked(h));
    after.lemma_ring_rotation(h, n - k);
    lemma_rotate_index(ah, n - k);
    let expect = seq![c] + pending + seq![em.end] + rest.insert(i, l);
    rest.insert_ensures(i, l);
    assert(after.ring(c) =~= expect) by {
        assert forall|u: int| 0 <= u < n + 1 implies #[trigger] after.ring(c)[u] == expect[u] by {
            let y = if n - k + u < n + 1 { n - k + u } else { u - k - 1 };
            assert(after.ring(c)[u] == ah[y]);
            if u < k {
                assert(ah[y] == rh[y]);
                assert(rh[y] == s[u]);
            } else if u == k {
                assert(y == n);
            } else {
                assert(ah[y] == rh[y]);
                assert(rh[y] == s[u - 1]);
            }
        }
    }
}

/// What a step of [`Emission::next`] does to the ring read from the cursor
/// (`before` to `after`), and what it returns, as its contract states.
pub open spec fn next_outcome(before: ListPool, after: ListPool, em: Emission, res: Option<(usize, u64)>) -> bool {
    let s = before.ring(em.cursor);
    if s[1] == em.end {
        res.is_none()
    } else {
        &&& res matches Some(r) && r.0 == s[1]
        &&& after.ring(em.cursor) == seq![em.cursor] + s.subrange(2, s.len() as int) + seq![s[1]]
    }
}

/// An emission notifies exactly the listeners that the signal had when it
/// started, in the order they were added, and then ends: for the pools that
/// a run of [`Emission::next`] steps goes through (`pools[k]` before step
/// `k`, `pools[k + 1]` after it, `results[k]` its result), starting from the
/// ring that [`Signal::emit`] sets up, step `k` notifies the `k`-th listener
/// and the step after the last listener gives none.
pub proof fn law_emission_notifies_listeners(
    pools: Seq<ListPool>,
    results: Seq<Option<(usize, u64)>>,
    em: Emission,
    listeners: Seq<usize>,
    rest: Seq<usize>,
)
    requires
        pools.len() == results.len() + 1,
        pools[0].ring(em.cursor) == seq![em.cursor] + listeners + seq![em.end] + rest,
        forall|k: int|
            0 <= k < results.len() ==> {
                &&& (#[trigger] pools[k]).wf()
                &&& pools[k].linked(em.cursor)
                &&& next_outcome(pools[k], pools[k + 1], em, results[k])
            },
    ensures
        forall|k: int|
            0 <= k < results.len() && k < listeners.len() ==> (#[trigger] results[k] matches Some(r)
                && r.0 == listeners[k]),
        results.len() > listeners.len() ==> results[listeners.len() as int].is_none(),
    decreases results.len(),
{
    if results.len() > 0 {
        let p0 = pools[0];
        assert(p0.wf() && p0.linked(em.cursor) && next_outcome(p0, pools[1], em, results[0]));
        law_emission_step(p0, pools[1], em, listeners, rest, results[0]);
        if listeners.len() > 0 {
            let tail_pools = pools.drop_first();
            let tail_results = results.drop_first();
            assert forall|k: int| 0 <= k < tail_results.len() implies {
                &&& (#[trigger] tail_pools[k]).wf()
                &&& tail_pools[k].linked(em.cursor)
                &&& next_outcome(tail_pools[k], tail_pools[k + 1], em, tail_results[k])
            } by {
                assert(tail_pools[k] == pools[k + 1]);
                assert(tail_pools[k + 1] == pools[k + 2]);
                assert(tail_results[k] == results[k + 1]);
                assert(pools[k + 1].wf());
            }
            law_emission_notifies_listeners(
                tail_pools,
                tail_results,
                em,
                listeners.drop_first(),
                rest.push(listeners[0]),
            );
            assert forall|k: int|
                0 <= k < results.len() && k < listeners.len() implies (#[trigger] results[k] matches Some(r)
                && r.0 == listeners[k]) by {
                if k > 0 {
                    assert(results[k] == tail_results[k - 1]);
                    assert(listeners.drop_first()[k - 1] == listeners[k]);
                }
            }
            if results.len() > listeners.len() {
                assert(results[listeners.len() as int] == tail_results[listeners.len() - 1]);
            }
        }
    }
}

} // verus!
