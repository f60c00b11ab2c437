//! Connectivity over the carved dungeon: a cell reaches another when a walk
//! of adjacent, open cells joins them. Carving only ever opens tiles, so
//! connectivity established early in generation survives every later carve;
//! the lemmas here let the generator chain room centers through the L-shaped
//! tunnels it digs.

use vstd::prelude::*;

use crate::gamemap::GameMap;

verus! {

/// Two cells differ by one step along exactly one axis.
pub open spec fn adjacent(p: (int, int), q: (int, int)) -> bool {
    ||| (p.0 == q.0 && (q.1 == p.1 + 1 || q.1 == p.1 - 1))
    ||| (p.1 == q.1 && (q.0 == p.0 + 1 || q.0 == p.0 - 1))
}

/// A walk over the map: non-empty, every cell open, consecutive cells
/// adjacent.
pub open spec fn path_ok(map: GameMap, path: Seq<(int, int)>) -> bool {
    &&& path.len() > 0
    &&& forall|i: int| 0 <= i < path.len() ==> map.open_at((#[trigger] path[i]).0, path[i].1)
    &&& forall|i: int| 0 <= i < path.len() - 1 ==> adjacent(#[trigger] path[i], path[i + 1])
}

/// Some walk over open cells joins `p` to `q`.
#[verifier::opaque]
pub open spec fn connected(map: GameMap, p: (int, int), q: (int, int)) -> bool {
    exists|path: Seq<(int, int)>|
        #[trigger] path_ok(map, path) && path.first() == p && path.last() == q
}

/// An open cell reaches itself.
pub proof fn lemma_connected_refl(map: GameMap, p: (int, int))
    requires
        map.open_at(p.0, p.1),
    ensures
        connected(map, p, p),
{
    reveal(connected);
    let path = seq![p];
    assert(path_ok(map, path));
}

/// Walks compose: reaching `q` from `p` and `r` from `q` reaches `r` from
/// `p`.
pub proof fn lemma_connected_trans(map: GameMap, p: (int, int), q: (int, int), r: (int, int))
    requires
        connected(map, p, q),
        connected(map, q, r),
    ensures
        connected(map, p, r),
{
    reveal(connected);
    let path1 = choose|path: Seq<(int, int)>|
        #[trigger] path_ok(map, path) && path.first() == p && path.last() == q;
    let path2 = choose|path: Seq<(int, int)>|
        #[trigger] path_ok(map, path) && path.first() == q && path.last() == r;
    if path2.len() == 1 {
        assert(path_ok(map, path1) && path1.first() == p && path1.last() == r);
    } else {
        let joined = path1 + path2.subrange(1, path2.len() as int);
        assert(joined.len() == path1.len() + path2.len() - 1);
        assert forall|i: int| 0 <= i < joined.len() implies map.open_at(
            (#[trigger] joined[i]).0,
            joined[i].1,
        ) by {
            if i < path1.len() {
                assert(joined[i] == path1[i]);
            } else {
                assert(joined[i] == path2[i - path1.len() + 1]);
            }
        }
        assert forall|i: int| 0 <= i < joined.len() - 1 implies adjacent(
            #[trigger] joined[i],
            joined[i + 1],
        ) by {
            if i + 1 < path1.len() {
                assert(joined[i] == path1[i] && joined[i + 1] == path1[i + 1]);
            } else if i + 1 == path1.len() {
                assert(joined[i] == path1[path1.len() - 1]);
                assert(path1[path1.len() - 1] == q && q == path2[0]);
                assert(joined[i + 1] == path2[1]);
                assert(adjacent(path2[0], path2[1]));
            } else {
                assert(joined[i] == path2[i - path1.len() + 1]);
                assert(joined[i + 1] == path2[i - path1.len() + 2]);
                assert(adjacent(path2[i - path1.len() + 1], path2[i - path1.len() + 2]));
            }
        }
        assert(path_ok(map, joined));
        assert(joined.first() == p);
        assert(joined.last() == path2[path2.len() - 1]);
    }
}

/// Opening more tiles never disconnects anything: a walk in `m1` is a walk in
/// any map `m2` where every cell open in `m1` is still open.
pub proof fn lemma_connected_mono(m1: GameMap, m2: GameMap, p: (int, int), q: (int, int))
    requires
        connected(m1, p, q),
        forall|x: int, y: int| #[trigger] m1.open_at(x, y) ==> m2.open_at(x, y),
    ensures
        connected(m2, p, q),
{
    reveal(connected);
    let path = choose|path: Seq<(int, int)>|
        #[trigger] path_ok(m1, path) && path.first() == p && path.last() == q;
    assert forall|i: int| 0 <= i < path.len() implies m2.open_at(
        (#[trigger] path[i]).0,
        path[i].1,
    ) by {
        assert(m1.open_at(path[i].0, path[i].1));
    }
    assert(path_ok(m2, path));
}

/// A fully open horizontal run connects its endpoints.
pub proof fn lemma_h_run_connected(map: GameMap, x1: int, x2: int, y: int)
    requires
        forall|x: int|
            vstd::math::min(x1, x2) <= x <= vstd::math::max(x1, x2) ==> #[trigger] map.open_at(
                x,
                y,
            ),
    ensures
        connected(map, (x1, y), (x2, y)),
{
    reveal(connected);
    if x1 <= x2 {
        let path = Seq::new((x2 - x1 + 1) as nat, |i: int| (x1 + i, y));
        assert forall|i: int| 0 <= i < path.len() implies map.open_at(
            (#[trigger] path[i]).0,
            path[i].1,
        ) by {
            assert(map.open_at(x1 + i, y));
        }
        assert(path_ok(map, path));
        assert(path.first() == (x1, y) && path.last() == (x2, y));
    } else {
        let path = Seq::new((x1 - x2 + 1) as nat, |i: int| (x1 - i, y));
        assert forall|i: int| 0 <= i < path.len() implies map.open_at(
            (#[trigger] path[i]).0,
            path[i].1,
        ) by {
            assert(map.open_at(x1 - i, y));
        }
        assert(path_ok(map, path));
        assert(path.first() == (x1, y) && path.last() == (x2, y));
    }
}

/// A fully open vertical run connects its endpoints.
pub proof fn lemma_v_run_connected(map: GameMap, y1: int, y2: int, x: int)
    requires
        forall|y: int|
            vstd::math::min(y1, y2) <= y <= vstd::math::max(y1, y2) ==> #[trigger] map.open_at(
                x,
                y,
            ),
    ensures
        connected(map, (x, y1), (x, y2)),
{
    reveal(connected);
    if y1 <= y2 {
        let path = Seq::new((y2 - y1 + 1) as nat, |i: int| (x, y1 + i));
        assert forall|i: int| 0 <= i < path.len() implies map.open_at(
            (#[trigger] path[i]).0,
            path[i].1,
        ) by {
            assert(map.open_at(x, y1 + i));
        }
        assert(path_ok(map, path));
        assert(path.first() == (x, y1) && path.last() == (x, y2));
    } else {
        let path = Seq::new((y1 - y2 + 1) as nat, |i: int| (x, y1 - i));
        assert forall|i: int| 0 <= i < path.len() implies map.open_at(
            (#[trigger] path[i]).0,
            path[i].1,
        ) by {
            assert(map.open_at(x, y1 - i));
        }
        assert(path_ok(map, path));
        assert(path.first() == (x, y1) && path.last() == (x, y2));
    }
}

} // verus!
