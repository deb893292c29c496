//! The proof behind the stable insertion sorts of the library (personas by
//! name, processes by memory): both build a list of positions by inserting
//! each next position where the ordering puts it, and both rest on the one
//! fact proved here.
use vstd::prelude::*;

verus! {

/// Position `x` occurs in the list of positions `order`.
pub open spec fn lists(order: Seq<usize>, x: int) -> bool {
    order.contains(x as usize)
}

/// Every element of `order` precedes every later one under `before`.
pub open spec fn ordered_by(order: Seq<usize>, before: spec_fn(int, int) -> bool) -> bool {
    forall|a: int, b: int|
        0 <= a < b < order.len() ==> #[trigger] before(order[a] as int, order[b] as int)
}

/// `order` lists each of the positions `0..n`, and nothing else.
pub open spec fn lists_positions(order: Seq<usize>, n: int) -> bool {
    &&& forall|a: int| 0 <= a < order.len() ==> #[trigger] order[a] < n
    &&& forall|x: int| 0 <= x < n ==> #[trigger] lists(order, x)
}

/// Inserting position `i` into an ordered list of the positions `0..i`, at
/// a place `pos` after every position that precedes `i` and before the
/// first that `i` precedes, gives an ordered list of the positions
/// `0..i + 1`, when `before` is transitive.
pub proof fn lemma_insert_keeps_order(
    order: Seq<usize>,
    pos: int,
    i: usize,
    before: spec_fn(int, int) -> bool,
)
    requires
        0 <= pos <= order.len(),
        lists_positions(order, i as int),
        ordered_by(order, before),
        forall|a: int| 0 <= a < pos ==> #[trigger] before(order[a] as int, i as int),
        pos < order.len() ==> before(i as int, order[pos] as int),
        forall|x: int, y: int, z: int|
            #[trigger] before(x, y) && #[trigger] before(y, z) ==> before(x, z),
    ensures
        lists_positions(order.insert(pos, i), i + 1),
        ordered_by(order.insert(pos, i), before),
{
    let after = order.insert(pos, i);
    assert forall|a: int| 0 <= a < after.len() implies #[trigger] after[a] < i + 1 by {
        if a < pos {
            assert(after[a] == order[a]);
        } else if a > pos {
            assert(after[a] == order[a - 1]);
        }
    }
    assert forall|x: int| 0 <= x < i + 1 implies #[trigger] lists(after, x) by {
        if x == i {
            assert(after[pos] == i);
        } else {
            assert(lists(order, x));
            let w = choose|w: int| 0 <= w < order.len() && order[w] == x as usize;
            if w < pos {
                assert(after[w] == order[w]);
            } else {
                assert(after[w + 1] == order[w]);
            }
        }
    }
    assert forall|a: int, b: int| 0 <= a < b < after.len() implies #[trigger] before(
        after[a] as int,
        after[b] as int,
    ) by {
        if b < pos {
            assert(after[a] == order[a] && after[b] == order[b]);
        } else if b == pos {
            assert(after[a] == order[a]);
        } else if a > pos {
            assert(after[a] == order[a - 1] && after[b] == order[b - 1]);
        } else if a == pos {
            assert(after[b] == order[b - 1]);
            if b - 1 > pos {
                assert(before(order[pos] as int, order[b - 1] as int));
            }
        } else {
            assert(after[a] == order[a] && after[b] == order[b - 1]);
        }
    }
}

/// Cutting an ordered list of the positions `0..n` to its first `k` keeps
/// it ordered, and every position that was cut off comes after each one
/// that was kept.
pub proof fn lemma_take_keeps_order(
    order: Seq<usize>,
    n: usize,
    k: int,
    before: spec_fn(int, int) -> bool,
)
    requires
        0 <= k <= order.len(),
        lists_positions(order, n as int),
        ordered_by(order, before),
    ensures
        ordered_by(order.take(k), before),
        forall|x: int, a: int|
            0 <= x < n && !order.take(k).contains(x as usize) && 0 <= a < k ==> #[trigger] before(
                order.take(k)[a] as int,
                x,
            ),
{
    let kept = order.take(k);
    assert forall|a: int, b: int| 0 <= a < b < kept.len() implies #[trigger] before(
        kept[a] as int,
        kept[b] as int,
    ) by {
        assert(kept[a] == order[a] && kept[b] == order[b]);
    }
    assert forall|x: int, a: int|
        0 <= x < n && !kept.contains(x as usize) && 0 <= a < k implies #[trigger] before(
        kept[a] as int,
        x,
    ) by {
        assert(lists(order, x));
        let w = choose|w: int| 0 <= w < order.len() && order[w] == x as usize;
        assert(order[w] as int == x);
        if w < k {
            assert(kept[w] == order[w]);
        } else {
            assert(before(order[a] as int, order[w] as int));
        }
        assert(kept[a] == order[a]);
    }
}

} // verus!
