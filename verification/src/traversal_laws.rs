//! What holds of every traversal range.
//!
//! Around the tile a unit stands on, the tiles at the same distance form a
//! ring.  Costs reach the rings one after the other, so a tile's cost is that
//! of a walk of as many steps as its ring is far.

use vstd::prelude::*;
use crate::gameboard::Grid;
use crate::gameboard::lemma_adjacent_is_chebyshev_ring;
use crate::position::Position;
use crate::position::spec_chebyshev;
use crate::terrain::COST_SCALE;
use crate::terrain::lemma_cost_is_inverse_of_speed;
use crate::traversal::CostTable;
use crate::traversal::MAX_STEP_COST;
use crate::traversal::MIN_STEP_COST;
use crate::traversal::spec_blank;
use crate::traversal::spec_movement_costs;
use crate::traversal::spec_propagate;
use crate::traversal::spec_reaches;
use crate::traversal::spec_relax_from;
use crate::traversal::spec_relax_ring;
use crate::traversal::spec_ring_limit;
use crate::traversal::spec_set_cost;
use crate::traversal::spec_table_fits;

verus! {

/// A step to a neighbour changes the distance to any tile by at most one.
pub proof fn lemma_chebyshev_step(sa: int, sb: int, a: int, b: int, c: int, d: int)
    requires
        spec_chebyshev(a, b, c, d) == 1,
    ensures
        spec_chebyshev(sa, sb, a, b) - 1 <= spec_chebyshev(sa, sb, c, d) <= spec_chebyshev(
            sa,
            sb,
            a,
            b,
        ) + 1,
        spec_chebyshev(c, d, a, b) == 1,
{
}

/// From every tile of the board but the source, one step leads to a tile of
/// the board that is one nearer to the source.
pub proof fn lemma_step_towards(board: Grid, sa: int, sb: int, c: int, d: int) -> (p: (int, int))
    requires
        board.on_board(sa, sb),
        board.on_board(c, d),
        spec_chebyshev(sa, sb, c, d) >= 1,
    ensures
        board.on_board(p.0, p.1),
        spec_chebyshev(p.0, p.1, c, d) == 1,
        spec_chebyshev(sa, sb, p.0, p.1) == spec_chebyshev(sa, sb, c, d) - 1,
{
    let px = if c > sa {
        c - 1
    } else if c < sa {
        c + 1
    } else {
        c
    };
    let py = if d > sb {
        d - 1
    } else if d < sb {
        d + 1
    } else {
        d
    };
    (px, py)
}

/// No tile of the board is as far from another as the longer side is long.
pub proof fn lemma_distance_within_board(board: Grid, sa: int, sb: int, c: int, d: int)
    requires
        board.on_board(sa, sb),
        board.on_board(c, d),
    ensures
        0 <= spec_chebyshev(sa, sb, c, d) < spec_ring_limit(board),
{
}

/// While a ring spreads its costs: the tiles that have a cost are those of
/// the rings up to `depth` and those that just took one, which all lie in
/// the next ring; and every cost is that of a walk of as many steps as the
/// tile is far from the source.
pub open spec fn spec_spreading(
    board: Grid,
    table: CostTable,
    fresh: Seq<(int, int)>,
    depth: int,
    sa: int,
    sb: int,
) -> bool {
    &&& spec_table_fits(board, table)
    &&& forall|c: int, d: int|
        board.on_board(c, d) ==> (#[trigger] table[c][d]).is_some() == (spec_chebyshev(sa, sb, c, d)
            <= depth || fresh.contains((c, d)))
    &&& forall|c: int, d: int|
        board.on_board(c, d) ==> (#[trigger] table[c][d] matches Some(cost) ==> MIN_STEP_COST
            * spec_chebyshev(sa, sb, c, d) <= cost <= MAX_STEP_COST * spec_chebyshev(sa, sb, c, d))
    &&& forall|j: int|
        0 <= j < fresh.len() ==> board.on_board((#[trigger] fresh[j]).0, fresh[j].1)
            && spec_chebyshev(sa, sb, fresh[j].0, fresh[j].1) == depth + 1
}

/// Whether a list of tiles is the ring at distance `depth` from the source:
/// all of its tiles lie on the board at that distance, and it holds every
/// such tile.
pub open spec fn spec_ring_at(board: Grid, ring: Seq<(int, int)>, depth: int, sa: int, sb: int) -> bool {
    &&& forall|j: int|
        0 <= j < ring.len() ==> board.on_board((#[trigger] ring[j]).0, ring[j].1) && spec_chebyshev(
            sa,
            sb,
            ring[j].0,
            ring[j].1,
        ) == depth
    &&& forall|c: int, d: int|
        board.on_board(c, d) && spec_chebyshev(sa, sb, c, d) == depth ==> #[trigger] ring.contains(
            (c, d),
        )
}

/// Whether every neighbour of each of the first `i` tiles of a ring has a cost.
pub open spec fn spec_served(board: Grid, table: CostTable, ring: Seq<(int, int)>, i: int) -> bool {
    forall|j: int, c: int, d: int|
        0 <= j < i && #[trigger] board.spec_adjacent(ring[j].0, ring[j].1).contains((c, d))
            ==> table[c][d].is_some()
}

/// Whether every cost of one table stands unchanged in another.
pub open spec fn spec_costs_stay(board: Grid, before: CostTable, after: CostTable) -> bool {
    forall|c: int, d: int|
        board.on_board(c, d) && (#[trigger] before[c][d]).is_some() ==> after[c][d] == before[c][d]
}

/// Setting the cost of one tile changes no other entry.
proof fn lemma_set_cost_elsewhere(board: Grid, table: CostTable, a: int, b: int, cost: u64)
    requires
        spec_table_fits(board, table),
        board.on_board(a, b),
    ensures
        spec_table_fits(board, spec_set_cost(table, a, b, cost)),
        spec_set_cost(table, a, b, cost)[a][b] == Some(cost),
        forall|c: int, d: int|
            board.on_board(c, d) && (c, d) != (a, b) ==> #[trigger] spec_set_cost(
                table,
                a,
                b,
                cost,
            )[c][d] == table[c][d],
{
    let next = spec_set_cost(table, a, b, cost);
    assert forall|c: int| 0 <= c < board.width implies (#[trigger] next[c]).len() == board.height by {
        assert(table[c].len() == board.height);
    }
    assert(table[a].len() == board.height);
}

/// One neighbour takes its cost: what holds while a ring spreads still holds.
proof fn lemma_take_cost(
    board: Grid,
    table: CostTable,
    fresh: Seq<(int, int)>,
    depth: int,
    sa: int,
    sb: int,
    s: (int, int),
    q: (int, int),
    base: int,
)
    requires
        board.wf(),
        0 <= depth,
        spec_spreading(board, table, fresh, depth, sa, sb),
        board.on_board(s.0, s.1),
        spec_chebyshev(sa, sb, s.0, s.1) == depth,
        board.spec_adjacent(s.0, s.1).contains(q),
        MIN_STEP_COST * depth <= base <= MAX_STEP_COST * depth,
        depth < spec_ring_limit(board),
        table[q.0][q.1].is_none(),
    ensures
        spec_spreading(
            board,
            spec_set_cost(
                table,
                q.0,
                q.1,
                (base + board.at(q.0, q.1).contents.spec_movement_cost()) as u64,
            ),
            fresh.push(q),
            depth,
            sa,
            sb,
        ),
        spec_costs_stay(
            board,
            table,
            spec_set_cost(
                table,
                q.0,
                q.1,
                (base + board.at(q.0, q.1).contents.spec_movement_cost()) as u64,
            ),
        ),
{
    let step = board.at(q.0, q.1).contents.spec_movement_cost();
    let cost = (base + step) as u64;
    let next = spec_set_cost(table, q.0, q.1, cost);
    let more = fresh.push(q);
    lemma_adjacent_is_chebyshev_ring(board, s.0, s.1, q.0, q.1);
    lemma_chebyshev_step(sa, sb, s.0, s.1, q.0, q.1);
    lemma_cost_is_inverse_of_speed(board.at(q.0, q.1).contents, board.at(q.0, q.1).contents);
    lemma_set_cost_elsewhere(board, table, q.0, q.1, cost);
    assert(board.on_board(q.0, q.1));
    assert(!(spec_chebyshev(sa, sb, q.0, q.1) <= depth));
    assert(spec_chebyshev(sa, sb, q.0, q.1) == depth + 1);
    assert(MAX_STEP_COST * depth + MAX_STEP_COST == MAX_STEP_COST * (depth + 1)) by (nonlinear_arith);
    assert(MIN_STEP_COST * depth + MIN_STEP_COST == MIN_STEP_COST * (depth + 1)) by (nonlinear_arith);
    assert(MAX_STEP_COST * (depth + 1) <= 2520 * 0x8000_0000) by (nonlinear_arith)
        requires
            depth + 1 <= 0x8000_0000,
            0 <= depth,
    ;
    assert(cost == base + step);
    assert(more[fresh.len() as int] == q);
    assert forall|c: int, d: int| board.on_board(c, d) implies (#[trigger] next[c][d]).is_some() == (
    spec_chebyshev(sa, sb, c, d) <= depth || more.contains((c, d))) by {
        if (c, d) == q {
            assert(more.contains((c, d)));
        } else {
            assert(next[c][d] == table[c][d]);
            if fresh.contains((c, d)) {
                let j = choose|j: int| 0 <= j < fresh.len() && fresh[j] == (c, d);
                assert(more[j] == (c, d));
            }
            if more.contains((c, d)) {
                let j = choose|j: int| 0 <= j < more.len() && more[j] == (c, d);
                assert(fresh[j] == (c, d));
            }
        }
    }
    assert forall|c: int, d: int| board.on_board(c, d) implies (#[trigger] next[c][d] matches Some(v)
        ==> MIN_STEP_COST * spec_chebyshev(sa, sb, c, d) <= v <= MAX_STEP_COST * spec_chebyshev(
        sa,
        sb,
        c,
        d,
    )) by {
        if (c, d) != q {
            assert(next[c][d] == table[c][d]);
        }
    }
    assert forall|j: int| 0 <= j < more.len() implies board.on_board((#[trigger] more[j]).0, more[j].1)
        && spec_chebyshev(sa, sb, more[j].0, more[j].1) == depth + 1 by {
        if j < fresh.len() {
            assert(more[j] == fresh[j]);
        }
    }
    assert forall|c: int, d: int| board.on_board(c, d) && (#[trigger] table[c][d]).is_some() implies next[c][d]
        == table[c][d] by {
        assert((c, d) != q);
    }
}

/// Costs that stay over one change and over the next stay over both.
proof fn lemma_costs_stay_on(board: Grid, first: CostTable, second: CostTable, third: CostTable)
    requires
        spec_costs_stay(board, first, second),
        spec_costs_stay(board, second, third),
    ensures
        spec_costs_stay(board, first, third),
        spec_costs_stay(board, first, first),
{
    assert forall|c: int, d: int|
        board.on_board(c, d) && (#[trigger] first[c][d]).is_some() implies third[c][d]
        == first[c][d] by {
        assert(second[c][d] == first[c][d]);
    }
}

/// A tile of a ring offers its cost to its neighbours from the `k`-th on:
/// what holds while a ring spreads still holds afterwards, every neighbour
/// has a cost, and no cost that was there has changed.
proof fn lemma_relax_from(
    board: Grid,
    table: CostTable,
    fresh: Seq<(int, int)>,
    depth: int,
    sa: int,
    sb: int,
    s: (int, int),
    base: int,
    k: int,
)
    requires
        board.wf(),
        0 <= depth < spec_ring_limit(board),
        spec_spreading(board, table, fresh, depth, sa, sb),
        board.on_board(s.0, s.1),
        spec_chebyshev(sa, sb, s.0, s.1) == depth,
        MIN_STEP_COST * depth <= base <= MAX_STEP_COST * depth,
        0 <= k <= board.spec_adjacent(s.0, s.1).len(),
        forall|j: int|
            0 <= j < k ==> table[(#[trigger] board.spec_adjacent(s.0, s.1)[j]).0][board.spec_adjacent(
                s.0,
                s.1,
            )[j].1].is_some(),
    ensures
        ({
            let after = spec_relax_from(board, table, fresh, base, board.spec_adjacent(s.0, s.1), k);
            &&& spec_spreading(board, after.0, after.1, depth, sa, sb)
            &&& spec_costs_stay(board, table, after.0)
            &&& forall|c: int, d: int|
                #[trigger] board.spec_adjacent(s.0, s.1).contains((c, d)) ==> after.0[c][d].is_some()
        }),
    decreases board.spec_adjacent(s.0, s.1).len() - k,
{
    let near = board.spec_adjacent(s.0, s.1);
    lemma_costs_stay_on(board, table, table, table);
    if k >= near.len() {
        assert forall|c: int, d: int| #[trigger] near.contains((c, d)) implies table[c][d].is_some() by {
            let j = choose|j: int| 0 <= j < near.len() && near[j] == (c, d);
            assert(table[near[j].0][near[j].1].is_some());
        }
    } else {
        let q = near[k];
        assert(near.contains(q));
        lemma_adjacent_is_chebyshev_ring(board, s.0, s.1, q.0, q.1);
        if table[q.0][q.1].is_none() {
            let cost = (base + board.at(q.0, q.1).contents.spec_movement_cost()) as u64;
            let next = spec_set_cost(table, q.0, q.1, cost);
            lemma_take_cost(board, table, fresh, depth, sa, sb, s, q, base);
            lemma_set_cost_elsewhere(board, table, q.0, q.1, cost);
            assert forall|j: int| 0 <= j < k + 1 implies next[(#[trigger] near[j]).0][near[j].1].is_some() by {
                if j < k {
                    assert(near.contains(near[j]));
                    lemma_adjacent_is_chebyshev_ring(board, s.0, s.1, near[j].0, near[j].1);
                    assert(table[near[j].0][near[j].1].is_some());
                }
            }
            lemma_relax_from(board, next, fresh.push(q), depth, sa, sb, s, base, k + 1);
            let after = spec_relax_from(board, next, fresh.push(q), base, near, k + 1);
            lemma_costs_stay_on(board, table, next, after.0);
        } else {
            lemma_relax_from(board, table, fresh, depth, sa, sb, s, base, k + 1);
        }
    }
}

/// The tiles of a ring, from the `i`-th on, spread their costs: what holds
/// while a ring spreads still holds afterwards, every neighbour of every tile
/// of the ring has a cost, and no cost that was there has changed.
proof fn lemma_relax_ring(
    board: Grid,
    table: CostTable,
    fresh: Seq<(int, int)>,
    ring: Seq<(int, int)>,
    depth: int,
    sa: int,
    sb: int,
    i: int,
)
    requires
        board.wf(),
        0 <= depth < spec_ring_limit(board),
        spec_spreading(board, table, fresh, depth, sa, sb),
        forall|j: int|
            0 <= j < ring.len() ==> board.on_board((#[trigger] ring[j]).0, ring[j].1)
                && spec_chebyshev(sa, sb, ring[j].0, ring[j].1) == depth,
        0 <= i <= ring.len(),
        spec_served(board, table, ring, i),
    ensures
        ({
            let after = spec_relax_ring(board, table, fresh, ring, i);
            &&& spec_spreading(board, after.0, after.1, depth, sa, sb)
            &&& spec_costs_stay(board, table, after.0)
            &&& spec_served(board, after.0, ring, ring.len() as int)
        }),
    decreases ring.len() - i,
{
    lemma_costs_stay_on(board, table, table, table);
    if i < ring.len() {
        let s = ring[i];
        assert(board.on_board(s.0, s.1));
        assert(table[s.0][s.1].is_some());
        let base = table[s.0][s.1].unwrap() as int;
        lemma_relax_from(board, table, fresh, depth, sa, sb, s, base, 0);
        let mid = spec_relax_from(board, table, fresh, base, board.spec_adjacent(s.0, s.1), 0);
        assert forall|j: int, c: int, d: int|
            0 <= j < i + 1 && #[trigger] board.spec_adjacent(ring[j].0, ring[j].1).contains(
                (c, d),
            ) implies mid.0[c][d].is_some() by {
            if j < i {
                lemma_adjacent_is_chebyshev_ring(board, ring[j].0, ring[j].1, c, d);
                assert(table[c][d].is_some());
            }
        }
        lemma_relax_ring(board, mid.0, mid.1, ring, depth, sa, sb, i + 1);
        let after = spec_relax_ring(board, mid.0, mid.1, ring, i + 1);
        lemma_costs_stay_on(board, table, mid.0, after.0);
    }
}

/// When a whole ring has spread its costs, the tiles that took one are the
/// next ring, all of it, and the tiles with a cost are those of the rings up
/// to the next.
proof fn lemma_ring_done(
    board: Grid,
    table: CostTable,
    fresh: Seq<(int, int)>,
    ring: Seq<(int, int)>,
    depth: int,
    sa: int,
    sb: int,
)
    requires
        board.wf(),
        board.on_board(sa, sb),
        0 <= depth,
        spec_spreading(board, table, fresh, depth, sa, sb),
        spec_ring_at(board, ring, depth, sa, sb),
        spec_served(board, table, ring, ring.len() as int),
    ensures
        spec_ring_at(board, fresh, depth + 1, sa, sb),
        spec_spreading(board, table, Seq::empty(), depth + 1, sa, sb),
{
    let none = Seq::<(int, int)>::empty();
    assert forall|c: int, d: int|
        board.on_board(c, d) && spec_chebyshev(sa, sb, c, d) == depth + 1 implies #[trigger] fresh.contains(
        (c, d),
    ) by {
        let p = lemma_step_towards(board, sa, sb, c, d);
        assert(ring.contains(p));
        let j = choose|j: int| 0 <= j < ring.len() && ring[j] == p;
        lemma_adjacent_is_chebyshev_ring(board, p.0, p.1, c, d);
        assert(board.spec_adjacent(ring[j].0, ring[j].1).contains((c, d)));
        assert(table[c][d].is_some());
    }
    assert forall|c: int, d: int| board.on_board(c, d) implies (#[trigger] table[c][d]).is_some() == (
    spec_chebyshev(sa, sb, c, d) <= depth + 1 || none.contains((c, d))) by {
        if fresh.contains((c, d)) {
            let j = choose|j: int| 0 <= j < fresh.len() && fresh[j] == (c, d);
            assert(spec_chebyshev(sa, sb, fresh[j].0, fresh[j].1) == depth + 1);
        }
        if spec_chebyshev(sa, sb, c, d) == depth + 1 {
            assert(fresh.contains((c, d)));
        }
    }
}

/// Beyond an empty ring there is no tile: if no tile of the board lies at
/// one distance from the source, none lies farther.
proof fn lemma_no_ring_beyond(board: Grid, sa: int, sb: int, depth: int, c: int, d: int)
    requires
        board.on_board(sa, sb),
        board.on_board(c, d),
        0 <= depth,
        forall|a: int, b: int| board.on_board(a, b) ==> #[trigger] spec_chebyshev(sa, sb, a, b) != depth,
    ensures
        spec_chebyshev(sa, sb, c, d) < depth,
    decreases spec_chebyshev(sa, sb, c, d),
{
    if spec_chebyshev(sa, sb, c, d) > depth {
        let p = lemma_step_towards(board, sa, sb, c, d);
        lemma_no_ring_beyond(board, sa, sb, depth, p.0, p.1);
    }
}

/// Whether every tile of the board has a cost, and each the cost of a walk
/// of as many steps as the tile is far from the source.
pub open spec fn spec_all_costed(board: Grid, table: CostTable, sa: int, sb: int) -> bool {
    &&& spec_table_fits(board, table)
    &&& forall|c: int, d: int|
        board.on_board(c, d) ==> (#[trigger] table[c][d] matches Some(cost) && MIN_STEP_COST
            * spec_chebyshev(sa, sb, c, d) <= cost <= MAX_STEP_COST * spec_chebyshev(sa, sb, c, d))
}

/// Spreading from a ring onwards reaches every tile of the board, and no
/// cost that was there changes.
proof fn lemma_propagate(
    board: Grid,
    table: CostTable,
    ring: Seq<(int, int)>,
    depth: int,
    sa: int,
    sb: int,
)
    requires
        board.wf(),
        board.on_board(sa, sb),
        0 <= depth < spec_ring_limit(board),
        spec_spreading(board, table, Seq::empty(), depth, sa, sb),
        spec_ring_at(board, ring, depth, sa, sb),
    ensures
        spec_all_costed(board, spec_propagate(board, table, ring, depth), sa, sb),
        spec_costs_stay(board, table, spec_propagate(board, table, ring, depth)),
    decreases spec_ring_limit(board) - depth,
{
    let none = Seq::<(int, int)>::empty();
    assert(spec_served(board, table, ring, 0));
    lemma_relax_ring(board, table, none, ring, depth, sa, sb, 0);
    let after = spec_relax_ring(board, table, none, ring, 0);
    lemma_ring_done(board, after.0, after.1, ring, depth, sa, sb);
    if after.1.len() == 0 || depth + 1 >= spec_ring_limit(board) {
        assert forall|c: int, d: int| board.on_board(c, d) implies (#[trigger] after.0[c][d] matches Some(
            cost,
        ) && MIN_STEP_COST * spec_chebyshev(sa, sb, c, d) <= cost <= MAX_STEP_COST * spec_chebyshev(
            sa,
            sb,
            c,
            d,
        )) by {
            lemma_distance_within_board(board, sa, sb, c, d);
            if after.1.len() == 0 {
                assert forall|a: int, b: int| board.on_board(a, b) implies #[trigger] spec_chebyshev(
                    sa,
                    sb,
                    a,
                    b,
                ) != depth + 1 by {
                    if spec_chebyshev(sa, sb, a, b) == depth + 1 {
                        assert(after.1.contains((a, b)));
                    }
                }
                lemma_no_ring_beyond(board, sa, sb, depth + 1, c, d);
            }
            assert(spec_chebyshev(sa, sb, c, d) <= depth + 1);
            assert(after.0[c][d].is_some());
        }
    } else {
        lemma_propagate(board, after.0, after.1, depth + 1, sa, sb);
        lemma_costs_stay_on(
            board,
            table,
            after.0,
            spec_propagate(board, after.0, after.1, depth + 1),
        );
    }
}

/// From wherever a unit stands on the board, every tile of the board gets a
/// cost.  The unit's own tile costs nothing.  A tile `n` steps away, counting
/// diagonal steps as one, costs at least `n` times the cheapest crossing and
/// at most `n` times the dearest.
pub proof fn lemma_every_tile_is_costed(board: Grid, sa: int, sb: int)
    requires
        board.wf(),
        board.on_board(sa, sb),
    ensures
        spec_all_costed(board, spec_movement_costs(board, sa, sb), sa, sb),
        spec_movement_costs(board, sa, sb)[sa][sb] == Some(0u64),
{
    let blank = spec_blank(board.width, board.height);
    let start = spec_set_cost(blank, sa, sb, 0);
    let ring = seq![(sa, sb)];
    let none = Seq::<(int, int)>::empty();
    assert(spec_table_fits(board, blank));
    lemma_set_cost_elsewhere(board, blank, sa, sb, 0);
    lemma_distance_within_board(board, sa, sb, sa, sb);
    assert forall|c: int, d: int| board.on_board(c, d) implies (#[trigger] start[c][d]).is_some() == (
    spec_chebyshev(sa, sb, c, d) <= 0 || none.contains((c, d))) by {
        if (c, d) != (sa, sb) {
            assert(start[c][d] == blank[c][d]);
            assert(blank[c][d].is_none());
        }
    }
    assert forall|c: int, d: int| board.on_board(c, d) implies (#[trigger] start[c][d] matches Some(
        cost,
    ) ==> MIN_STEP_COST * spec_chebyshev(sa, sb, c, d) <= cost <= MAX_STEP_COST * spec_chebyshev(
        sa,
        sb,
        c,
        d,
    )) by {
        if (c, d) != (sa, sb) {
            assert(start[c][d] == blank[c][d]);
            assert(blank[c][d].is_none());
        }
    }
    assert(ring[0] == (sa, sb));
    assert forall|c: int, d: int|
        board.on_board(c, d) && spec_chebyshev(sa, sb, c, d) == 0 implies #[trigger] ring.contains(
        (c, d),
    ) by {
        assert(ring[0] == (c, d));
    }
    lemma_propagate(board, start, ring, 0, sa, sb);
}

/// What a movement budget can and cannot do: a unit never reaches a tile
/// that is more steps away than its budget buys at the cheapest crossing,
/// and always reaches a tile of the board whose steps its budget buys at
/// the dearest crossing.
pub proof fn lemma_reach_is_bounded(board: Grid, from: Position, to: Position, movement: int)
    requires
        board.wf(),
        board.holds(from),
        board.holds(to),
    ensures
        spec_reaches(board, from, to, movement) ==> MIN_STEP_COST * from.chebyshev(to) <= movement
            * COST_SCALE,
        MAX_STEP_COST * from.chebyshev(to) <= movement * COST_SCALE ==> spec_reaches(
            board,
            from,
            to,
            movement,
        ),
        movement >= 0 ==> spec_reaches(board, from, from, movement),
{
    lemma_every_tile_is_costed(board, from.x as int, from.y as int);
    let table = spec_movement_costs(board, from.x as int, from.y as int);
    assert(table[to.x as int][to.y as int].is_some());
    assert(table[from.x as int][from.y as int] == Some(0u64));
    assert(movement >= 0 ==> movement * COST_SCALE >= 0) by (nonlinear_arith);
}

} // verus!
