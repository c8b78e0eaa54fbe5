//! Traversal range: how far a movement budget carries a unit over the terrain.
//!
//! Costs spread outwards from the unit's tile ring by ring.  A tile takes its
//! cost from the first tile of the previous ring that reaches it, and keeps it.

use vstd::prelude::*;
use crate::gameboard::Gameboard;
use crate::gameboard::Grid;
use crate::gameboard::MAX_SIDE;
use crate::gameboard::Tile;
use crate::position::Position;
use crate::terrain::COST_SCALE;
use crate::units::Unit;

verus! {

/// Largest cost a table may hold before costs are spread over it.
pub const MAX_START_COST: u64 = 0x4000_0000_0000_0000;

/// Smallest cost of entering a tile.
pub const MIN_STEP_COST: u64 = 900;

/// Largest cost of entering a tile.
pub const MAX_STEP_COST: u64 = 2520;

/// A table of costs, column by column; an entry is empty until the tile is reached.
pub type CostTable = Seq<Seq<Option<u64>>>;

/// The table that a vector of columns stands for.
pub open spec fn table_view(table: Vec<Vec<Option<u64>>>) -> CostTable {
    Seq::new(table@.len(), |a: int| table@[a]@)
}

/// The table has one entry for each tile of the board.
pub open spec fn spec_table_fits(board: Grid, table: CostTable) -> bool {
    &&& table.len() == board.width
    &&& forall|a: int| 0 <= a < board.width ==> (#[trigger] table[a]).len() == board.height
}

/// No cost in the table is above `bound`.
pub open spec fn spec_costs_below(table: CostTable, bound: int) -> bool {
    forall|a: int, b: int|
        0 <= a < table.len() && 0 <= b < table[a].len() ==> (#[trigger] table[a][b] matches Some(c)
            ==> c <= bound)
}

/// The table with the entry of one square set.
pub open spec fn spec_set_cost(table: CostTable, a: int, b: int, cost: u64) -> CostTable {
    table.update(a, table[a].update(b, Some(cost)))
}

/// The table without any entry set.
pub open spec fn spec_blank(width: int, height: int) -> CostTable {
    Seq::new(width as nat, |a: int| Seq::new(height as nat, |b: int| None::<u64>))
}

/// Number of rings that a board can have around any of its tiles.
pub open spec fn spec_ring_limit(board: Grid) -> int {
    if board.width >= board.height {
        board.width
    } else {
        board.height
    }
}

/// One source tile with cost `base` offers a cost to its neighbours from the
/// `k`-th on, in order: a neighbour without a cost takes `base` plus its own
/// crossing cost and joins the next ring; one that has a cost keeps it.
pub open spec fn spec_relax_from(
    board: Grid,
    table: CostTable,
    fresh: Seq<(int, int)>,
    base: int,
    near: Seq<(int, int)>,
    k: int,
) -> (CostTable, Seq<(int, int)>)
    decreases near.len() - k,
{
    if k < 0 || k >= near.len() {
        (table, fresh)
    } else {
        let q = near[k];
        if table[q.0][q.1].is_none() {
            let cost = (base + board.at(q.0, q.1).contents.spec_movement_cost()) as u64;
            spec_relax_from(
                board,
                spec_set_cost(table, q.0, q.1, cost),
                fresh.push(q),
                base,
                near,
                k + 1,
            )
        } else {
            spec_relax_from(board, table, fresh, base, near, k + 1)
        }
    }
}

/// The tiles of a ring, from the `i`-th on, offer costs to their neighbours in turn.
pub open spec fn spec_relax_ring(
    board: Grid,
    table: CostTable,
    fresh: Seq<(int, int)>,
    ring: Seq<(int, int)>,
    i: int,
) -> (CostTable, Seq<(int, int)>)
    decreases ring.len() - i,
{
    if i < 0 || i >= ring.len() {
        (table, fresh)
    } else {
        let s = ring[i];
        let base = table[s.0][s.1].unwrap() as int;
        let after = spec_relax_from(board, table, fresh, base, board.spec_adjacent(s.0, s.1), 0);
        spec_relax_ring(board, after.0, after.1, ring, i + 1)
    }
}

/// Costs spread from a ring outwards until a ring reaches no new tile.  `depth`
/// counts the rings already behind; a board has no more rings than its longer side.
pub open spec fn spec_propagate(
    board: Grid,
    table: CostTable,
    ring: Seq<(int, int)>,
    depth: int,
) -> CostTable
    decreases spec_ring_limit(board) - depth,
{
    let after = spec_relax_ring(board, table, Seq::empty(), ring, 0);
    if after.1.len() == 0 || depth + 1 >= spec_ring_limit(board) {
        after.0
    } else {
        spec_propagate(board, after.0, after.1, depth + 1)
    }
}

/// The cost of reaching every tile from the tile at column `a`, row `b`.
pub open spec fn spec_movement_costs(board: Grid, a: int, b: int) -> CostTable {
    spec_propagate(
        board,
        spec_set_cost(spec_blank(board.width, board.height), a, b, 0),
        seq![(a, b)],
        0,
    )
}

/// The squares of one column, below row `rows`, whose cost is within the budget.
pub open spec fn spec_column_within(column: Seq<Option<u64>>, a: int, budget: int, rows: int) -> Seq<
    Position,
>
    decreases rows,
{
    if rows <= 0 {
        Seq::empty()
    } else {
        let below = spec_column_within(column, a, budget, rows - 1);
        match column[rows - 1] {
            Some(c) => if c <= budget {
                below.push(Position { x: a as i32, y: (rows - 1) as i32 })
            } else {
                below
            },
            None => below,
        }
    }
}

/// The squares of the first `columns` columns whose cost is within the budget,
/// column by column and upwards within a column.
pub open spec fn spec_within(table: CostTable, budget: int, columns: int) -> Seq<Position>
    decreases columns,
{
    if columns <= 0 {
        Seq::empty()
    } else {
        spec_within(table, budget, columns - 1) + spec_column_within(
            table[columns - 1],
            columns - 1,
            budget,
            table[columns - 1].len() as int,
        )
    }
}

/// The tiles that a unit standing at `from` reaches with a budget of
/// `movement` tiles at speed 1; none when it stands off the board.
pub open spec fn spec_traversible(board: Grid, from: Position, movement: int) -> Seq<Position> {
    if board.holds(from) {
        spec_within(
            spec_movement_costs(board, from.x as int, from.y as int),
            movement * COST_SCALE,
            board.width,
        )
    } else {
        Seq::empty()
    }
}

/// Whether a unit standing at `from` reaches `to` with a budget of `movement`.
pub open spec fn spec_reaches(board: Grid, from: Position, to: Position, movement: int) -> bool {
    &&& board.holds(from)
    &&& board.holds(to)
    &&& spec_movement_costs(board, from.x as int, from.y as int)[to.x as int][to.y as int] matches Some(
        c,
    ) && c <= movement * COST_SCALE
}

/// A table without entries for a board.
pub fn blank_costs(board: &Gameboard) -> (table: Vec<Vec<Option<u64>>>)
    requires
        board.wf(),
    ensures
        table_view(table) == spec_blank(board.x as int, board.y as int),
        spec_table_fits(board@, table_view(table)),
        spec_costs_below(table_view(table), 0),
{
    let mut table: Vec<Vec<Option<u64>>> = Vec::new();
    let mut a: u32 = 0;
    while a < board.x
        invariant
            a <= board.x,
            table@.len() == a,
            forall|i: int| 0 <= i < a ==> (#[trigger] table@[i])@ == Seq::new(
                board.y as nat,
                |b: int| None::<u64>,
            ),
        decreases board.x - a,
    {
        let mut column: Vec<Option<u64>> = Vec::new();
        let mut b: u32 = 0;
        while b < board.y
            invariant
                b <= board.y,
                column@.len() == b,
                forall|j: int| 0 <= j < b ==> (#[trigger] column@[j]).is_none(),
            decreases board.y - b,
        {
            column.push(None);
            b = b + 1;
        }
        assert(column@ =~= Seq::new(board.y as nat, |b: int| None::<u64>));
        table.push(column);
        a = a + 1;
    }
    assert(table_view(table) =~~= spec_blank(board.x as int, board.y as int));
    table
}

/// Sets the cost of one square.
fn set_cost(table: &mut Vec<Vec<Option<u64>>>, a: usize, b: usize, cost: u64)
    requires
        a < old(table)@.len(),
        b < old(table)@[a as int]@.len(),
    ensures
        table_view(*final(table)) == spec_set_cost(table_view(*old(table)), a as int, b as int, cost),
        final(table)@.len() == old(table)@.len(),
        forall|i: int|
            0 <= i < old(table)@.len() ==> (#[trigger] final(table)@[i])@.len() == old(table)@[i]@.len(),
{
    table[a][b] = Some(cost);
    assert(table_view(*table) =~~= spec_set_cost(table_view(*old(table)), a as int, b as int, cost));
}

/// Setting one entry keeps the shape of a table, and its bound if the new cost obeys it.
proof fn lemma_set_cost_keeps(board: Grid, table: CostTable, a: int, b: int, cost: u64, bound: int)
    requires
        spec_table_fits(board, table),
        board.on_board(a, b),
    ensures
        spec_table_fits(board, spec_set_cost(table, a, b, cost)),
        spec_set_cost(table, a, b, cost)[a][b] == Some(cost),
        forall|c: int, d: int|
            board.on_board(c, d) && (c, d) != (a, b) ==> #[trigger] spec_set_cost(
                table,
                a,
                b,
                cost,
            )[c][d] == table[c][d],
        spec_costs_below(table, bound) && cost <= bound ==> spec_costs_below(
            spec_set_cost(table, a, b, cost),
            bound,
        ),
{
    let next = spec_set_cost(table, a, b, cost);
    assert forall|c: int| 0 <= c < board.width implies (#[trigger] next[c]).len() == board.height by {
        assert(table[c].len() == board.height);
    }
    if spec_costs_below(table, bound) && cost <= bound {
        assert forall|c: int, d: int| 0 <= c < next.len() && 0 <= d < next[c].len() implies (
        #[trigger] next[c][d] matches Some(v) ==> v <= bound) by {
            assert(table[c].len() == board.height);
            if (c, d) != (a, b) {
                assert(next[c][d] == table[c][d]);
            }
        }
    }
}

impl Tile {
    /// Spreads costs outwards from a ring of tiles that already have theirs.
    ///
    /// Each tile of the ring, in order, offers its cost plus the crossing cost
    /// to each neighbour that has none yet; the neighbours that took one form
    /// the next ring, and so on until a ring reaches nothing new.
    pub fn propogate_movement_costs(
        &self,
        tile_ring: Vec<&Tile>,
        tile_movement_costs: &mut Vec<Vec<Option<u64>>>,
        gameboard: &Gameboard,
    )
        requires
            gameboard.wf(),
            spec_table_fits(gameboard@, table_view(*old(tile_movement_costs))),
            spec_costs_below(table_view(*old(tile_movement_costs)), MAX_START_COST as int),
            forall|i: int|
                0 <= i < tile_ring@.len() ==> gameboard@.holds((#[trigger] tile_ring@[i]).pos)
                    && table_view(*old(tile_movement_costs))[tile_ring@[i].pos.x as int][tile_ring@[i].pos.y as int].is_some(),
        ensures
            table_view(*final(tile_movement_costs)) == spec_propagate(
                gameboard@,
                table_view(*old(tile_movement_costs)),
                tile_ring@.map_values(|t: &Tile| (t.pos.x as int, t.pos.y as int)),
                0,
            ),
            spec_table_fits(gameboard@, table_view(*final(tile_movement_costs))),
    {
        let ghost start = table_view(*tile_movement_costs);
        let ghost first = tile_ring@.map_values(|t: &Tile| (t.pos.x as int, t.pos.y as int));
        let limit: u32 = if gameboard.x >= gameboard.y {
            gameboard.x
        } else {
            gameboard.y
        };
        let mut ring: Vec<&Tile> = tile_ring;
        let mut depth: u32 = 0;
        loop
            invariant_except_break
                gameboard.wf(),
                limit == spec_ring_limit(gameboard@),
                depth <= limit,
                spec_table_fits(gameboard@, table_view(*tile_movement_costs)),
                spec_costs_below(
                    table_view(*tile_movement_costs),
                    MAX_START_COST + MAX_STEP_COST * depth,
                ),
                forall|i: int|
                    0 <= i < ring@.len() ==> gameboard@.holds((#[trigger] ring@[i]).pos) && table_view(
                        *tile_movement_costs,
                    )[ring@[i].pos.x as int][ring@[i].pos.y as int].is_some(),
                spec_propagate(
                    gameboard@,
                    table_view(*tile_movement_costs),
                    ring@.map_values(|t: &Tile| (t.pos.x as int, t.pos.y as int)),
                    depth as int,
                ) == spec_propagate(gameboard@, start, first, 0),
            ensures
                table_view(*tile_movement_costs) == spec_propagate(gameboard@, start, first, 0),
                spec_table_fits(gameboard@, table_view(*tile_movement_costs)),
            decreases limit - depth,
        {
            let fresh = relax_ring(&ring, tile_movement_costs, gameboard, Ghost(depth as int));
            if fresh.len() == 0 || depth + 1 >= limit {
                break ;
            }
            ring = fresh;
            depth = depth + 1;
        }
    }
}

/// One ring offers costs to its neighbours; returns the tiles that took one.
fn relax_ring<'a>(
    ring: &Vec<&'a Tile>,
    table: &mut Vec<Vec<Option<u64>>>,
    board: &'a Gameboard,
    Ghost(depth): Ghost<int>,
) -> (fresh: Vec<&'a Tile>)
    requires
        board.wf(),
        0 <= depth <= MAX_SIDE,
        spec_table_fits(board@, table_view(*old(table))),
        spec_costs_below(table_view(*old(table)), MAX_START_COST + MAX_STEP_COST * depth),
        forall|i: int|
            0 <= i < ring@.len() ==> board@.holds((#[trigger] ring@[i]).pos) && table_view(
                *old(table),
            )[ring@[i].pos.x as int][ring@[i].pos.y as int].is_some(),
    ensures
        (table_view(*final(table)), fresh@.map_values(|t: &Tile| (t.pos.x as int, t.pos.y as int)))
            == spec_relax_ring(
            board@,
            table_view(*old(table)),
            Seq::empty(),
            ring@.map_values(|t: &Tile| (t.pos.x as int, t.pos.y as int)),
            0,
        ),
        spec_table_fits(board@, table_view(*final(table))),
        spec_costs_below(table_view(*final(table)), MAX_START_COST + MAX_STEP_COST * (depth + 1)),
        forall|i: int|
            0 <= i < fresh@.len() ==> board@.holds((#[trigger] fresh@[i]).pos) && table_view(
                *final(table),
            )[fresh@[i].pos.x as int][fresh@[i].pos.y as int].is_some(),
{
    let ghost start = table_view(*table);
    let ghost squares = ring@.map_values(|t: &Tile| (t.pos.x as int, t.pos.y as int));
    let mut fresh: Vec<&Tile> = Vec::new();
    let mut i: usize = 0;
    assert(fresh@.map_values(|t: &Tile| (t.pos.x as int, t.pos.y as int)) =~= Seq::empty());
    while i < ring.len()
        invariant
            board.wf(),
            0 <= depth <= MAX_SIDE,
            i <= ring@.len(),
            squares == ring@.map_values(|t: &Tile| (t.pos.x as int, t.pos.y as int)),
            spec_table_fits(board@, table_view(*table)),
            spec_costs_below(table_view(*table), MAX_START_COST + MAX_STEP_COST * (depth + 1)),
            forall|j: int|
                0 <= j < ring@.len() ==> board@.holds((#[trigger] ring@[j]).pos) && (table_view(
                    *table,
                )[ring@[j].pos.x as int][ring@[j].pos.y as int] matches Some(c) && c
                    <= MAX_START_COST + MAX_STEP_COST * depth),
            forall|j: int|
                0 <= j < fresh@.len() ==> board@.holds((#[trigger] fresh@[j]).pos) && table_view(
                    *table,
                )[fresh@[j].pos.x as int][fresh@[j].pos.y as int].is_some(),
            spec_relax_ring(
                board@,
                table_view(*table),
                fresh@.map_values(|t: &Tile| (t.pos.x as int, t.pos.y as int)),
                squares,
                i as int,
            ) == spec_relax_ring(board@, start, Seq::empty(), squares, 0),
        decreases ring@.len() - i,
    {
        let source: &Tile = ring[i];
        let (sx, sy) = (source.pos.x as usize, source.pos.y as usize);
        let base: u64 = match table[sx][sy] {
            Some(c) => c,
            None => 0,
        };
        let near = board.adjacent_tiles(sx, sy);
        let ghost around = board@.spec_adjacent(sx as int, sy as int);
        let ghost round_start = table_view(*table);
        let ghost round_fresh = fresh@.map_values(|t: &Tile| (t.pos.x as int, t.pos.y as int));
        assert(squares[i as int] == (sx as int, sy as int));
        let mut k: usize = 0;
        while k < near.len()
            invariant
                board.wf(),
                0 <= depth <= MAX_SIDE,
                k <= near@.len(),
                near@.len() == around.len(),
                base <= MAX_START_COST + MAX_STEP_COST * depth,
                forall|j: int|
                    0 <= j < near@.len() ==> {
                        let at = #[trigger] around[j];
                        &&& board@.on_board(at.0, at.1)
                        &&& *near@[j] == board@.at(at.0, at.1)
                        &&& near@[j].pos == (Position { x: at.0 as i32, y: at.1 as i32 })
                    },
                spec_table_fits(board@, table_view(*table)),
                spec_costs_below(table_view(*table), MAX_START_COST + MAX_STEP_COST * (depth + 1)),
                forall|j: int|
                    0 <= j < ring@.len() ==> board@.holds((#[trigger] ring@[j]).pos) && (table_view(
                        *table,
                    )[ring@[j].pos.x as int][ring@[j].pos.y as int] matches Some(c) && c
                        <= MAX_START_COST + MAX_STEP_COST * depth),
                forall|j: int|
                    0 <= j < fresh@.len() ==> board@.holds((#[trigger] fresh@[j]).pos) && table_view(
                        *table,
                    )[fresh@[j].pos.x as int][fresh@[j].pos.y as int].is_some(),
                spec_relax_from(
                    board@,
                    table_view(*table),
                    fresh@.map_values(|t: &Tile| (t.pos.x as int, t.pos.y as int)),
                    base as int,
                    around,
                    k as int,
                ) == spec_relax_from(board@, round_start, round_fresh, base as int, around, 0),
            decreases near@.len() - k,
        {
            let tile: &Tile = near[k];
            let ghost at = around[k as int];
            let (x, y) = (tile.pos.x as usize, tile.pos.y as usize);
            assert(board@.on_board(at.0, at.1) && x == at.0 && y == at.1);
            assert(table_view(*table)[x as int] == table@[x as int]@);
            if table[x][y].is_none() {
                let cost: u64 = base + tile.movement_cost();
                proof {
                    lemma_set_cost_keeps(
                        board@,
                        table_view(*table),
                        x as int,
                        y as int,
                        cost,
                        MAX_START_COST + MAX_STEP_COST * (depth + 1),
                    );
                }
                let ghost before = table_view(*table);
                let ghost before_fresh = fresh@.map_values(
                    |t: &Tile| (t.pos.x as int, t.pos.y as int),
                );
                set_cost(table, x, y, cost);
                fresh.push(tile);
                assert(fresh@.map_values(|t: &Tile| (t.pos.x as int, t.pos.y as int))
                    =~= before_fresh.push(at));
                assert forall|j: int| 0 <= j < ring@.len() implies board@.holds(
                    (#[trigger] ring@[j]).pos,
                ) && (table_view(*table)[ring@[j].pos.x as int][ring@[j].pos.y as int] matches Some(
                    c,
                ) && c <= MAX_START_COST + MAX_STEP_COST * depth) by {
                    assert(before[ring@[j].pos.x as int][ring@[j].pos.y as int].is_some());
                }
                assert forall|j: int| 0 <= j < fresh@.len() implies board@.holds(
                    (#[trigger] fresh@[j]).pos,
                ) && table_view(*table)[fresh@[j].pos.x as int][fresh@[j].pos.y as int].is_some() by {
                    if j < fresh@.len() - 1 {
                        assert(before[fresh@[j].pos.x as int][fresh@[j].pos.y as int].is_some());
                    }
                }
            }
            k = k + 1;
        }
        i = i + 1;
    }
    fresh
}

impl Unit {
    /// The tiles the unit reaches from where it stands with a budget of
    /// `movement` tiles at speed 1, column by column; none if it stands off the board.
    pub fn calculate_traversible_tiles(&self, gameboard: &Gameboard, movement: i32) -> (reached: Vec<
        Position,
    >)
        requires
            gameboard.wf(),
        ensures
            reached@ == spec_traversible(gameboard@, self.pos, movement as int),
    {
        let mut reached: Vec<Position> = Vec::new();
        let table = match movement_costs(gameboard, self.pos) {
            Some(table) => table,
            None => {
                return reached;
            },
        };
        let ghost costs = table_view(table);
        let budget: i64 = movement as i64 * COST_SCALE as i64;
        let mut a: usize = 0;
        while a < table.len()
            invariant
                gameboard.wf(),
                costs == table_view(table),
                spec_table_fits(gameboard@, costs),
                a <= table@.len(),
                budget == movement * COST_SCALE,
                reached@ == spec_within(costs, budget as int, a as int),
            decreases table@.len() - a,
        {
            let ghost before = reached@;
            let mut b: usize = 0;
            assert(costs[a as int] == table@[a as int]@);
            while b < table[a].len()
                invariant
                    gameboard.wf(),
                    costs == table_view(table),
                    spec_table_fits(gameboard@, costs),
                    a < table@.len(),
                    b <= table@[a as int]@.len(),
                    costs[a as int] == table@[a as int]@,
                    budget == movement * COST_SCALE,
                    reached@ == before + spec_column_within(
                        costs[a as int],
                        a as int,
                        budget as int,
                        b as int,
                    ),
                decreases table@[a as int]@.len() - b,
            {
                match table[a][b] {
                    Some(c) => {
                        if budget >= 0 && c <= budget as u64 {
                            reached.push(Position { x: a as i32, y: b as i32 });
                        }
                    },
                    None => {},
                }
                b = b + 1;
                assert(reached@ =~= before + spec_column_within(
                    costs[a as int],
                    a as int,
                    budget as int,
                    b as int,
                ));
            }
            a = a + 1;
        }
        reached
    }
}

/// The cost of reaching every tile of the board from `from`; nothing when
/// `from` is off the board.
pub fn movement_costs(gameboard: &Gameboard, from: Position) -> (costs: Option<Vec<Vec<Option<u64>>>>)
    requires
        gameboard.wf(),
    ensures
        costs.is_some() == gameboard@.holds(from),
        costs matches Some(table) ==> table_view(table) == spec_movement_costs(
            gameboard@,
            from.x as int,
            from.y as int,
        ) && spec_table_fits(gameboard@, table_view(table)),
        costs matches Some(table) ==> crate::traversal_laws::spec_all_costed(
            gameboard@,
            table_view(table),
            from.x as int,
            from.y as int,
        ),
{
    let start: &Tile = match gameboard.tile_at(from) {
        Some(tile) => tile,
        None => {
            return None;
        },
    };
    let mut table = blank_costs(gameboard);
    proof {
        lemma_set_cost_keeps(
            gameboard@,
            table_view(table),
            from.x as int,
            from.y as int,
            0,
            MAX_START_COST as int,
        );
    }
    set_cost(&mut table, from.x as usize, from.y as usize, 0);
    let mut ring: Vec<&Tile> = Vec::new();
    ring.push(start);
    assert(ring@.map_values(|t: &Tile| (t.pos.x as int, t.pos.y as int)) =~= seq![
        (from.x as int, from.y as int),
    ]);
    start.propogate_movement_costs(ring, &mut table, gameboard);
    proof {
        crate::traversal_laws::lemma_every_tile_is_costed(gameboard@, from.x as int, from.y as int);
    }
    Some(table)
}

/// Whether a unit standing at `from` reaches `to` with a budget of `movement`.
pub fn reaches(gameboard: &Gameboard, from: Position, to: Position, movement: i32) -> (ok: bool)
    requires
        gameboard.wf(),
    ensures
        ok == spec_reaches(gameboard@, from, to, movement as int),
{
    if gameboard.tile_at(to).is_none() {
        return false;
    }
    match movement_costs(gameboard, from) {
        Some(table) => {
            let budget: i64 = movement as i64 * COST_SCALE as i64;
            assert(table_view(table)[to.x as int] == table@[to.x as int]@);
            match table[to.x as usize][to.y as usize] {
                Some(c) => budget >= 0 && c <= budget as u64,
                None => false,
            }
        },
        None => false,
    }
}

} // verus!
