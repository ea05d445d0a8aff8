//! Attack patterns: the cells an attack reaches from its origin.
use vstd::prelude::*;

use crate::grid::{cell_in_grid, tile_at, try_tile_pos, Cell, GridSize};

verus! {

/// The shape of an attack.
#[derive(Clone, Copy, Debug, PartialEq, Eq, Structural)]
pub enum AttackPattern {
    /// The four diagonal cells at each distance.
    Diagonal,
    /// The four axis-aligned cells at each distance.
    Sides,
    /// Both the diagonal and the axis-aligned cells at each distance.
    Around,
    /// The same cells as `Around`. The player's attacks give every pattern the
    /// same reach, so at present `Ultimate` strikes exactly as `Around` does.
    Ultimate,
}

/// The on-grid cell at `(x, y)` as a sequence of at most one cell.
pub open spec fn candidate(x: int, y: int, size: GridSize) -> Seq<Cell> {
    match tile_at(x, y, size) {
        Some(c) => seq![c],
        None => Seq::empty(),
    }
}

/// The on-grid diagonal cells at distance `o` from `(px, py)`, in the order
/// (+o,+o), (-o,-o), (-o,+o), (+o,-o).
pub open spec fn diagonal_ring(px: int, py: int, o: int, size: GridSize) -> Seq<Cell> {
    candidate(px + o, py + o, size) + candidate(px - o, py - o, size) + candidate(px - o, py + o, size)
        + candidate(px + o, py - o, size)
}

/// The on-grid axis-aligned cells at distance `o` from `(px, py)`, in the
/// order (+o,0), (-o,0), (0,+o), (0,-o).
pub open spec fn side_ring(px: int, py: int, o: int, size: GridSize) -> Seq<Cell> {
    candidate(px + o, py, size) + candidate(px - o, py, size) + candidate(px, py + o, size)
        + candidate(px, py - o, size)
}

/// The on-grid cells that a pattern adds at distance `o`.
pub open spec fn ring(pattern: AttackPattern, px: int, py: int, o: int, size: GridSize) -> Seq<Cell> {
    match pattern {
        AttackPattern::Diagonal => diagonal_ring(px, py, o, size),
        AttackPattern::Sides => side_ring(px, py, o, size),
        AttackPattern::Around => diagonal_ring(px, py, o, size) + side_ring(px, py, o, size),
        AttackPattern::Ultimate => diagonal_ring(px, py, o, size) + side_ring(px, py, o, size),
    }
}

/// The cells an attack with this pattern and reach covers from `(px, py)`:
/// the origin, then the ring at each distance from 1 to `reach`. Cells off the
/// grid are left out; a cell may occur more than once.
pub open spec fn gathered(pattern: AttackPattern, px: int, py: int, size: GridSize, reach: int) -> Seq<Cell>
    decreases reach,
{
    if reach <= 0 {
        candidate(px, py, size)
    } else {
        gathered(pattern, px, py, size, reach - 1) + ring(pattern, px, py, reach, size)
    }
}

/// Whether the displacement `(dx, dy)` is one the pattern reaches at
/// distance `o`.
pub open spec fn reaches(pattern: AttackPattern, dx: int, dy: int, o: int) -> bool {
    let diagonal = (dx == o || dx == -o) && (dy == o || dy == -o);
    let side = ((dx == o || dx == -o) && dy == 0) || (dx == 0 && (dy == o || dy == -o));
    match pattern {
        AttackPattern::Diagonal => diagonal,
        AttackPattern::Sides => side,
        AttackPattern::Around => diagonal || side,
        AttackPattern::Ultimate => diagonal || side,
    }
}

/// Whether `(dx, dy)` is the origin, or the pattern reaches it at some
/// distance from 1 to `reach`.
pub open spec fn covers(pattern: AttackPattern, dx: int, dy: int, reach: int) -> bool {
    (dx == 0 && dy == 0) || exists|o: int| 1 <= o <= reach && #[trigger] reaches(pattern, dx, dy, o)
}

proof fn lemma_contains_concat(a: Seq<Cell>, b: Seq<Cell>, c: Cell)
    ensures
        (a + b).contains(c) <==> a.contains(c) || b.contains(c),
{
    if (a + b).contains(c) {
        let i = choose|i: int| 0 <= i < (a + b).len() && (a + b)[i] == c;
        if i >= a.len() {
            assert(b[i - a.len()] == c);
        }
    }
    if a.contains(c) {
        let i = choose|i: int| 0 <= i < a.len() && a[i] == c;
        assert((a + b)[i] == c);
    }
    if b.contains(c) {
        let i = choose|i: int| 0 <= i < b.len() && b[i] == c;
        assert((a + b)[a.len() + i] == c);
    }
}

proof fn lemma_candidate_contains(x: int, y: int, size: GridSize, c: Cell)
    ensures
        candidate(x, y, size).contains(c) <==> cell_in_grid(c, size) && c.x == x && c.y == y,
{
    if candidate(x, y, size).contains(c) {
        assert(candidate(x, y, size)[0] == c);
    }
    if cell_in_grid(c, size) && c.x == x && c.y == y {
        assert(candidate(x, y, size)[0] == c);
    }
}

proof fn lemma_ring4_contains(
    x1: int,
    y1: int,
    x2: int,
    y2: int,
    x3: int,
    y3: int,
    x4: int,
    y4: int,
    size: GridSize,
    c: Cell,
)
    ensures
        (candidate(x1, y1, size) + candidate(x2, y2, size) + candidate(x3, y3, size) + candidate(
            x4,
            y4,
            size,
        )).contains(c) <==> cell_in_grid(c, size) && ((c.x == x1 && c.y == y1) || (c.x == x2 && c.y
            == y2) || (c.x == x3 && c.y == y3) || (c.x == x4 && c.y == y4)),
{
    let (a, b, d, e) = (
        candidate(x1, y1, size),
        candidate(x2, y2, size),
        candidate(x3, y3, size),
        candidate(x4, y4, size),
    );
    lemma_contains_concat(a + b + d, e, c);
    lemma_contains_concat(a + b, d, c);
    lemma_contains_concat(a, b, c);
    lemma_candidate_contains(x1, y1, size, c);
    lemma_candidate_contains(x2, y2, size, c);
    lemma_candidate_contains(x3, y3, size, c);
    lemma_candidate_contains(x4, y4, size, c);
}

proof fn lemma_ring_contains(pattern: AttackPattern, px: int, py: int, o: int, size: GridSize, c: Cell)
    requires
        o > 0,
    ensures
        ring(pattern, px, py, o, size).contains(c) <==> cell_in_grid(c, size) && reaches(
            pattern,
            c.x - px,
            c.y - py,
            o,
        ),
{
    lemma_ring4_contains(px + o, py + o, px - o, py - o, px - o, py + o, px + o, py - o, size, c);
    lemma_ring4_contains(px + o, py, px - o, py, px, py + o, px, py - o, size, c);
    lemma_contains_concat(diagonal_ring(px, py, o, size), side_ring(px, py, o, size), c);
}

/// A cell belongs to an attack's cells exactly when it is on the grid and the
/// pattern reaches its displacement from the origin within the reach.
pub proof fn lemma_gathered_contains(
    pattern: AttackPattern,
    px: int,
    py: int,
    size: GridSize,
    reach: int,
    c: Cell,
)
    ensures
        gathered(pattern, px, py, size, reach).contains(c) <==> cell_in_grid(c, size) && covers(
            pattern,
            c.x - px,
            c.y - py,
            reach,
        ),
    decreases reach,
{
    let (dx, dy) = (c.x - px, c.y - py);
    if reach <= 0 {
        lemma_candidate_contains(px, py, size, c);
        if covers(pattern, dx, dy, reach) && !(dx == 0 && dy == 0) {
            let o = choose|o: int| 1 <= o <= reach && #[trigger] reaches(pattern, dx, dy, o);
            assert(false);
        }
    } else {
        lemma_gathered_contains(pattern, px, py, size, reach - 1, c);
        lemma_ring_contains(pattern, px, py, reach, size, c);
        lemma_contains_concat(
            gathered(pattern, px, py, size, reach - 1),
            ring(pattern, px, py, reach, size),
            c,
        );
        if covers(pattern, dx, dy, reach) && !(dx == 0 && dy == 0) {
            let o = choose|o: int| 1 <= o <= reach && #[trigger] reaches(pattern, dx, dy, o);
            if o < reach {
                assert(covers(pattern, dx, dy, reach - 1));
            }
        }
        if covers(pattern, dx, dy, reach - 1) && !(dx == 0 && dy == 0) {
            let o = choose|o: int| 1 <= o <= reach - 1 && #[trigger] reaches(pattern, dx, dy, o);
            assert(covers(pattern, dx, dy, reach));
        }
        if reaches(pattern, dx, dy, reach) {
            assert(covers(pattern, dx, dy, reach));
        }
    }
}

/// Whatever the pattern, an on-grid origin is the first cell of the attack.
pub proof fn lemma_gathered_starts_at_origin(
    pattern: AttackPattern,
    origin: Cell,
    size: GridSize,
    reach: int,
)
    requires
        cell_in_grid(origin, size),
    ensures
        gathered(pattern, origin.x as int, origin.y as int, size, reach).len() > 0,
        gathered(pattern, origin.x as int, origin.y as int, size, reach)[0] == origin,
    decreases reach,
{
    if reach > 0 {
        lemma_gathered_starts_at_origin(pattern, origin, size, reach - 1);
    }
}

/// Every cell that `Sides` or `Diagonal` reaches, `Around` reaches too, for
/// the same origin and reach.
pub proof fn lemma_around_covers_sides_and_diagonal(
    px: int,
    py: int,
    size: GridSize,
    reach: int,
    c: Cell,
)
    ensures
        gathered(AttackPattern::Sides, px, py, size, reach).contains(c) ==> gathered(
            AttackPattern::Around,
            px,
            py,
            size,
            reach,
        ).contains(c),
        gathered(AttackPattern::Diagonal, px, py, size, reach).contains(c) ==> gathered(
            AttackPattern::Around,
            px,
            py,
            size,
            reach,
        ).contains(c),
{
    let (dx, dy) = (c.x - px, c.y - py);
    lemma_gathered_contains(AttackPattern::Sides, px, py, size, reach, c);
    lemma_gathered_contains(AttackPattern::Diagonal, px, py, size, reach, c);
    lemma_gathered_contains(AttackPattern::Around, px, py, size, reach, c);
    if covers(AttackPattern::Sides, dx, dy, reach) && !(dx == 0 && dy == 0) {
        let o = choose|o: int| 1 <= o <= reach && #[trigger] reaches(AttackPattern::Sides, dx, dy, o);
        assert(reaches(AttackPattern::Around, dx, dy, o));
    }
    if covers(AttackPattern::Diagonal, dx, dy, reach) && !(dx == 0 && dy == 0) {
        let o = choose|o: int|
            1 <= o <= reach && #[trigger] reaches(AttackPattern::Diagonal, dx, dy, o);
        assert(reaches(AttackPattern::Around, dx, dy, o));
    }
}

/// `Ultimate` covers exactly the cells of `Around`, in the same order.
pub proof fn lemma_ultimate_is_around(px: int, py: int, size: GridSize, reach: int)
    ensures
        gathered(AttackPattern::Ultimate, px, py, size, reach) == gathered(
            AttackPattern::Around,
            px,
            py,
            size,
            reach,
        ),
    decreases reach,
{
    if reach > 0 {
        lemma_ultimate_is_around(px, py, size, reach - 1);
    }
}

/// Appends the cell at `(x, y)` if it is on the grid.
fn push_tile(out: &mut Vec<Cell>, x: i64, y: i64, size: GridSize)
    ensures
        final(out)@ == old(out)@ + candidate(x as int, y as int, size),
{
    if let Some(tile) = try_tile_pos(x, y, size) {
        out.push(tile);
    }
    assert(out@ =~= old(out)@ + candidate(x as int, y as int, size));
}

fn push_diagonal_ring(out: &mut Vec<Cell>, px: i64, py: i64, o: i64, size: GridSize)
    requires
        0 <= px <= u32::MAX,
        0 <= py <= u32::MAX,
        0 < o <= u32::MAX,
    ensures
        final(out)@ == old(out)@ + diagonal_ring(px as int, py as int, o as int, size),
{
    push_tile(out, px + o, py + o, size);
    push_tile(out, px - o, py - o, size);
    push_tile(out, px - o, py + o, size);
    push_tile(out, px + o, py - o, size);
    assert(out@ =~= old(out)@ + diagonal_ring(px as int, py as int, o as int, size));
}

fn push_side_ring(out: &mut Vec<Cell>, px: i64, py: i64, o: i64, size: GridSize)
    requires
        0 <= px <= u32::MAX,
        0 <= py <= u32::MAX,
        0 < o <= u32::MAX,
    ensures
        final(out)@ == old(out)@ + side_ring(px as int, py as int, o as int, size),
{
    push_tile(out, px + o, py, size);
    push_tile(out, px - o, py, size);
    push_tile(out, px, py + o, size);
    push_tile(out, px, py - o, size);
    assert(out@ =~= old(out)@ + side_ring(px as int, py as int, o as int, size));
}

/// The cells an attack covers: the origin if it is on the grid, then for each
/// distance from 1 to `attack_lenght` the pattern's on-grid cells at that
/// distance. Cells off the grid are dropped; a cell may repeat.
pub fn gather_neighbors(pattern: AttackPattern, pos: Cell, map_size: GridSize, attack_lenght: i32) -> (r: Vec<Cell>)
    ensures
        r@ == gathered(pattern, pos.x as int, pos.y as int, map_size, attack_lenght as int),
        forall|i: int| 0 <= i < r@.len() ==> cell_in_grid(#[trigger] r@[i], map_size),
        cell_in_grid(pos, map_size) ==> r@.len() > 0 && r@[0] == pos,
{
    let mut neighbors: Vec<Cell> = Vec::new();
    let px = pos.x as i64;
    let py = pos.y as i64;
    let reach = attack_lenght as i64;
    push_tile(&mut neighbors, px, py, map_size);
    assert(neighbors@ =~= candidate(px as int, py as int, map_size));

    let mut offset: i64 = 1;
    while offset <= reach
        invariant
            1 <= offset,
            reach >= 0 ==> offset <= reach + 1,
            reach < 0 ==> offset == 1,
            reach == attack_lenght,
            px == pos.x,
            py == pos.y,
            neighbors@ == gathered(pattern, px as int, py as int, map_size, offset - 1),
        decreases reach - offset + 1,
    {
        match pattern {
            AttackPattern::Diagonal => {
                push_diagonal_ring(&mut neighbors, px, py, offset, map_size);
            },
            AttackPattern::Sides => {
                push_side_ring(&mut neighbors, px, py, offset, map_size);
            },
            AttackPattern::Around => {
                let ghost before = neighbors@;
                push_diagonal_ring(&mut neighbors, px, py, offset, map_size);
                push_side_ring(&mut neighbors, px, py, offset, map_size);
                assert(neighbors@ =~= before + ring(pattern, px as int, py as int, offset as int, map_size));
            },
            AttackPattern::Ultimate => {
                let ghost before = neighbors@;
                push_diagonal_ring(&mut neighbors, px, py, offset, map_size);
                push_side_ring(&mut neighbors, px, py, offset, map_size);
                assert(neighbors@ =~= before + ring(pattern, px as int, py as int, offset as int, map_size));
            },
        }
        offset = offset + 1;
    }
    proof {
        let g = gathered(pattern, px as int, py as int, map_size, attack_lenght as int);
        assert(neighbors@ == g);
        assert forall|i: int| 0 <= i < g.len() implies cell_in_grid(#[trigger] g[i], map_size) by {
            assert(g.contains(g[i]));
            lemma_gathered_contains(pattern, px as int, py as int, map_size, attack_lenght as int, g[i]);
        }
        if cell_in_grid(pos, map_size) {
            lemma_gathered_starts_at_origin(pattern, pos, map_size, attack_lenght as int);
        }
    }
    neighbors
}

} // verus!
