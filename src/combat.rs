//! Attacks: painting the cells an attack covers, and removing the units that
//! stand on their own colour.
use vstd::prelude::*;

use crate::color::{masked_color, player_color, Color, RoundColorState};
use crate::constants::{ENEMY_ATTACK_REACH, PLAYER_ATTACK_REACH};
use crate::grid::{paint, Cell, GridSize, TileGrid};
use crate::pattern::{gather_neighbors, gathered, AttackPattern};
use crate::registry::{positions, without_on_color, Faction, Registry};

verus! {

/// The colour map after painting each listed cell, in order, with `color`.
pub open spec fn painted_cells(m: Map<Cell, Color>, cells: Seq<Cell>, color: Color) -> Map<Cell, Color>
    decreases cells.len(),
{
    if cells.len() == 0 {
        m
    } else {
        paint(painted_cells(m, cells.drop_last(), color), cells.last(), color)
    }
}

/// The colour map after an attack from each origin, in order.
pub open spec fn painted_attacks(
    m: Map<Cell, Color>,
    origins: Seq<(u64, Cell)>,
    pattern: AttackPattern,
    reach: int,
    size: GridSize,
    color: Color,
) -> Map<Cell, Color>
    decreases origins.len(),
{
    if origins.len() == 0 {
        m
    } else {
        let o = origins.last().1;
        painted_cells(
            painted_attacks(m, origins.drop_last(), pattern, reach, size, color),
            gathered(pattern, o.x as int, o.y as int, size, reach),
            color,
        )
    }
}

/// After painting, each listed on-grid cell has the colour, the cells keep
/// their domain, and every unlisted cell keeps its old colour.
pub proof fn lemma_painted_cells(m: Map<Cell, Color>, cells: Seq<Cell>, color: Color, c: Cell)
    ensures
        painted_cells(m, cells, color).dom() == m.dom(),
        m.contains_key(c) && cells.contains(c) ==> painted_cells(m, cells, color)[c] == color,
        m.contains_key(c) && !cells.contains(c) ==> painted_cells(m, cells, color)[c] == m[c],
    decreases cells.len(),
{
    if cells.len() > 0 {
        let rest = cells.drop_last();
        lemma_painted_cells(m, rest, color, c);
        let prev = painted_cells(m, rest, color);
        if prev.contains_key(cells.last()) {
            assert(prev.insert(cells.last(), color).dom() =~= prev.dom());
        }
        if cells.contains(c) && c != cells.last() {
            let i = choose|i: int| 0 <= i < cells.len() && cells[i] == c;
            assert(rest[i] == c);
        }
        if !cells.contains(c) {
            if rest.contains(c) {
                let i = choose|i: int| 0 <= i < rest.len() && rest[i] == c;
                assert(cells[i] == c);
            }
            assert(cells[cells.len() - 1] == cells.last());
        }
    }
}

/// After attacks from several origins in one colour, every on-grid cell that
/// any of the attacks covers shows that colour, and the domain is unchanged.
pub proof fn lemma_painted_attacks_cover(
    m: Map<Cell, Color>,
    origins: Seq<(u64, Cell)>,
    pattern: AttackPattern,
    reach: int,
    size: GridSize,
    color: Color,
    k: int,
    c: Cell,
)
    requires
        0 <= k < origins.len(),
        gathered(pattern, origins[k].1.x as int, origins[k].1.y as int, size, reach).contains(c),
        m.contains_key(c),
    ensures
        painted_attacks(m, origins, pattern, reach, size, color).dom() == m.dom(),
        painted_attacks(m, origins, pattern, reach, size, color)[c] == color,
    decreases origins.len(),
{
    let rest = origins.drop_last();
    let o = origins.last().1;
    let cells = gathered(pattern, o.x as int, o.y as int, size, reach);
    let prev = painted_attacks(m, rest, pattern, reach, size, color);
    lemma_painted_attacks_domain(m, rest, pattern, reach, size, color);
    lemma_painted_cells(prev, cells, color, c);
    if k < origins.len() - 1 {
        assert(rest[k] == origins[k]);
        lemma_painted_attacks_cover(m, rest, pattern, reach, size, color, k, c);
    }
}

/// Attacks never add or remove cells of the colour map.
pub proof fn lemma_painted_attacks_domain(
    m: Map<Cell, Color>,
    origins: Seq<(u64, Cell)>,
    pattern: AttackPattern,
    reach: int,
    size: GridSize,
    color: Color,
)
    ensures
        painted_attacks(m, origins, pattern, reach, size, color).dom() == m.dom(),
    decreases origins.len(),
{
    if origins.len() > 0 {
        let o = origins.last().1;
        let prev = painted_attacks(m, origins.drop_last(), pattern, reach, size, color);
        lemma_painted_attacks_domain(m, origins.drop_last(), pattern, reach, size, color);
        lemma_painted_cells(prev, gathered(pattern, o.x as int, o.y as int, size, reach), color, o);
    }
}

/// Paints each listed cell with `color`; cells off the grid are ignored.
pub fn apply_tile_color(neighbors: Vec<Cell>, grid: &mut TileGrid, color: Color)
    requires
        old(grid).wf(),
    ensures
        final(grid).wf(),
        final(grid).spec_size() == old(grid).spec_size(),
        final(grid)@ == painted_cells(old(grid)@, neighbors@, color),
{
    let mut i: usize = 0;
    while i < neighbors.len()
        invariant
            i <= neighbors@.len(),
            grid.wf(),
            grid.spec_size() == old(grid).spec_size(),
            grid@ == painted_cells(old(grid)@, neighbors@.subrange(0, i as int), color),
        decreases neighbors@.len() - i,
    {
        let tile = neighbors[i];
        proof {
            let post = neighbors@.subrange(0, i + 1);
            assert(post.drop_last() =~= neighbors@.subrange(0, i as int));
            assert(post.last() == tile);
        }
        grid.set_color(tile, color);
        i = i + 1;
    }
    assert(neighbors@.subrange(0, neighbors@.len() as int) =~= neighbors@);
}

/// Paints the cells of an attack from each origin, in order.
fn paint_attacks(origins: &Vec<(u64, Cell)>, grid: &mut TileGrid, pattern: AttackPattern, reach: i32, color: Color)
    requires
        old(grid).wf(),
    ensures
        final(grid).wf(),
        final(grid).spec_size() == old(grid).spec_size(),
        final(grid)@ == painted_attacks(
            old(grid)@,
            origins@,
            pattern,
            reach as int,
            old(grid).spec_size(),
            color,
        ),
{
    let size = grid.size();
    let mut i: usize = 0;
    while i < origins.len()
        invariant
            i <= origins@.len(),
            grid.wf(),
            grid.spec_size() == old(grid).spec_size(),
            size == old(grid).spec_size(),
            grid@ == painted_attacks(
                old(grid)@,
                origins@.subrange(0, i as int),
                pattern,
                reach as int,
                size,
                color,
            ),
        decreases origins@.len() - i,
    {
        let (_, pos) = origins[i];
        proof {
            let post = origins@.subrange(0, i + 1);
            assert(post.drop_last() =~= origins@.subrange(0, i as int));
            assert(post.last().1 == pos);
        }
        let neighbors = gather_neighbors(pattern, pos, size, reach);
        apply_tile_color(neighbors, grid, color);
        i = i + 1;
    }
    assert(origins@.subrange(0, origins@.len() as int) =~= origins@);
}

/// The player's attack: from each player unit, the pattern's cells at the
/// player's reach take this round's masked colour.
pub fn color_player_neighbors(
    pattern: AttackPattern,
    registry: &Registry,
    grid: &mut TileGrid,
    color_state: &RoundColorState,
)
    requires
        old(grid).wf(),
    ensures
        final(grid).wf(),
        final(grid).spec_size() == old(grid).spec_size(),
        final(grid)@ == painted_attacks(
            old(grid)@,
            positions(registry@, Faction::Player),
            pattern,
            PLAYER_ATTACK_REACH as int,
            old(grid).spec_size(),
            masked_color(color_state.index as int),
        ),
{
    let attack_color = color_state.masked_color();
    let players = registry.positions_of(Faction::Player);
    paint_attacks(&players, grid, pattern, PLAYER_ATTACK_REACH, attack_color);
}

/// The enemies' attack: from each enemy, the `Sides` cells at the enemies'
/// reach take this round's player colour.
pub fn color_enemy_neighbors(registry: &Registry, grid: &mut TileGrid, color_state: &RoundColorState)
    requires
        old(grid).wf(),
    ensures
        final(grid).wf(),
        final(grid).spec_size() == old(grid).spec_size(),
        final(grid)@ == painted_attacks(
            old(grid)@,
            positions(registry@, Faction::Enemy),
            AttackPattern::Sides,
            ENEMY_ATTACK_REACH as int,
            old(grid).spec_size(),
            player_color(color_state.index as int),
        ),
{
    let attack_color = color_state.player_color();
    let enemies = registry.positions_of(Faction::Enemy);
    paint_attacks(&enemies, grid, AttackPattern::Sides, ENEMY_ATTACK_REACH, attack_color);
}

/// Removes every enemy standing on a tile of this round's masked colour.
pub fn despawn_enemies_on_matching_tile_color(
    registry: &mut Registry,
    grid: &TileGrid,
    color_state: &RoundColorState,
)
    requires
        old(registry).wf(),
        grid.wf(),
    ensures
        final(registry).wf(),
        final(registry).spec_next_id() == old(registry).spec_next_id(),
        final(registry)@ == without_on_color(
            old(registry)@,
            Faction::Enemy,
            grid@,
            masked_color(color_state.index as int),
        ),
{
    let enemy_color = color_state.masked_color();
    registry.despawn_on_color(Faction::Enemy, grid, enemy_color);
}

/// Removes the player if it stands on a tile of this round's player colour.
pub fn despawn_player_on_matching_tile_color(
    registry: &mut Registry,
    grid: &TileGrid,
    color_state: &RoundColorState,
)
    requires
        old(registry).wf(),
        grid.wf(),
    ensures
        final(registry).wf(),
        final(registry).spec_next_id() == old(registry).spec_next_id(),
        final(registry)@ == without_on_color(
            old(registry)@,
            Faction::Player,
            grid@,
            player_color(color_state.index as int),
        ),
{
    let player_color = color_state.player_color();
    registry.despawn_on_color(Faction::Player, grid, player_color);
}

/// The colour a unit of this faction shows this round: the player wears the
/// complement, the enemies the masked primary.
pub open spec fn faction_color(faction: Faction, index: int) -> Color {
    match faction {
        Faction::Player => player_color(index),
        Faction::Enemy => masked_color(index),
    }
}

/// The tint of the player's sprite this round.
pub fn update_player_color(color_state: &RoundColorState) -> (c: Color)
    ensures
        c == faction_color(Faction::Player, color_state.index as int),
{
    color_state.player_color()
}

/// The tint of the enemies' sprites this round.
pub fn update_enemy_color(color_state: &RoundColorState) -> (c: Color)
    ensures
        c == faction_color(Faction::Enemy, color_state.index as int),
{
    color_state.masked_color()
}

} // verus!
