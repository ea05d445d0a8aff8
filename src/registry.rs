//! The unit registry: every living unit with its identity, cell and faction.
//! Identities are handed out in increasing order and never reused.
use vstd::prelude::*;

use crate::color::Color;
use crate::grid::{Cell, GridSize, TileGrid};
use crate::input::{moved_cell, next_tile_pos, KeyInput};

verus! {

/// The side a unit fights for.
#[derive(Clone, Copy, Debug, PartialEq, Eq, Structural)]
pub enum Faction {
    Player,
    Enemy,
}

/// A unit on the board.
#[derive(Clone, Copy, Debug, PartialEq, Eq, Structural)]
pub struct Unit {
    pub id: u64,
    pub cell: Cell,
    pub faction: Faction,
}

/// The identity and cell of each unit of a faction, in registry order.
pub open spec fn positions(s: Seq<Unit>, f: Faction) -> Seq<(u64, Cell)> {
    s.filter(|u: Unit| u.faction == f).map_values(|u: Unit| (u.id, u.cell))
}

/// Whether a cell shows the given colour; a cell off the grid shows none.
pub open spec fn on_color(m: Map<Cell, Color>, c: Cell, color: Color) -> bool {
    m.contains_key(c) && m[c] == color
}

/// The units left after those of faction `f` standing on a tile of colour
/// `color` are removed.
pub open spec fn without_on_color(s: Seq<Unit>, f: Faction, m: Map<Cell, Color>, color: Color) -> Seq<Unit> {
    s.filter(|u: Unit| !(u.faction == f && on_color(m, u.cell, color)))
}

/// A unit one row lower; a unit on row 0 stays there.
pub open spec fn stepped_down(u: Unit) -> Unit {
    Unit { cell: Cell { x: u.cell.x, y: if u.cell.y == 0 { 0 } else { (u.cell.y - 1) as u32 } }, ..u }
}

/// The units after every enemy steps one row down.
pub open spec fn enemies_stepped_down(s: Seq<Unit>) -> Seq<Unit> {
    s.map_values(|u: Unit| if u.faction == Faction::Enemy { stepped_down(u) } else { u })
}

/// The units after the one with identity `id` moves to `cell`.
pub open spec fn moved(s: Seq<Unit>, id: u64, cell: Cell) -> Seq<Unit> {
    s.map_values(|u: Unit| if u.id == id { Unit { cell, ..u } } else { u })
}

/// The units after every player unit follows the arrows.
pub open spec fn players_moved(s: Seq<Unit>, keys: KeyInput, size: GridSize) -> Seq<Unit> {
    s.map_values(
        |u: Unit|
            if u.faction == Faction::Player {
                Unit { cell: moved_cell(u.cell, keys, size), ..u }
            } else {
                u
            },
    )
}

/// Whether some unit belongs to faction `f`.
pub open spec fn has_faction(s: Seq<Unit>, f: Faction) -> bool {
    exists|i: int| 0 <= i < s.len() && #[trigger] s[i].faction == f
}

/// Whether an enemy stands on `cell`.
pub open spec fn enemy_at(s: Seq<Unit>, cell: Cell) -> bool {
    exists|i: int| 0 <= i < s.len() && #[trigger] s[i].faction == Faction::Enemy && s[i].cell == cell
}

/// Identities strictly increase along the sequence.
pub open spec fn ids_increasing(s: Seq<Unit>) -> bool {
    forall|i: int, j: int| 0 <= i < j < s.len() ==> s[i].id < s[j].id
}

proof fn lemma_filter_keeps_ids_increasing(s: Seq<Unit>, p: spec_fn(Unit) -> bool)
    requires
        ids_increasing(s),
    ensures
        ids_increasing(s.filter(p)),
        forall|i: int| 0 <= i < s.filter(p).len() ==> s.contains(#[trigger] s.filter(p)[i]),
    decreases s.len(),
{
    reveal(Seq::filter);
    if s.len() > 0 {
        let t = s.drop_last();
        assert(ids_increasing(t));
        lemma_filter_keeps_ids_increasing(t, p);
        let ft = t.filter(p);
        assert(s.filter(p) == (if p(s.last()) { ft.push(s.last()) } else { ft }));
        assert forall|i: int| 0 <= i < ft.len() implies (#[trigger] ft[i]).id < s.last().id by {
            let k = choose|k: int| 0 <= k < t.len() && t[k] == ft[i];
            assert(s[k] == t[k]);
        }
        assert forall|i: int| 0 <= i < s.filter(p).len() implies s.contains(#[trigger] s.filter(p)[i]) by {
            if i < ft.len() {
                let k = choose|k: int| 0 <= k < t.len() && t[k] == ft[i];
                assert(s[k] == t[k]);
            } else {
                assert(s[s.len() - 1] == s.last());
            }
        }
    }
}

/// All living units.
pub struct Registry {
    units: Vec<Unit>,
    next_id: u64,
}

impl View for Registry {
    type V = Seq<Unit>;

    closed spec fn view(&self) -> Seq<Unit> {
        self.units@
    }
}

impl Registry {
    /// The identity the next spawned unit will get.
    pub closed spec fn spec_next_id(&self) -> u64 {
        self.next_id
    }

    /// Identities increase along the registry and are all below the next one.
    pub closed spec fn wf(&self) -> bool {
        &&& ids_increasing(self.units@)
        &&& forall|i: int| 0 <= i < self.units@.len() ==> (#[trigger] self.units@[i]).id < self.next_id
    }

    /// In a well-formed registry no two units share an identity, and every
    /// identity is below the next one to be handed out.
    pub proof fn lemma_ids_unique(&self)
        requires
            self.wf(),
        ensures
            forall|i: int, j: int|
                0 <= i < self@.len() && 0 <= j < self@.len() && i != j ==> #[trigger] self@[i].id
                    != #[trigger] self@[j].id,
            forall|i: int| 0 <= i < self@.len() ==> (#[trigger] self@[i]).id < self.spec_next_id(),
    {
        assert forall|i: int, j: int|
            0 <= i < self@.len() && 0 <= j < self@.len() && i != j implies #[trigger] self@[i].id
            != #[trigger] self@[j].id by {
            if i < j {
                assert(self.units@[i].id < self.units@[j].id);
            } else {
                assert(self.units@[j].id < self.units@[i].id);
            }
        }
    }

    /// An empty registry.
    pub fn new() -> (r: Registry)
        ensures
            r.wf(),
            r@ == Seq::<Unit>::empty(),
            r.spec_next_id() == 0,
    {
        Registry { units: Vec::new(), next_id: 0 }
    }

    /// Adds a unit with a fresh identity and returns that identity; `None`,
    /// with nothing added, once every identity has been used.
    pub fn spawn(&mut self, faction: Faction, cell: Cell) -> (r: Option<u64>)
        requires
            old(self).wf(),
        ensures
            final(self).wf(),
            old(self).spec_next_id() < u64::MAX ==> {
                &&& r == Some(old(self).spec_next_id())
                &&& final(self)@ == old(self)@.push(Unit { id: old(self).spec_next_id(), cell, faction })
                &&& final(self).spec_next_id() == old(self).spec_next_id() + 1
            },
            old(self).spec_next_id() == u64::MAX ==> r.is_none() && *final(self) == *old(self),
    {
        if self.next_id == u64::MAX {
            return None;
        }
        let id = self.next_id;
        self.units.push(Unit { id, cell, faction });
        self.next_id = id + 1;
        Some(id)
    }

    /// The identity and cell of every unit of a faction, in registry order.
    pub fn positions_of(&self, faction: Faction) -> (r: Vec<(u64, Cell)>)
        ensures
            r@ == positions(self@, faction),
    {
        let mut out: Vec<(u64, Cell)> = Vec::new();
        let mut i: usize = 0;
        while i < self.units.len()
            invariant
                i <= self.units@.len(),
                out@ == positions(self.units@.subrange(0, i as int), faction),
            decreases self.units@.len() - i,
        {
            let u = self.units[i];
            proof {
                let pre = self.units@.subrange(0, i as int);
                let post = self.units@.subrange(0, i + 1);
                assert(post.drop_last() =~= pre);
                assert(post.last() == u);
            }
            if u.faction == faction {
                out.push((u.id, u.cell));
            }
            proof {
                reveal(Seq::filter);
                let post = self.units@.subrange(0, i + 1);
                let pre = self.units@.subrange(0, i as int);
                let fpre = pre.filter(|u: Unit| u.faction == faction);
                let fpost = post.filter(|u: Unit| u.faction == faction);
                if u.faction == faction {
                    assert(fpost == fpre.push(u));
                    assert(fpost.map_values(|u: Unit| (u.id, u.cell)) =~= fpre.map_values(
                        |u: Unit| (u.id, u.cell),
                    ).push((u.id, u.cell)));
                } else {
                    assert(fpost == fpre);
                }
            }
            i = i + 1;
        }
        assert(self.units@.subrange(0, self.units@.len() as int) =~= self.units@);
        out
    }

    /// Whether an enemy stands on `cell`.
    pub fn enemy_on(&self, cell: Cell) -> (r: bool)
        ensures
            r == enemy_at(self@, cell),
    {
        let mut i: usize = 0;
        while i < self.units.len()
            invariant
                i <= self.units@.len(),
                forall|k: int|
                    0 <= k < i ==> !(#[trigger] self.units@[k].faction == Faction::Enemy
                        && self.units@[k].cell == cell),
            decreases self.units@.len() - i,
        {
            let u = self.units[i];
            if u.faction == Faction::Enemy && u.cell == cell {
                return true;
            }
            i = i + 1;
        }
        false
    }

    /// Moves the unit with identity `id` to `cell`; the cell is taken as given.
    pub fn move_to(&mut self, id: u64, cell: Cell)
        requires
            old(self).wf(),
        ensures
            final(self).wf(),
            final(self).spec_next_id() == old(self).spec_next_id(),
            final(self)@ == moved(old(self)@, id, cell),
    {
        let mut i: usize = 0;
        while i < self.units.len()
            invariant
                i <= self.units@.len(),
                self.units@.len() == old(self).units@.len(),
                self.next_id == old(self).next_id,
                forall|k: int|
                    0 <= k < self.units@.len() ==> #[trigger] self.units@[k] == (if k < i {
                        moved(old(self).units@, id, cell)[k]
                    } else {
                        old(self).units@[k]
                    }),
            decreases self.units@.len() - i,
        {
            let u = self.units[i];
            if u.id == id {
                self.units.set(i, Unit { id: u.id, cell, faction: u.faction });
            }
            i = i + 1;
        }
        assert(self.units@ =~= moved(old(self).units@, id, cell));
    }

    /// Moves every player unit as the arrows say, clamped onto a grid of
    /// `size`; returns whether there was a player unit to move.
    pub fn move_players(&mut self, keys: &KeyInput, size: GridSize) -> (any: bool)
        requires
            old(self).wf(),
            size.x > 0,
            size.y > 0,
        ensures
            final(self).wf(),
            final(self).spec_next_id() == old(self).spec_next_id(),
            final(self)@ == players_moved(old(self)@, *keys, size),
            any == has_faction(old(self)@, Faction::Player),
    {
        let mut any = false;
        let mut i: usize = 0;
        while i < self.units.len()
            invariant
                size.x > 0,
                size.y > 0,
                i <= self.units@.len(),
                self.units@.len() == old(self).units@.len(),
                self.next_id == old(self).next_id,
                any == exists|k: int| 0 <= k < i && #[trigger] old(self).units@[k].faction == Faction::Player,
                forall|k: int|
                    0 <= k < self.units@.len() ==> #[trigger] self.units@[k] == (if k < i {
                        players_moved(old(self).units@, *keys, size)[k]
                    } else {
                        old(self).units@[k]
                    }),
            decreases self.units@.len() - i,
        {
            let u = self.units[i];
            if u.faction == Faction::Player {
                let cell = next_tile_pos(u.cell, keys, size);
                self.units.set(i, Unit { id: u.id, cell, faction: u.faction });
                any = true;
            }
            proof {
                if u.faction == Faction::Player {
                    assert(old(self).units@[i as int].faction == Faction::Player);
                }
            }
            i = i + 1;
        }
        assert(self.units@ =~= players_moved(old(self).units@, *keys, size));
        any
    }

    /// Moves every enemy one row down; an enemy on row 0 stays there.
    pub fn move_enemies_down(&mut self)
        requires
            old(self).wf(),
        ensures
            final(self).wf(),
            final(self).spec_next_id() == old(self).spec_next_id(),
            final(self)@ == enemies_stepped_down(old(self)@),
    {
        let mut i: usize = 0;
        while i < self.units.len()
            invariant
                i <= self.units@.len(),
                self.units@.len() == old(self).units@.len(),
                self.next_id == old(self).next_id,
                forall|k: int|
                    0 <= k < self.units@.len() ==> #[trigger] self.units@[k] == (if k < i {
                        enemies_stepped_down(old(self).units@)[k]
                    } else {
                        old(self).units@[k]
                    }),
            decreases self.units@.len() - i,
        {
            let u = self.units[i];
            if u.faction == Faction::Enemy {
                let y: u32 = if u.cell.y == 0 { 0 } else { u.cell.y - 1 };
                self.units.set(i, Unit { id: u.id, cell: Cell { x: u.cell.x, y }, faction: u.faction });
            }
            i = i + 1;
        }
        assert(self.units@ =~= enemies_stepped_down(old(self).units@));
    }

    /// Removes every unit of faction `faction` that stands on a tile of colour
    /// `color`; the others keep their order.
    pub fn despawn_on_color(&mut self, faction: Faction, grid: &TileGrid, color: Color)
        requires
            old(self).wf(),
            grid.wf(),
        ensures
            final(self).wf(),
            final(self).spec_next_id() == old(self).spec_next_id(),
            final(self)@ == without_on_color(old(self)@, faction, grid@, color),
    {
        let ghost pred = |u: Unit| !(u.faction == faction && on_color(grid@, u.cell, color));
        let mut kept: Vec<Unit> = Vec::new();
        let mut i: usize = 0;
        while i < self.units.len()
            invariant
                i <= self.units@.len(),
                grid.wf(),
                pred == (|u: Unit| !(u.faction == faction && on_color(grid@, u.cell, color))),
                kept@ == self.units@.subrange(0, i as int).filter(pred),
            decreases self.units@.len() - i,
        {
            let u = self.units[i];
            proof {
                reveal(Seq::filter);
                let post = self.units@.subrange(0, i + 1);
                assert(post.drop_last() =~= self.units@.subrange(0, i as int));
                assert(post.last() == u);
            }
            if !(u.faction == faction && tile_matches_color(grid, &u.cell, color)) {
                kept.push(u);
            }
            i = i + 1;
        }
        proof {
            assert(self.units@.subrange(0, self.units@.len() as int) =~= self.units@);
            lemma_filter_keeps_ids_increasing(self.units@, pred);
            assert forall|k: int| 0 <= k < kept@.len() implies (#[trigger] kept@[k]).id < self.next_id by {
                assert(self.units@.contains(kept@[k]));
            }
        }
        self.units = kept;
    }

    /// Removes the unit with identity `id`, if any; identities are never reused.
    pub fn despawn(&mut self, id: u64)
        requires
            old(self).wf(),
        ensures
            final(self).wf(),
            final(self).spec_next_id() == old(self).spec_next_id(),
            final(self)@ == old(self)@.filter(|u: Unit| u.id != id),
    {
        let ghost pred = |u: Unit| u.id != id;
        let mut kept: Vec<Unit> = Vec::new();
        let mut i: usize = 0;
        while i < self.units.len()
            invariant
                i <= self.units@.len(),
                pred == (|u: Unit| u.id != id),
                kept@ == self.units@.subrange(0, i as int).filter(pred),
            decreases self.units@.len() - i,
        {
            let u = self.units[i];
            proof {
                reveal(Seq::filter);
                let post = self.units@.subrange(0, i + 1);
                assert(post.drop_last() =~= self.units@.subrange(0, i as int));
                assert(post.last() == u);
            }
            if u.id != id {
                kept.push(u);
            }
            i = i + 1;
        }
        proof {
            assert(self.units@.subrange(0, self.units@.len() as int) =~= self.units@);
            lemma_filter_keeps_ids_increasing(self.units@, pred);
            assert forall|k: int| 0 <= k < kept@.len() implies (#[trigger] kept@[k]).id < self.next_id by {
                assert(self.units@.contains(kept@[k]));
            }
        }
        self.units = kept;
    }
}

/// Whether the tile at `pos` shows `target`; false for a cell off the grid.
pub fn tile_matches_color(grid: &TileGrid, pos: &Cell, target: Color) -> (r: bool)
    requires
        grid.wf(),
    ensures
        r == on_color(grid@, *pos, target),
{
    if pos.x < grid.size().x && pos.y < grid.size().y {
        proof {
            grid.lemma_domain();
        }
        grid.get_color(*pos) == target
    } else {
        proof {
            grid.lemma_domain();
        }
        false
    }
}

/// Adds an enemy at `(tile_pos_x, tile_pos_y)` and returns its identity;
/// `None`, with nothing added, once every identity has been used.
pub fn spawn_enemy(tile_pos_x: u32, tile_pos_y: u32, registry: &mut Registry) -> (r: Option<u64>)
    requires
        old(registry).wf(),
    ensures
        final(registry).wf(),
        old(registry).spec_next_id() < u64::MAX ==> {
            &&& r == Some(old(registry).spec_next_id())
            &&& final(registry)@ == old(registry)@.push(
                Unit {
                    id: old(registry).spec_next_id(),
                    cell: Cell { x: tile_pos_x, y: tile_pos_y },
                    faction: Faction::Enemy,
                },
            )
            &&& final(registry).spec_next_id() == old(registry).spec_next_id() + 1
        },
        old(registry).spec_next_id() == u64::MAX ==> r.is_none() && *final(registry) == *old(
            registry,
        ),
{
    registry.spawn(Faction::Enemy, Cell { x: tile_pos_x, y: tile_pos_y })
}

} // verus!
