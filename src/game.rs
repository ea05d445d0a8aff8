//! The turn state machine. One call of [`GameState::update_game_logic`] is one
//! simulation tick: it reads the keys pressed during the tick and the time
//! since the previous one, and advances the round
//! ColorPick → PlayerChange → EnemySpawn → MovePlayer → AttackPlayer →
//! MoveEnemy → AttackEnemy → ColorPick.
use vstd::prelude::*;

use crate::color::{masked_color, player_color, random_in_range, Color, RoundColorState};
use crate::combat::{
    color_enemy_neighbors, color_player_neighbors, despawn_enemies_on_matching_tile_color,
    despawn_player_on_matching_tile_color, lemma_painted_attacks_cover, painted_attacks,
};
use crate::constants::{
    ENEMY_ATTACK_COOLDOWN_MS, ENEMY_ATTACK_REACH, ENEMY_ATTACK_WINDUP_MS, MOVE_DELAY_MS,
    PLAYER_ATTACK_REACH, PLAYER_START_X, PLAYER_START_Y, SPAWN_ATTEMPTS, SPAWN_X_END, SPAWN_Y_END,
    SPAWN_Y_START, TILEMAP_SIDE_LENGHT,
};
use crate::delay::{
    entry_delay_observed, polled_stage, polled_timer, EnemyAttackDelay, EnemyAttackPhase,
    StateEntryDelay, Timer,
};
use crate::grid::{cell_in_grid, Cell, GridSize, TileGrid};
use crate::input::{arrow_pressed, attack_for_keys, chosen_pattern, KeyInput};
use crate::pattern::{gathered, AttackPattern};
use crate::registry::{
    enemies_stepped_down, enemy_at, has_faction, on_color, players_moved, positions, spawn_enemy,
    without_on_color, Faction, Registry, Unit,
};
use crate::turn::{successor, GlobalTurnState, TurnState};

verus! {

/// The whole simulation: the grid, the units, the round's colour mask, the
/// current phase and the timers of the phases that pause.
pub struct GameState {
    pub grid: TileGrid,
    pub units: Registry,
    pub color_state: RoundColorState,
    pub turn: GlobalTurnState,
    pub entry_delay: StateEntryDelay,
    pub attack_delay: EnemyAttackDelay,
}

/// The first candidate cell that no enemy occupies, if any.
pub open spec fn first_free(s: Seq<Unit>, cands: Seq<Cell>) -> Option<Cell>
    decreases cands.len(),
{
    if cands.len() == 0 {
        None
    } else if !enemy_at(s, cands[0]) {
        Some(cands[0])
    } else {
        first_free(s, cands.drop_first())
    }
}

/// Whether a cell lies in the band where enemies appear.
pub open spec fn in_spawn_band(c: Cell) -> bool {
    c.x < SPAWN_X_END && SPAWN_Y_START <= c.y < SPAWN_Y_END
}

/// Whether random draws are ones a tick in phase `t` can make: a mask index
/// in `0..3`, and spawn candidates all in the band, exactly the allowed number
/// of them for an enemy spawn.
pub open spec fn valid_draws(t: TurnState, color_draw: i32, cands: Seq<Cell>) -> bool {
    &&& 0 <= color_draw < 3
    &&& cands.len() <= SPAWN_ATTEMPTS
    &&& t == TurnState::EnemySpawn ==> cands.len() == SPAWN_ATTEMPTS
    &&& forall|k: int| 0 <= k < cands.len() ==> in_spawn_band(#[trigger] cands[k])
}

/// The enemy attack sub-machine when idle.
pub open spec fn attack_idle() -> EnemyAttackDelay {
    EnemyAttackDelay { phase: EnemyAttackPhase::Idle, timer: None }
}

/// The entry delay once the tick has noted the current phase.
pub open spec fn observed_entry(pre: GameState) -> StateEntryDelay {
    entry_delay_observed(pre.entry_delay, pre.turn.turn_state)
}

/// The enemy attack sub-machine once the tick has started: reset outside the
/// enemies' attack phase.
pub open spec fn observed_attack(pre: GameState) -> EnemyAttackDelay {
    if pre.turn.turn_state == TurnState::AttackEnemy {
        pre.attack_delay
    } else {
        attack_idle()
    }
}

/// Neither the grid nor the units changed.
pub open spec fn board_unchanged(pre: GameState, post: GameState) -> bool {
    &&& post.grid@ == pre.grid@
    &&& post.units@ == pre.units@
    &&& post.units.spec_next_id() == pre.units.spec_next_id()
}

/// The enemy spawn: an enemy appears on the first free candidate, if there is
/// one and an identity is left for it; otherwise the units stay as they were.
pub open spec fn spawn_step(pre: GameState, post: GameState, cands: Seq<Cell>) -> bool {
    &&& post.grid@ == pre.grid@
    &&& match first_free(pre.units@, cands) {
        Some(c) if pre.units.spec_next_id() < u64::MAX => {
            &&& post.units@ == pre.units@.push(
                Unit { id: pre.units.spec_next_id(), cell: c, faction: Faction::Enemy },
            )
            &&& post.units.spec_next_id() == pre.units.spec_next_id() + 1
        },
        _ => post.units@ == pre.units@ && post.units.spec_next_id() == pre.units.spec_next_id(),
    }
}

/// The player's move: after the entry pause, the player units follow the
/// arrows, and a pressed arrow with a player to move ends the phase.
pub open spec fn move_player_step(pre: GameState, post: GameState, keys: KeyInput, delta: int) -> bool {
    let entry = observed_entry(pre);
    let (timer, done) = polled_timer(entry.timer, delta, MOVE_DELAY_MS as int);
    &&& post.entry_delay == (StateEntryDelay { last_state: entry.last_state, timer })
    &&& post.grid@ == pre.grid@
    &&& post.units.spec_next_id() == pre.units.spec_next_id()
    &&& if done {
        &&& post.units@ == players_moved(pre.units@, keys, pre.grid.spec_size())
        &&& post.turn.turn_state == if arrow_pressed(keys) && has_faction(pre.units@, Faction::Player) {
            TurnState::AttackPlayer
        } else {
            TurnState::MovePlayer
        }
    } else {
        post.units@ == pre.units@ && post.turn.turn_state == TurnState::MovePlayer
    }
}

/// The player's attack: an attack key paints the pattern around each player
/// in the masked colour, then every enemy on a masked tile is removed and the
/// phase ends. Without an attack key nothing happens.
pub open spec fn attack_player_step(pre: GameState, post: GameState, keys: KeyInput) -> bool {
    let color = masked_color(pre.color_state.index as int);
    &&& post.entry_delay == observed_entry(pre)
    &&& match chosen_pattern(keys) {
        Some(p) => {
            let g = painted_attacks(
                pre.grid@,
                positions(pre.units@, Faction::Player),
                p,
                PLAYER_ATTACK_REACH as int,
                pre.grid.spec_size(),
                color,
            );
            &&& post.grid@ == g
            &&& post.units@ == without_on_color(pre.units@, Faction::Enemy, g, color)
            &&& post.units.spec_next_id() == pre.units.spec_next_id()
            &&& post.turn.turn_state == TurnState::MoveEnemy
        },
        None => board_unchanged(pre, post) && post.turn.turn_state == TurnState::AttackPlayer,
    }
}

/// The enemies' move: after the entry pause, every enemy steps one row down
/// and the phase ends.
pub open spec fn move_enemy_step(pre: GameState, post: GameState, delta: int) -> bool {
    let entry = observed_entry(pre);
    let (timer, done) = polled_timer(entry.timer, delta, MOVE_DELAY_MS as int);
    &&& post.entry_delay == (StateEntryDelay { last_state: entry.last_state, timer })
    &&& post.grid@ == pre.grid@
    &&& post.units.spec_next_id() == pre.units.spec_next_id()
    &&& if done {
        post.units@ == enemies_stepped_down(pre.units@) && post.turn.turn_state == TurnState::AttackEnemy
    } else {
        post.units@ == pre.units@ && post.turn.turn_state == TurnState::MoveEnemy
    }
}

/// The enemies' attack: idle moves to windup; after the windup pause the
/// `Sides` cells around each enemy take the player colour and a player on such
/// a tile is removed; after the cooldown pause the round starts over.
pub open spec fn attack_enemy_step(pre: GameState, post: GameState, delta: int) -> bool {
    let attack = observed_attack(pre);
    let color = player_color(pre.color_state.index as int);
    &&& post.entry_delay == observed_entry(pre)
    &&& match attack.phase {
        EnemyAttackPhase::Idle => {
            &&& board_unchanged(pre, post)
            &&& post.attack_delay == (EnemyAttackDelay { phase: EnemyAttackPhase::Windup, timer: None })
            &&& post.turn.turn_state == TurnState::AttackEnemy
        },
        EnemyAttackPhase::Windup => {
            let (timer, done) = polled_stage(attack.timer, delta, ENEMY_ATTACK_WINDUP_MS as int);
            &&& post.turn.turn_state == TurnState::AttackEnemy
            &&& if done {
                let g = painted_attacks(
                    pre.grid@,
                    positions(pre.units@, Faction::Enemy),
                    AttackPattern::Sides,
                    ENEMY_ATTACK_REACH as int,
                    pre.grid.spec_size(),
                    color,
                );
                &&& post.grid@ == g
                &&& post.units@ == without_on_color(pre.units@, Faction::Player, g, color)
                &&& post.units.spec_next_id() == pre.units.spec_next_id()
                &&& post.attack_delay == (EnemyAttackDelay {
                    phase: EnemyAttackPhase::Cooldown,
                    timer: None,
                })
            } else {
                &&& board_unchanged(pre, post)
                &&& post.attack_delay == (EnemyAttackDelay { phase: EnemyAttackPhase::Windup, timer })
            }
        },
        EnemyAttackPhase::Cooldown => {
            let (timer, done) = polled_stage(attack.timer, delta, ENEMY_ATTACK_COOLDOWN_MS as int);
            &&& board_unchanged(pre, post)
            &&& if done {
                post.attack_delay == attack_idle() && post.turn.turn_state == TurnState::ColorPick
            } else {
                &&& post.attack_delay == (EnemyAttackDelay {
                    phase: EnemyAttackPhase::Cooldown,
                    timer,
                })
                &&& post.turn.turn_state == TurnState::AttackEnemy
            }
        },
    }
}

/// One tick of the turn machine from `pre` to `post`, given the keys pressed,
/// the milliseconds since the last tick, the mask index drawn for a colour
/// pick and the candidate cells drawn for an enemy spawn.
pub open spec fn logic_step(
    pre: GameState,
    post: GameState,
    keys: KeyInput,
    delta: u64,
    color_draw: i32,
    cands: Seq<Cell>,
) -> bool {
    let t = pre.turn.turn_state;
    &&& post.grid.spec_size() == pre.grid.spec_size()
    &&& post.color_state.index == if t == TurnState::ColorPick {
        color_draw
    } else {
        pre.color_state.index
    }
    &&& t != TurnState::AttackEnemy ==> post.attack_delay == attack_idle()
    &&& match t {
        TurnState::ColorPick => {
            &&& board_unchanged(pre, post)
            &&& post.entry_delay == observed_entry(pre)
            &&& post.turn.turn_state == TurnState::PlayerChange
        },
        TurnState::PlayerChange => {
            &&& board_unchanged(pre, post)
            &&& post.entry_delay == observed_entry(pre)
            &&& post.turn.turn_state == TurnState::EnemySpawn
        },
        TurnState::EnemySpawn => {
            &&& spawn_step(pre, post, cands)
            &&& post.entry_delay == observed_entry(pre)
            &&& post.turn.turn_state == TurnState::MovePlayer
        },
        TurnState::MovePlayer => move_player_step(pre, post, keys, delta as int),
        TurnState::AttackPlayer => attack_player_step(pre, post, keys),
        TurnState::MoveEnemy => move_enemy_step(pre, post, delta as int),
        TurnState::AttackEnemy => attack_enemy_step(pre, post, delta as int),
    }
}

/// The first candidate cell that no enemy occupies, if any.
pub fn find_spawn_cell(registry: &Registry, candidates: &Vec<Cell>) -> (r: Option<Cell>)
    ensures
        r == first_free(registry@, candidates@),
{
    let mut i: usize = 0;
    assert(candidates@.subrange(0, candidates@.len() as int) =~= candidates@);
    while i < candidates.len()
        invariant
            i <= candidates@.len(),
            first_free(registry@, candidates@) == first_free(
                registry@,
                candidates@.subrange(i as int, candidates@.len() as int),
            ),
        decreases candidates@.len() - i,
    {
        let c = candidates[i];
        let ghost rest = candidates@.subrange(i as int, candidates@.len() as int);
        assert(rest[0] == c);
        if !registry.enemy_on(c) {
            return Some(c);
        }
        assert(rest.drop_first() =~= candidates@.subrange(i + 1, candidates@.len() as int));
        i = i + 1;
    }
    None
}

impl GameState {
    /// The grid and the registry are well formed, and the grid has at least
    /// one row and one column.
    pub open spec fn wf(&self) -> bool {
        &&& self.grid.wf()
        &&& self.units.wf()
        &&& self.grid.spec_size().x > 0
        &&& self.grid.spec_size().y > 0
    }

    /// A new session: a blank 16×16 grid, the player alone at its start cell,
    /// red masked, and the round about to pick a colour.
    pub fn new() -> (g: GameState)
        ensures
            g.wf(),
            g.grid.spec_size() == (GridSize { x: TILEMAP_SIDE_LENGHT, y: TILEMAP_SIDE_LENGHT }),
            forall|c: Cell| #[trigger] g.grid@.contains_key(c) <==> cell_in_grid(c, g.grid.spec_size()),
            forall|c: Cell| #[trigger] g.grid@.contains_key(c) ==> g.grid@[c] == Color::White,
            g.units@ == seq![
                Unit {
                    id: 0,
                    cell: Cell { x: PLAYER_START_X, y: PLAYER_START_Y },
                    faction: Faction::Player,
                },
            ],
            g.units.spec_next_id() == 1,
            g.color_state.index == 0,
            g.turn.turn_state == TurnState::ColorPick,
            g.attack_delay == attack_idle(),
            g.entry_delay.last_state.is_none(),
            g.entry_delay.timer.is_none(),
    {
        let size = GridSize { x: TILEMAP_SIDE_LENGHT, y: TILEMAP_SIDE_LENGHT };
        assert(size.x * size.y == 256) by (nonlinear_arith)
            requires
                size.x == 16,
                size.y == 16,
        ;
        let grid = TileGrid::new(size);
        let mut units = Registry::new();
        let _ = units.spawn(Faction::Player, Cell { x: PLAYER_START_X, y: PLAYER_START_Y });
        assert(units@ =~= seq![
            Unit {
                id: 0,
                cell: Cell { x: PLAYER_START_X, y: PLAYER_START_Y },
                faction: Faction::Player,
            },
        ]);
        GameState {
            grid,
            units,
            color_state: RoundColorState::default(),
            turn: GlobalTurnState::default(),
            entry_delay: StateEntryDelay::new(),
            attack_delay: EnemyAttackDelay::new(),
        }
    }

    /// One tick of the turn machine, with the random draws given: `color_draw`
    /// becomes the mask index in the colour-pick phase, and the enemy spawn
    /// takes the first of `spawn_candidates` that no enemy occupies.
    pub fn update_game_logic(
        &mut self,
        keys: &KeyInput,
        delta_ms: u64,
        color_draw: i32,
        spawn_candidates: &Vec<Cell>,
    )
        requires
            old(self).wf(),
        ensures
            final(self).wf(),
            logic_step(*old(self), *final(self), *keys, delta_ms, color_draw, spawn_candidates@),
    {
        let state = self.turn.turn_state;
        self.entry_delay.on_state_change(state);
        if state != TurnState::AttackEnemy {
            self.attack_delay.reset();
        }
        match state {
            TurnState::ColorPick => {
                self.color_state.index = color_draw;
                self.turn.modify_state(TurnState::PlayerChange);
            },
            TurnState::PlayerChange => {
                self.turn.modify_state(TurnState::EnemySpawn);
            },
            TurnState::EnemySpawn => {
                if let Some(c) = find_spawn_cell(&self.units, spawn_candidates) {
                    let _ = spawn_enemy(c.x, c.y, &mut self.units);
                }
                self.turn.modify_state(TurnState::MovePlayer);
            },
            TurnState::MovePlayer => {
                if self.entry_delay.wait(delta_ms, MOVE_DELAY_MS) {
                    let size = self.grid.size();
                    let any_player = self.units.move_players(keys, size);
                    if any_player && keys.any_arrow() {
                        self.turn.modify_state(TurnState::AttackPlayer);
                    }
                }
            },
            TurnState::AttackPlayer => {
                if let Some(pattern) = attack_for_keys(keys) {
                    color_player_neighbors(pattern, &self.units, &mut self.grid, &self.color_state);
                    despawn_enemies_on_matching_tile_color(&mut self.units, &self.grid, &self.color_state);
                    self.turn.modify_state(TurnState::MoveEnemy);
                }
            },
            TurnState::MoveEnemy => {
                if self.entry_delay.wait(delta_ms, MOVE_DELAY_MS) {
                    self.units.move_enemies_down();
                    self.turn.modify_state(TurnState::AttackEnemy);
                }
            },
            TurnState::AttackEnemy => {
                match self.attack_delay.phase {
                    EnemyAttackPhase::Idle => {
                        self.attack_delay.phase = EnemyAttackPhase::Windup;
                        self.attack_delay.timer = None;
                    },
                    EnemyAttackPhase::Windup => {
                        if self.attack_delay.wait(delta_ms, ENEMY_ATTACK_WINDUP_MS) {
                            color_enemy_neighbors(&self.units, &mut self.grid, &self.color_state);
                            despawn_player_on_matching_tile_color(&mut self.units, &self.grid, &self.color_state);
                            self.attack_delay.phase = EnemyAttackPhase::Cooldown;
                            self.attack_delay.timer = None;
                        }
                    },
                    EnemyAttackPhase::Cooldown => {
                        if self.attack_delay.wait(delta_ms, ENEMY_ATTACK_COOLDOWN_MS) {
                            self.attack_delay.reset();
                            self.turn.modify_state(TurnState::ColorPick);
                        }
                    },
                }
            },
        }
    }

    /// One tick of the turn machine with fresh random draws: a uniform mask
    /// index in a colour pick, and random cells of the spawn band in an enemy
    /// spawn. Whatever is drawn, the tick is one that `update_game_logic`
    /// would make with valid draws.
    pub fn tick(&mut self, keys: &KeyInput, delta_ms: u64)
        requires
            old(self).wf(),
        ensures
            final(self).wf(),
            exists|color_draw: i32, cands: Seq<Cell>|
                valid_draws(old(self).turn.turn_state, color_draw, cands) && #[trigger] logic_step(
                    *old(self),
                    *final(self),
                    *keys,
                    delta_ms,
                    color_draw,
                    cands,
                ),
    {
        let mut color_draw: i32 = 0;
        let mut candidates: Vec<Cell> = Vec::new();
        match self.turn.turn_state {
            TurnState::ColorPick => {
                let mut fresh = self.color_state;
                fresh.asign_random_color();
                color_draw = fresh.index;
            },
            TurnState::EnemySpawn => {
                candidates = draw_spawn_candidates();
            },
            _ => {},
        }
        let ghost pre = *self;
        self.update_game_logic(keys, delta_ms, color_draw, &candidates);
        assert(valid_draws(pre.turn.turn_state, color_draw, candidates@));
        assert(logic_step(pre, *self, *keys, delta_ms, color_draw, candidates@));
    }
}

/// Draws the candidate cells of one enemy spawn, uniformly in the band.
fn draw_spawn_candidates() -> (r: Vec<Cell>)
    ensures
        r@.len() == SPAWN_ATTEMPTS,
        forall|k: int| 0 <= k < r@.len() ==> in_spawn_band(#[trigger] r@[k]),
{
    let mut out: Vec<Cell> = Vec::new();
    let mut i: usize = 0;
    while i < SPAWN_ATTEMPTS
        invariant
            i <= SPAWN_ATTEMPTS,
            out@.len() == i,
            forall|k: int| 0 <= k < out@.len() ==> in_spawn_band(#[trigger] out@[k]),
        decreases SPAWN_ATTEMPTS - i,
    {
        let x = random_in_range(0, SPAWN_X_END);
        let y = random_in_range(SPAWN_Y_START, SPAWN_Y_END);
        out.push(Cell { x, y });
        i = i + 1;
    }
    out
}

/// Every tick either stays in the current phase or moves on to the phase
/// that follows it in the round; no phase is skipped or revisited.
pub proof fn lemma_phase_follows_round(
    pre: GameState,
    post: GameState,
    keys: KeyInput,
    delta: u64,
    color_draw: i32,
    cands: Seq<Cell>,
)
    requires
        logic_step(pre, post, keys, delta, color_draw, cands),
    ensures
        post.turn.turn_state == pre.turn.turn_state || post.turn.turn_state == successor(
            pre.turn.turn_state,
        ),
{
}

proof fn lemma_first_free_none(s: Seq<Unit>, cands: Seq<Cell>)
    requires
        forall|k: int| 0 <= k < cands.len() ==> enemy_at(s, #[trigger] cands[k]),
    ensures
        first_free(s, cands).is_none(),
    decreases cands.len(),
{
    if cands.len() > 0 {
        assert(enemy_at(s, cands[0]));
        assert forall|k: int| 0 <= k < cands.drop_first().len() implies enemy_at(
            s,
            #[trigger] cands.drop_first()[k],
        ) by {
            assert(cands.drop_first()[k] == cands[k + 1]);
        }
        lemma_first_free_none(s, cands.drop_first());
    }
}

/// An enemy spawn whose candidate cells are all taken by enemies adds no
/// unit, leaves the grid alone, and still moves on to the player's move.
pub proof fn lemma_full_spawn_band_spawns_nothing(
    pre: GameState,
    post: GameState,
    keys: KeyInput,
    delta: u64,
    color_draw: i32,
    cands: Seq<Cell>,
)
    requires
        pre.turn.turn_state == TurnState::EnemySpawn,
        logic_step(pre, post, keys, delta, color_draw, cands),
        forall|k: int| 0 <= k < cands.len() ==> enemy_at(pre.units@, #[trigger] cands[k]),
    ensures
        post.units@ == pre.units@,
        positions(post.units@, Faction::Enemy).len() == positions(pre.units@, Faction::Enemy).len(),
        post.grid@ == pre.grid@,
        post.turn.turn_state == TurnState::MovePlayer,
{
    lemma_first_free_none(pre.units@, cands);
}

/// After the player's attack, every on-grid cell that the chosen pattern
/// covers from a player unit shows the masked colour, and no enemy is left on
/// a tile of the masked colour.
pub proof fn lemma_player_attack_outcome(
    pre: GameState,
    post: GameState,
    keys: KeyInput,
    delta: u64,
    color_draw: i32,
    cands: Seq<Cell>,
    player: int,
    c: Cell,
)
    requires
        pre.turn.turn_state == TurnState::AttackPlayer,
        logic_step(pre, post, keys, delta, color_draw, cands),
        chosen_pattern(keys).is_some(),
        0 <= player < pre.units@.len(),
        pre.units@[player].faction == Faction::Player,
        pre.grid@.contains_key(c),
        gathered(
            chosen_pattern(keys).unwrap(),
            pre.units@[player].cell.x as int,
            pre.units@[player].cell.y as int,
            pre.grid.spec_size(),
            PLAYER_ATTACK_REACH as int,
        ).contains(c),
    ensures
        post.grid@[c] == masked_color(pre.color_state.index as int),
        post.turn.turn_state == TurnState::MoveEnemy,
        forall|i: int|
            0 <= i < post.units@.len() && #[trigger] post.units@[i].faction == Faction::Enemy
                ==> !on_color(post.grid@, post.units@[i].cell, masked_color(pre.color_state.index as int)),
{
    let color = masked_color(pre.color_state.index as int);
    let u = pre.units@[player];
    let pred = |v: Unit| v.faction == Faction::Player;
    let players = pre.units@.filter(pred);
    let origins = positions(pre.units@, Faction::Player);
    pre.units@.lemma_filter_contains(pred, player);
    let k = choose|k: int| 0 <= k < players.len() && players[k] == u;
    assert(origins[k] == (u.id, u.cell));
    lemma_painted_attacks_cover(
        pre.grid@,
        origins,
        chosen_pattern(keys).unwrap(),
        PLAYER_ATTACK_REACH as int,
        pre.grid.spec_size(),
        color,
        k,
        c,
    );
    let keep = |v: Unit| !(v.faction == Faction::Enemy && on_color(post.grid@, v.cell, color));
    assert forall|i: int|
        0 <= i < post.units@.len() && #[trigger] post.units@[i].faction == Faction::Enemy
            implies !on_color(post.grid@, post.units@[i].cell, color) by {
        pre.units@.lemma_filter_pred(keep, i);
    }
}

/// How far through the round a state is: the phase's place in the round,
/// with the enemies' attack split into its idle, windup and cooldown stages.
pub open spec fn stage(g: GameState) -> int {
    match g.turn.turn_state {
        TurnState::ColorPick => 0,
        TurnState::PlayerChange => 1,
        TurnState::EnemySpawn => 2,
        TurnState::MovePlayer => 3,
        TurnState::AttackPlayer => 4,
        TurnState::MoveEnemy => 5,
        TurnState::AttackEnemy => match g.attack_delay.phase {
            EnemyAttackPhase::Idle => 6,
            EnemyAttackPhase::Windup => 7,
            EnemyAttackPhase::Cooldown => 8,
        },
    }
}

/// Whether `post` follows from `pre` by one tick. Proofs about whole rounds
/// keep it folded and use the facts of `lemma_tick_facts`.
#[verifier::opaque]
pub open spec fn ticks_to(
    pre: GameState,
    post: GameState,
    keys: KeyInput,
    delta: u64,
    color_draw: i32,
    cands: Seq<Cell>,
) -> bool {
    logic_step(pre, post, keys, delta, color_draw, cands)
}

/// A tick advances the stage by at most one, only the last stage leads back
/// to a colour pick, an enemy spawn always hands over to the player's move,
/// and only a colour pick changes the mask index.
proof fn lemma_tick_facts(
    pre: GameState,
    post: GameState,
    keys: KeyInput,
    delta: u64,
    color_draw: i32,
    cands: Seq<Cell>,
)
    requires
        ticks_to(pre, post, keys, delta, color_draw, cands),
    ensures
        post.turn.turn_state != TurnState::ColorPick ==> stage(post) == stage(pre) || stage(post)
            == stage(pre) + 1,
        post.turn.turn_state == TurnState::ColorPick ==> stage(pre) == 8,
        pre.turn.turn_state == TurnState::EnemySpawn ==> post.turn.turn_state == TurnState::MovePlayer,
        post.color_state.index == if pre.turn.turn_state == TurnState::ColorPick {
            color_draw
        } else {
            pre.color_state.index
        },
{
    reveal(ticks_to);
}

/// In a sequence that starts at 0 and climbs by steps of 0 or 1, every value
/// below the last one is left upward exactly once.
proof fn lemma_unique_crossing(r: Seq<int>, k: int)
    requires
        r.len() >= 1,
        r[0] == 0,
        0 <= k < r[r.len() - 1],
        forall|i: int| 0 <= i < r.len() - 1 ==> r[i + 1] == r[i] || r[i + 1] == #[trigger] r[i] + 1,
    ensures
        exists|i: int| 0 <= i < r.len() - 1 && r[i] == k && #[trigger] r[i + 1] == k + 1,
        forall|i: int, j: int|
            0 <= i < r.len() - 1 && 0 <= j < r.len() - 1 && r[i] == k && #[trigger] r[i + 1] == k + 1
                && r[j] == k && #[trigger] r[j + 1] == k + 1 ==> i == j,
{
    lemma_crossing_exists(r, k, r.len() - 1);
    assert forall|i: int, j: int|
        0 <= i < r.len() - 1 && 0 <= j < r.len() - 1 && r[i] == k && #[trigger] r[i + 1] == k + 1
            && r[j] == k && #[trigger] r[j + 1] == k + 1 implies i == j by {
        if i < j {
            lemma_climbs(r, i + 1, j);
        } else if j < i {
            lemma_climbs(r, j + 1, i);
        }
    }
}

proof fn lemma_climbs(r: Seq<int>, a: int, b: int)
    requires
        0 <= a <= b < r.len(),
        forall|i: int| 0 <= i < r.len() - 1 ==> r[i + 1] == r[i] || r[i + 1] == #[trigger] r[i] + 1,
    ensures
        r[a] <= r[b],
    decreases b - a,
{
    if a < b {
        lemma_climbs(r, a, b - 1);
        assert(r[b] == r[b - 1] || r[b] == r[b - 1] + 1);
    }
}

proof fn lemma_crossing_exists(r: Seq<int>, k: int, m: int)
    requires
        0 <= m < r.len(),
        r[0] <= k < r[m],
        forall|i: int| 0 <= i < r.len() - 1 ==> r[i + 1] == r[i] || r[i + 1] == #[trigger] r[i] + 1,
    ensures
        exists|i: int| 0 <= i < m && r[i] == k && #[trigger] r[i + 1] == k + 1,
    decreases m,
{
    assert(r[m] == r[m - 1] || r[m] == r[m - 1] + 1);
    if r[m - 1] > k {
        lemma_crossing_exists(r, k, m - 1);
    } else {
        assert(r[m - 1] == k && r[m] == k + 1);
    }
}

/// The events that make up a round.
#[derive(Clone, Copy, Debug, PartialEq, Eq, Structural)]
pub enum RoundEvent {
    /// The colour mask is drawn anew.
    Reroll,
    /// An enemy spawn is tried.
    SpawnAttempt,
    /// A player move is accepted.
    PlayerMove,
    /// The player's attack is resolved.
    PlayerAttack,
    /// The enemies step down.
    EnemyShift,
    /// The enemies' attack is resolved.
    EnemyAttack,
}

/// Whether event `e` happens in the tick from `trace[i]` to `trace[i + 1]`.
pub open spec fn happens(trace: Seq<GameState>, i: int, e: RoundEvent) -> bool {
    let (a, b) = (trace[i], trace[i + 1]);
    match e {
        RoundEvent::Reroll => a.turn.turn_state == TurnState::ColorPick,
        RoundEvent::SpawnAttempt => a.turn.turn_state == TurnState::EnemySpawn,
        RoundEvent::PlayerMove => a.turn.turn_state == TurnState::MovePlayer && b.turn.turn_state
            == TurnState::AttackPlayer,
        RoundEvent::PlayerAttack => a.turn.turn_state == TurnState::AttackPlayer && b.turn.turn_state
            == TurnState::MoveEnemy,
        RoundEvent::EnemyShift => a.turn.turn_state == TurnState::MoveEnemy && b.turn.turn_state
            == TurnState::AttackEnemy,
        RoundEvent::EnemyAttack => a.turn.turn_state == TurnState::AttackEnemy && a.attack_delay.phase
            == EnemyAttackPhase::Windup && b.attack_delay.phase == EnemyAttackPhase::Cooldown,
    }
}

/// Whether event `e` happens in exactly one of the first `n` ticks of `trace`.
pub open spec fn happens_once(trace: Seq<GameState>, n: int, e: RoundEvent) -> bool {
    &&& exists|i: int| 0 <= i < n && #[trigger] happens(trace, i, e)
    &&& forall|i: int, j: int|
        0 <= i < n && 0 <= j < n && #[trigger] happens(trace, i, e) && #[trigger] happens(trace, j, e)
            ==> i == j
}

/// The stage that the tick of event `e` leaves.
spec fn event_stage(e: RoundEvent) -> int {
    match e {
        RoundEvent::Reroll => 0,
        RoundEvent::SpawnAttempt => 2,
        RoundEvent::PlayerMove => 3,
        RoundEvent::PlayerAttack => 4,
        RoundEvent::EnemyShift => 5,
        RoundEvent::EnemyAttack => 7,
    }
}

/// Whether `trace` is one full round: each state follows from the one before
/// by a tick, it starts and ends at a colour pick, and no state in between is
/// a colour pick.
pub open spec fn one_round(
    trace: Seq<GameState>,
    keys: Seq<KeyInput>,
    deltas: Seq<u64>,
    draws: Seq<i32>,
    cands: Seq<Seq<Cell>>,
) -> bool {
    let n = keys.len();
    &&& n > 0
    &&& trace.len() == n + 1
    &&& deltas.len() == n
    &&& draws.len() == n
    &&& cands.len() == n
    &&& forall|i: int|
        0 <= i < n ==> #[trigger] ticks_to(trace[i], trace[i + 1], keys[i], deltas[i], draws[i], cands[i])
    &&& trace[0].turn.turn_state == TurnState::ColorPick
    &&& trace[n as int].turn.turn_state == TurnState::ColorPick
    &&& forall|i: int| 0 < i < n ==> (#[trigger] trace[i]).turn.turn_state != TurnState::ColorPick
}

/// Over one full round of ticks, from a colour pick back to the next, each
/// event of the round happens in exactly one tick: the colour reroll, the
/// enemy spawn attempt, the accepted player move, the resolved player attack,
/// the enemies' shift down and the resolved enemy attack; and after the
/// reroll the round keeps the mask index it drew.
pub proof fn lemma_one_round_events(
    trace: Seq<GameState>,
    keys: Seq<KeyInput>,
    deltas: Seq<u64>,
    draws: Seq<i32>,
    cands: Seq<Seq<Cell>>,
)
    requires
        one_round(trace, keys, deltas, draws, cands),
    ensures
        forall|e: RoundEvent| #[trigger] happens_once(trace, keys.len() as int, e),
        forall|i: int| 1 <= i <= keys.len() ==> (#[trigger] trace[i]).color_state.index == draws[0],
{
    lemma_round_stages(trace, keys, deltas, draws, cands);
    assert forall|e: RoundEvent| #[trigger] happens_once(trace, keys.len() as int, e) by {
        lemma_event_once(trace, keys, deltas, draws, cands, e);
    }
    lemma_round_keeps_draw(trace, keys, deltas, draws, cands, keys.len() as int);
}

/// Along one round the stage climbs by at most one per tick, the tick before
/// the closing colour pick starts at the last stage, and an enemy spawn
/// always hands over to the player's move.
proof fn lemma_round_stages(
    trace: Seq<GameState>,
    keys: Seq<KeyInput>,
    deltas: Seq<u64>,
    draws: Seq<i32>,
    cands: Seq<Seq<Cell>>,
)
    requires
        one_round(trace, keys, deltas, draws, cands),
    ensures
        stage(trace[keys.len() - 1]) == 8,
        forall|i: int|
            0 <= i < keys.len() - 1 ==> stage(#[trigger] trace[i + 1]) == stage(trace[i]) || stage(
                trace[i + 1],
            ) == stage(trace[i]) + 1,
        forall|i: int|
            0 <= i < keys.len() && trace[i].turn.turn_state == TurnState::EnemySpawn ==> (#[trigger] trace[i
                + 1]).turn.turn_state == TurnState::MovePlayer,
{
    let n = keys.len() as int;
    assert forall|i: int| 0 <= i < n implies {
        &&& (#[trigger] trace[i + 1]).turn.turn_state != TurnState::ColorPick ==> stage(trace[i + 1])
            == stage(trace[i]) || stage(trace[i + 1]) == stage(trace[i]) + 1
        &&& trace[i + 1].turn.turn_state == TurnState::ColorPick ==> stage(trace[i]) == 8
        &&& trace[i].turn.turn_state == TurnState::EnemySpawn ==> trace[i + 1].turn.turn_state
            == TurnState::MovePlayer
    } by {
        assert(ticks_to(trace[i], trace[i + 1], keys[i], deltas[i], draws[i], cands[i]));
        lemma_tick_facts(trace[i], trace[i + 1], keys[i], deltas[i], draws[i], cands[i]);
    }
    let last = n - 1;
    assert(trace[last + 1].turn.turn_state == TurnState::ColorPick);
    assert forall|i: int| 0 <= i < n - 1 implies stage(#[trigger] trace[i + 1]) == stage(trace[i]) || stage(
        trace[i + 1],
    ) == stage(trace[i]) + 1 by {
        assert(trace[i + 1].turn.turn_state != TurnState::ColorPick);
    }
    assert forall|i: int|
        0 <= i < n && trace[i].turn.turn_state == TurnState::EnemySpawn implies (#[trigger] trace[i
        + 1]).turn.turn_state == TurnState::MovePlayer by {
        assert(trace[i + 1].turn.turn_state != TurnState::ColorPick ==> true);
    }
}

/// Each event of a round is the one tick that leaves its stage.
proof fn lemma_event_once(
    trace: Seq<GameState>,
    keys: Seq<KeyInput>,
    deltas: Seq<u64>,
    draws: Seq<i32>,
    cands: Seq<Seq<Cell>>,
    e: RoundEvent,
)
    requires
        one_round(trace, keys, deltas, draws, cands),
        stage(trace[keys.len() - 1]) == 8,
        forall|i: int|
            0 <= i < keys.len() - 1 ==> stage(#[trigger] trace[i + 1]) == stage(trace[i]) || stage(
                trace[i + 1],
            ) == stage(trace[i]) + 1,
        forall|i: int|
            0 <= i < keys.len() && trace[i].turn.turn_state == TurnState::EnemySpawn ==> (#[trigger] trace[i
                + 1]).turn.turn_state == TurnState::MovePlayer,
    ensures
        happens_once(trace, keys.len() as int, e),
{
    let n = keys.len() as int;
    let k = event_stage(e);
    let r = Seq::new(n as nat, |i: int| stage(trace[i]));
    assert forall|i: int| 0 <= i < r.len() - 1 implies r[i + 1] == r[i] || r[i + 1] == #[trigger] r[i] + 1 by {
        assert(r[i] == stage(trace[i]) && r[i + 1] == stage(trace[i + 1]));
    }
    assert(r[0] == stage(trace[0]));
    assert(r[n - 1] == 8);
    assert(stage(trace[n]) == 0);
    // Within the round the event's ticks are exactly those leaving stage `k`.
    assert forall|i: int| 0 <= i < n && #[trigger] happens(trace, i, e) implies i < n - 1 && r[i] == k
        && r[i + 1] == k + 1 by {
        assert(r[i] == stage(trace[i]));
        if i < n - 1 {
            assert(r[i + 1] == stage(trace[i + 1]));
            assert(trace[i + 1].turn.turn_state != TurnState::ColorPick);
        }
    }
    lemma_unique_crossing(r, k);
    let w = choose|i: int| 0 <= i < r.len() - 1 && r[i] == k && #[trigger] r[i + 1] == k + 1;
    assert(r[w] == stage(trace[w]) && r[w + 1] == stage(trace[w + 1]));
    assert(happens(trace, w, e));
    assert forall|i: int, j: int|
        0 <= i < n && 0 <= j < n && #[trigger] happens(trace, i, e) && #[trigger] happens(trace, j, e)
            implies i == j by {
        assert(r[i] == k && r[i + 1] == k + 1 && r[j] == k && r[j + 1] == k + 1);
    }
}

/// After the reroll that opens a round, the mask index stays the drawn one.
proof fn lemma_round_keeps_draw(
    trace: Seq<GameState>,
    keys: Seq<KeyInput>,
    deltas: Seq<u64>,
    draws: Seq<i32>,
    cands: Seq<Seq<Cell>>,
    m: int,
)
    requires
        one_round(trace, keys, deltas, draws, cands),
        1 <= m <= keys.len(),
    ensures
        forall|i: int| 1 <= i <= m ==> (#[trigger] trace[i]).color_state.index == draws[0],
    decreases m,
{
    let j = m - 1;
    assert(ticks_to(trace[j], trace[j + 1], keys[j], deltas[j], draws[j], cands[j]));
    lemma_tick_facts(trace[j], trace[j + 1], keys[j], deltas[j], draws[j], cands[j]);
    if m > 1 {
        lemma_round_keeps_draw(trace, keys, deltas, draws, cands, m - 1);
        assert(trace[m - 1].turn.turn_state != TurnState::ColorPick);
    }
}

/// Where a state stands in a round driven by the input script: the number of
/// ticks since the colour pick, or -1 for a state the script never reaches.
pub open spec fn scripted_position(g: GameState) -> int {
    let entry = g.entry_delay;
    let attack = g.attack_delay;
    let move_pause = Some(Timer { duration_ms: MOVE_DELAY_MS, elapsed_ms: 0 });
    match g.turn.turn_state {
        TurnState::ColorPick => 0,
        TurnState::PlayerChange => 1,
        TurnState::EnemySpawn => 2,
        TurnState::MovePlayer => if entry.last_state == Some(TurnState::EnemySpawn) {
            3
        } else if entry.last_state == Some(TurnState::MovePlayer) && entry.timer == move_pause {
            4
        } else {
            -1
        },
        TurnState::AttackPlayer => 5,
        TurnState::MoveEnemy => if entry.last_state == Some(TurnState::AttackPlayer) {
            6
        } else if entry.last_state == Some(TurnState::MoveEnemy) && entry.timer == move_pause {
            7
        } else {
            -1
        },
        TurnState::AttackEnemy => if attack == attack_idle() {
            8
        } else if attack == (EnemyAttackDelay { phase: EnemyAttackPhase::Windup, timer: None }) {
            9
        } else if attack == (EnemyAttackDelay {
            phase: EnemyAttackPhase::Windup,
            timer: Some(Timer { duration_ms: ENEMY_ATTACK_WINDUP_MS, elapsed_ms: 0 }),
        }) {
            10
        } else if attack == (EnemyAttackDelay { phase: EnemyAttackPhase::Cooldown, timer: None }) {
            11
        } else if attack == (EnemyAttackDelay {
            phase: EnemyAttackPhase::Cooldown,
            timer: Some(Timer { duration_ms: ENEMY_ATTACK_COOLDOWN_MS, elapsed_ms: 0 }),
        }) {
            12
        } else {
            -1
        },
    }
}

/// Whether a tick follows the input script: it lasts at least as long as the
/// longest pause, an arrow is pressed in the player's move, and an attack key
/// in the player's attack.
pub open spec fn follows_script(pre: GameState, keys: KeyInput, delta: u64) -> bool {
    &&& delta >= MOVE_DELAY_MS
    &&& delta >= ENEMY_ATTACK_WINDUP_MS
    &&& delta >= ENEMY_ATTACK_COOLDOWN_MS
    &&& pre.turn.turn_state == TurnState::MovePlayer ==> arrow_pressed(keys)
    &&& pre.turn.turn_state == TurnState::AttackPlayer ==> chosen_pattern(keys).is_some()
}

/// The number of ticks a scripted round takes.
pub open spec fn scripted_round_ticks() -> int {
    13
}

proof fn lemma_players_stay(s: Seq<Unit>, u: Unit)
    requires
        has_faction(s, Faction::Player),
    ensures
        has_faction(s.push(u), Faction::Player),
{
    let i = choose|i: int| 0 <= i < s.len() && #[trigger] s[i].faction == Faction::Player;
    assert(s.push(u)[i] == s[i]);
}

/// A scripted tick moves the round on by one tick of the script; up to the
/// player's move the player is still there.
proof fn lemma_scripted_tick(
    pre: GameState,
    post: GameState,
    keys: KeyInput,
    delta: u64,
    color_draw: i32,
    cands: Seq<Cell>,
)
    requires
        ticks_to(pre, post, keys, delta, color_draw, cands),
        follows_script(pre, keys, delta),
        0 <= scripted_position(pre) < scripted_round_ticks(),
        scripted_position(pre) <= 4 ==> has_faction(pre.units@, Faction::Player),
    ensures
        scripted_position(pre) < scripted_round_ticks() - 1 ==> scripted_position(post)
            == scripted_position(pre) + 1,
        scripted_position(pre) == scripted_round_ticks() - 1 ==> post.turn.turn_state
            == TurnState::ColorPick,
        scripted_position(pre) < 4 ==> has_faction(post.units@, Faction::Player),
{
    reveal(ticks_to);
    if pre.turn.turn_state == TurnState::EnemySpawn {
        match first_free(pre.units@, cands) {
            Some(c) => {
                if pre.units.spec_next_id() < u64::MAX {
                    lemma_players_stay(
                        pre.units@,
                        Unit { id: pre.units.spec_next_id(), cell: c, faction: Faction::Enemy },
                    );
                }
            },
            None => {},
        }
    }
}

/// A round driven by the input script, from a colour pick with the player on
/// the board, comes back to a colour pick after exactly 13 ticks and no
/// sooner, so it is one full round and each of its events happens once.
pub proof fn lemma_scripted_round_closes(
    trace: Seq<GameState>,
    keys: Seq<KeyInput>,
    deltas: Seq<u64>,
    draws: Seq<i32>,
    cands: Seq<Seq<Cell>>,
)
    requires
        keys.len() == scripted_round_ticks(),
        trace.len() == keys.len() + 1,
        deltas.len() == keys.len(),
        draws.len() == keys.len(),
        cands.len() == keys.len(),
        forall|i: int|
            0 <= i < keys.len() ==> #[trigger] ticks_to(trace[i], trace[i + 1], keys[i], deltas[i], draws[i], cands[i]),
        forall|i: int| 0 <= i < keys.len() ==> follows_script(#[trigger] trace[i], keys[i], deltas[i]),
        trace[0].turn.turn_state == TurnState::ColorPick,
        has_faction(trace[0].units@, Faction::Player),
    ensures
        one_round(trace, keys, deltas, draws, cands),
        forall|e: RoundEvent| #[trigger] happens_once(trace, keys.len() as int, e),
{
    let n = keys.len() as int;
    lemma_scripted_prefix(trace, keys, deltas, draws, cands, n - 1);
    let j = n - 1;
    assert(ticks_to(trace[j], trace[j + 1], keys[j], deltas[j], draws[j], cands[j]));
    lemma_scripted_tick(trace[j], trace[j + 1], keys[j], deltas[j], draws[j], cands[j]);
    assert forall|i: int| 0 < i < n implies (#[trigger] trace[i]).turn.turn_state != TurnState::ColorPick by {
        assert(scripted_position(trace[i]) == i);
    }
    lemma_one_round_events(trace, keys, deltas, draws, cands);
}

proof fn lemma_scripted_prefix(
    trace: Seq<GameState>,
    keys: Seq<KeyInput>,
    deltas: Seq<u64>,
    draws: Seq<i32>,
    cands: Seq<Seq<Cell>>,
    m: int,
)
    requires
        0 <= m < scripted_round_ticks(),
        keys.len() == scripted_round_ticks(),
        trace.len() == keys.len() + 1,
        deltas.len() == keys.len(),
        draws.len() == keys.len(),
        cands.len() == keys.len(),
        forall|i: int|
            0 <= i < keys.len() ==> #[trigger] ticks_to(trace[i], trace[i + 1], keys[i], deltas[i], draws[i], cands[i]),
        forall|i: int| 0 <= i < keys.len() ==> follows_script(#[trigger] trace[i], keys[i], deltas[i]),
        trace[0].turn.turn_state == TurnState::ColorPick,
        has_faction(trace[0].units@, Faction::Player),
    ensures
        forall|i: int| 0 <= i <= m ==> scripted_position(#[trigger] trace[i]) == i,
        m <= 4 ==> has_faction(trace[m].units@, Faction::Player),
    decreases m,
{
    if m > 0 {
        lemma_scripted_prefix(trace, keys, deltas, draws, cands, m - 1);
        let j = m - 1;
        assert(scripted_position(trace[j]) == j);
        assert(ticks_to(trace[j], trace[j + 1], keys[j], deltas[j], draws[j], cands[j]));
        assert(follows_script(trace[j], keys[j], deltas[j]));
        lemma_scripted_tick(trace[j], trace[j + 1], keys[j], deltas[j], draws[j], cands[j]);
    }
}

} // verus!
