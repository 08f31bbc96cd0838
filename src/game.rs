use vstd::prelude::*;
use crate::generator::{generate, generation, outcome_view, GenerationError, Variant};
use crate::grid::{cell_code, Dungeon, DungeonView};
use crate::movement::{
    monster_turn_end, player_turn, step, step_target, Action, MonsterAISystem, PlayerSystem,
    Position, RunState,
};

verus! {

/// Columns of the cave level.
pub const CAVE_WIDTH: usize = 80;

/// Rows of the cave level.
pub const CAVE_HEIGHT: usize = 50;

pub open spec fn game_outcome(r: Result<Game, GenerationError>) -> Result<DungeonView, GenerationError> {
    match r {
        Ok(g) => Ok(g.dungeon@),
        Err(e) => Err(e),
    }
}

/// A rooms-and-corridors level with the player on it, moved without turns or interval.
pub struct Game {
    pub dungeon: Dungeon,
    pub player_pos: Position,
}

impl Game {
    pub open spec fn wf(&self) -> bool {
        &&& self.dungeon.wf()
        &&& self.dungeon.width <= u32::MAX
        &&& self.dungeon.height <= u32::MAX
        &&& self.dungeon.floor(self.player_pos.x as int, self.player_pos.y as int)
    }

    /// Generates the level from `seed` and puts the player on its starting point.
    pub fn new(width: u32, height: u32, seed: u32) -> (r: Result<Game, GenerationError>)
        ensures
            game_outcome(r) == generation(
                width as usize,
                height as usize,
                seed as u64,
                Variant::RoomsAndCorridors,
            ),
            r is Ok ==> r->Ok_0.wf() && r->Ok_0.player_pos.x == r->Ok_0.dungeon.start.x
                && r->Ok_0.player_pos.y == r->Ok_0.dungeon.start.y,
    {
        match generate(width as usize, height as usize, seed as u64, Variant::RoomsAndCorridors) {
            Ok(dungeon) => {
                let player_pos = Position::from_point(&dungeon.start);
                Ok(Game { dungeon, player_pos })
            },
            Err(e) => Err(e),
        }
    }

    pub fn width(&self) -> (r: u32)
        requires
            self.wf(),
        ensures
            r == self.dungeon.width,
    {
        self.dungeon.width as u32
    }

    pub fn height(&self) -> (r: u32)
        requires
            self.wf(),
        ensures
            r == self.dungeon.height,
    {
        self.dungeon.height as u32
    }

    /// The grid as one-byte tile codes, row-major: 0 floor, 1 wall.
    pub fn tiles(&self) -> (r: Vec<u8>)
        ensures
            r@.len() == self.dungeon.cells@.len(),
            forall|i: int| 0 <= i < r@.len() ==> #[trigger] r@[i] == cell_code(self.dungeon.cells@[i]),
    {
        self.dungeon.tile_codes()
    }

    pub fn player_pos(&self) -> (r: Position)
        ensures
            r == self.player_pos,
    {
        self.player_pos
    }

    pub fn exit_pos(&self) -> (r: Position)
        ensures
            r.x == self.dungeon.exit.x && r.y == self.dungeon.exit.y,
    {
        Position::from_point(&self.dungeon.exit)
    }

    /// Advances the world between actions; nothing acts on its own yet.
    pub fn tick(&self) {
    }

    /// Moves the player one cell where that cell is floor; returns whether it moved.
    pub fn execute_action(&mut self, action: Action) -> (moved: bool)
        requires
            old(self).wf(),
        ensures
            final(self).wf(),
            final(self).dungeon == old(self).dungeon,
            moved == step_target(&old(self).dungeon, old(self).player_pos, action) is Some,
            moved ==> Some(final(self).player_pos) == step_target(
                &old(self).dungeon,
                old(self).player_pos,
                action,
            ),
            !moved ==> final(self).player_pos == old(self).player_pos,
    {
        match step(&self.dungeon, self.player_pos, action) {
            Some(p) => {
                self.player_pos = p;
                true
            },
            None => false,
        }
    }
}

/// The cave level of the turn-based game, generated from `seed`.
pub fn generate_map(seed: u64) -> (r: Result<Dungeon, GenerationError>)
    ensures
        outcome_view(r) == generation(CAVE_WIDTH, CAVE_HEIGHT, seed, Variant::CellularAutomata),
        r is Ok ==> r->Ok_0.wf(),
{
    generate(CAVE_WIDTH, CAVE_HEIGHT, seed, Variant::CellularAutomata)
}

/// A turn-based session: the level, the player's cell, whose turn it is, and the systems
/// that move the player and the monsters.
pub struct PlayState {
    pub dungeon: Dungeon,
    pub player: Position,
    pub state: RunState,
    pub player_system: PlayerSystem,
    pub monster_ai: MonsterAISystem,
}

impl PlayState {
    /// The player always stands on a floor cell of a well-formed level.
    pub open spec fn wf(&self) -> bool {
        &&& self.dungeon.wf()
        &&& self.dungeon.floor(self.player.x as int, self.player.y as int)
    }

    /// Starts a session at time `now_ms` on the cave level of `seed`: the player on the
    /// starting point, and the player's turn.
    pub fn on_start(seed: u64, now_ms: u64) -> (r: Result<PlayState, GenerationError>)
        ensures
            match r {
                Ok(s) => {
                    &&& s.wf()
                    &&& Ok::<DungeonView, GenerationError>(s.dungeon@) == generation(
                        CAVE_WIDTH,
                        CAVE_HEIGHT,
                        seed,
                        Variant::CellularAutomata,
                    )
                    &&& s.player.x == s.dungeon.start.x && s.player.y == s.dungeon.start.y
                    &&& s.state == RunState::PlayerTurn
                    &&& s.player_system.last_time == now_ms
                },
                Err(e) => generation(CAVE_WIDTH, CAVE_HEIGHT, seed, Variant::CellularAutomata)
                    == Err::<DungeonView, GenerationError>(e),
            },
    {
        match generate_map(seed) {
            Ok(dungeon) => {
                let player = Position::from_point(&dungeon.start);
                Ok(PlayState {
                    dungeon,
                    player,
                    state: RunState::PlayerTurn,
                    player_system: PlayerSystem::new(now_ms),
                    monster_ai: MonsterAISystem::new(),
                })
            },
            Err(e) => Err(e),
        }
    }

    /// Hands the player's move at time `now_ms` to the player system; returns whether it
    /// was accepted.
    pub fn player_input(&mut self, action: Action, now_ms: u64) -> (accepted: bool)
        requires
            old(self).wf(),
        ensures
            final(self).wf(),
            final(self).dungeon == old(self).dungeon,
            player_turn(
                &old(self).dungeon,
                action,
                now_ms,
                old(self).player_system.last_time,
                old(self).state,
                old(self).player,
                final(self).player_system.last_time,
                final(self).state,
                final(self).player,
                accepted,
            ),
    {
        self.player_system.run(&self.dungeon, &mut self.state, &mut self.player, action, now_ms)
    }

    /// Lets the monsters take their turn, which hands it back to the player.
    pub fn monster_phase(&mut self)
        requires
            old(self).wf(),
        ensures
            final(self).wf(),
            final(self).dungeon == old(self).dungeon,
            final(self).player == old(self).player,
            final(self).player_system == old(self).player_system,
            final(self).state == monster_turn_end(old(self).state),
    {
        self.monster_ai.run(&mut self.state);
    }
}

} // verus!
