use vstd::prelude::*;
use crate::grid::{Dungeon, Point};

verus! {

/// The least time, in milliseconds, between two accepted player moves.
pub const MOVE_INTERVAL_MS: u64 = 200;

/// A request to move the player one cell.
#[derive(Clone, Copy, Debug, PartialEq, Eq, Structural)]
pub enum Action {
    MoveUp,
    MoveDown,
    MoveLeft,
    MoveRight,
}

/// A direction code outside 0 (up), 1 (down), 2 (left) and 3 (right).
#[derive(Clone, Copy, Debug, PartialEq, Eq, Structural)]
pub struct InvalidDirectionError {
    pub code: u8,
}

pub open spec fn action_of_code(code: u8) -> Option<Action> {
    if code == 0 {
        Some(Action::MoveUp)
    } else if code == 1 {
        Some(Action::MoveDown)
    } else if code == 2 {
        Some(Action::MoveLeft)
    } else if code == 3 {
        Some(Action::MoveRight)
    } else {
        None
    }
}

impl Action {
    /// The unit step of the action, as column and row change; rows grow downwards.
    pub open spec fn delta(self) -> (int, int) {
        match self {
            Action::MoveUp => (0, -1),
            Action::MoveDown => (0, 1),
            Action::MoveLeft => (-1, 0),
            Action::MoveRight => (1, 0),
        }
    }

    /// The action for a direction code: 0 up, 1 down, 2 left, 3 right.
    pub fn from_code(code: u8) -> (r: Result<Action, InvalidDirectionError>)
        ensures
            match action_of_code(code) {
                Some(a) => r == Ok::<Action, InvalidDirectionError>(a),
                None => r == Err::<Action, InvalidDirectionError>(InvalidDirectionError { code }),
            },
    {
        match code {
            0 => Ok(Action::MoveUp),
            1 => Ok(Action::MoveDown),
            2 => Ok(Action::MoveLeft),
            3 => Ok(Action::MoveRight),
            _ => Err(InvalidDirectionError { code }),
        }
    }
}

/// The player's cell: column `x`, row `y`.
#[derive(Clone, Copy, Debug, PartialEq, Eq, Structural)]
pub struct Position {
    pub x: usize,
    pub y: usize,
}

impl Position {
    pub fn new(x: usize, y: usize) -> (r: Position)
        ensures
            r == (Position { x, y }),
    {
        Position { x, y }
    }

    pub fn col(&self) -> (r: usize)
        ensures
            r == self.x,
    {
        self.x
    }

    pub fn row(&self) -> (r: usize)
        ensures
            r == self.y,
    {
        self.y
    }

    pub fn from_point(p: &Point) -> (r: Position)
        ensures
            r == (Position { x: p.x, y: p.y }),
    {
        Position::new(p.x, p.y)
    }
}

/// The cell one step from `pos` in the direction of `action`, which may lie off the grid.
pub open spec fn destination(pos: Position, action: Action) -> (int, int) {
    (pos.x + action.delta().0, pos.y + action.delta().1)
}

/// The position after `action`: the destination where it is a floor cell of `map`,
/// else none.
pub open spec fn step_target(map: &Dungeon, pos: Position, action: Action) -> Option<Position> {
    let d = destination(pos, action);
    if map.floor(d.0, d.1) {
        Some(Position { x: d.0 as usize, y: d.1 as usize })
    } else {
        None
    }
}

/// Where `action` takes the player from `pos`: the neighbouring cell if it lies in the
/// grid and is floor, else none. Coordinates are tested before they are stepped, so no
/// edge wraps round.
pub fn step(map: &Dungeon, pos: Position, action: Action) -> (r: Option<Position>)
    requires
        map.wf(),
    ensures
        r == step_target(map, pos, action),
{
    let (nx, ny) = match action {
        Action::MoveUp => {
            if pos.y == 0 {
                return None;
            }
            (pos.x, pos.y - 1)
        },
        Action::MoveDown => {
            if pos.y >= map.height {
                return None;
            }
            (pos.x, pos.y + 1)
        },
        Action::MoveLeft => {
            if pos.x == 0 {
                return None;
            }
            (pos.x - 1, pos.y)
        },
        Action::MoveRight => {
            if pos.x >= map.width {
                return None;
            }
            (pos.x + 1, pos.y)
        },
    };
    if map.is_floor(nx, ny) {
        Some(Position::new(nx, ny))
    } else {
        None
    }
}

/// Whose turn it is.
#[derive(Clone, Copy, Debug, PartialEq, Eq, Structural)]
pub enum RunState {
    PlayerTurn,
    MonsterTurn,
}

/// Time from `last` to `now` on a monotonic clock; none where `now` is earlier.
pub open spec fn elapsed(last: u64, now: u64) -> int {
    if now >= last {
        now - last
    } else {
        0
    }
}

/// Marks an entity as the one that the player moves.
pub struct Player {}

/// Moves the player on its turn, at most once per interval, never into a wall or off
/// the grid; `last_time` is when it last accepted a move, in milliseconds of a monotonic
/// clock.
pub struct PlayerSystem {
    pub last_time: u64,
}

/// A move is accepted when it is the player's turn, the interval since the last accepted
/// move has passed, and the destination is a floor cell.
pub open spec fn accepts(
    last_time: u64,
    map: &Dungeon,
    state: RunState,
    pos: Position,
    action: Action,
    now: u64,
) -> bool {
    &&& state == RunState::PlayerTurn
    &&& elapsed(last_time, now) >= MOVE_INTERVAL_MS
    &&& step_target(map, pos, action) is Some
}

/// One run of the player system, from (`last`, `state`, `pos`) to (`last2`, `state2`,
/// `pos2`), reporting `accepted`.
pub open spec fn player_turn(
    map: &Dungeon,
    action: Action,
    now: u64,
    last: u64,
    state: RunState,
    pos: Position,
    last2: u64,
    state2: RunState,
    pos2: Position,
    accepted: bool,
) -> bool {
    &&& accepted == accepts(last, map, state, pos, action, now)
    &&& accepted ==> {
        &&& Some(pos2) == step_target(map, pos, action)
        &&& state2 == RunState::MonsterTurn
        &&& last2 == now
    }
    &&& !accepted ==> pos2 == pos && state2 == state && last2 == last
}

impl PlayerSystem {
    /// A system whose interval starts at `now_ms`.
    pub fn new(now_ms: u64) -> (r: PlayerSystem)
        ensures
            r.last_time == now_ms,
    {
        PlayerSystem { last_time: now_ms }
    }

    /// Applies `action` at time `now_ms` where it is accepted; returns whether it was.
    pub fn run(
        &mut self,
        map: &Dungeon,
        state: &mut RunState,
        pos: &mut Position,
        action: Action,
        now_ms: u64,
    ) -> (accepted: bool)
        requires
            map.wf(),
        ensures
            player_turn(
                map,
                action,
                now_ms,
                old(self).last_time,
                *old(state),
                *old(pos),
                final(self).last_time,
                *final(state),
                *final(pos),
                accepted,
            ),
    {
        if *state != RunState::PlayerTurn {
            return false;
        }
        if now_ms < self.last_time || now_ms - self.last_time < MOVE_INTERVAL_MS {
            return false;
        }
        match step(map, *pos, action) {
            Some(p) => {
                *pos = p;
                *state = RunState::MonsterTurn;
                self.last_time = now_ms;
                true
            },
            None => false,
        }
    }
}

/// Hands the turn back to the player once the monsters have acted (they do nothing yet).
pub struct MonsterAISystem {}

impl MonsterAISystem {
    pub fn new() -> (r: MonsterAISystem) {
        MonsterAISystem {}
    }

    /// Ends the monsters' turn: afterwards it is always the player's.
    pub fn run(&self, state: &mut RunState)
        ensures
            *final(state) == monster_turn_end(*old(state)),
            *final(state) == RunState::PlayerTurn,
    {
        if *state == RunState::MonsterTurn {
            *state = RunState::PlayerTurn;
        }
    }
}

/// A move into a wall or off the grid changes neither the position nor the turn.
pub proof fn blocked_move_changes_nothing(
    map: &Dungeon,
    action: Action,
    now: u64,
    last: u64,
    state: RunState,
    pos: Position,
    last2: u64,
    state2: RunState,
    pos2: Position,
    accepted: bool,
)
    requires
        map.wf(),
        player_turn(map, action, now, last, state, pos, last2, state2, pos2, accepted),
        !map.floor(destination(pos, action).0, destination(pos, action).1),
    ensures
        !accepted,
        pos2 == pos,
        state2 == state,
{
}

/// Of two move requests less than the interval apart, the second is rejected when the
/// first was accepted, whatever the turn and position between them; the first is
/// accepted when it is otherwise valid.
pub proof fn moves_inside_interval_are_debounced(
    map: &Dungeon,
    first: Action,
    second: Action,
    now1: u64,
    now2: u64,
    last: u64,
    state: RunState,
    pos: Position,
    last1: u64,
    state1: RunState,
    pos1: Position,
    accepted1: bool,
    state_between: RunState,
    pos_between: Position,
    last2: u64,
    state2: RunState,
    pos2: Position,
    accepted2: bool,
)
    requires
        map.wf(),
        player_turn(map, first, now1, last, state, pos, last1, state1, pos1, accepted1),
        player_turn(
            map,
            second,
            now2,
            last1,
            state_between,
            pos_between,
            last2,
            state2,
            pos2,
            accepted2,
        ),
        now1 <= now2 < now1 + MOVE_INTERVAL_MS,
    ensures
        state == RunState::PlayerTurn && elapsed(last, now1) >= MOVE_INTERVAL_MS && step_target(
            map,
            pos,
            first,
        ) is Some ==> accepted1,
        accepted1 ==> !accepted2 && pos2 == pos_between && state2 == state_between,
{
}

/// An accepted move passes the turn from the player to the monsters, and the monsters'
/// turn then passes it back.
pub proof fn accepted_move_toggles_turn(
    map: &Dungeon,
    action: Action,
    now: u64,
    last: u64,
    state: RunState,
    pos: Position,
    last2: u64,
    state2: RunState,
    pos2: Position,
)
    requires
        map.wf(),
        player_turn(map, action, now, last, state, pos, last2, state2, pos2, true),
    ensures
        state == RunState::PlayerTurn,
        state2 == RunState::MonsterTurn,
        monster_turn_end(state2) == RunState::PlayerTurn,
{
}

/// The turn after the monsters' system has run on `state`.
pub open spec fn monster_turn_end(state: RunState) -> RunState {
    match state {
        RunState::MonsterTurn => RunState::PlayerTurn,
        RunState::PlayerTurn => RunState::PlayerTurn,
    }
}

} // verus!
