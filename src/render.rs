use vstd::prelude::*;
use crate::grid::Dungeon;
use crate::movement::Position;

verus! {

/// Width and height of one tile on screen, in pixels.
pub const TILE_PIXELS: i128 = 52;

/// Sprite shown on the exit.
pub const EXIT_GLYPH: usize = 12;

/// Sprite shown on a wall, and off the grid.
pub const WALL_GLYPH: usize = 60;

/// Sprite shown on floor.
pub const FLOOR_GLYPH: usize = 19;

/// Sprite of the player.
pub const PLAYER_GLYPH: usize = 160;

/// What an entity looks like: the index of its sprite.
#[derive(Clone, Copy, Debug, PartialEq, Eq, Structural)]
pub struct Renderable {
    pub glyph: usize,
}

impl Renderable {
    pub fn new(glyph: usize) -> (r: Renderable)
        ensures
            r.glyph == glyph,
    {
        Renderable { glyph }
    }
}

/// Keeps the camera on the player.
pub struct CameraSystem {}

/// The camera translation that centres the player: the player's offset from the middle
/// of the grid in pixels, with screen y growing upwards.
pub open spec fn camera_focus(map: &Dungeon, pos: Position) -> (int, int) {
    (
        (pos.x - map.width as int / 2) * TILE_PIXELS,
        -((pos.y - map.height as int / 2) * TILE_PIXELS),
    )
}

impl CameraSystem {
    pub fn new() -> (r: CameraSystem) {
        CameraSystem {}
    }

    /// Where the camera goes to keep `pos` in the middle of the screen.
    pub fn focus(&self, map: &Dungeon, pos: Position) -> (r: (i128, i128))
        ensures
            r.0 == camera_focus(map, pos).0,
            r.1 == camera_focus(map, pos).1,
    {
        let dx: i128 = pos.x as i128 - (map.width / 2) as i128;
        let dy: i128 = pos.y as i128 - (map.height / 2) as i128;
        (dx * TILE_PIXELS, -(dy * TILE_PIXELS))
    }
}

/// Draws the tiles of a dungeon.
pub struct MapTile {}

/// The glyph of the first entity at column `x`, row `y`, looking from index `i` on.
pub open spec fn entity_glyph_from(entities: Seq<(Position, Renderable)>, x: usize, y: usize, i: int) -> Option<usize>
    decreases entities.len() - i,
{
    if i < 0 || i >= entities.len() {
        None
    } else if entities[i].0.x == x && entities[i].0.y == y {
        Some(entities[i].1.glyph)
    } else {
        entity_glyph_from(entities, x, y, i + 1)
    }
}

/// The sprite of column `x`, row `y`: the first entity standing there, else the exit,
/// else a wall (also off the grid), else floor.
pub open spec fn sprite_at(map: &Dungeon, entities: Seq<(Position, Renderable)>, x: usize, y: usize) -> usize {
    match entity_glyph_from(entities, x, y, 0) {
        Some(g) => g,
        None => if map.exit.x == x && map.exit.y == y {
            EXIT_GLYPH
        } else if !map.floor(x as int, y as int) {
            WALL_GLYPH
        } else {
            FLOOR_GLYPH
        },
    }
}

impl MapTile {
    pub fn new() -> (r: MapTile) {
        MapTile {}
    }

    /// The sprite to draw at column `x`, row `y`.
    pub fn sprite(&self, map: &Dungeon, entities: &Vec<(Position, Renderable)>, x: usize, y: usize) -> (r: usize)
        requires
            map.wf(),
        ensures
            r == sprite_at(map, entities@, x, y),
    {
        let mut i: usize = 0;
        while i < entities.len()
            invariant
                i <= entities@.len(),
                entity_glyph_from(entities@, x, y, 0) == entity_glyph_from(entities@, x, y, i as int),
            decreases entities@.len() - i,
        {
            let (p, g) = entities[i];
            if p.x == x && p.y == y {
                return g.glyph;
            }
            i = i + 1;
        }
        if map.exit.x == x && map.exit.y == y {
            EXIT_GLYPH
        } else if !map.is_floor(x, y) {
            WALL_GLYPH
        } else {
            FLOOR_GLYPH
        }
    }
}

} // verus!
