use vstd::prelude::*;
use mapgen::filter::{
    AreaStartingPosition, CellularAutomata, CullUnreachable, DistantExit, NearestCorridors,
    NoiseGenerator, SimpleRooms, XStart, YStart,
};
use mapgen::geometry::Point as GridPoint;
use mapgen::{MapBuffer, MapBuilder, MapFilter};
use rand::rngs::StdRng;
use rand::SeedableRng;

verus! {

/// The screen region that a starting point is sought near.
#[derive(Clone, Copy, Debug, PartialEq, Eq, Structural)]
pub enum StartArea {
    /// Near column 1, row 1.
    TopLeft,
    /// Near the middle of the grid.
    Center,
}

/// The walkable cells that mapgen's `SimpleRooms` then `NearestCorridors` carve into an
/// all-wall grid, with a `StdRng` seeded from `seed`.
pub uninterp spec fn rooms_carving(width: usize, height: usize, seed: u64) -> Seq<bool>;

/// The walkable cells that mapgen's uniform `NoiseGenerator` then `CellularAutomata` leave
/// in an all-wall grid, with a `StdRng` seeded from `seed`.
pub uninterp spec fn caves_carving(width: usize, height: usize, seed: u64) -> Seq<bool>;

/// The starting point that mapgen's `AreaStartingPosition` picks: the walkable cell
/// nearest to the anchor of `area`.
pub uninterp spec fn nearest_floor(
    walkable: Seq<bool>,
    width: usize,
    height: usize,
    area: StartArea,
) -> (usize, usize);

/// The walkable cells that mapgen's `CullUnreachable` keeps: those its distance map
/// reaches from `start`.
pub uninterp spec fn culled(
    walkable: Seq<bool>,
    width: usize,
    height: usize,
    start: (usize, usize),
) -> Seq<bool>;

/// The exit that mapgen's `DistantExit` picks: the cell farthest from `start` on its
/// distance map.
pub uninterp spec fn distant_exit(
    walkable: Seq<bool>,
    width: usize,
    height: usize,
    start: (usize, usize),
) -> (usize, usize);

/// Relies on mapgen's `MapBuilder` with `SimpleRooms` and `NearestCorridors`: a grid of
/// `width * height` cells, row-major. `SimpleRooms` subtracts a room size of up to 9 from
/// each side and panics below 10.
#[verifier::external_body]
pub(crate) fn carve_rooms(width: usize, height: usize, seed: u64) -> (r: Vec<bool>)
    requires
        width >= 10,
        height >= 10,
        width * height <= usize::MAX,
    ensures
        r@ == rooms_carving(width, height, seed),
        r@.len() == width * height,
{
    let mut rng = StdRng::seed_from_u64(seed);
    MapBuilder::new(width, height)
        .with(SimpleRooms::new())
        .with(NearestCorridors::new())
        .build_with_rng(&mut rng)
        .walkables
}

/// Relies on mapgen's `MapBuilder` with `NoiseGenerator::uniform` and `CellularAutomata`:
/// a grid of `width * height` cells, row-major. Both iterate up to `height - 1`, which
/// needs a row.
#[verifier::external_body]
pub(crate) fn carve_caves(width: usize, height: usize, seed: u64) -> (r: Vec<bool>)
    requires
        width >= 1,
        height >= 1,
        width * height <= usize::MAX,
    ensures
        r@ == caves_carving(width, height, seed),
        r@.len() == width * height,
{
    let mut rng = StdRng::seed_from_u64(seed);
    MapBuilder::new(width, height)
        .with(NoiseGenerator::uniform())
        .with(CellularAutomata::new())
        .build_with_rng(&mut rng)
        .walkables
}

/// Relies on mapgen's `AreaStartingPosition`: it picks the index of a walkable cell and
/// returns its column and row; it panics where no cell is walkable.
#[verifier::external_body]
pub(crate) fn start_near(walkable: &Vec<bool>, width: usize, height: usize, area: StartArea) -> (r: (
    usize,
    usize,
))
    requires
        walkable@.len() == width * height,
        exists|i: int| 0 <= i < walkable@.len() && #[trigger] walkable@[i],
    ensures
        r == nearest_floor(walkable@, width, height, area),
        r.0 < width,
        r.1 < height,
        walkable@[r.1 * width + r.0],
{
    let mut map = MapBuffer::new(width, height);
    map.walkables = walkable.clone();
    let filter = match area {
        StartArea::TopLeft => AreaStartingPosition::new(XStart::LEFT, YStart::TOP),
        StartArea::Center => AreaStartingPosition::new(XStart::CENTER, YStart::CENTER),
    };
    let p = filter.modify_map(&mut StdRng::seed_from_u64(0), &map).starting_point.unwrap();
    (p.x, p.y)
}

/// Relies on mapgen's `CullUnreachable`: it only turns walkable cells whose distance from
/// `start` is unknown into walls, and the distance of `start` itself is zero. It indexes
/// its distance map at `start`.
#[verifier::external_body]
pub(crate) fn cull_unreachable(
    walkable: &Vec<bool>,
    width: usize,
    height: usize,
    start: (usize, usize),
) -> (r: Vec<bool>)
    requires
        walkable@.len() == width * height,
        start.0 < width,
        start.1 < height,
    ensures
        r@ == culled(walkable@, width, height, start),
        r@.len() == walkable@.len(),
        forall|i: int| 0 <= i < r@.len() && #[trigger] r@[i] ==> walkable@[i],
        r@[start.1 * width + start.0] == walkable@[start.1 * width + start.0],
{
    let mut map = MapBuffer::new(width, height);
    map.walkables = walkable.clone();
    map.starting_point = Some(GridPoint::new(start.0, start.1));
    CullUnreachable::new().modify_map(&mut StdRng::seed_from_u64(0), &map).walkables
}

/// Relies on mapgen's `DistantExit`: the exit is the index of a cell of the grid (the
/// first one where nothing is reachable), as column and row. It indexes its distance map
/// at `start`.
#[verifier::external_body]
pub(crate) fn place_exit(walkable: &Vec<bool>, width: usize, height: usize, start: (usize, usize)) -> (r: (
    usize,
    usize,
))
    requires
        walkable@.len() == width * height,
        start.0 < width,
        start.1 < height,
    ensures
        r == distant_exit(walkable@, width, height, start),
        r.0 < width,
        r.1 < height,
{
    let mut map = MapBuffer::new(width, height);
    map.walkables = walkable.clone();
    map.starting_point = Some(GridPoint::new(start.0, start.1));
    let p = DistantExit::new().modify_map(&mut StdRng::seed_from_u64(0), &map).exit_point.unwrap();
    (p.x, p.y)
}

} // verus!
