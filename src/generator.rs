use vstd::prelude::*;
use crate::grid::{connected, floor_at, in_bounds, index_of, lemma_index_coord, reaches, Cell, Dungeon, DungeonView, Point};
use crate::stages::{
    carve_caves, carve_rooms, caves_carving, cull_unreachable, culled, distant_exit,
    nearest_floor, place_exit, rooms_carving, start_near, StartArea,
};

verus! {

/// Why no dungeon came out of a generation.
#[derive(Clone, Copy, Debug, PartialEq, Eq, Structural)]
pub enum GenerationError {
    /// The grid is empty, too large to index, or too small for the rooms.
    BadSize,
    /// A starting point was sought on a grid without floor.
    NoFloor,
    /// A stage that needs a starting point ran before one was placed, or none was.
    MissingStart,
    /// The starting point lies off the grid or on a wall.
    InvalidStart,
    /// No exit was placed.
    MissingExit,
    /// The exit lies off the grid, on a wall, or where no walk from the start reaches.
    ExitUnreachable,
}

/// The two pipelines of stages that make a level.
#[derive(Clone, Copy, Debug, PartialEq, Eq, Structural)]
pub enum Variant {
    /// Rooms joined by corridors, start near the top-left corner, exit far from it.
    RoomsAndCorridors,
    /// Cellular-automata caves, start near the centre, unreachable floor walled up,
    /// exit far from the start.
    CellularAutomata,
}

/// One step of a generation pipeline.
#[derive(Clone, Copy, Debug, PartialEq, Eq, Structural)]
pub enum Stage {
    /// Carve rooms joined by corridors into a blank grid.
    CarveRooms,
    /// Grow caves from noise in a blank grid.
    CarveCaves,
    /// Put the starting point on the floor cell nearest to an area.
    PlaceStart(StartArea),
    /// Wall up the floor that the starting point does not reach.
    CullUnreachable,
    /// Put the exit far from the starting point.
    PlaceExit,
}

/// A level under construction: which cells are walkable, row-major, and the points
/// placed so far.
pub struct Layout {
    pub walkable: Vec<bool>,
    pub start: Option<Point>,
    pub exit: Option<Point>,
}

pub type LayoutView = (Seq<bool>, Option<Point>, Option<Point>);

impl View for Layout {
    type V = LayoutView;

    open spec fn view(&self) -> LayoutView {
        (self.walkable@, self.start, self.exit)
    }
}

pub open spec fn any_floor(walkable: Seq<bool>) -> bool {
    exists|i: int| 0 <= i < walkable.len() && #[trigger] walkable[i]
}

/// An all-wall grid with no points placed.
pub open spec fn blank(width: usize, height: usize) -> LayoutView {
    (Seq::new((width * height) as nat, |i: int| false), None, None)
}

/// What one stage makes of a layout.
pub open spec fn stage_step(
    width: usize,
    height: usize,
    seed: u64,
    l: LayoutView,
    stage: Stage,
) -> Result<LayoutView, GenerationError> {
    match stage {
        Stage::CarveRooms => if width >= 10 && height >= 10 {
            Ok((rooms_carving(width, height, seed), None, None))
        } else {
            Err(GenerationError::BadSize)
        },
        Stage::CarveCaves => Ok((caves_carving(width, height, seed), None, None)),
        Stage::PlaceStart(area) => if any_floor(l.0) {
            let p = nearest_floor(l.0, width, height, area);
            Ok((l.0, Some(Point { x: p.0, y: p.1 }), l.2))
        } else {
            Err(GenerationError::NoFloor)
        },
        Stage::CullUnreachable => match l.1 {
            Some(s) => Ok((culled(l.0, width, height, (s.x, s.y)), l.1, l.2)),
            None => Err(GenerationError::MissingStart),
        },
        Stage::PlaceExit => match l.1 {
            Some(s) => {
                let e = distant_exit(l.0, width, height, (s.x, s.y));
                Ok((l.0, l.1, Some(Point { x: e.0, y: e.1 })))
            },
            None => Err(GenerationError::MissingStart),
        },
    }
}

/// What a list of stages makes of a layout, applied first to last; the first error stops it.
pub open spec fn run_stages(
    width: usize,
    height: usize,
    seed: u64,
    stages: Seq<Stage>,
    l: LayoutView,
) -> Result<LayoutView, GenerationError>
    decreases stages.len(),
{
    if stages.len() == 0 {
        Ok(l)
    } else {
        match run_stages(width, height, seed, stages.drop_last(), l) {
            Ok(m) => stage_step(width, height, seed, m, stages.last()),
            Err(e) => Err(e),
        }
    }
}

pub open spec fn size_ok(width: usize, height: usize) -> bool {
    width >= 1 && height >= 1 && width * height <= usize::MAX
}

/// What a pipeline makes of a blank grid of the given size.
pub open spec fn pipeline_outcome(
    width: usize,
    height: usize,
    seed: u64,
    stages: Seq<Stage>,
) -> Result<LayoutView, GenerationError> {
    if size_ok(width, height) {
        run_stages(width, height, seed, stages, blank(width, height))
    } else {
        Err(GenerationError::BadSize)
    }
}

/// The stages of each variant, in order.
pub open spec fn variant_stages(variant: Variant) -> Seq<Stage> {
    match variant {
        Variant::RoomsAndCorridors => seq![
            Stage::CarveRooms,
            Stage::PlaceStart(StartArea::TopLeft),
            Stage::PlaceExit,
        ],
        Variant::CellularAutomata => seq![
            Stage::CarveCaves,
            Stage::PlaceStart(StartArea::Center),
            Stage::CullUnreachable,
            Stage::PlaceExit,
        ],
    }
}

pub open spec fn cells_of(walkable: Seq<bool>) -> Seq<Cell> {
    Seq::new(
        walkable.len(),
        |i: int|
            if walkable[i] {
                Cell::Floor
            } else {
                Cell::Wall
            },
    )
}

/// The dungeon that a finished layout stands for, or why it is not one.
pub open spec fn finish_outcome(width: usize, height: usize, l: LayoutView) -> Result<
    DungeonView,
    GenerationError,
> {
    let cells = cells_of(l.0);
    if l.0.len() != width * height {
        Err(GenerationError::BadSize)
    } else {
        match l.1 {
            None => Err(GenerationError::MissingStart),
            Some(s) => if !floor_at(cells, width as int, height as int, s.x as int, s.y as int) {
                Err(GenerationError::InvalidStart)
            } else {
                match l.2 {
                    None => Err(GenerationError::MissingExit),
                    Some(e) => if floor_at(cells, width as int, height as int, e.x as int, e.y as int)
                        && connected(
                        cells,
                        width as int,
                        height as int,
                        (s.x as int, s.y as int),
                        (e.x as int, e.y as int),
                    ) {
                        Ok((width, height, cells, s, e))
                    } else {
                        Err(GenerationError::ExitUnreachable)
                    },
                }
            },
        }
    }
}

/// The outcome of generating a level of a variant from a size and a seed.
pub open spec fn generation(width: usize, height: usize, seed: u64, variant: Variant) -> Result<
    DungeonView,
    GenerationError,
> {
    match pipeline_outcome(width, height, seed, variant_stages(variant)) {
        Ok(l) => finish_outcome(width, height, l),
        Err(e) => Err(e),
    }
}

pub open spec fn outcome_view(r: Result<Dungeon, GenerationError>) -> Result<DungeonView, GenerationError> {
    match r {
        Ok(d) => Ok(d@),
        Err(e) => Err(e),
    }
}

pub open spec fn layout_outcome(r: Result<Layout, GenerationError>) -> Result<LayoutView, GenerationError> {
    match r {
        Ok(l) => Ok(l@),
        Err(e) => Err(e),
    }
}

/// The layout fits the grid: one entry per cell, and a starting point, if any, on it.
pub open spec fn layout_fits(width: usize, height: usize, l: LayoutView) -> bool {
    &&& l.0.len() == width * height
    &&& match l.1 {
        Some(s) => s.x < width && s.y < height,
        None => true,
    }
}

/// Whether any cell is walkable.
pub fn has_floor(walkable: &Vec<bool>) -> (r: bool)
    ensures
        r == any_floor(walkable@),
{
    let mut i: usize = 0;
    while i < walkable.len()
        invariant
            i <= walkable@.len(),
            forall|k: int| 0 <= k < i ==> !#[trigger] walkable@[k],
        decreases walkable@.len() - i,
    {
        if walkable[i] {
            return true;
        }
        i = i + 1;
    }
    false
}

/// Applies one stage to a layout that fits a grid of the given size.
pub fn apply_stage(width: usize, height: usize, seed: u64, layout: Layout, stage: Stage) -> (r:
    Result<Layout, GenerationError>)
    requires
        size_ok(width, height),
        layout_fits(width, height, layout@),
    ensures
        layout_outcome(r) == stage_step(width, height, seed, layout@, stage),
        r is Ok ==> layout_fits(width, height, r->Ok_0@),
{
    match stage {
        Stage::CarveRooms => {
            if width >= 10 && height >= 10 {
                let walkable = carve_rooms(width, height, seed);
                Ok(Layout { walkable, start: None, exit: None })
            } else {
                Err(GenerationError::BadSize)
            }
        },
        Stage::CarveCaves => {
            let walkable = carve_caves(width, height, seed);
            Ok(Layout { walkable, start: None, exit: None })
        },
        Stage::PlaceStart(area) => {
            if has_floor(&layout.walkable) {
                let p = start_near(&layout.walkable, width, height, area);
                Ok(Layout { walkable: layout.walkable, start: Some(Point::new(p.0, p.1)), exit: layout.exit })
            } else {
                Err(GenerationError::NoFloor)
            }
        },
        Stage::CullUnreachable => {
            match layout.start {
                Some(s) => {
                    let walkable = cull_unreachable(&layout.walkable, width, height, (s.x, s.y));
                    Ok(Layout { walkable, start: layout.start, exit: layout.exit })
                },
                None => Err(GenerationError::MissingStart),
            }
        },
        Stage::PlaceExit => {
            match layout.start {
                Some(s) => {
                    let e = place_exit(&layout.walkable, width, height, (s.x, s.y));
                    Ok(Layout { walkable: layout.walkable, start: layout.start, exit: Some(Point::new(e.0, e.1)) })
                },
                None => Err(GenerationError::MissingStart),
            }
        },
    }
}

/// Runs `stages` in order on a blank grid of `width` by `height`.
pub fn run_pipeline(width: usize, height: usize, seed: u64, stages: &Vec<Stage>) -> (r: Result<
    Layout,
    GenerationError,
>)
    ensures
        layout_outcome(r) == pipeline_outcome(width, height, seed, stages@),
        r is Ok ==> layout_fits(width, height, r->Ok_0@),
{
    if width == 0 || height == 0 {
        return Err(GenerationError::BadSize);
    }
    let n = match width.checked_mul(height) {
        Some(n) => n,
        None => {
            return Err(GenerationError::BadSize);
        },
    };
    let mut layout = Layout { walkable: vec![false; n], start: None, exit: None };
    proof {
        assert(layout@ =~= blank(width, height));
        assert(stages@.subrange(0, 0) =~= Seq::<Stage>::empty());
    }
    let mut k: usize = 0;
    while k < stages.len()
        invariant
            size_ok(width, height),
            k <= stages@.len(),
            layout_fits(width, height, layout@),
            run_stages(width, height, seed, stages@.subrange(0, k as int), blank(width, height))
                == Ok::<LayoutView, GenerationError>(layout@),
        decreases stages@.len() - k,
    {
        proof {
            assert(stages@.subrange(0, k + 1).drop_last() =~= stages@.subrange(0, k as int));
        }
        match apply_stage(width, height, seed, layout, stages[k]) {
            Ok(next) => {
                layout = next;
            },
            Err(e) => {
                proof {
                    lemma_error_stays(width, height, seed, stages@, k as int + 1, e);
                }
                return Err(e);
            },
        }
        k = k + 1;
    }
    proof {
        assert(stages@.subrange(0, stages@.len() as int) =~= stages@);
    }
    Ok(layout)
}

/// Once a prefix of the stages has failed, the whole list fails with the same error.
proof fn lemma_error_stays(width: usize, height: usize, seed: u64, stages: Seq<Stage>, k: int, e: GenerationError)
    requires
        0 <= k <= stages.len(),
        run_stages(width, height, seed, stages.subrange(0, k), blank(width, height)) == Err::<LayoutView, GenerationError>(e),
    ensures
        run_stages(width, height, seed, stages, blank(width, height)) == Err::<LayoutView, GenerationError>(e),
    decreases stages.len() - k,
{
    if k < stages.len() {
        assert(stages.subrange(0, k + 1).drop_last() =~= stages.subrange(0, k));
        lemma_error_stays(width, height, seed, stages, k + 1, e);
    } else {
        assert(stages.subrange(0, k) =~= stages);
    }
}

/// The stages of a variant, in order.
pub fn stages_of(variant: Variant) -> (r: Vec<Stage>)
    ensures
        r@ == variant_stages(variant),
{
    match variant {
        Variant::RoomsAndCorridors => {
            let r = vec![Stage::CarveRooms, Stage::PlaceStart(StartArea::TopLeft), Stage::PlaceExit];
            proof {
                assert(r@ =~= variant_stages(variant));
            }
            r
        },
        Variant::CellularAutomata => {
            let r = vec![
                Stage::CarveCaves,
                Stage::PlaceStart(StartArea::Center),
                Stage::CullUnreachable,
                Stage::PlaceExit,
            ];
            proof {
                assert(r@ =~= variant_stages(variant));
            }
            r
        },
    }
}

/// Turns walkable flags into cells.
fn to_cells(walkable: &Vec<bool>) -> (r: Vec<Cell>)
    ensures
        r@ == cells_of(walkable@),
{
    let mut r: Vec<Cell> = Vec::new();
    let mut i: usize = 0;
    while i < walkable.len()
        invariant
            i <= walkable@.len(),
            r@ =~= cells_of(walkable@).subrange(0, i as int),
        decreases walkable@.len() - i,
    {
        r.push(if walkable[i] { Cell::Floor } else { Cell::Wall });
        i = i + 1;
    }
    r
}

/// Checks a finished layout and makes a dungeon of it: the start and the exit must be
/// placed, on floor, and the exit reachable from the start.
pub fn finish(width: usize, height: usize, layout: &Layout) -> (r: Result<Dungeon, GenerationError>)
    ensures
        outcome_view(r) == finish_outcome(width, height, layout@),
        r is Ok ==> r->Ok_0.wf(),
{
    let len = layout.walkable.len();
    match width.checked_mul(height) {
        Some(n) => {
            if len != n {
                return Err(GenerationError::BadSize);
            }
        },
        None => {
            return Err(GenerationError::BadSize);
        },
    }
    let cells = to_cells(&layout.walkable);
    let ghost w = width as int;
    let ghost h = height as int;
    let s = match layout.start {
        Some(s) => s,
        None => {
            return Err(GenerationError::MissingStart);
        },
    };
    if !(s.x < width && s.y < height) {
        return Err(GenerationError::InvalidStart);
    }
    proof {
        lemma_index_coord(w, h, s.x as int, s.y as int);
    }
    if cells[s.y * width + s.x] != Cell::Floor {
        return Err(GenerationError::InvalidStart);
    }
    let e = match layout.exit {
        Some(e) => e,
        None => {
            return Err(GenerationError::MissingExit);
        },
    };
    if !(e.x < width && e.y < height) {
        return Err(GenerationError::ExitUnreachable);
    }
    proof {
        lemma_index_coord(w, h, e.x as int, e.y as int);
    }
    if cells[e.y * width + e.x] != Cell::Floor {
        return Err(GenerationError::ExitUnreachable);
    }
    if !reaches(&cells, width, height, s, e) {
        return Err(GenerationError::ExitUnreachable);
    }
    Ok(Dungeon { cells, width, height, start: s, exit: e })
}

/// Generates a level of `variant`, `width` by `height`, from `seed`. The same arguments
/// give the same outcome.
pub fn generate(width: usize, height: usize, seed: u64, variant: Variant) -> (r: Result<
    Dungeon,
    GenerationError,
>)
    ensures
        outcome_view(r) == generation(width, height, seed, variant),
        r is Ok ==> r->Ok_0.wf() && r->Ok_0.width == width && r->Ok_0.height == height,
        !size_ok(width, height) ==> r == Err::<Dungeon, GenerationError>(GenerationError::BadSize),
        variant == Variant::RoomsAndCorridors && (width < 10 || height < 10) ==> r == Err::<
            Dungeon,
            GenerationError,
        >(GenerationError::BadSize),
{
    proof {
        reveal_with_fuel(run_stages, 5);
    }
    let stages = stages_of(variant);
    match run_pipeline(width, height, seed, &stages) {
        Ok(layout) => finish(width, height, &layout),
        Err(e) => Err(e),
    }
}

} // verus!

verus! {

/// Generating twice from the same width, height, seed and variant yields the same grid,
/// starting point and exit, or the same error.
pub proof fn generation_is_deterministic(
    width: usize,
    height: usize,
    seed: u64,
    variant: Variant,
    first: Result<Dungeon, GenerationError>,
    second: Result<Dungeon, GenerationError>,
)
    requires
        outcome_view(first) == generation(width, height, seed, variant),
        outcome_view(second) == generation(width, height, seed, variant),
    ensures
        outcome_view(first) == outcome_view(second),
{
}

/// In every generated level a flood fill from the starting point through floor cells
/// reaches the exit.
pub proof fn generated_exit_is_reachable(
    width: usize,
    height: usize,
    seed: u64,
    variant: Variant,
    level: DungeonView,
)
    requires
        generation(width, height, seed, variant) == Ok::<DungeonView, GenerationError>(level),
    ensures
        connected(
            level.2,
            width as int,
            height as int,
            (level.3.x as int, level.3.y as int),
            (level.4.x as int, level.4.y as int),
        ),
{
}

/// In every generated level the starting point and the exit lie in the grid, on floor.
pub proof fn generated_points_are_floor(
    width: usize,
    height: usize,
    seed: u64,
    variant: Variant,
    level: DungeonView,
)
    requires
        generation(width, height, seed, variant) == Ok::<DungeonView, GenerationError>(level),
    ensures
        level.0 == width && level.1 == height,
        level.2.len() == width * height,
        in_bounds(width as int, height as int, level.3.x as int, level.3.y as int),
        in_bounds(width as int, height as int, level.4.x as int, level.4.y as int),
        level.2[index_of(width as int, level.3.x as int, level.3.y as int)] == Cell::Floor,
        level.2[index_of(width as int, level.4.x as int, level.4.y as int)] == Cell::Floor,
{
}

} // verus!
