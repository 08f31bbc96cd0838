use vstd::prelude::*;
use vstd::arithmetic::div_mod::{lemma_fundamental_div_mod, lemma_fundamental_div_mod_converse};
use vstd::set_lib::{lemma_int_range, lemma_len_subset, set_int_range};

verus! {

/// One tile of a dungeon: only `Floor` is walkable.
#[derive(Clone, Copy, Debug, PartialEq, Eq, Structural)]
pub enum Cell {
    Floor,
    Wall,
}

impl Cell {
    /// The one-byte tile code handed to a rendering layer: 0 for floor, 1 for wall.
    pub fn code(&self) -> (r: u8)
        ensures
            r == cell_code(*self),
    {
        match self {
            Cell::Floor => 0,
            Cell::Wall => 1,
        }
    }
}

pub open spec fn cell_code(c: Cell) -> u8 {
    match c {
        Cell::Floor => 0,
        Cell::Wall => 1,
    }
}

/// A tile coordinate, column `x` and row `y`, counted from the top-left corner.
#[derive(Clone, Copy, Debug, PartialEq, Eq, Structural)]
pub struct Point {
    pub x: usize,
    pub y: usize,
}

impl Point {
    pub fn new(x: usize, y: usize) -> (r: Point)
        ensures
            r.x == x,
            r.y == y,
    {
        Point { x, y }
    }
}

/// A generated level: `width * height` cells in row-major order, a starting point and an
/// exit, both on floor, with the exit reachable from the start.
pub struct Dungeon {
    pub cells: Vec<Cell>,
    pub width: usize,
    pub height: usize,
    pub start: Point,
    pub exit: Point,
}

/// The mathematical content of a dungeon: width, height, cells, start and exit.
pub type DungeonView = (usize, usize, Seq<Cell>, Point, Point);

impl View for Dungeon {
    type V = DungeonView;

    open spec fn view(&self) -> DungeonView {
        (self.width, self.height, self.cells@, self.start, self.exit)
    }
}

impl Dungeon {
    pub open spec fn floor(&self, x: int, y: int) -> bool {
        floor_at(self.cells@, self.width as int, self.height as int, x, y)
    }

    pub open spec fn wf(&self) -> bool {
        &&& self.cells@.len() == self.width * self.height
        &&& self.floor(self.start.x as int, self.start.y as int)
        &&& self.floor(self.exit.x as int, self.exit.y as int)
        &&& connected(
            self.cells@,
            self.width as int,
            self.height as int,
            (self.start.x as int, self.start.y as int),
            (self.exit.x as int, self.exit.y as int),
        )
    }

    /// Whether column `x`, row `y` lies in the grid and is floor; false off the grid.
    pub fn is_floor(&self, x: usize, y: usize) -> (r: bool)
        requires
            self.wf(),
        ensures
            r == self.floor(x as int, y as int),
    {
        let n = self.cells.len();
        if x < self.width && y < self.height {
            proof {
                lemma_index_coord(self.width as int, self.height as int, x as int, y as int);
            }
            self.cells[y * self.width + x] == Cell::Floor
        } else {
            false
        }
    }

    /// The grid as one-byte tile codes, row-major.
    pub fn tile_codes(&self) -> (r: Vec<u8>)
        ensures
            r@.len() == self.cells@.len(),
            forall|i: int| 0 <= i < r@.len() ==> #[trigger] r@[i] == cell_code(self.cells@[i]),
    {
        let mut r: Vec<u8> = Vec::new();
        let mut i: usize = 0;
        while i < self.cells.len()
            invariant
                i <= self.cells@.len(),
                r@.len() == i,
                forall|k: int| 0 <= k < i ==> #[trigger] r@[k] == cell_code(self.cells@[k]),
            decreases self.cells@.len() - i,
        {
            r.push(self.cells[i].code());
            i = i + 1;
        }
        r
    }
}

/// Row-major index of column `x`, row `y` in a grid `w` cells wide.
pub open spec fn index_of(w: int, x: int, y: int) -> int {
    y * w + x
}

/// The coordinates of row-major index `i` in a grid `w` cells wide.
pub open spec fn coord_of(w: int, i: int) -> (int, int) {
    (i % w, i / w)
}

pub open spec fn in_bounds(w: int, h: int, x: int, y: int) -> bool {
    0 <= x < w && 0 <= y < h
}

/// The cell at column `x`, row `y` exists and is floor.
pub open spec fn floor_at(cells: Seq<Cell>, w: int, h: int, x: int, y: int) -> bool {
    in_bounds(w, h, x, y) && cells[index_of(w, x, y)] == Cell::Floor
}

/// Two coordinates one orthogonal step apart.
pub open spec fn adjacent(a: (int, int), b: (int, int)) -> bool {
    (a.0 == b.0 && (a.1 == b.1 + 1 || b.1 == a.1 + 1)) || (a.1 == b.1 && (a.0 == b.0 + 1 || b.0
        == a.0 + 1))
}

/// A non-empty sequence of floor cells, each one orthogonal step from the one before.
pub open spec fn is_walk(cells: Seq<Cell>, w: int, h: int, p: Seq<(int, int)>) -> bool {
    &&& p.len() > 0
    &&& forall|k: int| 0 <= k < p.len() ==> #[trigger] floor_at(cells, w, h, p[k].0, p[k].1)
    &&& forall|k: int| 0 <= k < p.len() - 1 ==> #[trigger] adjacent(p[k], p[k + 1])
}

/// A flood fill from `a` through floor cells reaches `b`.
pub open spec fn connected(cells: Seq<Cell>, w: int, h: int, a: (int, int), b: (int, int)) -> bool {
    exists|p: Seq<(int, int)>| #[trigger]
        is_walk(cells, w, h, p) && p[0] == a && p[p.len() - 1] == b
}

/// Every floor neighbour of the cell at index `j` is marked in `seen`.
pub open spec fn closed_at(cells: Seq<Cell>, w: int, h: int, seen: Seq<bool>, j: int) -> bool {
    let (x, y) = coord_of(w, j);
    &&& floor_at(cells, w, h, x - 1, y) ==> seen[index_of(w, x - 1, y)]
    &&& floor_at(cells, w, h, x + 1, y) ==> seen[index_of(w, x + 1, y)]
    &&& floor_at(cells, w, h, x, y - 1) ==> seen[index_of(w, x, y - 1)]
    &&& floor_at(cells, w, h, x, y + 1) ==> seen[index_of(w, x, y + 1)]
}

pub proof fn lemma_index_coord(w: int, h: int, x: int, y: int)
    requires
        in_bounds(w, h, x, y),
    ensures
        0 <= index_of(w, x, y) < w * h,
        coord_of(w, index_of(w, x, y)) == (x, y),
{
    assert(0 <= y * w + x < w * h) by (nonlinear_arith)
        requires
            0 <= x < w,
            0 <= y < h,
    ;
    lemma_fundamental_div_mod_converse(y * w + x, w, y, x);
}

pub proof fn lemma_coord_index(w: int, h: int, i: int)
    requires
        w > 0,
        0 <= i < w * h,
    ensures
        in_bounds(w, h, coord_of(w, i).0, coord_of(w, i).1),
        index_of(w, coord_of(w, i).0, coord_of(w, i).1) == i,
{
    lemma_fundamental_div_mod(i, w);
    let q = i / w;
    let r = i % w;
    assert(0 <= r < w);
    assert(0 <= q < h) by (nonlinear_arith)
        requires
            i == w * q + r,
            0 <= r < w,
            0 <= i < w * h,
            w > 0,
    ;
    assert(q * w == w * q) by (nonlinear_arith);
}

/// Where `seen` holds the start and is closed under floor steps, it holds every cell
/// that a walk from the start reaches.
proof fn lemma_closed_holds_walk(
    cells: Seq<Cell>,
    w: int,
    h: int,
    seen: Seq<bool>,
    p: Seq<(int, int)>,
    k: int,
)
    requires
        w > 0,
        seen.len() == w * h,
        is_walk(cells, w, h, p),
        seen[index_of(w, p[0].0, p[0].1)],
        forall|j: int| 0 <= j < w * h && #[trigger] seen[j] ==> closed_at(cells, w, h, seen, j),
        0 <= k < p.len(),
    ensures
        seen[index_of(w, p[k].0, p[k].1)],
    decreases k,
{
    if k > 0 {
        lemma_closed_holds_walk(cells, w, h, seen, p, k - 1);
        assert(floor_at(cells, w, h, p[k - 1].0, p[k - 1].1));
        assert(adjacent(p[k - 1], p[(k - 1) + 1]));
        assert(floor_at(cells, w, h, p[k].0, p[k].1));
        let j = index_of(w, p[k - 1].0, p[k - 1].1);
        lemma_index_coord(w, h, p[k - 1].0, p[k - 1].1);
        assert(closed_at(cells, w, h, seen, j));
    }
}

/// Marking more cells keeps a cell closed.
proof fn lemma_closed_grows(cells: Seq<Cell>, w: int, h: int, a: Seq<bool>, b: Seq<bool>, j: int)
    requires
        a.len() == w * h,
        b.len() == w * h,
        forall|k: int| 0 <= k < w * h && a[k] ==> #[trigger] b[k],
        closed_at(cells, w, h, a, j),
    ensures
        closed_at(cells, w, h, b, j),
{
    let (x, y) = coord_of(w, j);
    if floor_at(cells, w, h, x - 1, y) {
        lemma_index_coord(w, h, x - 1, y);
    }
    if floor_at(cells, w, h, x + 1, y) {
        lemma_index_coord(w, h, x + 1, y);
    }
    if floor_at(cells, w, h, x, y - 1) {
        lemma_index_coord(w, h, x, y - 1);
    }
    if floor_at(cells, w, h, x, y + 1) {
        lemma_index_coord(w, h, x, y + 1);
    }
}

/// The state of a flood fill from `s`: `seen` marks what it has reached, `stack` what it
/// has still to expand, `marked` the same cells as `seen`, and `current` the one being
/// expanded (or -1).
spec fn fill_ok(
    cells: Seq<Cell>,
    w: int,
    h: int,
    s: (int, int),
    seen: Seq<bool>,
    stack: Seq<usize>,
    marked: Set<int>,
    current: int,
) -> bool {
    &&& w > 0
    &&& cells.len() == w * h
    &&& seen.len() == w * h
    &&& in_bounds(w, h, s.0, s.1)
    &&& seen[index_of(w, s.0, s.1)]
    &&& forall|k: int| 0 <= k < stack.len() ==> #[trigger] stack[k] < w * h && seen[stack[k] as int]
    &&& forall|j: int| 0 <= j < w * h && #[trigger] seen[j] ==> connected(cells, w, h, s, coord_of(w, j))
    &&& forall|j: int|
        0 <= j < w * h && #[trigger] seen[j] ==> stack.contains(j as usize) || j == current
            || closed_at(cells, w, h, seen, j)
    &&& marked.finite()
    &&& marked.subset_of(set_int_range(0, w * h))
    &&& forall|j: int| 0 <= j < w * h ==> (#[trigger] seen[j] <==> marked.contains(j))
}

/// Marks the floor cell at (`nx`, `ny`), a neighbour of `from`, and queues it, unless it
/// is a wall or already marked.
fn visit(
    cells: &Vec<Cell>,
    width: usize,
    height: usize,
    seen: &mut Vec<bool>,
    stack: &mut Vec<usize>,
    nx: usize,
    ny: usize,
    from: Ghost<(int, int)>,
    s: Ghost<(int, int)>,
    marked: Ghost<Set<int>>,
    current: Ghost<int>,
) -> (r: Ghost<Set<int>>)
    requires
        fill_ok(cells@, width as int, height as int, s@, old(seen)@, old(stack)@, marked@, current@),
        nx < width,
        ny < height,
        adjacent(from@, (nx as int, ny as int)),
        connected(cells@, width as int, height as int, s@, from@),
    ensures
        fill_ok(cells@, width as int, height as int, s@, final(seen)@, final(stack)@, r@, current@),
        floor_at(cells@, width as int, height as int, nx as int, ny as int)
            ==> final(seen)@[index_of(width as int, nx as int, ny as int)],
        forall|j: int| 0 <= j < old(seen)@.len() && old(seen)@[j] ==> #[trigger] final(seen)@[j],
        (r@ == marked@ && final(stack)@ == old(stack)@) || (r@.len() == marked@.len() + 1),
{
    let ghost w = width as int;
    let ghost h = height as int;
    proof {
        lemma_index_coord(w, h, nx as int, ny as int);
    }
    let total = cells.len();
    let j: usize = ny * width + nx;
    if cells[j] == Cell::Floor && !seen[j] {
        let ghost old_seen = seen@;
        let ghost old_stack = stack@;
        proof {
            let p = choose|p: Seq<(int, int)>|
                #[trigger] is_walk(cells@, w, h, p) && p[0] == s@ && p[p.len() - 1] == from@;
            let q = p.push((nx as int, ny as int));
            assert(forall|k: int| 0 <= k < p.len() ==> q[k] == p[k]);
            assert(is_walk(cells@, w, h, q)) by {
                assert forall|k: int| 0 <= k < q.len() implies #[trigger] floor_at(
                    cells@,
                    w,
                    h,
                    q[k].0,
                    q[k].1,
                ) by {
                    if k < p.len() {
                        assert(floor_at(cells@, w, h, p[k].0, p[k].1));
                    }
                }
                assert forall|k: int| 0 <= k < q.len() - 1 implies #[trigger] adjacent(
                    q[k],
                    q[k + 1],
                ) by {
                    if k < p.len() - 1 {
                        assert(adjacent(p[k], p[k + 1]));
                    }
                }
            }
            assert(connected(cells@, w, h, s@, coord_of(w, j as int)));
        }
        seen.set(j, true);
        stack.push(j);
        let ghost m2 = marked@.insert(j as int);
        proof {
            assert(!marked@.contains(j as int));
            assert forall|k: int| 0 <= k < stack@.len() implies #[trigger] stack@[k] < w * h
                && seen@[stack@[k] as int] by {
                if k < old_stack.len() {
                    assert(old_stack[k] < w * h && old_seen[old_stack[k] as int]);
                }
            }
            assert forall|i: int|
                0 <= i < w * h && #[trigger] seen@[i] implies stack@.contains(i as usize)
                || i == current@ || closed_at(cells@, w, h, seen@, i) by {
                if i == j {
                    assert(stack@[stack@.len() - 1] == j);
                } else {
                    assert(old_seen[i]);
                    if closed_at(cells@, w, h, old_seen, i) {
                        lemma_closed_grows(cells@, w, h, old_seen, seen@, i);
                    }
                    if old_stack.contains(i as usize) {
                        let k = choose|k: int| 0 <= k < old_stack.len() && old_stack[k] == i as usize;
                        assert(stack@[k] == i as usize);
                    }
                }
            }
            assert(marked@.subset_of(set_int_range(0, w * h)));
            assert(m2.subset_of(set_int_range(0, w * h)));
            lemma_index_coord(w, h, s@.0, s@.1);
            assert(seen@[index_of(w, s@.0, s@.1)]);
            assert forall|i: int| 0 <= i < w * h && #[trigger] seen@[i] implies connected(
                cells@,
                w,
                h,
                s@,
                coord_of(w, i),
            ) by {
                if i != j {
                    assert(old_seen[i]);
                }
            }
            assert forall|i: int| 0 <= i < w * h implies (#[trigger] seen@[i] <==> m2.contains(i)) by {
                if i != j {
                    assert(old_seen[i] <==> marked@.contains(i));
                }
            }
        }
        Ghost(m2)
    } else {
        marked
    }
}

/// Flood fill over floor cells from `start`; true when it reaches `goal`.
/// Both must be in the grid, and `start` must be floor.
pub fn reaches(cells: &Vec<Cell>, width: usize, height: usize, start: Point, goal: Point) -> (r:
    bool)
    requires
        cells@.len() == width * height,
        in_bounds(width as int, height as int, start.x as int, start.y as int),
        in_bounds(width as int, height as int, goal.x as int, goal.y as int),
        cells@[index_of(width as int, start.x as int, start.y as int)] == Cell::Floor,
    ensures
        r == connected(
            cells@,
            width as int,
            height as int,
            (start.x as int, start.y as int),
            (goal.x as int, goal.y as int),
        ),
{
    let ghost w = width as int;
    let ghost h = height as int;
    let ghost s = (start.x as int, start.y as int);
    let n: usize = cells.len();
    proof {
        lemma_index_coord(w, h, start.x as int, start.y as int);
        lemma_index_coord(w, h, goal.x as int, goal.y as int);
        lemma_int_range(0, n as int);
    }
    let mut seen: Vec<bool> = vec![false; n];
    let mut stack: Vec<usize> = Vec::new();
    let si: usize = start.y * width + start.x;
    seen.set(si, true);
    stack.push(si);
    let mut marked: Ghost<Set<int>> = Ghost(Set::empty().insert(si as int));
    proof {
        let p = seq![s];
        assert(is_walk(cells@, w, h, p));
        assert(connected(cells@, w, h, s, coord_of(w, si as int)));
        assert(stack@[0] == si);
        assert(forall|j: int| 0 <= j < n && seen@[j] ==> j == si);
    }
    while stack.len() > 0
        invariant
            w == width,
            h == height,
            n == w * h,
            set_int_range(0, n as int).finite(),
            set_int_range(0, n as int).len() == n,
            fill_ok(cells@, w, h, s, seen@, stack@, marked@, -1),
        decreases n - marked@.len(), stack@.len(),
    {
        let ghost old_marked = marked@;
        let ghost old_stack = stack@;
        proof {
            lemma_len_subset(marked@, set_int_range(0, n as int));
        }
        let i = stack.pop().unwrap();
        let ghost seen0 = seen@;
        proof {
            assert(old_stack[old_stack.len() - 1] == i);
            assert(i < n && seen@[i as int]);
            lemma_coord_index(w, h, i as int);
            assert forall|k: int| 0 <= k < stack@.len() implies #[trigger] stack@[k] < w * h
                && seen@[stack@[k] as int] by {
                assert(stack@[k] == old_stack[k]);
            }
            assert forall|j: int|
                0 <= j < w * h && #[trigger] seen@[j] implies stack@.contains(j as usize) || j
                == i || closed_at(cells@, w, h, seen@, j) by {
                if old_stack.contains(j as usize) && j != i {
                    let k = choose|k: int| 0 <= k < old_stack.len() && old_stack[k] == j as usize;
                    assert(stack@[k] == j as usize);
                }
            }
        }
        let x: usize = i % width;
        let y: usize = i / width;
        let ghost from = (x as int, y as int);
        proof {
            assert(connected(cells@, w, h, s, coord_of(w, i as int)));
        }
        let ghost m0 = marked@;
        let ghost st0 = stack@;
        if x > 0 {
            marked = visit(cells, width, height, &mut seen, &mut stack, x - 1, y, Ghost(from), Ghost(s), marked, Ghost(i as int));
        }
        let ghost seen1 = seen@;
        if x + 1 < width {
            marked = visit(cells, width, height, &mut seen, &mut stack, x + 1, y, Ghost(from), Ghost(s), marked, Ghost(i as int));
        }
        let ghost seen2 = seen@;
        if y > 0 {
            marked = visit(cells, width, height, &mut seen, &mut stack, x, y - 1, Ghost(from), Ghost(s), marked, Ghost(i as int));
        }
        let ghost seen3 = seen@;
        if y + 1 < height {
            marked = visit(cells, width, height, &mut seen, &mut stack, x, y + 1, Ghost(from), Ghost(s), marked, Ghost(i as int));
        }
        proof {
            lemma_len_subset(marked@, set_int_range(0, n as int));
            assert(marked@.len() > m0.len() || (marked@ == m0 && stack@ == st0));
            assert(coord_of(w, i as int) == (x as int, y as int));
            if floor_at(cells@, w, h, x - 1, y as int) {
                lemma_index_coord(w, h, x - 1, y as int);
                assert(seen1[index_of(w, x - 1, y as int)]);
                assert(seen2[index_of(w, x - 1, y as int)]);
                assert(seen3[index_of(w, x - 1, y as int)]);
            }
            if floor_at(cells@, w, h, x + 1, y as int) {
                lemma_index_coord(w, h, x + 1, y as int);
                assert(seen2[index_of(w, x + 1, y as int)]);
                assert(seen3[index_of(w, x + 1, y as int)]);
            }
            if floor_at(cells@, w, h, x as int, y - 1) {
                lemma_index_coord(w, h, x as int, y - 1);
                assert(seen3[index_of(w, x as int, y - 1)]);
            }
        }
        proof {
            assert(seen@[i as int]);
            assert(closed_at(cells@, w, h, seen@, i as int));
            assert forall|j: int|
                0 <= j < w * h && #[trigger] seen@[j] implies stack@.contains(j as usize)
                || j == -1 || closed_at(cells@, w, h, seen@, j) by {
                if j != i as int && !stack@.contains(j as usize) {
                    assert(closed_at(cells@, w, h, seen@, j));
                }
            }
        }
    }
    proof {
        assert forall|j: int| 0 <= j < w * h && #[trigger] seen@[j] implies closed_at(
            cells@,
            w,
            h,
            seen@,
            j,
        ) by {
            assert(!stack@.contains(j as usize));
        }
        if connected(cells@, w, h, s, (goal.x as int, goal.y as int)) {
            let p = choose|p: Seq<(int, int)>|
                #[trigger] is_walk(cells@, w, h, p) && p[0] == s && p[p.len() - 1] == (
                goal.x as int,
                goal.y as int,
            );
            lemma_closed_holds_walk(cells@, w, h, seen@, p, p.len() - 1);
        }
    }
    seen[goal.y * width + goal.x]
}

} // verus!
