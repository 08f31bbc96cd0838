use dungeon_turns::generator::{
    apply_stage, finish, generate, has_floor, run_pipeline, stages_of, GenerationError, Layout,
    Stage, Variant,
};
use dungeon_turns::grid::{reaches, Cell, Dungeon, Point};
use dungeon_turns::stages::StartArea;

fn walkable_of(rows: &[&str]) -> (usize, usize, Vec<bool>) {
    let width = rows[0].len();
    let height = rows.len();
    let mut walkable = Vec::new();
    for row in rows {
        for c in row.chars() {
            walkable.push(c == '.');
        }
    }
    (width, height, walkable)
}

fn cells_of(rows: &[&str]) -> (usize, usize, Vec<Cell>) {
    let (w, h, walkable) = walkable_of(rows);
    let cells = walkable.iter().map(|&b| if b { Cell::Floor } else { Cell::Wall }).collect();
    (w, h, cells)
}

fn check_level(d: &Dungeon, width: usize, height: usize) {
    assert_eq!(d.width, width);
    assert_eq!(d.height, height);
    assert_eq!(d.cells.len(), width * height);
    assert!(d.start.x < width && d.start.y < height);
    assert!(d.exit.x < width && d.exit.y < height);
    assert!(d.is_floor(d.start.x, d.start.y));
    assert!(d.is_floor(d.exit.x, d.exit.y));
    assert!(reaches(&d.cells, width, height, d.start, d.exit));
}

#[test]
fn rooms_ten_by_ten_seed_42_is_reproducible() {
    let a = generate(10, 10, 42, Variant::RoomsAndCorridors);
    let b = generate(10, 10, 42, Variant::RoomsAndCorridors);
    match (a, b) {
        (Ok(a), Ok(b)) => {
            assert_eq!(a.cells, b.cells);
            assert_eq!(a.start, b.start);
            assert_eq!(a.exit, b.exit);
            check_level(&a, 10, 10);
        }
        (Err(a), Err(b)) => assert_eq!(a, b),
        _ => panic!("two generations from the same seed differ"),
    }
}

#[test]
fn rooms_generation_is_reproducible_over_seeds() {
    for seed in 0..20u64 {
        let a = generate(40, 30, seed, Variant::RoomsAndCorridors);
        let b = generate(40, 30, seed, Variant::RoomsAndCorridors);
        match (a, b) {
            (Ok(a), Ok(b)) => {
                assert_eq!(a.cells, b.cells);
                assert_eq!(a.start, b.start);
                assert_eq!(a.exit, b.exit);
            }
            (Err(a), Err(b)) => assert_eq!(a, b),
            _ => panic!("two generations from the same seed differ"),
        }
    }
}

#[test]
fn caves_generation_is_reproducible() {
    for seed in 0..5u64 {
        let a = generate(80, 50, seed, Variant::CellularAutomata);
        let b = generate(80, 50, seed, Variant::CellularAutomata);
        match (a, b) {
            (Ok(a), Ok(b)) => {
                assert_eq!(a.cells, b.cells);
                assert_eq!(a.start, b.start);
                assert_eq!(a.exit, b.exit);
            }
            (Err(a), Err(b)) => assert_eq!(a, b),
            _ => panic!("two generations from the same seed differ"),
        }
    }
}

#[test]
fn generated_levels_are_in_bounds_on_floor_and_connected() {
    let mut made = 0;
    for seed in 0..20u64 {
        if let Ok(d) = generate(40, 30, seed, Variant::RoomsAndCorridors) {
            check_level(&d, 40, 30);
            made += 1;
        }
        if let Ok(d) = generate(80, 50, seed, Variant::CellularAutomata) {
            check_level(&d, 80, 50);
            made += 1;
        }
    }
    assert!(made > 0);
}

#[test]
fn different_seeds_give_different_rooms() {
    let a = generate(40, 30, 1, Variant::RoomsAndCorridors);
    let b = generate(40, 30, 2, Variant::RoomsAndCorridors);
    if let (Ok(a), Ok(b)) = (a, b) {
        assert!(a.cells != b.cells || a.start != b.start || a.exit != b.exit);
    }
}

#[test]
fn empty_grid_is_rejected() {
    assert_eq!(generate(0, 10, 1, Variant::CellularAutomata).err(), Some(GenerationError::BadSize));
    assert_eq!(generate(10, 0, 1, Variant::RoomsAndCorridors).err(), Some(GenerationError::BadSize));
}

#[test]
fn grid_too_large_to_index_is_rejected() {
    assert_eq!(
        generate(usize::MAX, 2, 1, Variant::CellularAutomata).err(),
        Some(GenerationError::BadSize)
    );
}

#[test]
fn rooms_need_ten_cells_each_way() {
    assert_eq!(generate(9, 20, 3, Variant::RoomsAndCorridors).err(), Some(GenerationError::BadSize));
    assert_eq!(generate(20, 9, 3, Variant::RoomsAndCorridors).err(), Some(GenerationError::BadSize));
}

#[test]
fn tiny_caves_have_no_floor() {
    assert_eq!(generate(2, 2, 7, Variant::CellularAutomata).err(), Some(GenerationError::NoFloor));
}

#[test]
fn variant_stage_lists() {
    assert_eq!(
        stages_of(Variant::RoomsAndCorridors),
        vec![Stage::CarveRooms, Stage::PlaceStart(StartArea::TopLeft), Stage::PlaceExit]
    );
    assert_eq!(
        stages_of(Variant::CellularAutomata),
        vec![
            Stage::CarveCaves,
            Stage::PlaceStart(StartArea::Center),
            Stage::CullUnreachable,
            Stage::PlaceExit
        ]
    );
}

#[test]
fn stages_needing_a_start_fail_without_one() {
    assert_eq!(run_pipeline(5, 5, 0, &vec![Stage::PlaceExit]).err(), Some(GenerationError::MissingStart));
    assert_eq!(
        run_pipeline(5, 5, 0, &vec![Stage::CullUnreachable]).err(),
        Some(GenerationError::MissingStart)
    );
    assert_eq!(
        run_pipeline(5, 5, 0, &vec![Stage::PlaceStart(StartArea::Center)]).err(),
        Some(GenerationError::NoFloor)
    );
}

#[test]
fn empty_pipeline_leaves_a_blank_grid() {
    let l = run_pipeline(3, 2, 0, &vec![]).ok().unwrap();
    assert_eq!(l.walkable, vec![false; 6]);
    assert_eq!(l.start, None);
    assert_eq!(l.exit, None);
}

#[test]
fn carving_rooms_makes_floor() {
    let blank = Layout { walkable: vec![false; 400], start: None, exit: None };
    let l = apply_stage(20, 20, 5, blank, Stage::CarveRooms).ok().unwrap();
    assert_eq!(l.walkable.len(), 400);
    assert!(has_floor(&l.walkable));
}

#[test]
fn carving_caves_keeps_the_size() {
    let blank = Layout { walkable: vec![false; 4000], start: None, exit: None };
    let l = apply_stage(80, 50, 5, blank, Stage::CarveCaves).ok().unwrap();
    assert_eq!(l.walkable.len(), 4000);
    assert!(has_floor(&l.walkable));
    assert!(!l.walkable[0]);
}

#[test]
fn start_is_the_floor_nearest_the_area() {
    let (w, h, walkable) = walkable_of(&["######", "##.###", "######", "######", "####.#", "######"]);
    let l = Layout { walkable: walkable.clone(), start: None, exit: None };
    let l = apply_stage(w, h, 0, l, Stage::PlaceStart(StartArea::TopLeft)).ok().unwrap();
    assert_eq!(l.start, Some(Point::new(2, 1)));
    let l = Layout { walkable, start: None, exit: None };
    let l = apply_stage(w, h, 0, l, Stage::PlaceStart(StartArea::Center)).ok().unwrap();
    assert_eq!(l.start, Some(Point::new(4, 4)));
}

#[test]
fn culling_walls_up_what_the_start_cannot_reach() {
    let (w, h, walkable) = walkable_of(&["#######", "#..#..#", "#######"]);
    let l = Layout { walkable, start: Some(Point::new(1, 1)), exit: None };
    let l = apply_stage(w, h, 0, l, Stage::CullUnreachable).ok().unwrap();
    let (_, _, expected) = walkable_of(&["#######", "#..####", "#######"]);
    assert_eq!(l.walkable, expected);
}

#[test]
fn exit_is_the_far_end_of_a_corridor() {
    let (w, h, walkable) = walkable_of(&["#####", "#...#", "#####"]);
    let l = Layout { walkable, start: Some(Point::new(1, 1)), exit: None };
    let l = apply_stage(w, h, 0, l, Stage::PlaceExit).ok().unwrap();
    assert_eq!(l.exit, Some(Point::new(3, 1)));
    assert_eq!(l.start, Some(Point::new(1, 1)));
}

#[test]
fn finish_accepts_a_connected_layout() {
    let (w, h, walkable) = walkable_of(&["#####", "#...#", "#####"]);
    let l = Layout { walkable, start: Some(Point::new(1, 1)), exit: Some(Point::new(3, 1)) };
    let d = finish(w, h, &l).ok().unwrap();
    assert_eq!(d.cells[6], Cell::Floor);
    assert_eq!(d.cells[0], Cell::Wall);
    check_level(&d, 5, 3);
}

#[test]
fn finish_errors() {
    let (w, h, walkable) = walkable_of(&["#####", "#.#.#", "#####"]);
    let l = |s: Option<Point>, e: Option<Point>| Layout { walkable: walkable.clone(), start: s, exit: e };
    assert_eq!(finish(w, h + 1, &l(None, None)).err(), Some(GenerationError::BadSize));
    assert_eq!(finish(w, h, &l(None, None)).err(), Some(GenerationError::MissingStart));
    assert_eq!(
        finish(w, h, &l(Some(Point::new(0, 0)), None)).err(),
        Some(GenerationError::InvalidStart)
    );
    assert_eq!(
        finish(w, h, &l(Some(Point::new(9, 1)), None)).err(),
        Some(GenerationError::InvalidStart)
    );
    assert_eq!(
        finish(w, h, &l(Some(Point::new(1, 1)), None)).err(),
        Some(GenerationError::MissingExit)
    );
    assert_eq!(
        finish(w, h, &l(Some(Point::new(1, 1)), Some(Point::new(2, 1)))).err(),
        Some(GenerationError::ExitUnreachable)
    );
    assert_eq!(
        finish(w, h, &l(Some(Point::new(1, 1)), Some(Point::new(3, 1)))).err(),
        Some(GenerationError::ExitUnreachable)
    );
    assert_eq!(
        finish(w, h, &l(Some(Point::new(1, 1)), Some(Point::new(1, 7)))).err(),
        Some(GenerationError::ExitUnreachable)
    );
}

#[test]
fn flood_fill_follows_floor_orthogonally() {
    let (w, h, cells) = cells_of(&["#####", "#..##", "##.##", "##..#", "#.###"]);
    assert!(reaches(&cells, w, h, Point::new(1, 1), Point::new(3, 3)));
    assert!(reaches(&cells, w, h, Point::new(1, 1), Point::new(1, 1)));
    assert!(!reaches(&cells, w, h, Point::new(1, 1), Point::new(1, 4)));
    assert!(!reaches(&cells, w, h, Point::new(1, 1), Point::new(0, 0)));
}

#[test]
fn has_floor_finds_any_walkable_cell() {
    assert!(!has_floor(&vec![]));
    assert!(!has_floor(&vec![false, false]));
    assert!(has_floor(&vec![false, true]));
}

#[test]
fn tile_codes_are_zero_for_floor_one_for_wall() {
    let (w, h, walkable) = walkable_of(&["#####", "#...#", "#####"]);
    let l = Layout { walkable, start: Some(Point::new(1, 1)), exit: Some(Point::new(3, 1)) };
    let d = finish(w, h, &l).ok().unwrap();
    assert_eq!(d.tile_codes(), vec![1, 1, 1, 1, 1, 1, 0, 0, 0, 1, 1, 1, 1, 1, 1]);
    assert_eq!(Cell::Floor.code(), 0);
    assert_eq!(Cell::Wall.code(), 1);
}
