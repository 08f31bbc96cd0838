use dungeon_turns::game::{Game, PlayState};
use dungeon_turns::generator::{finish, generate, GenerationError, Layout, Variant};
use dungeon_turns::grid::{Dungeon, Point};
use dungeon_turns::movement::{
    step, Action, InvalidDirectionError, MonsterAISystem, Player, PlayerSystem, Position, RunState,
    MOVE_INTERVAL_MS,
};

/// Row 1 is a corridor from column 1 to 3; (2, 2) is floor below its middle.
fn corridor() -> Dungeon {
    let rows = ["#####", "#...#", "##.##", "#####"];
    let mut walkable = Vec::new();
    for row in rows.iter() {
        for c in row.chars() {
            walkable.push(c == '.');
        }
    }
    let l = Layout { walkable, start: Some(Point::new(1, 1)), exit: Some(Point::new(3, 1)) };
    finish(5, 4, &l).ok().unwrap()
}

#[test]
fn direction_codes() {
    assert_eq!(Action::from_code(0), Ok(Action::MoveUp));
    assert_eq!(Action::from_code(1), Ok(Action::MoveDown));
    assert_eq!(Action::from_code(2), Ok(Action::MoveLeft));
    assert_eq!(Action::from_code(3), Ok(Action::MoveRight));
    assert_eq!(Action::from_code(4), Err(InvalidDirectionError { code: 4 }));
    assert_eq!(Action::from_code(255), Err(InvalidDirectionError { code: 255 }));
}

#[test]
fn position_accessors() {
    let p = Position::new(3, 7);
    assert_eq!(p.col(), 3);
    assert_eq!(p.row(), 7);
    assert_eq!(Position::from_point(&Point::new(4, 5)), Position::new(4, 5));
    let _marker = Player {};
}

#[test]
fn step_onto_floor_and_against_walls() {
    let d = corridor();
    let p = Position::new(2, 1);
    assert_eq!(step(&d, p, Action::MoveLeft), Some(Position::new(1, 1)));
    assert_eq!(step(&d, p, Action::MoveRight), Some(Position::new(3, 1)));
    assert_eq!(step(&d, p, Action::MoveDown), Some(Position::new(2, 2)));
    assert_eq!(step(&d, p, Action::MoveUp), None);
    assert_eq!(step(&d, Position::new(1, 1), Action::MoveLeft), None);
}

#[test]
fn step_at_grid_edges_does_not_wrap() {
    let d = corridor();
    assert_eq!(step(&d, Position::new(0, 0), Action::MoveLeft), None);
    assert_eq!(step(&d, Position::new(0, 0), Action::MoveUp), None);
    assert_eq!(step(&d, Position::new(4, 3), Action::MoveRight), None);
    assert_eq!(step(&d, Position::new(4, 3), Action::MoveDown), None);
    assert_eq!(step(&d, Position::new(usize::MAX, 1), Action::MoveRight), None);
}

#[test]
fn accepted_move_passes_the_turn() {
    let d = corridor();
    let mut sys = PlayerSystem::new(0);
    let mut state = RunState::PlayerTurn;
    let mut pos = Position::new(1, 1);
    assert!(sys.run(&d, &mut state, &mut pos, Action::MoveRight, 250));
    assert_eq!(pos, Position::new(2, 1));
    assert_eq!(state, RunState::MonsterTurn);
    assert_eq!(sys.last_time, 250);
    MonsterAISystem::new().run(&mut state);
    assert_eq!(state, RunState::PlayerTurn);
}

#[test]
fn monster_phase_keeps_player_turn() {
    let mut state = RunState::PlayerTurn;
    MonsterAISystem::new().run(&mut state);
    assert_eq!(state, RunState::PlayerTurn);
}

#[test]
fn move_into_wall_changes_nothing() {
    let d = corridor();
    let mut sys = PlayerSystem::new(0);
    let mut state = RunState::PlayerTurn;
    let mut pos = Position::new(1, 1);
    assert!(!sys.run(&d, &mut state, &mut pos, Action::MoveUp, 1000));
    assert!(!sys.run(&d, &mut state, &mut pos, Action::MoveLeft, 1000));
    assert!(!sys.run(&d, &mut state, &mut pos, Action::MoveDown, 1000));
    assert_eq!(pos, Position::new(1, 1));
    assert_eq!(state, RunState::PlayerTurn);
    assert_eq!(sys.last_time, 0);
}

#[test]
fn move_off_grid_changes_nothing() {
    let d = corridor();
    let mut sys = PlayerSystem::new(0);
    let mut state = RunState::PlayerTurn;
    let mut pos = Position::new(0, 0);
    assert!(!sys.run(&d, &mut state, &mut pos, Action::MoveLeft, 1000));
    assert!(!sys.run(&d, &mut state, &mut pos, Action::MoveUp, 1000));
    assert_eq!(pos, Position::new(0, 0));
    assert_eq!(state, RunState::PlayerTurn);
}

#[test]
fn no_move_on_the_monsters_turn() {
    let d = corridor();
    let mut sys = PlayerSystem::new(0);
    let mut state = RunState::MonsterTurn;
    let mut pos = Position::new(1, 1);
    assert!(!sys.run(&d, &mut state, &mut pos, Action::MoveRight, 1000));
    assert_eq!(pos, Position::new(1, 1));
    assert_eq!(state, RunState::MonsterTurn);
}

#[test]
fn moves_closer_than_the_interval_are_debounced() {
    let d = corridor();
    let mut sys = PlayerSystem::new(0);
    let mut state = RunState::PlayerTurn;
    let mut pos = Position::new(1, 1);
    assert!(sys.run(&d, &mut state, &mut pos, Action::MoveRight, 300));
    MonsterAISystem::new().run(&mut state);
    assert!(!sys.run(&d, &mut state, &mut pos, Action::MoveRight, 300 + MOVE_INTERVAL_MS - 1));
    assert_eq!(pos, Position::new(2, 1));
    assert_eq!(state, RunState::PlayerTurn);
    assert!(sys.run(&d, &mut state, &mut pos, Action::MoveRight, 300 + MOVE_INTERVAL_MS));
    assert_eq!(pos, Position::new(3, 1));
}

#[test]
fn first_move_waits_for_the_interval() {
    let d = corridor();
    let mut sys = PlayerSystem::new(1000);
    let mut state = RunState::PlayerTurn;
    let mut pos = Position::new(1, 1);
    assert!(!sys.run(&d, &mut state, &mut pos, Action::MoveRight, 1199));
    assert!(!sys.run(&d, &mut state, &mut pos, Action::MoveRight, 500));
    assert!(sys.run(&d, &mut state, &mut pos, Action::MoveRight, 1200));
}

#[test]
fn rooms_seed_42_right_move_then_debounce() {
    let d = generate(10, 10, 42, Variant::RoomsAndCorridors).ok().unwrap();
    let again = generate(10, 10, 42, Variant::RoomsAndCorridors).ok().unwrap();
    assert_eq!(d.cells, again.cells);
    assert_eq!(d.start, again.start);
    assert_eq!(d.exit, again.exit);
    let mut sys = PlayerSystem::new(0);
    let mut state = RunState::PlayerTurn;
    let start = Position::from_point(&d.start);
    let mut pos = start;
    let right_is_floor = d.is_floor(start.x + 1, start.y);
    let accepted = sys.run(&d, &mut state, &mut pos, Action::MoveRight, 1000);
    assert_eq!(accepted, right_is_floor);
    if right_is_floor {
        assert_eq!(pos, Position::new(start.x + 1, start.y));
        assert_eq!(state, RunState::MonsterTurn);
        MonsterAISystem::new().run(&mut state);
        let before = pos;
        assert!(!sys.run(&d, &mut state, &mut pos, Action::MoveRight, 1100));
        assert_eq!(pos, before);
        assert_eq!(state, RunState::PlayerTurn);
    } else {
        assert_eq!(pos, start);
        assert_eq!(state, RunState::PlayerTurn);
    }
}

#[test]
fn game_moves_without_turns() {
    let g = Game::new(10, 10, 42);
    let mut g = match g {
        Ok(g) => g,
        Err(e) => panic!("{:?}", e),
    };
    assert_eq!(g.width(), 10);
    assert_eq!(g.height(), 10);
    assert_eq!(g.tiles().len(), 100);
    let start = g.player_pos();
    assert_eq!((start.x, start.y), (g.dungeon.start.x, g.dungeon.start.y));
    let exit = g.exit_pos();
    assert_eq!((exit.x, exit.y), (g.dungeon.exit.x, g.dungeon.exit.y));
    g.tick();
    let right_is_floor = g.dungeon.is_floor(start.x + 1, start.y);
    assert_eq!(g.execute_action(Action::MoveRight), right_is_floor);
    if right_is_floor {
        assert_eq!(g.player_pos(), Position::new(start.x + 1, start.y));
    }
}

#[test]
fn game_too_small_is_an_error() {
    assert_eq!(Game::new(5, 5, 1).err().map(|_| ()), Some(()));
    assert!(matches!(Game::new(5, 5, 1), Err(GenerationError::BadSize)));
}

#[test]
fn play_state_session() {
    for seed in 0..5u64 {
        if let Ok(mut s) = PlayState::on_start(seed, 0) {
            assert_eq!(s.state, RunState::PlayerTurn);
            assert_eq!((s.player.x, s.player.y), (s.dungeon.start.x, s.dungeon.start.y));
            assert_eq!(s.dungeon.width, 80);
            assert_eq!(s.dungeon.height, 50);
            let mut moved = false;
            for a in [Action::MoveUp, Action::MoveDown, Action::MoveLeft, Action::MoveRight] {
                let before = s.player;
                if s.player_input(a, 500) {
                    assert_ne!(s.player, before);
                    assert_eq!(s.state, RunState::MonsterTurn);
                    moved = true;
                    break;
                }
            }
            if moved {
                s.monster_phase();
                assert_eq!(s.state, RunState::PlayerTurn);
            }
            return;
        }
    }
    panic!("no cave level in five seeds");
}
