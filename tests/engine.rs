use automata::board::Board;
use automata::driver::{GUIEvent, RunState, SimulationDriver};
use automata::gol::{build_random, fill_from_bits, load_pattern, GOL};
use automata::impulse::build_ir;
use automata::life::step;

fn sorted(b: &Board) -> Vec<(i32, i32)> {
    let mut v = b.cells();
    v.sort();
    v
}

#[test]
fn same_seed_same_board() {
    let a = GOL::new(16, 69);
    let b = GOL::new(16, 69);
    assert_eq!(sorted(a.board()), sorted(b.board()));
    assert!(!a.board().cells().is_empty());
    assert!(a.board().cells().iter().all(|&(x, y)| (0..16).contains(&x) && (0..16).contains(&y)));
}

#[test]
fn reset_refills_from_seed() {
    let mut a = GOL::new(12, 1);
    a.advance();
    a.reset(7);
    let b = GOL::new(12, 7);
    assert_eq!(sorted(a.board()), sorted(b.board()));
    assert_eq!(a.board().size(), 12);
}

#[test]
fn advance_steps_then_builds() {
    let mut engine = GOL::new(10, 3);
    let mut copy = Board::new(10);
    for c in engine.board().cells() {
        copy.insert(c);
    }
    let ir = engine.advance();
    step(&mut copy, &mut Vec::new(), &mut Vec::new());
    assert_eq!(sorted(engine.board()), sorted(&copy));
    let expected = build_ir(&copy);
    assert_eq!(ir.weights(), expected.weights());
    assert_eq!(ir.total(), expected.total());
    let again = engine.build_ir();
    assert_eq!(again.weights(), expected.weights());
}

#[test]
fn load_pattern_keeps_cells_in_grid() {
    let mut b = Board::new(4);
    b.insert((0, 0));
    load_pattern(&mut b, &[(1, 1), (4, 0), (-1, 2), (3, 3), (1, 1)]);
    assert_eq!(sorted(&b), vec![(1, 1), (3, 3)]);

    let mut engine = GOL::new(4, 0);
    engine.load_pattern(&[(1, 0), (1, 1), (1, 2)]);
    engine.step();
    assert_eq!(sorted(engine.board()), vec![(0, 1), (1, 1), (2, 1)]);
}

#[test]
fn build_random_fills_only_the_grid() {
    let mut engine_rng_board = Board::new(8);
    engine_rng_board.insert((7, 7));
    let mut rng = <rand::rngs::SmallRng as rand::SeedableRng>::seed_from_u64(5);
    build_random(&mut engine_rng_board, &mut rng);
    assert_eq!(engine_rng_board.size(), 8);
    assert!(engine_rng_board.cells().iter().all(|&(x, y)| (0..8).contains(&x) && (0..8).contains(&y)));
}

#[test]
fn play_pause_toggles_and_reset_stops() {
    let mut d = SimulationDriver::new(8, 11);
    assert_eq!(d.state(), RunState::Idle);
    assert!(d.tick().is_none());
    d.handle_event(GUIEvent::PlayPause, 0);
    assert_eq!(d.state(), RunState::Running);
    d.handle_event(GUIEvent::PlayPause, 0);
    assert_eq!(d.state(), RunState::Idle);
    d.handle_event(GUIEvent::PlayPause, 0);
    d.handle_event(GUIEvent::Reset, 11);
    assert_eq!(d.state(), RunState::Idle);
    d.handle_event(GUIEvent::Reset, 11);
    assert_eq!(d.state(), RunState::Idle);
}

#[test]
fn running_tick_advances_one_generation() {
    let mut d = SimulationDriver::new(8, 11);
    let before = sorted(d.engine().board());
    assert!(d.tick().is_none());
    assert_eq!(sorted(d.engine().board()), before);

    d.handle_event(GUIEvent::PlayPause, 0);
    let mut copy = Board::new(8);
    for c in before {
        copy.insert(c);
    }
    step(&mut copy, &mut Vec::new(), &mut Vec::new());
    let ir = d.tick().expect("running");
    assert_eq!(sorted(d.engine().board()), sorted(&copy));
    assert_eq!(ir.weights(), build_ir(&copy).weights());
}

#[test]
fn reset_gives_the_seeded_board() {
    let mut d = SimulationDriver::new(9, 1);
    d.handle_event(GUIEvent::PlayPause, 0);
    d.tick();
    d.handle_event(GUIEvent::Reset, 42);
    let fresh = GOL::new(9, 42);
    assert_eq!(sorted(d.engine().board()), sorted(fresh.board()));
}

fn board_of(size: usize, bits: &[bool]) -> Vec<(i32, i32)> {
    let mut out = Vec::new();
    for x in 0..size {
        for y in 0..size {
            if bits[x * size + y] {
                out.push((x as i32, y as i32));
            }
        }
    }
    out
}

#[test]
fn fill_from_bits_is_row_major() {
    let mut b = Board::new(3);
    b.insert((2, 2));
    let bits = [true, false, false, false, false, true, false, true, false];
    fill_from_bits(&mut b, &bits);
    assert_eq!(sorted(&b), vec![(0, 0), (1, 2), (2, 1)]);
    fill_from_bits(&mut b, &[false; 9]);
    assert!(b.cells().is_empty());
}

#[test]
fn build_random_board_matches_its_bits() {
    let mut b = Board::new(7);
    b.insert((6, 6));
    let mut rng = <rand::rngs::SmallRng as rand::SeedableRng>::seed_from_u64(9);
    let bits = build_random(&mut b, &mut rng);
    assert_eq!(bits.len(), 49);
    assert_eq!(sorted(&b), board_of(7, &bits));
    assert!(bits.iter().any(|&x| x) && bits.iter().any(|&x| !x));
}

#[test]
fn reset_board_matches_returned_bits() {
    let mut engine = GOL::new(6, 2);
    engine.advance();
    let bits = engine.reset(13);
    assert_eq!(bits.len(), 36);
    assert_eq!(sorted(engine.board()), board_of(6, &bits));

    let mut d = SimulationDriver::new(6, 2);
    assert!(d.handle_event(GUIEvent::PlayPause, 0).is_none());
    let bits = d.handle_event(GUIEvent::Reset, 13).expect("reset draws bits");
    assert_eq!(sorted(d.engine().board()), board_of(6, &bits));
    assert_eq!(d.state(), RunState::Idle);
}
