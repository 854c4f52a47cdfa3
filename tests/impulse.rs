use automata::board::Board;
use automata::impulse::build_ir;

#[test]
fn empty_board_gives_unit_impulse() {
    let b = Board::new(5);
    let ir = build_ir(&b);
    assert_eq!(ir.weights(), &vec![1, 0, 0, 0, 0]);
    assert_eq!(ir.total(), 1);
    let taps: Vec<f32> = ir.weights().iter().map(|&w| w as f32 / ir.total() as f32).collect();
    assert!(taps.iter().all(|t| t.is_finite()));
    assert_eq!(taps.iter().sum::<f32>(), 1.0);
}

#[test]
fn rows_and_columns_both_count() {
    let mut b = Board::new(3);
    b.insert((0, 1));
    b.insert((2, 0));
    let ir = build_ir(&b);
    assert_eq!(ir.weights(), &vec![2, 1, 1]);
    assert_eq!(ir.total(), 4);
}

#[test]
fn diagonal_cell_counts_twice() {
    let mut b = Board::new(2);
    b.insert((1, 1));
    let ir = build_ir(&b);
    assert_eq!(ir.weights(), &vec![0, 2]);
    assert_eq!(ir.total(), 2);
}

#[test]
fn full_board_is_flat() {
    let mut b = Board::new(4);
    for x in 0..4 {
        for y in 0..4 {
            b.insert((x, y));
        }
    }
    let ir = build_ir(&b);
    assert_eq!(ir.weights(), &vec![8, 8, 8, 8]);
    assert_eq!(ir.total(), 32);
}
