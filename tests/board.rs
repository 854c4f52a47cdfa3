use automata::board::Board;

#[test]
fn insert_remove_contains() {
    let mut b = Board::new(4);
    assert_eq!(b.size(), 4);
    assert!(!b.contains(&(1, 2)));
    b.insert((1, 2));
    b.insert((1, 2));
    b.insert((3, 0));
    assert!(b.contains(&(1, 2)));
    assert!(!b.contains(&(2, 1)));
    let mut cells = b.cells();
    cells.sort();
    assert_eq!(cells, vec![(1, 2), (3, 0)]);
    b.remove(&(1, 2));
    b.remove(&(0, 0));
    assert_eq!(b.cells(), vec![(3, 0)]);
    b.clear();
    assert!(b.cells().is_empty());
}

#[test]
fn cells_far_apart_are_distinct() {
    let mut b = Board::new(2147483647);
    b.insert((0, 2147483646));
    b.insert((2147483646, 0));
    b.insert((0, 0));
    assert!(!b.contains(&(2147483646, 2147483646)));
    let mut cells = b.cells();
    cells.sort();
    assert_eq!(cells, vec![(0, 0), (0, 2147483646), (2147483646, 0)]);
}
