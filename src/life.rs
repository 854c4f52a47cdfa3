use vstd::prelude::*;

use crate::board::Board;
use crate::grid::{find_neighbors, in_grid, lemma_neighbors_in_grid, lemma_neighbors_symmetric, neighbors, Cell, MAX_SIDE};

verus! {

broadcast use vstd::seq_lib::lemma_seq_contains_after_push;

/// How many entries of `s` are live in `b`, counted with repetition.
pub open spec fn count_live(b: Set<Cell>, s: Seq<Cell>) -> nat
    decreases s.len(),
{
    if s.len() == 0 {
        0
    } else {
        count_live(b, s.drop_last()) + if b.contains(s.last()) { 1nat } else { 0nat }
    }
}

/// The number of live Moore neighbours of `c` on the torus of side `n`.
pub open spec fn live_neighbors(b: Set<Cell>, c: Cell, n: int) -> nat {
    count_live(b, neighbors(c, n))
}

/// The birth/survival rule: whether `c` is live in the generation after `b`.
pub open spec fn lives_next(b: Set<Cell>, c: Cell, n: int) -> bool {
    if b.contains(c) {
        live_neighbors(b, c, n) == 2 || live_neighbors(b, c, n) == 3
    } else {
        live_neighbors(b, c, n) == 3
    }
}

/// The generation after `b` on the torus of side `n`.
pub open spec fn next_gen(b: Set<Cell>, n: int) -> Set<Cell> {
    Set::new(|c: Cell| in_grid(c, n) && lives_next(b, c, n))
}

/// Whether `c` is one of the eight neighbours of `l`.
pub open spec fn adjacent(l: Cell, c: Cell, n: int) -> bool {
    exists|k: int| 0 <= k < 8 && #[trigger] neighbors(l, n)[k] == c
}

/// Whether `c` is a neighbour of some cell of `s`.
pub open spec fn touches(s: Seq<Cell>, c: Cell, n: int) -> bool {
    exists|j: int| 0 <= j < s.len() && #[trigger] adjacent(s[j], c, n)
}

/// One more element taken from `s` adds exactly that element.
pub proof fn lemma_take_one_more(s: Seq<Cell>, k: int)
    requires
        0 <= k < s.len(),
    ensures
        forall|c: Cell| #[trigger]
            s.take(k + 1).contains(c) <==> (s.take(k).contains(c) || s[k] == c),
{
    assert forall|c: Cell| #[trigger]
        s.take(k + 1).contains(c) <==> (s.take(k).contains(c) || s[k] == c) by {
        let next = s.take(k + 1);
        let prev = s.take(k);
        if next.contains(c) {
            let j = choose|j: int| 0 <= j < next.len() && next[j] == c;
            if j < k {
                assert(prev[j] == c);
            }
        }
        if prev.contains(c) {
            let j = choose|j: int| 0 <= j < prev.len() && prev[j] == c;
            assert(next[j] == c);
        }
        if s[k] == c {
            assert(next[k] == c);
        }
    }
}

/// A cell with a live neighbour count above zero has a live neighbour.
proof fn lemma_count_live_witness(b: Set<Cell>, s: Seq<Cell>)
    requires
        count_live(b, s) > 0,
    ensures
        exists|k: int| 0 <= k < s.len() && b.contains(#[trigger] s[k]),
    decreases s.len(),
{
    if !b.contains(s.last()) {
        lemma_count_live_witness(b, s.drop_last());
        let k = choose|k: int| 0 <= k < s.drop_last().len() && b.contains(#[trigger] s.drop_last()[k]);
        assert(s[k] == s.drop_last()[k]);
    }
}

/// Nothing counts as live in an empty board.
proof fn lemma_count_live_empty(s: Seq<Cell>)
    ensures
        count_live(Set::<Cell>::empty(), s) == 0,
    decreases s.len(),
{
    if s.len() > 0 {
        lemma_count_live_empty(s.drop_last());
    }
}

/// Adjacency on the torus is symmetric.
proof fn lemma_adjacent_symmetric(l: Cell, c: Cell, n: int)
    requires
        0 < n <= MAX_SIDE,
        in_grid(l, n),
        in_grid(c, n),
    ensures
        adjacent(l, c, n) == adjacent(c, l, n),
{
    if adjacent(l, c, n) {
        let k = choose|k: int| 0 <= k < 8 && #[trigger] neighbors(l, n)[k] == c;
        lemma_neighbors_symmetric(l, n, k);
        assert(neighbors(c, n)[7 - k] == l);
    }
    if adjacent(c, l, n) {
        let k = choose|k: int| 0 <= k < 8 && #[trigger] neighbors(c, n)[k] == l;
        lemma_neighbors_symmetric(c, n, k);
        assert(neighbors(l, n)[7 - k] == c);
    }
}

/// The number of live neighbours of `pos` on `board`.
pub fn count_live_neighbors(board: &Board, pos: &Cell) -> (r: u8)
    requires
        board.wf(),
        in_grid(*pos, board.side()),
    ensures
        r == live_neighbors(board@, *pos, board.side()),
        r <= 8,
{
    let nb = find_neighbors(pos, board.size());
    let mut count: u8 = 0;
    let mut k: usize = 0;
    while k < 8
        invariant
            k <= 8,
            count <= k,
            nb@ == neighbors(*pos, board.side()),
            count == count_live(board@, nb@.take(k as int)),
        decreases 8 - k,
    {
        assert(nb@.take(k + 1).drop_last() =~= nb@.take(k as int));
        if board.contains(&nb[k]) {
            count = count + 1;
        }
        k = k + 1;
    }
    assert(nb@.take(8) =~= nb@);
    count
}

/// Advances `current_board` by one generation under the birth/survival rule.
///
/// Only live cells and their neighbours are visited. Each dead neighbour is
/// counted once; the cells that die and the cells that are born are gathered
/// in `dying` and `born` first, and applied after the whole pass, so that the
/// pass reads only the old generation. Both buffers are left empty.
pub fn step(current_board: &mut Board, born: &mut Vec<Cell>, dying: &mut Vec<Cell>)
    requires
        old(current_board).wf(),
    ensures
        final(current_board).wf(),
        final(current_board).side() == old(current_board).side(),
        final(current_board)@ == next_gen(old(current_board)@, old(current_board).side()),
        final(born)@.len() == 0,
        final(dying)@.len() == 0,
{
    born.clear();
    dying.clear();
    let size = current_board.size();
    let ghost n = size as int;
    let ghost b = current_board@;
    let cells = current_board.cells();
    let mut examined = Board::new(size);
    let mut i: usize = 0;
    while i < cells.len()
        invariant
            0 < n <= MAX_SIDE,
            n == size,
            i <= cells.len(),
            current_board@ == b,
            current_board.wf(),
            current_board.side() == n,
            cells@.to_set() == b,
            examined.wf(),
            examined.side() == n,
            forall|c: Cell| #[trigger]
                dying@.contains(c) <==> (cells@.take(i as int).contains(c) && !lives_next(b, c, n)),
            forall|c: Cell| #[trigger]
                examined@.contains(c) <==> (in_grid(c, n) && !b.contains(c) && touches(
                    cells@.take(i as int),
                    c,
                    n,
                )),
            forall|c: Cell| #[trigger]
                born@.contains(c) <==> (examined@.contains(c) && live_neighbors(b, c, n) == 3),
        decreases cells.len() - i,
    {
        let cell = cells[i];
        assert(b.contains(cell)) by {
            assert(cells@.to_set().contains(cell));
        }
        let nb = find_neighbors(&cell, size);
        proof {
            lemma_neighbors_in_grid(cell, n);
        }
        let ghost prev = cells@.take(i as int);
        let ghost next = cells@.take(i + 1);
        assert(forall|j: int| 0 <= j < i ==> next[j] == prev[j]);
        assert(next[i as int] == cell);
        let mut living: u8 = 0;
        let mut k: usize = 0;
        while k < 8
            invariant
                0 < n <= MAX_SIDE,
                n == size,
                k <= 8,
                i < cells.len(),
                living <= k,
                forall|c: Cell| #[trigger]
                    dying@.contains(c) <==> (prev.contains(c) && !lives_next(b, c, n)),
                prev == cells@.take(i as int),
                in_grid(cell, n),
                b.contains(cell),
                nb@ == neighbors(cell, n),
                forall|q: int| 0 <= q < 8 ==> #[trigger] in_grid(nb@[q], n),
                living == count_live(b, nb@.take(k as int)),
                current_board@ == b,
                current_board.wf(),
                current_board.side() == n,
                examined.wf(),
                examined.side() == n,
                forall|c: Cell| #[trigger]
                    examined@.contains(c) <==> (in_grid(c, n) && !b.contains(c) && (touches(
                        prev,
                        c,
                        n,
                    ) || nb@.take(k as int).contains(c))),
                forall|c: Cell| #[trigger]
                    born@.contains(c) <==> (examined@.contains(c) && live_neighbors(b, c, n)
                        == 3),
            decreases 8 - k,
        {
            let neighbor = nb[k];
            assert(nb@.take(k + 1).drop_last() =~= nb@.take(k as int));
            if current_board.contains(&neighbor) {
                living = living + 1;
            } else if !examined.contains(&neighbor) {
                let around = count_live_neighbors(current_board, &neighbor);
                examined.insert(neighbor);
                if around == 3 {
                    born.push(neighbor);
                }
            }
            proof {
                lemma_take_one_more(nb@, k as int);
            }
            k = k + 1;
        }
        assert(nb@.take(8) =~= nb@);
        if living > 3 || living < 2 {
            dying.push(cell);
        }
        proof {
            lemma_take_one_more(cells@, i as int);
            assert forall|c: Cell| #[trigger]
                examined@.contains(c) <==> (in_grid(c, n) && !b.contains(c) && touches(
                    next,
                    c,
                    n,
                )) by {
                if in_grid(c, n) {
                    lemma_adjacent_symmetric(cell, c, n);
                    if nb@.contains(c) {
                        let q = choose|q: int| 0 <= q < 8 && nb@[q] == c;
                        assert(neighbors(cell, n)[q] == c);
                        assert(adjacent(next[i as int], c, n));
                    }
                    if touches(next, c, n) {
                        let j = choose|j: int| 0 <= j < next.len() && #[trigger] adjacent(next[j], c, n);
                        if j < i {
                            assert(adjacent(prev[j], c, n));
                        } else {
                            let q = choose|q: int| 0 <= q < 8 && #[trigger] neighbors(cell, n)[q] == c;
                            assert(nb@[q] == c);
                        }
                    }
                    if touches(prev, c, n) {
                        let j = choose|j: int| 0 <= j < prev.len() && #[trigger] adjacent(prev[j], c, n);
                        assert(adjacent(next[j], c, n));
                    }
                }
            }
        }
        i = i + 1;
    }
    assert(cells@.take(cells.len() as int) =~= cells@);
    let mut d: usize = 0;
    while d < dying.len()
        invariant
            0 < n <= MAX_SIDE,
            n == size,
            d <= dying.len(),
            current_board.wf(),
            current_board.side() == n,
            forall|c: Cell| #[trigger]
                current_board@.contains(c) <==> (b.contains(c) && !dying@.take(d as int).contains(c)),
        decreases dying.len() - d,
    {
        let gone = dying[d];
        current_board.remove(&gone);
        proof {
            lemma_take_one_more(dying@, d as int);
        }
        d = d + 1;
    }
    assert(dying@.take(dying.len() as int) =~= dying@);
    let mut e: usize = 0;
    while e < born.len()
        invariant
            0 < n <= MAX_SIDE,
            n == size,
            e <= born.len(),
            current_board.wf(),
            current_board.side() == n,
            forall|c: Cell| #[trigger]
                born@.contains(c) <==> (examined@.contains(c) && live_neighbors(b, c, n) == 3),
            forall|c: Cell| #[trigger]
                examined@.contains(c) ==> in_grid(c, n),
            forall|c: Cell| #[trigger]
                current_board@.contains(c) <==> ((b.contains(c) && !dying@.contains(c))
                    || born@.take(e as int).contains(c)),
        decreases born.len() - e,
    {
        let new_cell = born[e];
        assert(born@.contains(new_cell));
        current_board.insert(new_cell);
        proof {
            lemma_take_one_more(born@, e as int);
        }
        e = e + 1;
    }
    assert(born@.take(born.len() as int) =~= born@);
    proof {
        assert forall|c: Cell| #[trigger]
            current_board@.contains(c) == next_gen(b, n).contains(c) by {
            if b.contains(c) {
                assert(cells@.to_set().contains(c));
            } else if in_grid(c, n) && live_neighbors(b, c, n) == 3 {
                lemma_count_live_witness(b, neighbors(c, n));
                let k = choose|k: int| 0 <= k < 8 && b.contains(#[trigger] neighbors(c, n)[k]);
                let l = neighbors(c, n)[k];
                assert(cells@.to_set().contains(l));
                let j = choose|j: int| 0 <= j < cells@.len() && cells@[j] == l;
                lemma_neighbors_in_grid(c, n);
                assert(in_grid(l, n));
                assert(adjacent(c, l, n));
                lemma_adjacent_symmetric(c, l, n);
                assert(adjacent(cells@[j], c, n));
            }
        }
        assert(current_board@ =~= next_gen(b, n));
    }
    born.clear();
    dying.clear();
}

/// An empty board stays empty: no cell is born without live neighbours.
pub proof fn empty_board_stays_empty(n: int)
    ensures
        next_gen(Set::<Cell>::empty(), n) == Set::<Cell>::empty(),
{
    assert forall|c: Cell| !#[trigger] next_gen(Set::<Cell>::empty(), n).contains(c) by {
        lemma_count_live_empty(neighbors(c, n));
    }
    assert(next_gen(Set::<Cell>::empty(), n) =~= Set::<Cell>::empty());
}

/// For every board and every cell of the grid: a live cell survives exactly
/// when it has two or three live neighbours, a dead cell becomes live exactly
/// when it has three; no cell outside the grid is ever live.
pub proof fn generation_follows_rule(b: Set<Cell>, n: int, c: Cell)
    ensures
        in_grid(c, n) && b.contains(c) ==> (next_gen(b, n).contains(c) <==> (live_neighbors(b, c, n)
            == 2 || live_neighbors(b, c, n) == 3)),
        in_grid(c, n) && !b.contains(c) ==> (next_gen(b, n).contains(c) <==> live_neighbors(b, c, n)
            == 3),
        !in_grid(c, n) ==> !next_gen(b, n).contains(c),
{
}

/// The generation after `board`, found by visiting every cell of the grid.
pub fn next_generation_full_scan(board: &Board) -> (r: Board)
    requires
        board.wf(),
    ensures
        r.wf(),
        r.side() == board.side(),
        r@ == next_gen(board@, board.side()),
{
    let size = board.size();
    let ghost n = size as int;
    let mut out = Board::new(size);
    let mut x: usize = 0;
    while x < size
        invariant
            0 < n <= MAX_SIDE,
            n == size,
            n == board.side(),
            board.wf(),
            x <= size,
            out.wf(),
            out.side() == n,
            forall|c: Cell| #[trigger]
                out@.contains(c) <==> (next_gen(board@, n).contains(c) && c.0 < x),
        decreases size - x,
    {
        let mut y: usize = 0;
        while y < size
            invariant
                0 < n <= MAX_SIDE,
                n == size,
                n == board.side(),
                board.wf(),
                x < size,
                y <= size,
                out.wf(),
                out.side() == n,
                forall|c: Cell| #[trigger]
                    out@.contains(c) <==> (next_gen(board@, n).contains(c) && (c.0 < x || (c.0
                        == x && c.1 < y))),
            decreases size - y,
        {
            let c: Cell = (x as i32, y as i32);
            let live = board.contains(&c);
            let around = count_live_neighbors(board, &c);
            if (live && (around == 2 || around == 3)) || (!live && around == 3) {
                out.insert(c);
            }
            y = y + 1;
        }
        x = x + 1;
    }
    assert(out@ =~= next_gen(board@, n));
    out
}

} // verus!
