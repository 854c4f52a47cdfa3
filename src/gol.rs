use rand::rngs::SmallRng;
use rand::{Rng, SeedableRng};
use vstd::prelude::*;

use crate::board::Board;
use crate::grid::{in_grid, Cell, MAX_SIDE};
use crate::impulse::{build_ir, ir_of, seq_sum, ImpulseResponse};
use crate::life::{lemma_take_one_more, next_gen, step};

verus! {

#[verifier::external_type_specification]
#[verifier::external_body]
pub struct ExSmallRng(SmallRng);

/// Relies on rand's `SeedableRng::seed_from_u64` for `SmallRng`: a generator
/// whose state comes from `seed` alone.
#[verifier::external_body]
fn seeded_rng(seed: u64) -> (r: SmallRng) {
    SmallRng::seed_from_u64(seed)
}

/// Relies on rand's `Rng::gen::<bool>`: one random bit, nothing known of it.
#[verifier::external_body]
fn random_bit(rng: &mut SmallRng) -> (r: bool) {
    rng.gen::<bool>()
}

/// The board of side `n` whose cell `(x, y)` is live exactly when bit
/// `x * n + y` is set: the bits in row-major order.
pub open spec fn board_of_bits(bits: Seq<bool>, n: int) -> Set<Cell> {
    Set::new(|c: Cell| in_grid(c, n) && bits[c.0 * n + c.1])
}

/// Whether `b` is the board of side `n` made from some `n * n` bits.
pub open spec fn is_bit_fill(b: Set<Cell>, n: int) -> bool {
    exists|bits: Seq<bool>| bits.len() == n * n && b == #[trigger] board_of_bits(bits, n)
}

/// Replaces the board by the one that `bits` describe: cell `(x, y)` is live
/// exactly when `bits[x * side + y]` is set.
pub fn fill_from_bits(board: &mut Board, bits: &[bool])
    requires
        old(board).wf(),
        bits@.len() == old(board).side() * old(board).side(),
    ensures
        final(board).wf(),
        final(board).side() == old(board).side(),
        final(board)@ == board_of_bits(bits@, old(board).side()),
{
    board.clear();
    let size = board.size();
    let ghost n = size as int;
    let mut k: usize = 0;
    let mut i: usize = 0;
    while i < size
        invariant
            board.wf(),
            board.side() == n,
            n == size,
            0 < n,
            bits@.len() == n * n,
            i <= size,
            k == i * n,
            forall|c: Cell| #[trigger]
                board@.contains(c) <==> (in_grid(c, n) && c.0 < i && bits@[c.0 * n + c.1]),
        decreases size - i,
    {
        let mut j: usize = 0;
        while j < size
            invariant
                board.wf(),
                board.side() == n,
                n == size,
                0 < n,
                bits@.len() == n * n,
                i < size,
                j <= size,
                k == i * n + j,
                forall|c: Cell| #[trigger]
                    board@.contains(c) <==> (in_grid(c, n) && (c.0 < i || (c.0 == i && c.1 < j))
                        && bits@[c.0 * n + c.1]),
            decreases size - j,
        {
            assert(k < n * n) by (nonlinear_arith)
                requires
                    k == i * n + j,
                    i < n,
                    j < n,
            ;
            if bits[k] {
                board.insert((i as i32, j as i32));
            }
            k = k + 1;
            j = j + 1;
        }
        assert(k == (i + 1) * n) by (nonlinear_arith)
            requires
                k == i * n + n,
        ;
        i = i + 1;
    }
    assert(board@ =~= board_of_bits(bits@, n));
}

/// Clears `board`, then makes each cell of its grid live or dead by one
/// random bit drawn from `rng`, in row-major order. Returns the bits drawn.
pub fn build_random(board: &mut Board, rng: &mut SmallRng) -> (bits: Vec<bool>)
    requires
        old(board).wf(),
    ensures
        final(board).wf(),
        final(board).side() == old(board).side(),
        bits@.len() == old(board).side() * old(board).side(),
        final(board)@ == board_of_bits(bits@, old(board).side()),
        is_bit_fill(final(board)@, old(board).side()),
{
    let size = board.size();
    let ghost n = size as int;
    let mut bits: Vec<bool> = Vec::new();
    let mut i: usize = 0;
    while i < size
        invariant
            n == size,
            i <= size,
            bits@.len() == i * n,
        decreases size - i,
    {
        let mut j: usize = 0;
        while j < size
            invariant
                n == size,
                i < size,
                j <= size,
                bits@.len() == i * n + j,
            decreases size - j,
        {
            bits.push(random_bit(rng));
            j = j + 1;
        }
        assert(bits@.len() == (i + 1) * n) by (nonlinear_arith)
            requires
                bits@.len() == i * n + n,
        ;
        i = i + 1;
    }
    fill_from_bits(board, &bits);
    assert(board_of_bits(bits@, n) == board@);
    bits
}

/// Makes exactly the cells of `pattern` that lie in the grid live.
pub fn load_pattern(board: &mut Board, pattern: &[Cell])
    requires
        old(board).wf(),
    ensures
        final(board).wf(),
        final(board).side() == old(board).side(),
        final(board)@ == pattern@.to_set().filter(|c: Cell| in_grid(c, old(board).side())),
{
    board.clear();
    let size = board.size();
    let ghost n = size as int;
    let mut k: usize = 0;
    while k < pattern.len()
        invariant
            board.wf(),
            board.side() == n,
            n == size,
            k <= pattern@.len(),
            forall|c: Cell| #[trigger]
                board@.contains(c) <==> (pattern@.take(k as int).contains(c) && in_grid(c, n)),
        decreases pattern.len() - k,
    {
        let c = pattern[k];
        let (x, y) = c;
        if 0 <= x && (x as usize) < size && 0 <= y && (y as usize) < size {
            board.insert(c);
        }
        proof {
            lemma_take_one_more(pattern@, k as int);
        }
        k = k + 1;
    }
    assert(pattern@.take(pattern@.len() as int) =~= pattern@);
    assert(board@ =~= pattern@.to_set().filter(|c: Cell| in_grid(c, n)));
}

/// The automaton engine: a board of fixed side, its own seeded generator for
/// random fills, and the scratch buffers that a generation needs.
pub struct GOL {
    current_board: Board,
    rng: SmallRng,
    born: Vec<Cell>,
    dying: Vec<Cell>,
}

impl GOL {
    /// The current generation.
    pub closed spec fn spec_board(&self) -> Board {
        self.current_board
    }

    pub open spec fn wf(&self) -> bool {
        self.spec_board().wf()
    }

    /// An engine with a board of side `size`, randomly filled by a generator
    /// seeded with `seed`.
    pub fn new(size: usize, seed: u64) -> (r: GOL)
        requires
            0 < size <= MAX_SIDE,
        ensures
            r.wf(),
            r.spec_board().side() == size,
            is_bit_fill(r.spec_board()@, size as int),
    {
        let mut rng = seeded_rng(seed);
        let mut current_board = Board::new(size);
        build_random(&mut current_board, &mut rng);
        GOL { current_board, rng, born: Vec::new(), dying: Vec::new() }
    }

    /// The current generation.
    pub fn board(&self) -> (r: &Board)
        ensures
            *r == self.spec_board(),
    {
        &self.current_board
    }

    /// Advances the board by one generation.
    pub fn step(&mut self)
        requires
            old(self).wf(),
        ensures
            final(self).wf(),
            final(self).spec_board().side() == old(self).spec_board().side(),
            final(self).spec_board()@ == next_gen(
                old(self).spec_board()@,
                old(self).spec_board().side(),
            ),
    {
        step(&mut self.current_board, &mut self.born, &mut self.dying);
    }

    /// Advances the board by one generation and returns the impulse response
    /// of the new generation.
    pub fn advance(&mut self) -> (r: ImpulseResponse)
        requires
            old(self).wf(),
        ensures
            final(self).wf(),
            final(self).spec_board().side() == old(self).spec_board().side(),
            final(self).spec_board()@ == next_gen(
                old(self).spec_board()@,
                old(self).spec_board().side(),
            ),
            r.wf(),
            r.spec_weights() == ir_of(final(self).spec_board()@, final(self).spec_board().side()),
            r.spec_total() == seq_sum(
                ir_of(final(self).spec_board()@, final(self).spec_board().side()),
            ),
    {
        self.step();
        build_ir(&self.current_board)
    }

    /// The impulse response of the current generation.
    pub fn build_ir(&self) -> (r: ImpulseResponse)
        requires
            self.wf(),
        ensures
            r.wf(),
            r.spec_weights() == ir_of(self.spec_board()@, self.spec_board().side()),
            r.spec_total() == seq_sum(ir_of(self.spec_board()@, self.spec_board().side())),
    {
        build_ir(&self.current_board)
    }

    /// Reseeds the generator with `seed` and fills the board afresh from
    /// its bits, which it returns.
    pub fn reset(&mut self, seed: u64) -> (bits: Vec<bool>)
        requires
            old(self).wf(),
        ensures
            final(self).wf(),
            final(self).spec_board().side() == old(self).spec_board().side(),
            bits@.len() == old(self).spec_board().side() * old(self).spec_board().side(),
            final(self).spec_board()@ == board_of_bits(bits@, old(self).spec_board().side()),
            is_bit_fill(final(self).spec_board()@, old(self).spec_board().side()),
    {
        self.rng = seeded_rng(seed);
        build_random(&mut self.current_board, &mut self.rng)
    }

    /// Replaces the board by the cells of `pattern` that lie in the grid.
    pub fn load_pattern(&mut self, pattern: &[Cell])
        requires
            old(self).wf(),
        ensures
            final(self).wf(),
            final(self).spec_board().side() == old(self).spec_board().side(),
            final(self).spec_board()@ == pattern@.to_set().filter(
                |c: Cell| in_grid(c, old(self).spec_board().side()),
            ),
    {
        load_pattern(&mut self.current_board, pattern);
    }
}

} // verus!
