use vstd::prelude::*;

use crate::board::Board;
use crate::grid::{Cell, MAX_SIDE};

verus! {

/// 1 when `c` is live in `b`, else 0.
pub open spec fn hit(b: Set<Cell>, c: Cell) -> nat {
    if b.contains(c) { 1 } else { 0 }
}

/// The contribution gathered for tap `i` from the columns `0..m`: one for
/// each live `(i, j)` and one for each live `(j, i)`.
pub open spec fn tap_weight(b: Set<Cell>, i: int, m: int) -> nat
    decreases m,
{
    if m <= 0 {
        0
    } else {
        tap_weight(b, i, m - 1) + hit(b, (i as i32, (m - 1) as i32)) + hit(b, ((m - 1) as i32, i as i32))
    }
}

/// The unnormalised taps of the board of side `n`.
pub open spec fn raw_taps(b: Set<Cell>, n: int) -> Seq<int> {
    Seq::new(n as nat, |i: int| tap_weight(b, i, n) as int)
}

/// The sum of the entries of `s`.
pub open spec fn seq_sum(s: Seq<int>) -> int
    decreases s.len(),
{
    if s.len() == 0 {
        0
    } else {
        seq_sum(s.drop_last()) + s.last()
    }
}

/// A unit impulse of length `n`: one, then zeros.
pub open spec fn unit_impulse(n: int) -> Seq<int> {
    Seq::new(n as nat, |i: int| if i == 0 { 1int } else { 0int })
}

/// The taps of the board of side `n`, before division by their sum. A board
/// whose taps sum to zero would leave the filter undefined; it gives the
/// unit impulse, which passes audio through unchanged.
pub open spec fn ir_of(b: Set<Cell>, n: int) -> Seq<int> {
    if seq_sum(raw_taps(b, n)) == 0 {
        unit_impulse(n)
    } else {
        raw_taps(b, n)
    }
}

/// An impulse response: tap `i` is `weights[i] / total`, so the taps sum to one.
pub struct ImpulseResponse {
    weights: Vec<u64>,
    total: u64,
}

impl ImpulseResponse {
    /// The weights as integers.
    pub closed spec fn spec_weights(&self) -> Seq<int> {
        self.weights@.map_values(|w: u64| w as int)
    }

    /// The common denominator of the taps.
    pub closed spec fn spec_total(&self) -> int {
        self.total as int
    }

    /// The denominator is the sum of the weights and is positive, so every
    /// tap is finite.
    pub open spec fn wf(&self) -> bool {
        &&& self.spec_total() == seq_sum(self.spec_weights())
        &&& self.spec_total() > 0
    }

    /// The numerators of the taps.
    pub fn weights(&self) -> (r: &Vec<u64>)
        ensures
            r@.map_values(|w: u64| w as int) == self.spec_weights(),
    {
        &self.weights
    }

    /// The common denominator of the taps.
    pub fn total(&self) -> (r: u64)
        ensures
            r == self.spec_total(),
    {
        self.total
    }
}

proof fn lemma_tap_weight_bound(b: Set<Cell>, i: int, m: int)
    ensures
        tap_weight(b, i, m) <= 2 * (if m < 0 { 0 } else { m }),
    decreases m,
{
    if m > 0 {
        lemma_tap_weight_bound(b, i, m - 1);
    }
}

proof fn lemma_sum_unit(n: int)
    requires
        n >= 1,
    ensures
        seq_sum(unit_impulse(n)) == 1,
    decreases n,
{
    if n > 1 {
        lemma_sum_unit(n - 1);
        assert(unit_impulse(n).drop_last() =~= unit_impulse(n - 1));
        assert(unit_impulse(n).last() == 0);
    } else {
        assert(unit_impulse(n).drop_last() =~= Seq::<int>::empty());
        assert(seq_sum(Seq::<int>::empty()) == 0);
        assert(unit_impulse(n).last() == 1);
    }
}

proof fn lemma_sum_zero_all_zero(s: Seq<int>)
    requires
        forall|i: int| 0 <= i < s.len() ==> s[i] >= 0,
        seq_sum(s) == 0,
    ensures
        forall|i: int| 0 <= i < s.len() ==> s[i] == 0,
    decreases s.len(),
{
    if s.len() > 0 {
        lemma_sum_nonneg(s.drop_last());
        lemma_sum_zero_all_zero(s.drop_last());
        assert forall|i: int| 0 <= i < s.len() implies s[i] == 0 by {
            if i < s.len() - 1 {
                assert(s[i] == s.drop_last()[i]);
            }
        }
    }
}

proof fn lemma_sum_nonneg(s: Seq<int>)
    requires
        forall|i: int| 0 <= i < s.len() ==> s[i] >= 0,
    ensures
        seq_sum(s) >= 0,
    decreases s.len(),
{
    if s.len() > 0 {
        lemma_sum_nonneg(s.drop_last());
    }
}

/// The impulse response of `board`: for each row `i`, the live cells of row
/// `i` and of column `i`, normalised so that the taps sum to one. A board
/// whose taps sum to zero (an empty board) gives the unit impulse.
pub fn build_ir(board: &Board) -> (r: ImpulseResponse)
    requires
        board.wf(),
    ensures
        r.wf(),
        r.spec_weights() == ir_of(board@, board.side()),
        r.spec_total() == seq_sum(ir_of(board@, board.side())),
{
    let size = board.size();
    let ghost n = size as int;
    let ghost b = board@;
    let ghost raw = raw_taps(b, n);
    let mut weights: Vec<u64> = Vec::new();
    let mut total: u64 = 0;
    let mut i: usize = 0;
    while i < size
        invariant
            0 < n <= MAX_SIDE,
            n == size,
            n == board.side(),
            b == board@,
            raw == raw_taps(b, n),
            i <= size,
            weights@.len() == i,
            weights@.map_values(|w: u64| w as int) == raw.take(i as int),
            total == seq_sum(raw.take(i as int)),
            total <= 2 * n * i,
        decreases size - i,
    {
        let mut w: u64 = 0;
        let mut j: usize = 0;
        while j < size
            invariant
                0 < n <= MAX_SIDE,
                n == size,
                n == board.side(),
                b == board@,
                i < size,
                j <= size,
                w == tap_weight(b, i as int, j as int),
            decreases size - j,
        {
            proof {
                lemma_tap_weight_bound(b, i as int, j as int);
            }
            if board.contains(&(i as i32, j as i32)) {
                w = w + 1;
            }
            if board.contains(&(j as i32, i as i32)) {
                w = w + 1;
            }
            j = j + 1;
        }
        proof {
            lemma_tap_weight_bound(b, i as int, n);
            assert(total + w <= 2 * n * (i + 1)) by (nonlinear_arith)
                requires
                    total <= 2 * n * i,
                    w <= 2 * n,
            ;
            assert(2 * n * (i + 1) <= 2 * n * n) by (nonlinear_arith)
                requires
                    i + 1 <= n,
                    0 < n,
            ;
            assert(2 * n * n <= 2 * 2147483647 * 2147483647) by (nonlinear_arith)
                requires
                    0 < n <= 2147483647,
            ;
            assert(raw.take(i + 1).drop_last() =~= raw.take(i as int));
        }
        weights.push(w);
        total = total + w;
        assert(weights@.map_values(|w: u64| w as int) =~= raw.take(i + 1));
        i = i + 1;
    }
    assert(raw.take(n) =~= raw);
    if total == 0 {
        proof {
            lemma_sum_zero_all_zero(raw);
            lemma_sum_unit(n);
        }
        let ghost before = weights@;
        assert forall|k: int| 0 <= k < n implies before[k] == 0 by {
            assert(before.map_values(|w: u64| w as int)[k] == raw[k]);
        }
        weights.set(0, 1);
        total = 1;
        assert(weights@.map_values(|w: u64| w as int) =~= unit_impulse(n));
    }
    ImpulseResponse { weights, total }
}

/// An empty board gives the unit impulse, whose taps are finite and sum to one.
pub proof fn empty_board_gives_unit_impulse(n: int)
    requires
        n >= 1,
    ensures
        ir_of(Set::<Cell>::empty(), n) == unit_impulse(n),
        seq_sum(ir_of(Set::<Cell>::empty(), n)) == 1,
{
    let raw = raw_taps(Set::<Cell>::empty(), n);
    assert forall|i: int| 0 <= i < n implies tap_weight(Set::<Cell>::empty(), i, n) == 0 by {
        lemma_tap_weight_empty(i, n);
    }
    lemma_sum_of_zeros(raw);
    lemma_sum_unit(n);
}

proof fn lemma_tap_weight_empty(i: int, m: int)
    ensures
        tap_weight(Set::<Cell>::empty(), i, m) == 0,
    decreases m,
{
    if m > 0 {
        lemma_tap_weight_empty(i, m - 1);
    }
}

proof fn lemma_sum_of_zeros(s: Seq<int>)
    requires
        forall|i: int| 0 <= i < s.len() ==> s[i] == 0,
    ensures
        seq_sum(s) == 0,
    decreases s.len(),
{
    if s.len() > 0 {
        lemma_sum_of_zeros(s.drop_last());
    }
}

} // verus!
