use vstd::arithmetic::div_mod::lemma_fundamental_div_mod_converse;
use vstd::prelude::*;

verus! {

/// A grid position: column and row.
pub type Cell = (i32, i32);

/// Largest side a board may have: every coordinate then fits in `i32`.
pub const MAX_SIDE: usize = 2147483647;

/// Toroidal wrap of a coordinate onto `0..n`.
pub open spec fn wrap(v: int, n: int) -> int {
    v % n
}

/// Whether `c` lies in the square `0..n` by `0..n`.
pub open spec fn in_grid(c: Cell, n: int) -> bool {
    0 <= c.0 < n && 0 <= c.1 < n
}

/// `c` moved by `(dx, dy)` and wrapped onto the torus of side `n`.
pub open spec fn shifted(c: Cell, dx: int, dy: int, n: int) -> Cell {
    (wrap(c.0 + dx, n) as i32, wrap(c.1 + dy, n) as i32)
}

/// The eight Moore neighbours of `c` on the torus of side `n`, with the
/// horizontal offset running slowest: `(-1,-1), (-1,0), (-1,1), (0,-1)`, ...
pub open spec fn neighbors(c: Cell, n: int) -> Seq<Cell> {
    seq![
        shifted(c, -1, -1, n),
        shifted(c, -1, 0, n),
        shifted(c, -1, 1, n),
        shifted(c, 0, -1, n),
        shifted(c, 0, 1, n),
        shifted(c, 1, -1, n),
        shifted(c, 1, 0, n),
        shifted(c, 1, 1, n),
    ]
}

/// Wrapping a coordinate that is at most one step outside `0..n`.
pub proof fn lemma_wrap_near(v: int, n: int)
    requires
        0 < n,
        -1 <= v <= n,
    ensures
        v < 0 ==> wrap(v, n) == n - 1,
        0 <= v < n ==> wrap(v, n) == v,
        v == n ==> wrap(v, n) == 0,
        0 <= wrap(v, n) < n,
{
    if v < 0 {
        lemma_fundamental_div_mod_converse(v, n, -1, n - 1);
    } else if v < n {
        lemma_fundamental_div_mod_converse(v, n, 0, v);
    } else {
        lemma_fundamental_div_mod_converse(v, n, 1, 0);
    }
}

/// Every neighbour of a cell of the grid lies in the grid.
pub proof fn lemma_neighbors_in_grid(c: Cell, n: int)
    requires
        0 < n <= MAX_SIDE,
        in_grid(c, n),
    ensures
        forall|k: int| 0 <= k < 8 ==> #[trigger] in_grid(neighbors(c, n)[k], n),
{
    lemma_wrap_near(c.0 - 1, n);
    lemma_wrap_near(c.0 as int, n);
    lemma_wrap_near(c.0 + 1, n);
    lemma_wrap_near(c.1 - 1, n);
    lemma_wrap_near(c.1 as int, n);
    lemma_wrap_near(c.1 + 1, n);
}

/// The neighbour relation is symmetric: the `k`-th neighbour of `c` has `c`
/// as its `(7 - k)`-th neighbour.
pub proof fn lemma_neighbors_symmetric(c: Cell, n: int, k: int)
    requires
        0 < n <= MAX_SIDE,
        in_grid(c, n),
        0 <= k < 8,
    ensures
        neighbors(neighbors(c, n)[k], n)[7 - k] == c,
{
    lemma_wrap_near(c.0 - 1, n);
    lemma_wrap_near(c.0 as int, n);
    lemma_wrap_near(c.0 + 1, n);
    lemma_wrap_near(c.1 - 1, n);
    lemma_wrap_near(c.1 as int, n);
    lemma_wrap_near(c.1 + 1, n);
    let d = neighbors(c, n)[k];
    lemma_wrap_near(d.0 - 1, n);
    lemma_wrap_near(d.0 as int, n);
    lemma_wrap_near(d.0 + 1, n);
    lemma_wrap_near(d.1 - 1, n);
    lemma_wrap_near(d.1 as int, n);
    lemma_wrap_near(d.1 + 1, n);
}

/// One coordinate moved by `d` (one of -1, 0, 1) and wrapped onto `0..n`.
fn wrap_step(v: i32, d: i32, n: i32) -> (r: i32)
    requires
        0 < n,
        0 <= v < n,
        -1 <= d <= 1,
    ensures
        r as int == wrap(v + d, n as int),
{
    proof {
        lemma_wrap_near(v + d, n as int);
    }
    if v + d < 0 {
        n - 1
    } else if v + d >= n {
        0
    } else {
        v + d
    }
}

/// The eight Moore neighbours of `pos` on the torus of side `size`.
pub fn find_neighbors(pos: &Cell, size: usize) -> (r: [Cell; 8])
    requires
        0 < size <= MAX_SIDE,
        in_grid(*pos, size as int),
    ensures
        r@ == neighbors(*pos, size as int),
{
    let n = size as i32;
    let (x, y) = *pos;
    let r = [
        (wrap_step(x, -1, n), wrap_step(y, -1, n)),
        (wrap_step(x, -1, n), wrap_step(y, 0, n)),
        (wrap_step(x, -1, n), wrap_step(y, 1, n)),
        (wrap_step(x, 0, n), wrap_step(y, -1, n)),
        (wrap_step(x, 0, n), wrap_step(y, 1, n)),
        (wrap_step(x, 1, n), wrap_step(y, -1, n)),
        (wrap_step(x, 1, n), wrap_step(y, 0, n)),
        (wrap_step(x, 1, n), wrap_step(y, 1, n)),
    ];
    assert(r@ =~= neighbors(*pos, size as int));
    r
}

/// The key under which a cell is stored in a board's hash set: the two
/// coordinates, each moved into `0..2^32`, side by side in one `u64`.
pub open spec fn key_of(c: Cell) -> u64 {
    ((c.0 + 2147483648) * 4294967296 + (c.1 + 2147483648)) as u64
}

/// The cell stored under `k`.
pub open spec fn cell_of(k: u64) -> Cell {
    ((k / 4294967296 - 2147483648) as i32, (k % 4294967296 - 2147483648) as i32)
}

/// `key_of` and `cell_of` are inverse to each other.
pub proof fn lemma_key_round_trip(c: Cell, k: u64)
    ensures
        cell_of(key_of(c)) == c,
        key_of(cell_of(k)) == k,
        key_of(c) == k <==> c == cell_of(k),
{
    let hi = c.0 + 2147483648;
    let lo = c.1 + 2147483648;
    lemma_fundamental_div_mod_converse(hi * 4294967296 + lo, 4294967296, hi, lo);
    vstd::arithmetic::div_mod::lemma_fundamental_div_mod(k as int, 4294967296);
}

/// The hash-set key of `c`.
pub fn cell_key(c: Cell) -> (r: u64)
    ensures
        r == key_of(c),
{
    let hi = (c.0 as i64 + 2147483648) as u64;
    let lo = (c.1 as i64 + 2147483648) as u64;
    hi * 4294967296 + lo
}

/// The cell stored under key `k`.
pub fn key_cell(k: u64) -> (r: Cell)
    ensures
        r == cell_of(k),
{
    proof {
        vstd::arithmetic::div_mod::lemma_fundamental_div_mod(k as int, 4294967296);
    }
    let hi = (k / 4294967296) as i64 - 2147483648;
    let lo = (k % 4294967296) as i64 - 2147483648;
    (hi as i32, lo as i32)
}

} // verus!
