//! The six by seven grid: where a dropped piece lands, and what four in a row is.
//!
//! A grid is modelled as a sequence of rows, row 0 at the top. A cell holds 0 while it is
//! empty, else the number of the player whose piece it is.
use vstd::prelude::*;

verus! {

/// Number of rows.
pub const ROWS: usize = 6;

/// Number of columns.
pub const COLS: usize = 7;

/// The cells of the board, row 0 at the top.
pub type Cells = [[u8; 7]; 6];

/// Four cells, each as row and column.
pub type Line = [[u8; 2]; 4];

/// The grid that an array of cells stands for.
pub open spec fn grid(cells: Cells) -> Seq<Seq<u8>> {
    Seq::new(ROWS as nat, |r: int| cells[r]@)
}

/// The four positions that an array of row and column pairs stands for.
pub open spec fn line_cells(line: Line) -> Seq<(int, int)> {
    Seq::new(4, |i: int| (line[i][0] as int, line[i][1] as int))
}

/// Six rows of seven cells.
pub open spec fn shaped(g: Seq<Seq<u8>>) -> bool {
    &&& g.len() == ROWS
    &&& forall|r: int| 0 <= r < ROWS ==> (#[trigger] g[r]).len() == COLS
}

/// Whether a row and a column lie on the board.
pub open spec fn on_board(r: int, c: int) -> bool {
    0 <= r < ROWS && 0 <= c < COLS
}

/// The grid without any piece.
pub open spec fn empty_grid() -> Seq<Seq<u8>> {
    Seq::new(ROWS as nat, |r: int| Seq::new(COLS as nat, |c: int| 0u8))
}

/// The grid after one cell has been given a value.
pub open spec fn placed(g: Seq<Seq<u8>>, r: int, c: int, p: u8) -> Seq<Seq<u8>> {
    g.update(r, g[r].update(c, p))
}

/// The cell `i` steps from (`r`, `c`) in direction `d`: right, down, down right, down left.
pub open spec fn step_from(r: int, c: int, d: int, i: int) -> (int, int) {
    if d == 0 {
        (r, c + i)
    } else if d == 1 {
        (r + i, c)
    } else if d == 2 {
        (r + i, c + i)
    } else {
        (r + i, c - i)
    }
}

/// Whether the cell `i` steps from (`r`, `c`) lies on the board and holds `p`.
pub open spec fn step_holds(g: Seq<Seq<u8>>, p: u8, r: int, c: int, d: int, i: int) -> bool {
    let at = step_from(r, c, d, i);
    on_board(at.0, at.1) && g[at.0][at.1] == p
}

/// Whether the four cells from (`r`, `c`) in direction `d` all lie on the board and hold `p`.
pub open spec fn is_run(g: Seq<Seq<u8>>, p: u8, r: int, c: int, d: int) -> bool {
    forall|i: int| 0 <= i < 4 ==> #[trigger] step_holds(g, p, r, c, d, i)
}

/// A place where a search for four in a row looks: a cell and one of the four directions.
pub open spec fn is_start(r: int, c: int, d: int) -> bool {
    on_board(r, c) && 0 <= d < 4
}

/// The order of the search: by row, then by column, then by direction.
pub open spec fn looks_before(r: int, c: int, d: int, r2: int, c2: int, d2: int) -> bool {
    r < r2 || (r == r2 && (c < c2 || (c == c2 && d < d2)))
}

/// Whether `p` has four in a row anywhere.
pub open spec fn has_four(g: Seq<Seq<u8>>, p: u8) -> bool {
    exists|r: int, c: int, d: int| is_start(r, c, d) && #[trigger] is_run(g, p, r, c, d)
}

/// Whether the search meets its first four in a row at this place.
pub open spec fn is_first_run(g: Seq<Seq<u8>>, p: u8, r: int, c: int, d: int) -> bool {
    &&& is_start(r, c, d)
    &&& is_run(g, p, r, c, d)
    &&& forall|r2: int, c2: int, d2: int|
        is_start(r2, c2, d2) && looks_before(r2, c2, d2, r, c, d) ==> !#[trigger] is_run(
            g,
            p,
            r2,
            c2,
            d2,
        )
}

/// The four cells from (`r`, `c`) in direction `d`.
pub open spec fn run_cells(r: int, c: int, d: int) -> Seq<(int, int)> {
    Seq::new(4, |i: int| step_from(r, c, d, i))
}

/// The first four in a row of `p` in the order of the search.
pub open spec fn first_four(g: Seq<Seq<u8>>, p: u8) -> Option<Seq<(int, int)>> {
    if has_four(g, p) {
        let (r, c, d) = choose|r: int, c: int, d: int| #[trigger] is_first_run(g, p, r, c, d);
        Some(run_cells(r, c, d))
    } else {
        None
    }
}

/// Whether a piece dropped into column `c` comes to rest in row `r`: the cell is empty and
/// every cell below it is taken.
pub open spec fn is_landing(g: Seq<Seq<u8>>, c: int, r: int) -> bool {
    &&& 0 <= r < ROWS
    &&& g[r][c] == 0
    &&& forall|r2: int| r < r2 < ROWS ==> (#[trigger] g[r2])[c] != 0
}

/// Whether a column has no empty cell.
pub open spec fn column_full(g: Seq<Seq<u8>>, c: int) -> bool {
    forall|r: int| 0 <= r < ROWS ==> (#[trigger] g[r])[c] != 0
}

/// The row in which a piece dropped into column `c` comes to rest.
pub open spec fn landing(g: Seq<Seq<u8>>, c: int) -> Option<int> {
    if column_full(g, c) {
        None
    } else {
        Some(choose|r: int| #[trigger] is_landing(g, c, r))
    }
}

/// Whether no column takes another piece.
pub open spec fn top_full(g: Seq<Seq<u8>>) -> bool {
    forall|c: int| 0 <= c < COLS ==> #[trigger] g[0][c] != 0
}

/// Whether no piece hangs over an empty cell.
pub open spec fn settled(g: Seq<Seq<u8>>) -> bool {
    forall|r: int, c: int|
        0 <= r < ROWS - 1 && 0 <= c < COLS && #[trigger] g[r][c] != 0 ==> g[r + 1][c] != 0
}

/// Number of cells holding `p` among the first `k`, counted row by row.
pub open spec fn count_upto(g: Seq<Seq<u8>>, p: u8, k: nat) -> nat
    decreases k,
{
    if k == 0 {
        0
    } else {
        let i = k - 1;
        count_upto(g, p, (k - 1) as nat) + if g[i / 7][i % 7] == p {
            1nat
        } else {
            0nat
        }
    }
}

/// Number of cells holding `p`.
pub open spec fn count(g: Seq<Seq<u8>>, p: u8) -> nat {
    count_upto(g, p, 42)
}

/// Only one place can be the first of the search.
pub proof fn lemma_first_run_unique(
    g: Seq<Seq<u8>>,
    p: u8,
    r: int,
    c: int,
    d: int,
    r2: int,
    c2: int,
    d2: int,
)
    requires
        is_first_run(g, p, r, c, d),
        is_first_run(g, p, r2, c2, d2),
    ensures
        r == r2,
        c == c2,
        d == d2,
{
    assert(!looks_before(r, c, d, r2, c2, d2));
    assert(!looks_before(r2, c2, d2, r, c, d));
}

/// A search that meets its first four in a row at a place yields the cells from there.
pub proof fn lemma_first_four_at(g: Seq<Seq<u8>>, p: u8, r: int, c: int, d: int)
    requires
        is_first_run(g, p, r, c, d),
    ensures
        has_four(g, p),
        first_four(g, p) == Some(run_cells(r, c, d)),
{
    let (r2, c2, d2) = choose|r2: int, c2: int, d2: int| #[trigger] is_first_run(g, p, r2, c2, d2);
    lemma_first_run_unique(g, p, r, c, d, r2, c2, d2);
}

/// From a four in a row at one place, the first of the search exists.
proof fn lemma_first_run_from(g: Seq<Seq<u8>>, p: u8, r: int, c: int, d: int)
    requires
        is_start(r, c, d),
        is_run(g, p, r, c, d),
    ensures
        exists|r2: int, c2: int, d2: int| #[trigger] is_first_run(g, p, r2, c2, d2),
    decreases r, c, d,
{
    if !is_first_run(g, p, r, c, d) {
        let (r2, c2, d2) = choose|r2: int, c2: int, d2: int|
            is_start(r2, c2, d2) && looks_before(r2, c2, d2, r, c, d) && #[trigger] is_run(
                g,
                p,
                r2,
                c2,
                d2,
            );
        lemma_first_run_from(g, p, r2, c2, d2);
    }
}

/// The search yields four cells exactly where some four in a row exists, and then those of
/// the first place.
pub proof fn lemma_first_four_exists(g: Seq<Seq<u8>>, p: u8) -> (at: (int, int, int))
    requires
        has_four(g, p),
    ensures
        is_first_run(g, p, at.0, at.1, at.2),
        first_four(g, p) == Some(run_cells(at.0, at.1, at.2)),
{
    let (r, c, d) = choose|r: int, c: int, d: int|
        is_start(r, c, d) && #[trigger] is_run(g, p, r, c, d);
    lemma_first_run_from(g, p, r, c, d);
    choose|at: (int, int, int)| #[trigger] is_first_run(g, p, at.0, at.1, at.2)
}

/// A piece can come to rest in one row only.
pub proof fn lemma_landing_at(g: Seq<Seq<u8>>, c: int, r: int)
    requires
        is_landing(g, c, r),
    ensures
        landing(g, c) == Some(r),
{
    let r2 = choose|r2: int| #[trigger] is_landing(g, c, r2);
}

/// A column with an empty cell has a row where a piece comes to rest.
pub proof fn lemma_landing_exists(g: Seq<Seq<u8>>, c: int)
    ensures
        column_full(g, c) <==> landing(g, c) is None,
        landing(g, c) matches Some(r) ==> is_landing(g, c, r),
{
    if !column_full(g, c) {
        let r = choose|r: int| 0 <= r < ROWS && (#[trigger] g[r])[c] == 0;
        lemma_landing_from(g, c, r);
    }
}

proof fn lemma_landing_from(g: Seq<Seq<u8>>, c: int, r: int)
    requires
        0 <= r < ROWS,
        g[r][c] == 0,
    ensures
        exists|r2: int| #[trigger] is_landing(g, c, r2),
    decreases ROWS - r,
{
    if !is_landing(g, c, r) {
        let r2 = choose|r2: int| r < r2 < ROWS && (#[trigger] g[r2])[c] == 0;
        lemma_landing_from(g, c, r2);
    }
}

/// A cell of the grid after a piece was placed.
pub proof fn lemma_placed(g: Seq<Seq<u8>>, r: int, c: int, p: u8)
    requires
        shaped(g),
        on_board(r, c),
    ensures
        shaped(placed(g, r, c, p)),
        placed(g, r, c, p)[r][c] == p,
        forall|r2: int, c2: int|
            on_board(r2, c2) && !(r2 == r && c2 == c) ==> #[trigger] placed(g, r, c, p)[r2][c2]
                == g[r2][c2],
{
}

/// A piece placed on an empty cell adds no four in a row of anyone else.
pub proof fn lemma_no_run_for_other(g: Seq<Seq<u8>>, r: int, c: int, p: u8, q: u8)
    requires
        shaped(g),
        on_board(r, c),
        p != q,
        !has_four(g, q),
    ensures
        !has_four(placed(g, r, c, p), q),
{
    let g2 = placed(g, r, c, p);
    lemma_placed(g, r, c, p);
    if has_four(g2, q) {
        let (r1, c1, d1) = choose|r1: int, c1: int, d1: int|
            is_start(r1, c1, d1) && #[trigger] is_run(g2, q, r1, c1, d1);
        assert forall|i: int| 0 <= i < 4 implies #[trigger] step_holds(g, q, r1, c1, d1, i) by {
            assert(step_holds(g2, q, r1, c1, d1, i));
        }
        assert(is_run(g, q, r1, c1, d1));
    }
}

/// A four in a row that a piece completes goes through the cell of that piece.
pub proof fn lemma_run_through_piece(
    g: Seq<Seq<u8>>,
    r: int,
    c: int,
    p: u8,
    r1: int,
    c1: int,
    d1: int,
)
    requires
        shaped(g),
        on_board(r, c),
        !has_four(g, p),
        is_start(r1, c1, d1),
        is_run(placed(g, r, c, p), p, r1, c1, d1),
    ensures
        run_cells(r1, c1, d1).contains((r, c)),
{
    let g2 = placed(g, r, c, p);
    lemma_placed(g, r, c, p);
    if forall|i: int| 0 <= i < 4 ==> #[trigger] step_from(r1, c1, d1, i) != (r, c) {
        assert forall|i: int| 0 <= i < 4 implies #[trigger] step_holds(g, p, r1, c1, d1, i) by {
            assert(step_holds(g2, p, r1, c1, d1, i));
        }
        assert(is_run(g, p, r1, c1, d1));
    } else {
        let i = choose|i: int| 0 <= i < 4 && #[trigger] step_from(r1, c1, d1, i) == (r, c);
        assert(run_cells(r1, c1, d1)[i] == (r, c));
    }
}

/// A piece dropped where it comes to rest leaves nothing hanging.
pub proof fn lemma_settled_after(g: Seq<Seq<u8>>, r: int, c: int, p: u8)
    requires
        shaped(g),
        settled(g),
        0 <= c < COLS,
        is_landing(g, c, r),
        p != 0,
    ensures
        settled(placed(g, r, c, p)),
{
    let g2 = placed(g, r, c, p);
    lemma_placed(g, r, c, p);
    assert forall|r2: int, c2: int|
        0 <= r2 < ROWS - 1 && 0 <= c2 < COLS && #[trigger] g2[r2][c2] != 0 implies g2[r2 + 1][c2]
        != 0 by {
        if r2 == r && c2 == c {
            assert(g[r2 + 1][c] != 0);
        } else {
            assert(g[r2][c2] != 0);
        }
    }
}

/// Above an empty cell of a settled grid there is no piece.
pub proof fn lemma_empty_above(g: Seq<Seq<u8>>, r: int, c: int, above: int)
    requires
        shaped(g),
        settled(g),
        on_board(r, c),
        g[r][c] == 0,
        0 <= above <= r,
    ensures
        g[above][c] == 0,
    decreases r - above,
{
    if above < r {
        lemma_empty_above(g, r, c, above + 1);
    }
}

/// On a settled grid a full top row means a full grid.
pub proof fn lemma_full_grid(g: Seq<Seq<u8>>)
    requires
        shaped(g),
        settled(g),
        top_full(g),
    ensures
        forall|r: int, c: int| on_board(r, c) ==> #[trigger] g[r][c] != 0,
{
    assert forall|r: int, c: int| on_board(r, c) implies #[trigger] g[r][c] != 0 by {
        if g[r][c] == 0 {
            lemma_empty_above(g, r, c, 0);
        }
    }
}

/// The empty grid: nothing hangs, nobody has four in a row, every column takes a piece.
pub proof fn lemma_empty_grid(p: u8)
    requires
        p != 0,
    ensures
        shaped(empty_grid()),
        settled(empty_grid()),
        !has_four(empty_grid(), p),
        !top_full(empty_grid()),
        count(empty_grid(), p) == 0,
{
    let g = empty_grid();
    if has_four(g, p) {
        let (r, c, d) = choose|r: int, c: int, d: int|
            is_start(r, c, d) && #[trigger] is_run(g, p, r, c, d);
        assert(step_holds(g, p, r, c, d, 0));
    }
    assert(g[0][0] == 0);
    lemma_count_none(g, p, 42);
}

proof fn lemma_count_none(g: Seq<Seq<u8>>, p: u8, k: nat)
    requires
        k <= 42,
        forall|r: int, c: int| on_board(r, c) ==> #[trigger] g[r][c] != p,
    ensures
        count_upto(g, p, k) == 0,
    decreases k,
{
    if k > 0 {
        lemma_count_none(g, p, (k - 1) as nat);
    }
}

/// A piece placed on an empty cell adds one to its owner's count and to no other's.
pub proof fn lemma_count_placed(g: Seq<Seq<u8>>, r: int, c: int, p: u8, q: u8)
    requires
        shaped(g),
        on_board(r, c),
        g[r][c] == 0,
        p != 0,
        q != 0,
    ensures
        count(placed(g, r, c, p), q) == count(g, q) + if p == q {
            1int
        } else {
            0int
        },
{
    lemma_count_placed_upto(g, r, c, p, q, 42);
}

proof fn lemma_count_placed_upto(g: Seq<Seq<u8>>, r: int, c: int, p: u8, q: u8, k: nat)
    requires
        shaped(g),
        on_board(r, c),
        g[r][c] == 0,
        p != 0,
        q != 0,
        k <= 42,
    ensures
        count_upto(placed(g, r, c, p), q, k) == count_upto(g, q, k) + if p == q && 7 * r + c < k {
            1int
        } else {
            0int
        },
    decreases k,
{
    if k > 0 {
        let i = k - 1;
        lemma_count_placed_upto(g, r, c, p, q, (k - 1) as nat);
        lemma_placed(g, r, c, p);
        assert((i / 7 == r && i % 7 == c) <==> i == 7 * r + c);
    }
}

/// On a grid full of the pieces of two players, the two counts make up all the cells.
pub proof fn lemma_count_full(g: Seq<Seq<u8>>)
    requires
        shaped(g),
        forall|r: int, c: int| on_board(r, c) ==> 1 <= #[trigger] g[r][c] <= 2,
    ensures
        count(g, 1) + count(g, 2) == 42,
{
    lemma_count_full_upto(g, 42);
}

proof fn lemma_count_full_upto(g: Seq<Seq<u8>>, k: nat)
    requires
        shaped(g),
        forall|r: int, c: int| on_board(r, c) ==> 1 <= #[trigger] g[r][c] <= 2,
        k <= 42,
    ensures
        count_upto(g, 1, k) + count_upto(g, 2, k) == k,
    decreases k,
{
    if k > 0 {
        lemma_count_full_upto(g, (k - 1) as nat);
    }
}

/// With a free cell there are fewer pieces than cells.
pub proof fn lemma_count_room(g: Seq<Seq<u8>>, r: int, c: int)
    requires
        shaped(g),
        on_board(r, c),
        g[r][c] == 0,
    ensures
        count(g, 1) + count(g, 2) < 42,
{
    lemma_count_room_upto(g, r, c, 42);
}

proof fn lemma_count_room_upto(g: Seq<Seq<u8>>, r: int, c: int, k: nat)
    requires
        shaped(g),
        on_board(r, c),
        g[r][c] == 0,
        k <= 42,
    ensures
        count_upto(g, 1, k) + count_upto(g, 2, k) <= if 7 * r + c < k {
            k - 1
        } else {
            k as int
        },
    decreases k,
{
    if k > 0 {
        let i = k - 1;
        lemma_count_room_upto(g, r, c, (k - 1) as nat);
        assert(i == 7 * r + c ==> i / 7 == r && i % 7 == c);
    }
}

/// Whether the four cells from (`r`, `c`) in direction `d` all hold `p`; the cells if so.
fn run_at(cells: &Cells, p: u8, r: usize, c: usize, d: usize) -> (run: Option<Line>)
    requires
        is_start(r as int, c as int, d as int),
    ensures
        match run {
            Some(line) => is_run(grid(*cells), p, r as int, c as int, d as int) && line_cells(line)
                == run_cells(r as int, c as int, d as int),
            None => !is_run(grid(*cells), p, r as int, c as int, d as int),
        },
{
    let mut line: Line = [[0u8; 2]; 4];
    let mut i: usize = 0;
    while i < 4
        invariant
            i <= 4,
            is_start(r as int, c as int, d as int),
            forall|j: int|
                0 <= j < i ==> #[trigger] step_holds(
                    grid(*cells),
                    p,
                    r as int,
                    c as int,
                    d as int,
                    j,
                ),
            forall|j: int|
                0 <= j < i ==> {
                    let at = step_from(r as int, c as int, d as int, j);
                    (#[trigger] line[j])[0] == at.0 && line[j][1] == at.1
                },
        decreases 4 - i,
    {
        let rr: usize = if d == 0 {
            r
        } else {
            r + i
        };
        if d == 3 && c < i {
            assert(!step_holds(grid(*cells), p, r as int, c as int, d as int, i as int));
            return None;
        }
        let cc: usize = if d == 1 {
            c
        } else if d == 3 {
            c - i
        } else {
            c + i
        };
        if rr >= ROWS || cc >= COLS || cells[rr][cc] != p {
            assert(!step_holds(grid(*cells), p, r as int, c as int, d as int, i as int));
            return None;
        }
        line[i] = [rr as u8, cc as u8];
        i += 1;
    }
    Some(line)
}

/// The first four in a row of `p`, searching row by row from the top, each row from the left,
/// and from each cell to the right, down, down right and down left.
pub fn find_four(cells: &Cells, p: u8) -> (line: Option<Line>)
    ensures
        match line {
            Some(l) => first_four(grid(*cells), p) == Some(line_cells(l)),
            None => first_four(grid(*cells), p) is None,
        },
{
    let ghost g = grid(*cells);
    let mut r: usize = 0;
    while r < ROWS
        invariant
            r <= ROWS,
            g == grid(*cells),
            forall|r2: int, c2: int, d2: int|
                is_start(r2, c2, d2) && looks_before(r2, c2, d2, r as int, 0, 0)
                    ==> !#[trigger] is_run(g, p, r2, c2, d2),
        decreases ROWS - r,
    {
        let mut c: usize = 0;
        while c < COLS
            invariant
                r < ROWS,
                c <= COLS,
                g == grid(*cells),
                forall|r2: int, c2: int, d2: int|
                    is_start(r2, c2, d2) && looks_before(r2, c2, d2, r as int, c as int, 0)
                        ==> !#[trigger] is_run(g, p, r2, c2, d2),
            decreases COLS - c,
        {
            let mut d: usize = 0;
            while d < 4
                invariant
                    r < ROWS,
                    c < COLS,
                    d <= 4,
                    g == grid(*cells),
                    forall|r2: int, c2: int, d2: int|
                        is_start(r2, c2, d2) && looks_before(
                            r2,
                            c2,
                            d2,
                            r as int,
                            c as int,
                            d as int,
                        ) ==> !#[trigger] is_run(g, p, r2, c2, d2),
                decreases 4 - d,
            {
                let run = run_at(cells, p, r, c, d);
                if run.is_some() {
                    proof {
                        lemma_first_four_at(g, p, r as int, c as int, d as int);
                    }
                    return run;
                }
                d += 1;
            }
            c += 1;
        }
        r += 1;
    }
    None
}

/// The row in which a piece dropped into column `c` comes to rest, the lowest empty one.
pub fn landing_row(cells: &Cells, c: usize) -> (row: Option<usize>)
    requires
        c < COLS,
    ensures
        match row {
            Some(r) => r < ROWS && landing(grid(*cells), c as int) == Some(r as int),
            None => landing(grid(*cells), c as int) is None,
        },
{
    let ghost g = grid(*cells);
    let mut above: usize = ROWS;
    while above > 0
        invariant
            above <= ROWS,
            c < COLS,
            g == grid(*cells),
            forall|r: int| above <= r < ROWS ==> (#[trigger] g[r])[c as int] != 0,
        decreases above,
    {
        let r: usize = above - 1;
        if cells[r][c] == 0 {
            proof {
                lemma_landing_at(g, c as int, r as int);
            }
            return Some(r);
        }
        above = r;
    }
    None
}

/// Whether the top row is full.
pub fn is_top_full(cells: &Cells) -> (full: bool)
    ensures
        full == top_full(grid(*cells)),
{
    let ghost g = grid(*cells);
    let mut c: usize = 0;
    while c < COLS
        invariant
            c <= COLS,
            g == grid(*cells),
            forall|c2: int| 0 <= c2 < c ==> #[trigger] g[0][c2] != 0,
        decreases COLS - c,
    {
        assert(g[0][c as int] == cells[0][c as int]);
        if cells[0][c] == 0 {
            return false;
        }
        c += 1;
    }
    true
}

}
