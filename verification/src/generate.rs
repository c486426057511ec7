//! The generator: it marks each edge between two cells as lit or unlit,
//! gives each cell a stub towards each lit edge around it, and then turns
//! each cell by a number of quarter turns of its own. Turning each cell back
//! solves the board.

use crate::board::{Board, Cell};
use crate::compass::step;
use crate::connectors::{
    connector_set, joined, lemma_turned_set_compose, lemma_turned_set_modulo,
    lemma_turned_set_zero, no_connectors, only,
};
use crate::dice::{after_coins, after_quarters, coin, coins, quarter, quarters, roll, toss};
use crate::grid::{empty_grid, grid_cells, grid_height, grid_width, put};
use crate::layout::{lemma_scan_sees_every_edge, lemma_solved_is_closed, Layout};
use aglet::{Coord, Direction4, Direction4Set};
use vstd::prelude::*;
use vstd::std_specs::convert::FromSpecImpl;

verus! {

/// The mark on an edge between two cells, or between a cell and the
/// outside of the board.
#[derive(Debug, Clone, Copy, PartialEq, Eq, Structural)]
pub enum Edge {
    Unlit,
    Lit,
}

impl Default for Edge {
    /// An edge that was never marked is unlit.
    fn default() -> (edge: Self)
        ensures
            edge == Edge::Unlit,
    {
        Edge::Unlit
    }
}

impl From<bool> for Edge {
    fn from(value: bool) -> (edge: Self) {
        if value {
            Edge::Lit
        } else {
            Edge::Unlit
        }
    }
}

impl FromSpecImpl<bool> for Edge {
    open spec fn obeys_from_spec() -> bool {
        true
    }

    open spec fn from_spec(value: bool) -> Self {
        mark_of(value)
    }
}

/// The mark of an edge for which `lit` was drawn.
pub open spec fn mark_of(lit: bool) -> Edge {
    if lit {
        Edge::Lit
    } else {
        Edge::Unlit
    }
}

/// The number of edges between two columns: one for each row between each
/// pair of neighbouring columns.
pub open spec fn vertical_count(width: nat, height: nat) -> nat {
    if width == 0 {
        0
    } else {
        ((width - 1) * height) as nat
    }
}

/// The number of edges between two rows: one for each column between each
/// pair of neighbouring rows.
pub open spec fn horizontal_count(width: nat, height: nat) -> nat {
    if height == 0 {
        0
    } else {
        (width * (height - 1)) as nat
    }
}

/// Whether the edge on the western side of the cell at `(x, y)` is lit. The
/// marks are those of the edges between columns, column after column from
/// west to east and from north to south in each; the edges on the rim of the
/// board have no mark and are unlit.
pub open spec fn vertical_lit(width: nat, height: nat, vertical: Seq<Edge>, x: int, y: int) -> bool {
    0 < x < width && 0 <= y < height && vertical[(x - 1) * height + y] == Edge::Lit
}

/// Whether the edge on the northern side of the cell at `(x, y)` is lit.
/// The marks are those of the edges between rows, column after column from
/// west to east and from north to south in each; the edges on the rim of the
/// board have no mark and are unlit.
pub open spec fn horizontal_lit(
    width: nat,
    height: nat,
    horizontal: Seq<Edge>,
    x: int,
    y: int,
) -> bool {
    0 <= x < width && 0 < y < height && horizontal[x * (height - 1) + (y - 1)] == Edge::Lit
}

/// The stubs of the cell at `at` before the cells are turned: one towards
/// each lit edge around the cell.
pub open spec fn solution_stubs(
    width: nat,
    height: nat,
    vertical: Seq<Edge>,
    horizontal: Seq<Edge>,
    at: Coord,
) -> Set<Direction4> {
    Set::new(
        |dir: Direction4|
            match dir {
                Direction4::North => horizontal_lit(width, height, horizontal, at.x as int, at.y as int),
                Direction4::East => vertical_lit(width, height, vertical, at.x + 1, at.y as int),
                Direction4::South => horizontal_lit(width, height, horizontal, at.x as int, at.y + 1),
                Direction4::West => vertical_lit(width, height, vertical, at.x as int, at.y as int),
            },
    )
}

/// The board before its cells are turned.
pub open spec fn solution(
    width: nat,
    height: nat,
    vertical: Seq<Edge>,
    horizontal: Seq<Edge>,
) -> Layout {
    Layout {
        width,
        height,
        stubs: Map::new(
            |at: Coord| at.x < width && at.y < height,
            |at: Coord| solution_stubs(width, height, vertical, horizontal, at),
        ),
    }
}

/// Where the turns of the cell at `at` stand among the turns of all cells,
/// which go row after row from north to south and from west to east in each.
pub open spec fn spin_index(width: nat, at: Coord) -> int {
    at.y * width + at.x
}

/// The board that the generator hands out: the solution with each cell
/// turned clockwise by its number of quarter turns.
pub open spec fn scrambled(
    width: nat,
    height: nat,
    vertical: Seq<Edge>,
    horizontal: Seq<Edge>,
    spins: Seq<i32>,
) -> Layout {
    solution(width, height, vertical, horizontal).turned_each(
        |at: Coord| spins[spin_index(width, at)] as int,
    )
}

/// The quarter turns clockwise, between 0 and 3 for each cell, that undo
/// the turns of the generator.
pub open spec fn undoing(width: nat, spins: Seq<i32>) -> spec_fn(Coord) -> int {
    |at: Coord| (-(spins[spin_index(width, at)] as int)) % 4
}

/// The marks of the edges between columns that `generate` draws for a seed.
pub open spec fn drawn_vertical(width: nat, height: nat, seed: u64) -> Seq<Edge> {
    coins(seed, vertical_count(width, height)).map_values(|lit: bool| mark_of(lit))
}

/// The marks of the edges between rows that `generate` draws for a seed.
pub open spec fn drawn_horizontal(width: nat, height: nat, seed: u64) -> Seq<Edge> {
    coins(
        after_coins(seed, vertical_count(width, height)),
        horizontal_count(width, height),
    ).map_values(|lit: bool| mark_of(lit))
}

/// The quarter turns of the cells that `generate` draws for a seed.
pub open spec fn drawn_spins(width: nat, height: nat, seed: u64) -> Seq<i32> {
    quarters(
        after_coins(
            after_coins(seed, vertical_count(width, height)),
            horizontal_count(width, height),
        ),
        width * height,
    )
}

/// The board that `generate` makes of a size and a seed.
pub open spec fn generated(width: nat, height: nat, seed: u64) -> Layout {
    scrambled(
        width,
        height,
        drawn_vertical(width, height, seed),
        drawn_horizontal(width, height, seed),
        drawn_spins(width, height, seed),
    )
}

/// The set with the one direction if the edge is lit, and the empty set if
/// it is not.
pub fn get_single_direction_set(edge: Edge, direction: Direction4) -> (set: Direction4Set)
    ensures
        connector_set(set) == (if edge == Edge::Lit {
            Set::<Direction4>::empty().insert(direction)
        } else {
            Set::<Direction4>::empty()
        }),
{
    if edge == Edge::Lit {
        only(direction)
    } else {
        no_connectors()
    }
}

/// Cell `b` of row `a` has its place in a table of `rows` rows of `cols`
/// cells.
proof fn lemma_place_in_table(a: int, b: int, rows: int, cols: int)
    by (nonlinear_arith)
    requires
        0 <= a < rows,
        0 <= b < cols,
    ensures
        0 <= a * cols + b < rows * cols,
        0 <= a * cols <= rows * cols,
{
}

/// A table of fewer rows has no more cells.
proof fn lemma_fewer_rows(a: int, rows: int, cols: int)
    by (nonlinear_arith)
    requires
        0 <= a <= rows,
        0 <= cols,
    ensures
        0 <= a * cols <= rows * cols,
        a * cols == cols * a,
        rows * cols == cols * rows,
{
}

/// The mark of the edge on the western side of the cell at `(x, y)`, or of
/// the eastern side of the last cell of a row for `x == w`.
fn vertical_edge(w: u32, h: u32, vertical: &Vec<Edge>, x: u32, y: u32) -> (edge: Edge)
    requires
        w * h <= u32::MAX,
        vertical@.len() == vertical_count(w as nat, h as nat),
        x <= w,
        y < h,
    ensures
        (edge == Edge::Lit) == vertical_lit(w as nat, h as nat, vertical@, x as int, y as int),
{
    if x == 0 || x >= w {
        Edge::default()
    } else {
        proof {
            lemma_place_in_table(x - 1, y as int, w - 1, h as int);
            lemma_place_in_table(w - 1, 0, w as int, h as int);
        }
        let index: u64 = (x - 1) as u64 * h as u64 + y as u64;
        vertical[index as usize]
    }
}

/// The mark of the edge on the northern side of the cell at `(x, y)`, or
/// of the southern side of the last cell of a column for `y == h`.
fn horizontal_edge(w: u32, h: u32, horizontal: &Vec<Edge>, x: u32, y: u32) -> (edge: Edge)
    requires
        w * h <= u32::MAX,
        horizontal@.len() == horizontal_count(w as nat, h as nat),
        x < w,
        y <= h,
    ensures
        (edge == Edge::Lit) == horizontal_lit(w as nat, h as nat, horizontal@, x as int, y as int),
{
    if y == 0 || y >= h {
        Edge::default()
    } else {
        proof {
            lemma_place_in_table(x as int, y - 1, w as int, h - 1);
            lemma_place_in_table(h - 1, 0, h as int, w as int);
            assert(w * (h - 1) == (h - 1) * w) by (nonlinear_arith);
            assert(w * h == h * w) by (nonlinear_arith);
        }
        let index: u64 = x as u64 * (h - 1) as u64 + (y - 1) as u64;
        horizontal[index as usize]
    }
}

/// The board of the given size with the given marks on its edges and the
/// given turns of its cells: each cell gets a stub towards each lit edge
/// around it and is then turned clockwise by its number of quarter turns.
///
/// `vertical` holds the marks of the edges between columns and `horizontal`
/// those of the edges between rows, both column after column from west to
/// east and from north to south in each. `spins` holds the turns of the
/// cells, row after row from north to south and from west to east in each.
pub fn assemble(
    w: u32,
    h: u32,
    vertical: &Vec<Edge>,
    horizontal: &Vec<Edge>,
    spins: &Vec<i32>,
) -> (board: Board)
    requires
        Board::playable_size(w as nat, h as nat),
        vertical@.len() == vertical_count(w as nat, h as nat),
        horizontal@.len() == horizontal_count(w as nat, h as nat),
        spins@.len() == w * h,
        forall|i: int| 0 <= i < spins@.len() ==> #[trigger] spins@[i] <= i32::MAX - 3,
    ensures
        board.wf(),
        board@ == scrambled(w as nat, h as nat, vertical@, horizontal@, spins@),
        board@.is_full(),
        board@.turned_each(undoing(w as nat, spins@)).solved(),
        forall|at: Coord| #[trigger]
            board@.holds(at) ==> board.cell(at) is Some && board.cell(at).unwrap().variant(),
{
    proof {
        lemma_turning_back_solves(w as nat, h as nat, vertical@, horizontal@, spins@);
    }
    let ghost goal = scrambled(w as nat, h as nat, vertical@, horizontal@, spins@);
    let mut grid = empty_grid(w, h);
    let mut y: u32 = 0;
    while y < h
        invariant
            y <= h,
            w * h <= u32::MAX,
            vertical@.len() == vertical_count(w as nat, h as nat),
            horizontal@.len() == horizontal_count(w as nat, h as nat),
            spins@.len() == w * h,
            forall|i: int| 0 <= i < spins@.len() ==> #[trigger] spins@[i] <= i32::MAX - 3,
            goal == scrambled(w as nat, h as nat, vertical@, horizontal@, spins@),
            grid_width(grid) == w,
            grid_height(grid) == h,
            forall|at: Coord| #[trigger]
                grid_cells(grid).contains_key(at) <==> at.x < w && at.y < y,
            forall|at: Coord| #[trigger]
                grid_cells(grid).contains_key(at) ==> grid_cells(grid)[at]@ == goal.stubs[at]
                    && grid_cells(grid)[at].variant(),
        decreases h - y,
    {
        let mut x: u32 = 0;
        while x < w
            invariant
                y < h,
                x <= w,
                w * h <= u32::MAX,
                vertical@.len() == vertical_count(w as nat, h as nat),
                horizontal@.len() == horizontal_count(w as nat, h as nat),
                spins@.len() == w * h,
                forall|i: int| 0 <= i < spins@.len() ==> #[trigger] spins@[i] <= i32::MAX - 3,
                goal == scrambled(w as nat, h as nat, vertical@, horizontal@, spins@),
                grid_width(grid) == w,
                grid_height(grid) == h,
                forall|at: Coord| #[trigger]
                    grid_cells(grid).contains_key(at) <==> at.x < w && (at.y < y || (at.y == y
                        && at.x < x)),
                forall|at: Coord| #[trigger]
                    grid_cells(grid).contains_key(at) ==> grid_cells(grid)[at]@ == goal.stubs[at]
                        && grid_cells(grid)[at].variant(),
            decreases w - x,
        {
            let north = get_single_direction_set(
                horizontal_edge(w, h, horizontal, x, y),
                Direction4::North,
            );
            let south = get_single_direction_set(
                horizontal_edge(w, h, horizontal, x, y + 1),
                Direction4::South,
            );
            let west = get_single_direction_set(
                vertical_edge(w, h, vertical, x, y),
                Direction4::West,
            );
            let east = get_single_direction_set(
                vertical_edge(w, h, vertical, x + 1, y),
                Direction4::East,
            );
            let directions = joined(joined(joined(north, south), west), east);
            proof {
                lemma_place_in_table(y as int, x as int, h as int, w as int);
                assert(h * w == w * h) by (nonlinear_arith);
            }
            let index: u64 = y as u64 * w as u64 + x as u64;
            let spin = spins[index as usize];
            let at = Coord { x, y };
            let cell = Cell::new(directions).spin(spin);
            proof {
                assert(connector_set(directions) =~= solution_stubs(
                    w as nat,
                    h as nat,
                    vertical@,
                    horizontal@,
                    at,
                ));
                assert(spin_index(w as nat, at) == index);
                assert(cell@ == goal.stubs[at]);
            }
            put(&mut grid, at, cell);
            x += 1;
        }
        y += 1;
    }
    let board = Board::new(grid);
    proof {
        assert(board@.stubs =~= goal.stubs);
    }
    board
}

/// Draws the marks of `count` edges, one `Rng::bool` each.
fn draw_edges(state: u64, count: usize) -> (drawn: (Vec<Edge>, u64))
    ensures
        drawn.0@ == coins(state, count as nat).map_values(|lit: bool| mark_of(lit)),
        drawn.1 == after_coins(state, count as nat),
{
    let mut edges: Vec<Edge> = Vec::new();
    let mut state = state;
    let ghost start = state;
    let mut done: usize = 0;
    while done < count
        invariant
            done <= count,
            edges@.len() == done,
            state == after_coins(start, done as nat),
            forall|i: int|
                0 <= i < done ==> edges@[i] == mark_of(coin(after_coins(start, i as nat)).0),
        decreases count - done,
    {
        let (lit, next) = toss(state);
        edges.push(generate_edge(lit));
        state = next;
        done += 1;
    }
    proof {
        assert(edges@ =~= coins(start, count as nat).map_values(
            |lit: bool| mark_of(lit),
        ));
    }
    (edges, state)
}

/// The mark of an edge, of the coin drawn for it.
fn generate_edge(lit: bool) -> (edge: Edge)
    ensures
        edge == mark_of(lit),
{
    Edge::from(lit)
}

/// Draws the turns of `count` cells, one `Rng::i32` from `0..4` each.
fn draw_spins(state: u64, count: usize) -> (drawn: (Vec<i32>, u64))
    ensures
        drawn.0@ == quarters(state, count as nat),
        drawn.1 == after_quarters(state, count as nat),
        forall|i: int| 0 <= i < drawn.0@.len() ==> 0 <= #[trigger] drawn.0@[i] < 4,
{
    let mut spins: Vec<i32> = Vec::new();
    let mut state = state;
    let ghost start = state;
    let mut done: usize = 0;
    while done < count
        invariant
            done <= count,
            spins@.len() == done,
            state == after_quarters(start, done as nat),
            forall|i: int|
                0 <= i < done ==> #[trigger] spins@[i] == quarter(
                    after_quarters(start, i as nat),
                ).0 && 0 <= spins@[i] < 4,
        decreases count - done,
    {
        let (turns, next) = roll(state);
        spins.push(turns);
        state = next;
        done += 1;
    }
    proof {
        assert(spins@ =~= quarters(start, count as nat));
    }
    (spins, state)
}

/// A board of the given size that can be solved, made from the seed alone:
/// the same size and seed give the same board. The generator draws the mark
/// of each edge between two columns, then of each edge between two rows,
/// then the turns of each cell, and assembles the board from them.
pub fn generate(w: u32, h: u32, seed: u64) -> (board: Board)
    requires
        Board::playable_size(w as nat, h as nat),
    ensures
        board.wf(),
        board@ == generated(w as nat, h as nat, seed),
        board@.is_full(),
        exists|turns: spec_fn(Coord) -> int|
            (forall|at: Coord| 0 <= #[trigger] turns(at) < 4) && #[trigger] board@.turned_each(
                turns,
            ).solved(),
        forall|at: Coord| #[trigger]
            board@.holds(at) ==> board.cell(at) is Some && board.cell(at).unwrap().variant(),
{
    proof {
        if w > 0 {
            lemma_fewer_rows(w - 1, w as int, h as int);
        }
        if h > 0 {
            lemma_fewer_rows(h - 1, h as int, w as int);
        }
    }
    let across: u64 = if w == 0 {
        0
    } else {
        (w - 1) as u64 * h as u64
    };
    let down: u64 = if h == 0 {
        0
    } else {
        w as u64 * (h - 1) as u64
    };
    let cells: u64 = w as u64 * h as u64;
    let (vertical, state) = draw_edges(seed, across as usize);
    let (horizontal, state) = draw_edges(state, down as usize);
    let (spins, _) = draw_spins(state, cells as usize);
    let board = assemble(w, h, &vertical, &horizontal, &spins);
    proof {
        lemma_turning_back_solves(w as nat, h as nat, vertical@, horizontal@, spins@);
    }
    board
}

/// Before its cells are turned, a board of the generator has a cell at
/// every coordinate and is solved: both cells at an edge read the same mark,
/// and an edge on the rim of the board is unlit. So no stub points off the
/// board, and the scan of the whole board succeeds.
pub proof fn lemma_solution_is_solved(
    width: nat,
    height: nat,
    vertical: Seq<Edge>,
    horizontal: Seq<Edge>,
)
    requires
        width <= u32::MAX,
        height <= u32::MAX,
    ensures
        solution(width, height, vertical, horizontal).wf(),
        solution(width, height, vertical, horizontal).is_full(),
        solution(width, height, vertical, horizontal).solved(),
        solution(width, height, vertical, horizontal).rim_closed(),
        solution(width, height, vertical, horizontal).scan_ok(),
{
    let board = solution(width, height, vertical, horizontal);
    assert forall|at: Coord, dir: Direction4| board.stubs.contains_key(at) implies #[trigger]
        board.edge_fits(at, dir) by {
        match step(at, dir) {
            Some(to) => {
                if board.stubs.contains_key(to) {
                    assert(board.stubs[to] == solution_stubs(
                        width,
                        height,
                        vertical,
                        horizontal,
                        to,
                    ));
                }
            },
            None => {},
        }
    }
    lemma_solved_is_closed(board);
    lemma_scan_sees_every_edge(board);
}

/// A board of the generator can be solved by turning each cell clockwise by
/// between 0 and 3 quarter turns: the turns that undo those of the generator
/// bring back the board as it was before its cells were turned, which is
/// solved.
pub proof fn lemma_turning_back_solves(
    width: nat,
    height: nat,
    vertical: Seq<Edge>,
    horizontal: Seq<Edge>,
    spins: Seq<i32>,
)
    requires
        width <= u32::MAX,
        height <= u32::MAX,
    ensures
        forall|at: Coord| 0 <= #[trigger] undoing(width, spins)(at) < 4,
        scrambled(width, height, vertical, horizontal, spins).turned_each(
            undoing(width, spins),
        ) == solution(width, height, vertical, horizontal),
        scrambled(width, height, vertical, horizontal, spins).is_full(),
        scrambled(width, height, vertical, horizontal, spins).turned_each(
            undoing(width, spins),
        ).solved(),
        scrambled(width, height, vertical, horizontal, spins).turned_each(
            undoing(width, spins),
        ).scan_ok(),
        exists|turns: spec_fn(Coord) -> int|
            (forall|at: Coord| 0 <= #[trigger] turns(at) < 4) && #[trigger] scrambled(
                width,
                height,
                vertical,
                horizontal,
                spins,
            ).turned_each(turns).scan_ok(),
{
    let before = solution(width, height, vertical, horizontal);
    let dealt = scrambled(width, height, vertical, horizontal, spins);
    let back = undoing(width, spins);
    let after = dealt.turned_each(back);
    assert forall|at: Coord| after.stubs.contains_key(at) implies after.stubs[at]
        == before.stubs[at] by {
        let there = spins[spin_index(width, at)] as int;
        lemma_turned_set_compose(before.stubs[at], there, back(at));
        lemma_turned_set_modulo(before.stubs[at], there + back(at));
        lemma_turned_set_zero(before.stubs[at]);
    }
    assert(after.stubs =~= before.stubs);
    lemma_solution_is_solved(width, height, vertical, horizontal);
}

} // verus!
