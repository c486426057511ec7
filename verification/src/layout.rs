//! What a board is to the rules of the puzzle: a rectangle of coordinates
//! and the stubs of the cell at each. The rules are stated here, on the
//! mathematical board, and proved of one another.

use crate::board::{fits, leans};
use crate::compass::{lemma_opposite_is_half_turn, lemma_step_back, opposite, step};
use crate::connectors::{lemma_turned_set_compose, lemma_turned_set_zero, turned_set};
use aglet::{Coord, Direction4};
use vstd::prelude::*;

verus! {

/// The view of a board: its size, and the stubs of each cell that it holds.
pub struct Layout {
    pub width: nat,
    pub height: nat,
    pub stubs: Map<Coord, Set<Direction4>>,
}

impl Layout {
    /// Whether a coordinate lies on the board.
    pub open spec fn holds(self, at: Coord) -> bool {
        at.x < self.width && at.y < self.height
    }

    /// The board is no wider and no higher than coordinates can count, and
    /// has cells only at coordinates that lie on it.
    pub open spec fn wf(self) -> bool {
        &&& self.width <= u32::MAX
        &&& self.height <= u32::MAX
        &&& forall|at: Coord| #[trigger] self.stubs.contains_key(at) ==> self.holds(at)
    }

    /// Every coordinate of the board has a cell.
    pub open spec fn is_full(self) -> bool {
        forall|at: Coord| #[trigger] self.holds(at) ==> self.stubs.contains_key(at)
    }

    /// The stubs of the cell at a coordinate, if there is a cell.
    pub open spec fn get(self, at: Coord) -> Option<Set<Direction4>> {
        if self.stubs.contains_key(at) {
            Some(self.stubs[at])
        } else {
            None
        }
    }

    /// The stubs of the cell one step from `at` in direction `dir`, if
    /// there is a cell.
    pub open spec fn beside(self, at: Coord, dir: Direction4) -> Option<Set<Direction4>> {
        match step(at, dir) {
            Some(to) => self.get(to),
            None => None,
        }
    }

    /// The cell at `at` shows a stub in direction `dir` exactly where what
    /// lies there shows one back.
    pub open spec fn edge_fits(self, at: Coord, dir: Direction4) -> bool {
        fits(self.stubs[at], self.beside(at, dir), dir)
    }

    /// The cell at `at` has no unanswered stub in direction `dir`.
    pub open spec fn edge_leans(self, at: Coord, dir: Direction4) -> bool {
        leans(self.stubs[at], self.beside(at, dir), dir)
    }

    /// The sides of a cell that the scan of the whole board looks at: east
    /// and south, and all four for a cell in the first column or row.
    pub open spec fn scanned(at: Coord, dir: Direction4) -> bool {
        at.x == 0 || at.y == 0 || dir == Direction4::East || dir == Direction4::South
    }

    /// Every side that the scan looks at fits.
    pub open spec fn scan_ok(self) -> bool {
        forall|at: Coord, dir: Direction4|
            self.stubs.contains_key(at) && Self::scanned(at, dir) ==> #[trigger] self.edge_fits(
                at,
                dir,
            )
    }

    /// Every side of every cell fits: each stub meets a stub, and no stub
    /// points off the board.
    pub open spec fn solved(self) -> bool {
        forall|at: Coord, dir: Direction4|
            self.stubs.contains_key(at) ==> #[trigger] self.edge_fits(at, dir)
    }

    /// The cell at `at`, if there is one, has no unanswered stub.
    pub open spec fn cell_ok(self, at: Coord) -> bool {
        self.stubs.contains_key(at) ==> forall|dir: Direction4| #[trigger]
            self.edge_leans(at, dir)
    }

    /// No cell in the first or last column or row shows a stub that points
    /// off the board.
    pub open spec fn rim_closed(self) -> bool {
        forall|at: Coord| #[trigger]
            self.stubs.contains_key(at) ==> {
                &&& at.y == 0 ==> !self.stubs[at].contains(Direction4::North)
                &&& at.x == 0 ==> !self.stubs[at].contains(Direction4::West)
                &&& at.y + 1 == self.height ==> !self.stubs[at].contains(Direction4::South)
                &&& at.x + 1 == self.width ==> !self.stubs[at].contains(Direction4::East)
            }
    }

    /// The stubs of the cell at `at`, or of a cell without stubs where
    /// there is none.
    pub open spec fn stubs_or_none(self, at: Coord) -> Set<Direction4> {
        match self.get(at) {
            Some(stubs) => stubs,
            None => Set::empty(),
        }
    }

    /// The board after the cell at `at` was turned by `steps` quarter turns
    /// clockwise. Where there was no cell, there is one without stubs.
    pub open spec fn turned_at(self, at: Coord, steps: int) -> Layout {
        Layout {
            width: self.width,
            height: self.height,
            stubs: self.stubs.insert(at, turned_set(self.stubs_or_none(at), steps)),
        }
    }

    /// The board after each cell was turned by its own number of quarter
    /// turns clockwise.
    pub open spec fn turned_each(self, turns: spec_fn(Coord) -> int) -> Layout {
        Layout {
            width: self.width,
            height: self.height,
            stubs: Map::new(
                |at: Coord| self.stubs.contains_key(at),
                |at: Coord| turned_set(self.stubs[at], turns(at)),
            ),
        }
    }
}

/// A board is solved exactly when no cell has an unanswered stub: to fit on
/// every edge is for both sides of every edge to lean on each other.
pub proof fn lemma_solved_is_every_cell_ok(board: Layout)
    requires
        board.wf(),
    ensures
        board.solved() <==> forall|at: Coord| board.cell_ok(at),
{
    if board.solved() {
        assert forall|at: Coord| board.cell_ok(at) by {
            if board.stubs.contains_key(at) {
                assert forall|dir: Direction4| #[trigger] board.edge_leans(at, dir) by {
                    assert(board.edge_fits(at, dir));
                }
            }
        }
    }
    if forall|at: Coord| board.cell_ok(at) {
        assert forall|at: Coord, dir: Direction4| board.stubs.contains_key(at) implies #[trigger]
            board.edge_fits(at, dir) by {
            assert(board.cell_ok(at));
            assert(board.edge_leans(at, dir));
            match step(at, dir) {
                Some(to) => {
                    if board.stubs.contains_key(to) {
                        lemma_step_back(at, dir);
                        lemma_opposite_is_half_turn(dir);
                        assert(board.cell_ok(to));
                        assert(board.edge_leans(to, opposite(dir)));
                    }
                },
                None => {},
            }
        }
    }
}

/// On a board that has a cell at every coordinate, the scan sees every
/// edge: the west and north sides that it skips are the east and south
/// sides of another cell.
pub proof fn lemma_scan_sees_every_edge(board: Layout)
    requires
        board.wf(),
        board.is_full(),
    ensures
        board.scan_ok() == board.solved(),
{
    if board.scan_ok() {
        assert forall|at: Coord, dir: Direction4| board.stubs.contains_key(at) implies #[trigger]
            board.edge_fits(at, dir) by {
            if Layout::scanned(at, dir) {
                assert(board.edge_fits(at, dir));
            } else {
                let to = step(at, dir).unwrap();
                lemma_step_back(at, dir);
                lemma_opposite_is_half_turn(dir);
                assert(board.holds(to));
                assert(board.stubs.contains_key(to));
                assert(Layout::scanned(to, opposite(dir)));
                assert(board.edge_fits(to, opposite(dir)));
            }
        }
    }
    if board.solved() {
        assert forall|at: Coord, dir: Direction4|
            board.stubs.contains_key(at) && Layout::scanned(at, dir) implies #[trigger]
            board.edge_fits(at, dir) by {
            assert(board.edge_fits(at, dir));
        }
    }
}

/// On a board that has a cell at every coordinate, the scan of the whole
/// board succeeds exactly when the check of each single cell does.
pub proof fn lemma_scan_is_every_cell_ok(board: Layout)
    requires
        board.wf(),
        board.is_full(),
    ensures
        board.scan_ok() <==> forall|at: Coord| board.cell_ok(at),
{
    lemma_scan_sees_every_edge(board);
    lemma_solved_is_every_cell_ok(board);
}

/// Turning a cell that lies on the board keeps the board a board of the
/// rules, and keeps a cell at every coordinate that had one.
pub proof fn lemma_turned_at_keeps_cells(board: Layout, at: Coord, steps: int)
    requires
        board.holds(at),
    ensures
        board.wf() ==> board.turned_at(at, steps).wf(),
        board.is_full() ==> board.turned_at(at, steps).is_full(),
{
    let after = board.turned_at(at, steps);
    if board.wf() {
        assert forall|other: Coord| #[trigger] after.stubs.contains_key(other) implies after.holds(
            other,
        ) by {
            if other != at {
                assert(board.stubs.contains_key(other));
            }
        }
    }
    if board.is_full() {
        assert forall|other: Coord| #[trigger] after.holds(other) implies after.stubs.contains_key(
            other,
        ) by {
            assert(board.holds(other));
        }
    }
}

/// To turn one cell is to turn each cell, all others by no steps.
pub proof fn lemma_turned_at_is_turned_each(board: Layout, at: Coord, steps: int)
    requires
        board.stubs.contains_key(at),
    ensures
        board.turned_at(at, steps) == board.turned_each(
            |other: Coord|
                if other == at {
                    steps
                } else {
                    0
                },
        ),
{
    let turns = |other: Coord|
        if other == at {
            steps
        } else {
            0
        };
    assert forall|other: Coord| #[trigger]
        board.stubs.contains_key(other) implies board.turned_at(at, steps).stubs[other]
        == board.turned_each(turns).stubs[other] by {
        if other != at {
            lemma_turned_set_zero(board.stubs[other]);
        }
    }
    assert(board.turned_at(at, steps).stubs =~= board.turned_each(turns).stubs);
}

/// To turn each cell twice is to turn each cell by the sum of its turns.
pub proof fn lemma_turned_each_twice(
    board: Layout,
    first: spec_fn(Coord) -> int,
    second: spec_fn(Coord) -> int,
)
    ensures
        board.turned_each(first).turned_each(second) == board.turned_each(
            |at: Coord| first(at) + second(at),
        ),
{
    let sum = |at: Coord| first(at) + second(at);
    assert forall|at: Coord| #[trigger]
        board.stubs.contains_key(at) implies board.turned_each(first).turned_each(
        second,
    ).stubs[at] == board.turned_each(sum).stubs[at] by {
        lemma_turned_set_compose(board.stubs[at], first(at), second(at));
    }
    assert(board.turned_each(first).turned_each(second).stubs =~= board.turned_each(sum).stubs);
}

/// A solved board is closed: an edge cell that fits the nothing beside it
/// shows no stub there.
pub proof fn lemma_solved_is_closed(board: Layout)
    requires
        board.wf(),
        board.solved(),
    ensures
        board.rim_closed(),
{
    assert forall|at: Coord| #[trigger] board.stubs.contains_key(at) implies {
        &&& at.y == 0 ==> !board.stubs[at].contains(Direction4::North)
        &&& at.x == 0 ==> !board.stubs[at].contains(Direction4::West)
        &&& at.y + 1 == board.height ==> !board.stubs[at].contains(Direction4::South)
        &&& at.x + 1 == board.width ==> !board.stubs[at].contains(Direction4::East)
    } by {
        assert(board.edge_fits(at, Direction4::North));
        assert(board.edge_fits(at, Direction4::West));
        assert(board.edge_fits(at, Direction4::South));
        assert(board.edge_fits(at, Direction4::East));
    }
}

} // verus!
