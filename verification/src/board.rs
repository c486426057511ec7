//! Cells and boards: which stubs a tile shows, how it turns, and when the
//! tiles of a board fit together.

use crate::compass::{direction, opposite, ordinal, quarter_turns, step, turned};
use crate::connectors::{
    all_directions, connector_set, exposes, joined, lemma_mask_tells_set, mask, mask_of,
    no_connectors, only, turned_set,
};
use crate::grid::{
    cell_at, copy_of, grid_height, grid_width, height_of, slot, slot_or_insert, width_of,
};
use crate::layout::{lemma_scan_sees_every_edge, Layout};
use aglet::{Coord, Direction4, Direction4Set, Grid, Rotation};
use vstd::pervasive::unreached;
use vstd::prelude::*;

verus! {

/// Whether a cell with the stubs `mine` fits its neighbour in direction
/// `dir`: it shows a stub on that side exactly where the neighbour shows one
/// on the side that faces it. Where there is no neighbour, nothing faces the
/// cell.
pub open spec fn fits(
    mine: Set<Direction4>,
    theirs: Option<Set<Direction4>>,
    dir: Direction4,
) -> bool {
    mine.contains(dir) == answers(theirs, dir)
}

/// Whether a neighbour in direction `dir` shows a stub on the side that
/// faces back.
pub open spec fn answers(theirs: Option<Set<Direction4>>, dir: Direction4) -> bool {
    match theirs {
        Some(stubs) => stubs.contains(opposite(dir)),
        None => false,
    }
}

/// Whether a cell with the stubs `mine` leaves no stub unanswered in
/// direction `dir`: a side without a stub is fine whatever faces it.
pub open spec fn leans(
    mine: Set<Direction4>,
    theirs: Option<Set<Direction4>>,
    dir: Direction4,
) -> bool {
    mine.contains(dir) ==> answers(theirs, dir)
}

/// The stubs of a cell that may be missing.
pub open spec fn stubs_of(cell: Option<Cell>) -> Option<Set<Direction4>> {
    match cell {
        Some(cell) => Some(cell@),
        None => None,
    }
}

/// The character in the middle of a cell's picture, by the mask of its stubs.
pub open spec fn hub(mask: int) -> char {
    if mask == 0 {
        ' '
    } else if mask == 1 {
        '╵'
    } else if mask == 2 {
        '╶'
    } else if mask == 3 {
        '╰'
    } else if mask == 4 {
        '╷'
    } else if mask == 5 {
        '│'
    } else if mask == 6 {
        '╭'
    } else if mask == 7 {
        '├'
    } else if mask == 8 {
        '╴'
    } else if mask == 9 {
        '╯'
    } else if mask == 10 {
        '─'
    } else if mask == 11 {
        '┴'
    } else if mask == 12 {
        '╮'
    } else if mask == 13 {
        '┤'
    } else if mask == 14 {
        '┬'
    } else {
        '┼'
    }
}

/// The character on the left or right of a cell's picture: a line where the
/// cell has a stub on that side.
pub open spec fn arm(stubs: Set<Direction4>, side: Direction4) -> char {
    if stubs.contains(side) {
        '─'
    } else {
        ' '
    }
}

/// The picture of a cell: its western arm, its hub and its eastern arm.
pub open spec fn picture(stubs: Set<Direction4>) -> Seq<char> {
    seq![arm(stubs, Direction4::West), hub(mask_of(stubs)), arm(stubs, Direction4::East)]
}

/// The picture of a cell with all four stubs that shows its turns: one of
/// two crosses, by whether the cell has been turned an odd number of times.
pub open spec fn pinwheel(odd: bool) -> Seq<char> {
    seq!['─', if odd { '🮨' } else { '🮩' }, '─']
}

/// One position of the board: the stubs that it shows, and whether it has
/// been turned an odd number of times.
#[derive(Debug, Clone, Copy)]
pub struct Cell {
    inner: Direction4Set,
    variant: bool,
}

impl View for Cell {
    type V = Set<Direction4>;

    /// The directions in which the cell shows a stub.
    closed spec fn view(&self) -> Set<Direction4> {
        connector_set(self.inner)
    }
}

impl Default for Cell {
    /// The cell without stubs, never turned.
    fn default() -> (cell: Self)
        ensures
            cell@ == Set::<Direction4>::empty(),
            !cell.variant(),
    {
        Cell { inner: no_connectors(), variant: false }
    }
}

impl Cell {
    /// The number of characters in a cell's picture.
    pub const DISPLAY_LEN: usize = 3;

    /// Whether the cell has been turned an odd number of times.
    pub closed spec fn variant(&self) -> bool {
        self.variant
    }

    /// What `render` gives.
    pub open spec fn glyph(&self, variant_4: bool) -> Seq<char> {
        if variant_4 && self@ == all_directions() {
            pinwheel(self.variant())
        } else {
            picture(self@)
        }
    }

    /// The cell with the given stubs, never turned. Every set is a cell.
    pub fn new(inner: Direction4Set) -> (cell: Self)
        ensures
            cell@ == connector_set(inner),
            !cell.variant(),
    {
        Self { inner, variant: false }
    }

    /// The cell turned by one quarter turn, clockwise or counter-clockwise.
    pub fn rotated(self, rot: Rotation) -> (cell: Self)
        ensures
            cell@ == turned_set(self@, quarter_turns(rot)),
            cell.variant() == !self.variant(),
    {
        self.spin(rot.steps_clockwise())
    }

    /// The cell turned by `rot` quarter turns clockwise; a negative `rot`
    /// turns counter-clockwise. The ordinal of each stub plus `rot` must fit
    /// an `i32`.
    pub fn spin(self, rot: i32) -> (cell: Self)
        requires
            forall|dir: Direction4| self@.contains(dir) ==> ordinal(dir) + rot <= i32::MAX,
        ensures
            cell@ == turned_set(self@, rot as int),
            cell.variant() == !self.variant(),
    {
        let mut out = no_connectors();
        let mut index: usize = 0;
        while index < 4
            invariant
                index <= 4,
                forall|dir: Direction4| self@.contains(dir) ==> ordinal(dir) + rot <= i32::MAX,
                forall|dir: Direction4|
                    connector_set(out).contains(dir) <==> ordinal(turned(dir, -rot)) < index
                        && self@.contains(turned(dir, -rot)),
            decreases 4 - index,
        {
            let dir = direction(index);
            if exposes(self.inner, dir) {
                assert(self@.contains(dir));
                out = joined(out, only(dir.rotate_by(rot)));
            }
            index += 1;
        }
        proof {
            reveal(turned_set);
            assert(connector_set(out) =~= turned_set(self@, rot as int));
        }
        Self { inner: out, variant: !self.variant }
    }

    /// Whether the cell fits what lies in direction `dir`: `other` is the
    /// neighbour there, or `None` at the edge of the board.
    pub fn fits_with(self, other: Option<Cell>, dir: Direction4) -> (ok: bool)
        ensures
            ok == fits(self@, stubs_of(other), dir),
    {
        let my_light = exposes(self.inner, dir);
        let their_light = match other {
            Some(other) => exposes(other.inner, dir.flip()),
            None => false,
        };
        my_light == their_light
    }

    /// Whether no stub of the cell in direction `dir` is left unanswered by
    /// `other`, the neighbour there, or `None` at the edge of the board.
    pub fn leans_on(self, other: Option<Cell>, dir: Direction4) -> (ok: bool)
        ensures
            ok == leans(self@, stubs_of(other), dir),
    {
        let my_light = exposes(self.inner, dir);
        let their_light = match other {
            Some(other) => exposes(other.inner, dir.flip()),
            None => false,
        };
        !my_light || (my_light && their_light)
    }

    /// The picture of the cell, three characters wide. With `variant_4`, a
    /// cell with all four stubs shows one of two crosses, which change
    /// places each time the cell is turned.
    pub fn render(self, variant_4: bool) -> (glyph: &'static str)
        ensures
            glyph@ == self.glyph(variant_4),
            glyph@.len() == Self::DISPLAY_LEN,
    {
        let sides = mask(self.inner);
        proof {
            lemma_mask_tells_set(self@, all_directions());
            reveal_strlit("   ");
            reveal_strlit(" ╵ ");
            reveal_strlit(" ╶─");
            reveal_strlit(" ╰─");
            reveal_strlit(" ╷ ");
            reveal_strlit(" │ ");
            reveal_strlit(" ╭─");
            reveal_strlit(" ├─");
            reveal_strlit("─╴ ");
            reveal_strlit("─╯ ");
            reveal_strlit("───");
            reveal_strlit("─┴─");
            reveal_strlit("─╮ ");
            reveal_strlit("─┤ ");
            reveal_strlit("─┬─");
            reveal_strlit("─┼─");
            reveal_strlit("─🮨─");
            reveal_strlit("─🮩─");
        }
        match sides {
            0 => "   ",
            1 => " ╵ ",
            2 => " ╶─",
            3 => " ╰─",
            4 => " ╷ ",
            5 => " │ ",
            6 => " ╭─",
            7 => " ├─",
            8 => "─╴ ",
            9 => "─╯ ",
            10 => "───",
            11 => "─┴─",
            12 => "─╮ ",
            13 => "─┤ ",
            14 => "─┬─",
            15 => {
                if variant_4 {
                    if self.variant {
                        "─🮨─"
                    } else {
                        "─🮩─"
                    }
                } else {
                    "─┼─"
                }
            },
            _ => unreached(),
        }
    }
}

/// A grid of cells. A slot of the grid may be empty; the puzzle is played on
/// boards that have a cell in every slot.
#[derive(Debug)]
pub struct Board {
    pub inner: Grid<Cell>,
}

impl Clone for Board {
    /// A board of the same size with the same cells.
    fn clone(&self) -> (copy: Self)
        ensures
            copy@ == self@,
            forall|at: Coord| copy.cell(at) == self.cell(at),
            copy.wf() == self.wf(),
    {
        let copy = Self { inner: copy_of(&self.inner) };
        proof {
            assert(copy@.stubs =~= self@.stubs);
        }
        copy
    }
}

impl View for Board {
    type V = Layout;

    /// The size of the grid, and the stubs of the cell in each filled slot.
    open spec fn view(&self) -> Layout {
        Layout {
            width: grid_width(self.inner) as nat,
            height: grid_height(self.inner) as nat,
            stubs: Map::new(
                |at: Coord| self.cell(at) is Some,
                |at: Coord| self.cell(at).unwrap()@,
            ),
        }
    }
}

impl Board {
    /// The sizes on which a board can be held and checked: the grid counts
    /// its slots in a `u32`, and the neighbour of a coordinate is computed in
    /// `i32`, so no coordinate on the board may reach `i32::MAX`.
    pub open spec fn playable_size(width: nat, height: nat) -> bool {
        &&& width * height <= u32::MAX
        &&& width > 0 && height > 0 ==> width <= i32::MAX && height <= i32::MAX
    }

    /// The board has a playable size.
    pub open spec fn wf(&self) -> bool {
        Self::playable_size(grid_width(self.inner) as nat, grid_height(self.inner) as nat)
    }

    /// The cell at a coordinate, if the board has one there.
    pub open spec fn cell(&self, at: Coord) -> Option<Cell> {
        slot(self.inner, at)
    }

    /// The view of a board is a board of the rules: no wider and no higher
    /// than coordinates can count, with cells only at coordinates that lie
    /// on it.
    pub proof fn lemma_view_is_wf(self)
        ensures
            self@.wf(),
    {
    }

    /// The board that holds the given grid.
    pub fn new(inner: Grid<Cell>) -> (board: Self)
        ensures
            board.inner == inner,
    {
        Self { inner }
    }

    /// Whether a board of the given size can be held and checked.
    pub fn can_hold(width: u32, height: u32) -> (ok: bool)
        ensures
            ok == Self::playable_size(width as nat, height as nat),
    {
        assert(width * height <= 0xffff_ffff * 0xffff_ffff) by (nonlinear_arith)
            requires
                width <= 0xffff_ffff,
                height <= 0xffff_ffff,
        ;
        let slots: u64 = width as u64 * height as u64;
        slots <= 0xffff_ffff && (width == 0 || height == 0 || (width <= 0x7fff_ffff && height
            <= 0x7fff_ffff))
    }

    /// Whether the board has a playable size, which the other operations
    /// ask for.
    pub fn is_playable(&self) -> (ok: bool)
        ensures
            ok == self.wf(),
    {
        Self::can_hold(width_of(&self.inner), height_of(&self.inner))
    }

    /// The cell one step from `pos` in direction `dir`, if the board has
    /// one there.
    fn beside(&self, pos: Coord, dir: Direction4) -> (neighbor: Option<Cell>)
        requires
            self.wf(),
            self@.holds(pos),
        ensures
            stubs_of(neighbor) == self@.beside(pos, dir),
            neighbor == (match step(pos, dir) {
                Some(to) => self.cell(to),
                None => None,
            }),
    {
        match pos.offset4(dir) {
            Some(npos) => cell_at(&self.inner, npos),
            None => None,
        }
    }

    /// Whether the sides of the cell at `pos` that the scan looks at fit.
    fn scan_cell(&self, pos: Coord) -> (ok: bool)
        requires
            self.wf(),
            self@.holds(pos),
        ensures
            ok == (self@.stubs.contains_key(pos) ==> forall|dir: Direction4|
                Layout::scanned(pos, dir) ==> #[trigger] self@.edge_fits(pos, dir)),
    {
        match cell_at(&self.inner, pos) {
            None => true,
            Some(cell) => {
                let every = pos.x == 0 || pos.y == 0;
                let mut index: usize = 0;
                while index < 4
                    invariant
                        index <= 4,
                        self.wf(),
                        self@.holds(pos),
                        self.cell(pos) == Some(cell),
                        every == (pos.x == 0 || pos.y == 0),
                        forall|dir: Direction4|
                            ordinal(dir) < index && Layout::scanned(pos, dir)
                                ==> #[trigger] self@.edge_fits(pos, dir),
                    decreases 4 - index,
                {
                    let dir = direction(index);
                    if every || index == 1 || index == 2 {
                        let neighbor = self.beside(pos, dir);
                        if !cell.fits_with(neighbor, dir) {
                            assert(!self@.edge_fits(pos, dir));
                            return false;
                        }
                    }
                    index += 1;
                }
                true
            },
        }
    }

    /// Whether the board is solved, by one scan over its cells: each cell is
    /// held against its eastern and southern neighbours, and a cell in the
    /// first column or row against all four. On a board with a cell in every
    /// slot the scan sees every edge, and the result says whether every side
    /// of every cell fits.
    pub fn check_ok(&self) -> (ok: bool)
        requires
            self.wf(),
        ensures
            ok == self@.scan_ok(),
            self@.is_full() ==> ok == self@.solved(),
    {
        proof {
            if self@.is_full() {
                lemma_scan_sees_every_edge(self@);
            }
        }
        let width = width_of(&self.inner);
        let height = height_of(&self.inner);
        let mut y: u32 = 0;
        while y < height
            invariant
                self.wf(),
                width == grid_width(self.inner),
                height == grid_height(self.inner),
                y <= height,
                forall|at: Coord, dir: Direction4|
                    self@.stubs.contains_key(at) && at.y < y && Layout::scanned(at, dir)
                        ==> #[trigger] self@.edge_fits(at, dir),
            decreases height - y,
        {
            let mut x: u32 = 0;
            while x < width
                invariant
                    self.wf(),
                    width == grid_width(self.inner),
                    height == grid_height(self.inner),
                    y < height,
                    x <= width,
                    forall|at: Coord, dir: Direction4|
                        self@.stubs.contains_key(at) && (at.y < y || (at.y == y && at.x < x))
                            && Layout::scanned(at, dir) ==> #[trigger] self@.edge_fits(at, dir),
                decreases width - x,
            {
                let pos = Coord { x, y };
                if !self.scan_cell(pos) {
                    return false;
                }
                x += 1;
            }
            y += 1;
        }
        true
    }

    /// Whether the cell at `pos` has no unanswered stub: each of its stubs
    /// meets a stub of the neighbour on that side. A side without a stub is
    /// fine whatever faces it, and so is a coordinate without a cell.
    pub fn check_single_cell_ok(&self, pos: Coord) -> (ok: bool)
        requires
            self.wf(),
        ensures
            ok == self@.cell_ok(pos),
    {
        let here = match cell_at(&self.inner, pos) {
            Some(cell) => cell,
            None => { return true; },
        };
        let mut index: usize = 0;
        while index < 4
            invariant
                index <= 4,
                self.wf(),
                self@.holds(pos),
                self.cell(pos) == Some(here),
                forall|dir: Direction4| ordinal(dir) < index ==> #[trigger] self@.edge_leans(
                    pos,
                    dir,
                ),
            decreases 4 - index,
        {
            let dir = direction(index);
            let neighbor = self.beside(pos, dir);
            if !here.leans_on(neighbor, dir) {
                assert(!self@.edge_leans(pos, dir));
                return false;
            }
            index += 1;
        }
        true
    }

    /// A handle on the cell at `coord`, which lies on the board. Where the
    /// board has no cell there, it first gets one without stubs. No other
    /// cell changes.
    pub fn get_or_default(&mut self, coord: Coord) -> (cell: &mut Cell)
        requires
            old(self).wf(),
            old(self)@.holds(coord),
        ensures
            old(self).cell(coord) matches Some(before) ==> *cell == before,
            old(self).cell(coord) is None ==> cell@ == Set::<Direction4>::empty()
                && !cell.variant(),
            final(self).cell(coord) == Some(*final(cell)),
            forall|at: Coord| at != coord ==> final(self).cell(at) == old(self).cell(at),
            final(self)@.width == old(self)@.width,
            final(self)@.height == old(self)@.height,
    {
        slot_or_insert(&mut self.inner, coord, Cell::default())
    }

    /// Turns the cell at `coord`, which lies on the board, by one quarter
    /// turn. Where the board has no cell there, it gets one without stubs.
    /// No other cell changes.
    pub fn rotate_cell(&mut self, coord: Coord, rot: Rotation)
        requires
            old(self).wf(),
            old(self)@.holds(coord),
        ensures
            final(self)@ == old(self)@.turned_at(coord, quarter_turns(rot)),
            forall|at: Coord| at != coord ==> final(self).cell(at) == old(self).cell(at),
            final(self).cell(coord) matches Some(after) && after.variant() == !(match old(
                self,
            ).cell(coord) {
                Some(before) => before.variant(),
                None => false,
            }),
            final(self).wf(),
    {
        let c = self.get_or_default(coord);
        *c = c.rotated(rot);
        proof {
            assert(final(self)@.stubs =~= old(self)@.turned_at(coord, quarter_turns(rot)).stubs);
        }
    }
}

/// Two cells side by side see the same edge: the first fits the second
/// in direction `dir` exactly where the second fits the first in the
/// opposite direction.
pub proof fn lemma_fits_is_symmetric(a: Set<Direction4>, b: Set<Direction4>, dir: Direction4)
    ensures
        fits(a, Some(b), dir) == fits(b, Some(a), opposite(dir)),
{
}

/// A cell fits its neighbour where neither leaves a stub of its own
/// unanswered.
pub proof fn lemma_fits_is_leaning_both_ways(
    a: Set<Direction4>,
    b: Set<Direction4>,
    dir: Direction4,
)
    ensures
        fits(a, Some(b), dir) == (leans(a, Some(b), dir) && leans(b, Some(a), opposite(dir))),
{
}

} // verus!
