use aglet::{Coord, Direction4, Direction4Set, Grid, Rotation};
use ttyloop::board::{Board, Cell};

const NORTH: u8 = 0b0001;
const EAST: u8 = 0b0010;
const SOUTH: u8 = 0b0100;
const WEST: u8 = 0b1000;

const GLYPHS: [&str; 16] = [
    "   ", " ╵ ", " ╶─", " ╰─", " ╷ ", " │ ", " ╭─", " ├─", "─╴ ", "─╯ ", "───", "─┴─", "─╮ ",
    "─┤ ", "─┬─", "─┼─",
];

fn cell(mask: u8) -> Cell {
    Cell::new(Direction4Set::from_bits_truncate(mask))
}

fn mask(cell: Cell) -> u8 {
    let glyph = cell.render(false);
    GLYPHS.iter().position(|g| *g == glyph).expect("a picture of the table") as u8
}

/// The board of the given width whose rows are given from north to south.
fn board(width: u32, masks: &[u8]) -> Board {
    let height = if width == 0 { 0 } else { masks.len() as u32 / width };
    let mut grid = Grid::new(width, height);
    for (i, m) in masks.iter().enumerate() {
        grid.insert(Coord::new(i as u32 % width, i as u32 / width), cell(*m));
    }
    let board = Board::new(grid);
    assert!(board.is_playable());
    board
}

fn mask_at(board: &Board, x: u32, y: u32) -> Option<u8> {
    board.inner.get(Coord::new(x, y)).map(|c| mask(*c))
}

/// Every cell fits on all four sides, counted by hand.
fn solved_by_hand(board: &Board) -> bool {
    let (w, h) = (board.inner.width(), board.inner.height());
    for y in 0..h {
        for x in 0..w {
            let here = mask_at(board, x, y).unwrap();
            let north = if y > 0 { mask_at(board, x, y - 1).unwrap() } else { 0 };
            let south = if y + 1 < h { mask_at(board, x, y + 1).unwrap() } else { 0 };
            let west = if x > 0 { mask_at(board, x - 1, y).unwrap() } else { 0 };
            let east = if x + 1 < w { mask_at(board, x + 1, y).unwrap() } else { 0 };
            if (here & NORTH != 0) != (north & SOUTH != 0)
                || (here & SOUTH != 0) != (south & NORTH != 0)
                || (here & WEST != 0) != (west & EAST != 0)
                || (here & EAST != 0) != (east & WEST != 0)
            {
                return false;
            }
        }
    }
    true
}

fn every_cell_ok(board: &Board) -> bool {
    let (w, h) = (board.inner.width(), board.inner.height());
    (0..h).all(|y| (0..w).all(|x| board.check_single_cell_ok(Coord::new(x, y))))
}

#[test]
fn new_wraps_the_grid() {
    let mut grid = Grid::new(3, 2);
    grid.insert(Coord::new(2, 1), cell(NORTH | WEST));
    let board = Board::new(grid);
    assert_eq!(board.inner.width(), 3);
    assert_eq!(board.inner.height(), 2);
    assert_eq!(mask_at(&board, 2, 1), Some(NORTH | WEST));
    assert_eq!(mask_at(&board, 0, 0), None);
}

#[test]
fn a_loop_of_four_corners_is_solved() {
    let b = board(2, &[EAST | SOUTH, WEST | SOUTH, NORTH | EAST, NORTH | WEST]);
    assert!(b.check_ok());
    assert!(every_cell_ok(&b));
}

#[test]
fn a_board_without_stubs_is_solved() {
    assert!(board(3, &[0; 9]).check_ok());
    assert!(board(1, &[0]).check_ok());
}

#[test]
fn an_empty_board_is_solved() {
    for (w, h) in [(0, 0), (0, 5), (5, 0)] {
        let b = Board::new(Grid::new(w, h));
        assert!(b.is_playable());
        assert!(b.check_ok());
        assert!(b.check_single_cell_ok(Coord::new(0, 0)));
    }
}

#[test]
fn a_stub_that_meets_no_stub_is_not_solved() {
    assert!(!board(2, &[EAST, 0]).check_ok());
    assert!(!board(2, &[0, WEST]).check_ok());
    assert!(board(2, &[EAST, WEST]).check_ok());
    assert!(!board(1, &[SOUTH, 0]).check_ok());
    assert!(!board(1, &[0, NORTH]).check_ok());
    assert!(board(1, &[SOUTH, NORTH]).check_ok());
}

#[test]
fn a_stub_that_points_off_the_board_is_not_solved() {
    for m in [NORTH, EAST, SOUTH, WEST] {
        assert!(!board(1, &[m]).check_ok());
    }
    let mut middle_only = [0u8; 9];
    for (i, m) in [(1, NORTH), (3, WEST), (5, EAST), (7, SOUTH)] {
        middle_only[i] = m;
        assert!(!board(3, &middle_only).check_ok());
        middle_only[i] = 0;
    }
    assert!(!board(3, &[0, 0, 0, 0, 0, 0, 0, 0, SOUTH]).check_ok());
    assert!(!board(3, &[0, 0, 0, 0, 0, 0, 0, 0, EAST]).check_ok());
    assert!(!board(3, &[WEST, 0, 0, 0, 0, 0, 0, 0, 0]).check_ok());
    assert!(!board(3, &[NORTH, 0, 0, 0, 0, 0, 0, 0, 0]).check_ok());
}

#[test]
fn an_inner_cell_is_seen_from_its_western_and_northern_neighbours() {
    // The cell at (1, 1) shows stubs to the west and north that nothing
    // answers; only the scans of (0, 1) and (1, 0) can see that.
    assert!(!board(2, &[0, 0, 0, WEST]).check_ok());
    assert!(!board(2, &[0, 0, 0, NORTH]).check_ok());
    assert!(board(2, &[0, SOUTH, 0, NORTH]).check_ok());
    assert!(board(2, &[0, 0, EAST, WEST]).check_ok());
}

#[test]
fn check_ok_is_solved_by_hand_on_every_full_board_of_four_cells() {
    for (w, h) in [(2, 2), (4, 1), (1, 4)] {
        for all in 0..(1u32 << 16) {
            let masks: Vec<u8> = (0..4).map(|i| ((all >> (4 * i)) & 0b1111) as u8).collect();
            let b = board(w, &masks);
            assert_eq!(b.inner.height(), h);
            assert_eq!(b.check_ok(), solved_by_hand(&b));
        }
    }
}

#[test]
fn check_ok_is_every_single_cell_ok_on_every_full_board_of_four_cells() {
    for w in [2, 4, 1] {
        for all in 0..(1u32 << 16) {
            let masks: Vec<u8> = (0..4).map(|i| ((all >> (4 * i)) & 0b1111) as u8).collect();
            let b = board(w, &masks);
            assert_eq!(b.check_ok(), every_cell_ok(&b));
        }
    }
}

#[test]
fn check_ok_is_every_single_cell_ok_on_some_boards_of_nine_cells() {
    let mut state = 0x2545_f491_4f6c_dd1du64;
    for _ in 0..20_000 {
        let mut masks = [0u8; 9];
        for m in masks.iter_mut() {
            state ^= state << 13;
            state ^= state >> 7;
            state ^= state << 17;
            // Few stubs, so that a fair share of the boards is solved.
            *m = (state & (state >> 8) & (state >> 16) & 0b1111) as u8;
        }
        let b = board(3, &masks);
        assert_eq!(b.check_ok(), every_cell_ok(&b));
        assert_eq!(b.check_ok(), solved_by_hand(&b));
    }
}

#[test]
fn on_a_board_with_an_empty_slot_the_scan_can_miss_an_edge() {
    let mut grid = Grid::new(2, 2);
    grid.insert(Coord::new(1, 1), cell(WEST));
    let b = Board::new(grid);
    assert!(b.check_ok());
    assert!(!b.check_single_cell_ok(Coord::new(1, 1)));
}

#[test]
fn check_single_cell_ok_is_true_where_there_is_no_cell() {
    let mut grid = Grid::new(2, 2);
    grid.insert(Coord::new(0, 0), cell(0));
    let b = Board::new(grid);
    assert!(b.check_single_cell_ok(Coord::new(1, 1)));
    assert!(b.check_single_cell_ok(Coord::new(2, 0)));
    assert!(b.check_single_cell_ok(Coord::new(0, 7)));
    assert!(b.check_single_cell_ok(Coord::new(u32::MAX, u32::MAX)));
}

#[test]
fn check_single_cell_ok_minds_only_the_stubs_of_the_cell() {
    let b = board(2, &[EAST, 0]);
    assert!(!b.check_single_cell_ok(Coord::new(0, 0)));
    assert!(b.check_single_cell_ok(Coord::new(1, 0)));
    let b = board(2, &[EAST, WEST | EAST]);
    assert!(b.check_single_cell_ok(Coord::new(0, 0)));
    assert!(!b.check_single_cell_ok(Coord::new(1, 0)));
    let b = board(3, &[0, SOUTH, 0, EAST, NORTH | EAST | SOUTH | WEST, WEST, 0, NORTH, 0]);
    assert!(b.check_single_cell_ok(Coord::new(1, 1)));
    assert!(b.check_ok());
    let b = board(3, &[0, SOUTH, 0, EAST, NORTH | EAST | SOUTH | WEST, 0, 0, NORTH, 0]);
    assert!(!b.check_single_cell_ok(Coord::new(1, 1)));
    assert!(b.check_single_cell_ok(Coord::new(2, 1)));
    assert!(!b.check_ok());
}

#[test]
fn check_single_cell_ok_fails_on_a_stub_towards_an_empty_slot() {
    let mut grid = Grid::new(2, 1);
    grid.insert(Coord::new(0, 0), cell(EAST));
    let b = Board::new(grid);
    assert!(!b.check_single_cell_ok(Coord::new(0, 0)));
    assert!(!b.check_ok());
}

#[test]
fn rotate_cell_turns_one_cell_and_no_other() {
    let masks = [EAST | SOUTH, WEST | SOUTH, NORTH | EAST, NORTH | WEST];
    for i in 0..4u32 {
        for (rot, steps) in [(Rotation::Clockwise, 1), (Rotation::CounterClockwise, -1)] {
            let mut b = board(2, &masks);
            b.rotate_cell(Coord::new(i % 2, i / 2), rot);
            for j in 0..4u32 {
                let want = if i == j {
                    mask(cell(masks[j as usize]).spin(steps))
                } else {
                    masks[j as usize]
                };
                assert_eq!(mask_at(&b, j % 2, j / 2), Some(want));
            }
            assert!(!b.check_ok());
        }
    }
}

#[test]
fn rotate_cell_clockwise_moves_north_to_east() {
    let mut b = board(1, &[NORTH]);
    b.rotate_cell(Coord::new(0, 0), Rotation::Clockwise);
    assert_eq!(mask_at(&b, 0, 0), Some(EAST));
    b.rotate_cell(Coord::new(0, 0), Rotation::CounterClockwise);
    b.rotate_cell(Coord::new(0, 0), Rotation::CounterClockwise);
    assert_eq!(mask_at(&b, 0, 0), Some(WEST));
}

#[test]
fn rotate_cell_four_times_brings_the_board_back() {
    let masks = [EAST, WEST | SOUTH, 0, NORTH];
    let mut b = board(2, &masks);
    assert!(b.check_ok());
    for turn in 1..=4 {
        b.rotate_cell(Coord::new(1, 0), Rotation::Clockwise);
        assert_eq!(b.check_ok(), turn == 4);
    }
    for (i, m) in masks.iter().enumerate() {
        assert_eq!(mask_at(&b, i as u32 % 2, i as u32 / 2), Some(*m));
    }
}

#[test]
fn rotate_cell_fills_an_empty_slot_with_a_cell_without_stubs() {
    let mut b = Board::new(Grid::new(2, 2));
    b.rotate_cell(Coord::new(1, 0), Rotation::Clockwise);
    assert_eq!(mask_at(&b, 1, 0), Some(0));
    assert_eq!(mask_at(&b, 0, 0), None);
    assert_eq!(mask_at(&b, 0, 1), None);
    assert_eq!(mask_at(&b, 1, 1), None);
}

#[test]
fn get_or_default_hands_out_the_cell() {
    let mut b = board(2, &[EAST, WEST]);
    assert_eq!(mask(*b.get_or_default(Coord::new(0, 0))), EAST);
    assert_eq!(mask(*b.get_or_default(Coord::new(1, 0))), WEST);
    assert_eq!(mask_at(&b, 0, 0), Some(EAST));
    assert_eq!(mask_at(&b, 1, 0), Some(WEST));
}

#[test]
fn get_or_default_fills_an_empty_slot() {
    let mut b = Board::new(Grid::new(2, 1));
    assert_eq!(mask_at(&b, 1, 0), None);
    assert_eq!(mask(*b.get_or_default(Coord::new(1, 0))), 0);
    assert_eq!(mask_at(&b, 1, 0), Some(0));
    assert_eq!(mask_at(&b, 0, 0), None);
    assert_eq!(b.get_or_default(Coord::new(1, 0)).render(true), "   ");
}

#[test]
fn get_or_default_writes_through() {
    let mut b = board(2, &[EAST, 0]);
    assert!(!b.check_ok());
    *b.get_or_default(Coord::new(1, 0)) = cell(WEST);
    assert_eq!(mask_at(&b, 1, 0), Some(WEST));
    assert_eq!(mask_at(&b, 0, 0), Some(EAST));
    assert!(b.check_ok());
}

#[test]
fn is_playable_is_true_of_boards_that_fit() {
    assert!(Board::new(Grid::new(0, 0)).is_playable());
    assert!(Board::new(Grid::new(20, 20)).is_playable());
    assert!(Board::new(Grid::new(u32::MAX, 0)).is_playable());
    assert!(Board::new(Grid::new(0, u32::MAX)).is_playable());
    assert!(Board::new(Grid::new(1, 7)).is_playable());
}

#[test]
fn can_hold_what_fits_the_grid_and_its_neighbour_arithmetic() {
    assert!(Board::can_hold(0, 0));
    assert!(Board::can_hold(9, 9));
    assert!(Board::can_hold(65535, 65537));
    assert!(!Board::can_hold(65536, 65536));
    assert!(Board::can_hold(i32::MAX as u32, 2));
    assert!(!Board::can_hold(i32::MAX as u32, 3));
    assert!(!Board::can_hold(i32::MAX as u32 + 1, 1));
    assert!(!Board::can_hold(1, u32::MAX));
    assert!(Board::can_hold(u32::MAX, 0));
    assert!(Board::can_hold(0, u32::MAX));
}

#[test]
fn clone_is_a_board_of_its_own_with_the_same_cells() {
    let first = board(2, &[EAST, WEST | SOUTH, 0, NORTH]);
    let mut copy = first.clone();
    assert_eq!(copy.inner.width(), 2);
    assert_eq!(copy.inner.height(), 2);
    for i in 0..4 {
        assert_eq!(mask_at(&copy, i % 2, i / 2), mask_at(&first, i % 2, i / 2));
    }
    assert!(copy.check_ok());
    copy.rotate_cell(Coord::new(0, 0), Rotation::Clockwise);
    assert_eq!(mask_at(&copy, 0, 0), Some(SOUTH));
    assert_eq!(mask_at(&first, 0, 0), Some(EAST));
    assert!(first.check_ok());
    let mut sparse = Grid::new(3, 1);
    sparse.insert(Coord::new(1, 0), cell(NORTH));
    let copy = Board::new(sparse).clone();
    assert_eq!(mask_at(&copy, 0, 0), None);
    assert_eq!(mask_at(&copy, 1, 0), Some(NORTH));
    assert_eq!(mask_at(&copy, 2, 0), None);
}

#[test]
fn neighbours_are_found_in_all_four_directions() {
    // A plus in the middle of nine cells, one arm at a time.
    for (i, dir) in Direction4::DIRECTIONS.iter().enumerate() {
        let mut masks = [0u8; 9];
        masks[4] = 1 << i;
        assert!(!board(3, &masks).check_single_cell_ok(Coord::new(1, 1)));
        let (x, y) = match dir {
            Direction4::North => (1, 0),
            Direction4::East => (2, 1),
            Direction4::South => (1, 2),
            Direction4::West => (0, 1),
        };
        masks[y * 3 + x] = 1 << ((i + 2) % 4);
        let b = board(3, &masks);
        assert!(b.check_single_cell_ok(Coord::new(1, 1)));
        assert!(b.check_single_cell_ok(Coord::new(x as u32, y as u32)));
        assert!(b.check_ok());
    }
}
