use aglet::{Direction4, Direction4Set, Rotation};
use ttyloop::board::Cell;

const GLYPHS: [&str; 16] = [
    "   ", " ╵ ", " ╶─", " ╰─", " ╷ ", " │ ", " ╭─", " ├─", "─╴ ", "─╯ ", "───", "─┴─", "─╮ ",
    "─┤ ", "─┬─", "─┼─",
];

fn cell(mask: u8) -> Cell {
    Cell::new(Direction4Set::from_bits_truncate(mask))
}

/// The mask of a cell, read off its picture.
fn mask(cell: Cell) -> u8 {
    let glyph = cell.render(false);
    GLYPHS.iter().position(|g| *g == glyph).expect("a picture of the table") as u8
}

/// The mask with each bit moved `steps` places up, around the four bits.
fn turned_mask(mask: u8, steps: i32) -> u8 {
    let by = steps.rem_euclid(4) as u32;
    ((mask << by) | (mask >> (4 - by))) & 0b1111
}

#[test]
fn render_gives_the_glyph_of_each_mask() {
    assert_eq!(cell(0b0000).render(false), "   ");
    assert_eq!(cell(0b0001).render(false), " ╵ ");
    assert_eq!(cell(0b0010).render(false), " ╶─");
    assert_eq!(cell(0b0100).render(false), " ╷ ");
    assert_eq!(cell(0b1000).render(false), "─╴ ");
    assert_eq!(cell(0b0011).render(false), " ╰─");
    assert_eq!(cell(0b0110).render(false), " ╭─");
    assert_eq!(cell(0b1100).render(false), "─╮ ");
    assert_eq!(cell(0b1001).render(false), "─╯ ");
    assert_eq!(cell(0b0101).render(false), " │ ");
    assert_eq!(cell(0b1010).render(false), "───");
    assert_eq!(cell(0b0111).render(false), " ├─");
    assert_eq!(cell(0b1110).render(false), "─┬─");
    assert_eq!(cell(0b1101).render(false), "─┤ ");
    assert_eq!(cell(0b1011).render(false), "─┴─");
    assert_eq!(cell(0b1111).render(false), "─┼─");
}

#[test]
fn render_gives_sixteen_different_glyphs_of_three_characters() {
    for a in 0..16u8 {
        assert_eq!(cell(a).render(false).chars().count(), Cell::DISPLAY_LEN);
        assert_eq!(cell(a).render(true).chars().count(), Cell::DISPLAY_LEN);
        for b in 0..16u8 {
            assert_eq!(cell(a).render(false) == cell(b).render(false), a == b);
        }
    }
}

#[test]
fn render_with_variant_changes_only_the_cross() {
    for a in 0..15u8 {
        assert_eq!(cell(a).render(true), cell(a).render(false));
        assert_eq!(cell(a).spin(1).render(true), cell(a).spin(1).render(false));
    }
    let cross = cell(0b1111);
    assert_eq!(cross.render(true), "─🮩─");
    assert_eq!(cross.spin(1).render(true), "─🮨─");
    assert_eq!(cross.spin(1).spin(1).render(true), "─🮩─");
    assert_eq!(cross.rotated(Rotation::Clockwise).render(true), "─🮨─");
    assert_eq!(cross.spin(1).render(false), "─┼─");
}

#[test]
fn arms_of_the_glyph_are_the_western_and_eastern_stubs() {
    for a in 0..16u8 {
        let glyph: Vec<char> = cell(a).render(false).chars().collect();
        assert_eq!(glyph[0] == '─', a & 0b1000 != 0);
        assert_eq!(glyph[0] == ' ', a & 0b1000 == 0);
        assert_eq!(glyph[2] == '─', a & 0b0010 != 0);
        assert_eq!(glyph[2] == ' ', a & 0b0010 == 0);
    }
}

#[test]
fn new_keeps_the_connectors() {
    let set = Direction4::North | Direction4::West;
    assert_eq!(mask(Cell::new(set)), 0b1001);
    assert_eq!(mask(Cell::new(Direction4Set::empty())), 0);
    assert_eq!(mask(Cell::new(Direction4Set::all())), 0b1111);
}

#[test]
fn default_cell_has_no_connectors() {
    let cell = Cell::default();
    assert_eq!(cell.render(false), "   ");
    assert_eq!(cell.render(true), "   ");
    for dir in Direction4::DIRECTIONS {
        assert!(cell.fits_with(None, dir));
    }
}

#[test]
fn spin_by_one_step_turns_clockwise() {
    assert_eq!(mask(cell(0b0001).spin(1)), 0b0010);
    assert_eq!(mask(cell(0b0010).spin(1)), 0b0100);
    assert_eq!(mask(cell(0b0100).spin(1)), 0b1000);
    assert_eq!(mask(cell(0b1000).spin(1)), 0b0001);
    assert_eq!(cell(0b0011).spin(1).render(false), " ╭─");
    assert_eq!(cell(0b0111).spin(1).render(false), "─┬─");
    assert_eq!(cell(0b0101).spin(1).render(false), "───");
}

#[test]
fn spin_by_a_negative_step_turns_counter_clockwise() {
    assert_eq!(mask(cell(0b0001).spin(-1)), 0b1000);
    assert_eq!(mask(cell(0b0010).spin(-1)), 0b0001);
    assert_eq!(mask(cell(0b0011).spin(-1)), 0b1001);
    assert_eq!(mask(cell(0b0001).spin(-2)), 0b0100);
    assert_eq!(mask(cell(0b0001).spin(-3)), 0b0010);
}

#[test]
fn spin_moves_each_stub_by_the_steps_modulo_four() {
    for a in 0..16u8 {
        for steps in -9..=9 {
            assert_eq!(mask(cell(a).spin(steps)), turned_mask(a, steps));
        }
        assert_eq!(mask(cell(a).spin(i32::MIN)), turned_mask(a, i32::MIN));
        assert_eq!(mask(cell(a).spin(i32::MAX - 3)), turned_mask(a, i32::MAX - 3));
    }
}

#[test]
fn spin_by_a_multiple_of_four_is_the_identity() {
    for a in 0..16u8 {
        assert_eq!(mask(cell(a).spin(0)), a);
        assert_eq!(mask(cell(a).spin(4)), a);
        assert_eq!(mask(cell(a).spin(-4)), a);
        assert_eq!(mask(cell(a).spin(400)), a);
        assert_eq!(mask(cell(a).spin(1).spin(1).spin(1).spin(1)), a);
        assert_eq!(mask(cell(a).spin(3).spin(5)), a);
        assert_eq!(mask(cell(a).spin(-7).spin(3)), a);
    }
}

#[test]
fn spin_there_and_back_is_the_identity() {
    for a in 0..16u8 {
        for steps in -6..=6 {
            assert_eq!(mask(cell(a).spin(steps).spin(-steps)), a);
        }
    }
}

#[test]
fn spins_add_up() {
    for a in 0..16u8 {
        for first in -5..=5 {
            for second in -5..=5 {
                assert_eq!(
                    mask(cell(a).spin(first).spin(second)),
                    mask(cell(a).spin(first + second))
                );
            }
        }
    }
}

#[test]
fn rotated_is_a_spin_by_one_step_either_way() {
    for a in 0..16u8 {
        assert_eq!(mask(cell(a).rotated(Rotation::Clockwise)), mask(cell(a).spin(1)));
        assert_eq!(mask(cell(a).rotated(Rotation::CounterClockwise)), mask(cell(a).spin(-1)));
        assert_eq!(
            mask(cell(a).rotated(Rotation::Clockwise).rotated(Rotation::CounterClockwise)),
            a
        );
    }
    assert_eq!(cell(0b0001).rotated(Rotation::Clockwise).render(false), " ╶─");
    assert_eq!(cell(0b0001).rotated(Rotation::CounterClockwise).render(false), "─╴ ");
}

#[test]
fn fits_with_compares_facing_stubs() {
    let east = cell(0b0010);
    let west = cell(0b1000);
    let none = cell(0);
    assert!(east.fits_with(Some(west), Direction4::East));
    assert!(!east.fits_with(Some(none), Direction4::East));
    assert!(!east.fits_with(Some(east), Direction4::East));
    assert!(!none.fits_with(Some(west), Direction4::East));
    assert!(none.fits_with(Some(none), Direction4::East));
    assert!(none.fits_with(Some(east), Direction4::East));
    assert!(cell(0b0001).fits_with(Some(cell(0b0100)), Direction4::North));
    assert!(cell(0b0100).fits_with(Some(cell(0b0001)), Direction4::South));
    assert!(!cell(0b0100).fits_with(Some(cell(0b0100)), Direction4::South));
}

#[test]
fn fits_with_nothing_means_no_stub() {
    for a in 0..16u8 {
        for (bit, dir) in Direction4::DIRECTIONS.iter().enumerate() {
            assert_eq!(cell(a).fits_with(None, *dir), a & (1 << bit) == 0);
        }
    }
}

#[test]
fn fits_with_is_symmetric() {
    for a in 0..16u8 {
        for b in 0..16u8 {
            for dir in Direction4::DIRECTIONS {
                assert_eq!(
                    cell(a).fits_with(Some(cell(b)), dir),
                    cell(b).fits_with(Some(cell(a)), dir.flip())
                );
            }
        }
    }
}

#[test]
fn fits_with_reads_one_bit_of_each_cell() {
    for a in 0..16u8 {
        for b in 0..16u8 {
            for (bit, dir) in Direction4::DIRECTIONS.iter().enumerate() {
                let mine = a & (1 << bit) != 0;
                let theirs = b & (1 << ((bit + 2) % 4)) != 0;
                assert_eq!(cell(a).fits_with(Some(cell(b)), *dir), mine == theirs);
                assert_eq!(cell(a).leans_on(Some(cell(b)), *dir), !mine || theirs);
                assert_eq!(cell(a).leans_on(None, *dir), !mine);
            }
        }
    }
}

#[test]
fn fitting_is_leaning_both_ways() {
    for a in 0..16u8 {
        for b in 0..16u8 {
            for dir in Direction4::DIRECTIONS {
                assert_eq!(
                    cell(a).fits_with(Some(cell(b)), dir),
                    cell(a).leans_on(Some(cell(b)), dir)
                        && cell(b).leans_on(Some(cell(a)), dir.flip())
                );
            }
        }
    }
}
