//! What the widgets of the game decide: how keys are read, how the slider
//! that picks a size moves, and how the board on the screen answers the
//! player. Nothing here draws or reads a terminal; a shell around the
//! library does that and asks these types what to do.

use crate::board::{Board, Cell};
use crate::compass::quarter_turns;
use crate::grid::{cell_at, height_of, width_of};
use aglet::{Coord, Direction4, Rotation};
use vstd::arithmetic::div_mod::lemma_fundamental_div_mod_converse;
use vstd::prelude::*;
use vstd::std_specs::convert::IntoSpec;

verus! {

/// A key that is no character. Only the four arrows matter to the game.
#[derive(Debug, Clone, Copy, PartialEq, Eq, Structural)]
pub enum Key {
    Left,
    Down,
    Up,
    Right,
    Other,
}

/// What the player did, as far as the game reads it: a character or a key,
/// alone or with the modifiers held down.
#[derive(Debug, Clone, Copy, PartialEq, Eq, Structural)]
pub enum Event {
    Char(char),
    CtrlChar(char),
    AltChar(char),
    Key(Key),
    Shift(Key),
    Alt(Key),
    AltShift(Key),
    Ctrl(Key),
    CtrlShift(Key),
    Other,
}

/// Whether a widget took an event.
#[derive(Debug, Clone, Copy, PartialEq, Eq, Structural)]
pub enum EventResult {
    Ignored,
    Consumed,
}

/// A colour of the terminal: its own default, or one of the 216 colours
/// with red, green and blue between 0 and 5.
#[derive(Debug, Clone, Copy, PartialEq, Eq, Structural)]
pub enum Color {
    TerminalDefault,
    RgbLowRes(u8, u8, u8),
}

/// The arrow that a letter of `hjkl` stands for.
pub open spec fn arrow_of(ch: char) -> Option<Key> {
    if ch == 'h' {
        Some(Key::Left)
    } else if ch == 'j' {
        Some(Key::Down)
    } else if ch == 'k' {
        Some(Key::Up)
    } else if ch == 'l' {
        Some(Key::Right)
    } else {
        None
    }
}

/// The arrow event that a letter event stands for: `h`, `j`, `k` and `l`,
/// alone or with control or alt, are the arrows left, down, up and right
/// with the same modifier. A capital letter stands for nothing.
pub open spec fn hjkl_to_direction(ev: Event) -> Option<Event> {
    match ev {
        Event::Char(ch) => match arrow_of(ch) {
            Some(key) => Some(Event::Key(key)),
            None => None,
        },
        Event::CtrlChar(ch) => match arrow_of(ch) {
            Some(key) => Some(Event::Ctrl(key)),
            None => None,
        },
        Event::AltChar(ch) => match arrow_of(ch) {
            Some(key) => Some(Event::Alt(key)),
            None => None,
        },
        _ => None,
    }
}

/// What a wrapper does with an event once the view inside has answered it.
#[derive(Debug, Clone, Copy, PartialEq, Eq, Structural)]
pub enum Relay {
    /// The view inside took the event: its answer stands.
    Settled,
    /// The view inside did not take the event, and it stands for no arrow.
    Ignored,
    /// The view inside did not take the event: it gets the arrow event that
    /// the event stands for, and its answer to that stands.
    Resend(Event),
}

/// What `wrap_on_event` decides.
pub open spec fn relay(ev: Event, answer: EventResult) -> Relay {
    if answer != EventResult::Ignored {
        Relay::Settled
    } else {
        match hjkl_to_direction(ev) {
            Some(arrow) => Relay::Resend(arrow),
            None => Relay::Ignored,
        }
    }
}

/// The modifiers that an arrow event can carry.
enum Held {
    Nothing,
    Shift,
    Ctrl,
    CtrlShift,
    Alt,
    AltShift,
}

/// Whether a character is one of the capital letters `A` to `Z`.
fn is_ascii_uppercase(ch: char) -> (capital: bool)
    ensures
        capital == ('A' <= ch && ch <= 'Z'),
{
    'A' <= ch && ch <= 'Z'
}

/// A view that lets the view inside it be steered with `hjkl` as with the
/// arrows.
pub struct HjklToDirectionWrapperView<T> {
    view: T,
}

impl<T> HjklToDirectionWrapperView<T> {
    /// The view inside.
    pub closed spec fn inner(&self) -> T {
        self.view
    }

    /// The wrapper around a view.
    pub fn new(view: T) -> (wrapper: Self)
        ensures
            wrapper.inner() == view,
    {
        Self { view }
    }

    /// The view inside.
    pub fn get_inner(&self) -> (view: &T)
        ensures
            *view == self.inner(),
    {
        &self.view
    }

    /// The view inside, to change it.
    pub fn get_inner_mut(&mut self) -> (view: &mut T)
        ensures
            *view == old(self).inner(),
            final(self).inner() == *final(view),
    {
        &mut self.view
    }

    /// The view inside, out of its wrapper.
    pub fn into_inner(self) -> (view: T)
        ensures
            view == self.inner(),
    {
        self.view
    }

    /// What to do with an event that the view inside has answered with
    /// `answer`. An answer other than `Ignored` stands. Else the event is
    /// read as a letter of `hjkl`: the view inside gets the arrow for it,
    /// and where the event is no such letter, nobody takes it.
    pub fn wrap_on_event(&self, ev: Event, answer: EventResult) -> (next: Relay)
        ensures
            next == relay(ev, answer),
    {
        match answer {
            EventResult::Ignored => {},
            EventResult::Consumed => {
                return Relay::Settled;
            },
        }
        let (ch, held) = match ev {
            Event::Char(c) => (
                c,
                if is_ascii_uppercase(c) {
                    Held::Shift
                } else {
                    Held::Nothing
                },
            ),
            Event::CtrlChar(c) => (
                c,
                if is_ascii_uppercase(c) {
                    Held::CtrlShift
                } else {
                    Held::Ctrl
                },
            ),
            Event::AltChar(c) => (
                c,
                if is_ascii_uppercase(c) {
                    Held::AltShift
                } else {
                    Held::Alt
                },
            ),
            _ => {
                return Relay::Ignored;
            },
        };
        let dir = if ch == 'h' {
            Key::Left
        } else if ch == 'j' {
            Key::Down
        } else if ch == 'k' {
            Key::Up
        } else if ch == 'l' {
            Key::Right
        } else {
            return Relay::Ignored;
        };
        let the_cooler_event = match held {
            Held::Nothing => Event::Key(dir),
            Held::Shift => Event::Shift(dir),
            Held::Ctrl => Event::Ctrl(dir),
            Held::CtrlShift => Event::CtrlShift(dir),
            Held::Alt => Event::Alt(dir),
            Held::AltShift => Event::AltShift(dir),
        };
        Relay::Resend(the_cooler_event)
    }
}

/// The logarithm to base 10 of a number, rounded down; 0 for 0.
pub open spec fn floor_log10(n: nat) -> nat
    decreases n,
{
    if n < 10 {
        0
    } else {
        1 + floor_log10(n / 10)
    }
}

/// The number of digits with which a number is written.
pub open spec fn digits(n: nat) -> nat {
    floor_log10(n) + 1
}

/// `u32::checked_ilog10`: the logarithm to base 10 rounded down, and `None`
/// for 0.
#[verifier::external_body]
fn checked_ilog10(n: u32) -> (log: Option<u32>)
    ensures
        log == (if n == 0 {
            None
        } else {
            Some(floor_log10(n as nat) as u32)
        }),
{
    n.checked_ilog10()
}

/// A number that fits a `u32` has at most ten digits.
proof fn lemma_at_most_ten_digits(n: u32)
    ensures
        floor_log10(n as nat) <= 9,
{
    reveal_with_fuel(floor_log10, 11);
}

/// Where the next slide takes a slider that stands `offset` above its
/// lowest value and can go up to `top` above it: the arrows move it one
/// step, which stops at either end, and with shift or control they move it
/// all the way. Any other event leaves it where it is.
pub open spec fn slid(offset: u32, top: u32, ev: Event) -> u32 {
    match ev {
        Event::Key(Key::Left) => if offset > 0 {
            (offset - 1) as u32
        } else {
            offset
        },
        Event::Key(Key::Right) => if offset < top {
            (offset + 1) as u32
        } else {
            offset
        },
        Event::Ctrl(Key::Left) | Event::Shift(Key::Left) => 0,
        Event::Ctrl(Key::Right) | Event::Shift(Key::Right) => top,
        _ => offset,
    }
}

/// Whether an event is one that a slider takes.
pub open spec fn slides(ev: Event) -> bool {
    match ev {
        Event::Key(Key::Left) | Event::Key(Key::Right) => true,
        Event::Ctrl(Key::Left) | Event::Shift(Key::Left) => true,
        Event::Ctrl(Key::Right) | Event::Shift(Key::Right) => true,
        _ => false,
    }
}

/// Where the parts of a slider stand in its second line: the lowest value
/// is written at column 0, then comes a rail with one place for each
/// value, then the highest value, and the knob stands on the rail at the
/// place of the value.
#[derive(Debug, Clone, Copy, PartialEq, Eq, Structural)]
pub struct SliderPicture {
    pub rail_at: u32,
    pub rail_len: u32,
    pub max_at: u32,
    pub knob_at: u32,
}

/// A slider that picks a number between a lowest and a highest value, which
/// both can be picked.
#[derive(Debug)]
pub struct TheCoolerSliderView {
    title: String,
    min: u32,
    max: u32,
    val_offset: u32,
}

impl TheCoolerSliderView {
    /// The value lies between the lowest and the highest.
    #[verifier::type_invariant]
    spec fn in_range(self) -> bool {
        self.min <= self.max && self.val_offset <= self.max - self.min
    }

    /// The title of the slider.
    pub closed spec fn spec_title(&self) -> Seq<char> {
        self.title@
    }

    /// The lowest value.
    pub closed spec fn lower(&self) -> u32 {
        self.min
    }

    /// The highest value.
    pub closed spec fn upper(&self) -> u32 {
        self.max
    }

    /// How far the value stands above the lowest.
    pub closed spec fn offset(&self) -> u32 {
        self.val_offset
    }

    /// The value that the slider stands at.
    pub open spec fn spec_value(&self) -> int {
        self.lower() + self.offset()
    }

    /// The width of the slider on the screen: both ends written out, the
    /// rail, and a space on either side of the rail.
    pub open spec fn spec_width(&self) -> int {
        digits(self.lower() as nat) + 1 + (self.upper() - self.lower() + 1) + 1 + digits(
            self.upper() as nat,
        )
    }

    /// The slider from `min` to `max`, both included, that stands at
    /// `start`, or at the end that is nearest to `start` where `start` lies
    /// outside.
    pub fn new<S: Into<String>>(title: S, min: u32, max: u32, start: u32) -> (slider: Self)
        requires
            max >= min,
        ensures
            slider.lower() == min,
            slider.upper() == max,
            slider.spec_value() == (if start < min {
                min
            } else if start > max {
                max
            } else {
                start
            }),
            S::obeys_into_spec() ==> slider.spec_title() == title.into_spec()@,
    {
        let start = if start < min {
            min
        } else if start > max {
            max
        } else {
            start
        };
        Self { title: title.into(), min, max, val_offset: start - min }
    }

    /// The title of the slider.
    pub fn title(&self) -> (title: &str)
        ensures
            title@ == self.spec_title(),
    {
        self.title.as_str()
    }

    /// The lowest value.
    pub fn min(&self) -> (min: u32)
        ensures
            min == self.lower(),
    {
        self.min
    }

    /// The highest value.
    pub fn max(&self) -> (max: u32)
        ensures
            max == self.upper(),
    {
        self.max
    }

    /// Whether the slider can be laid out on the screen: whether
    /// `required_size` and `draw` can be asked.
    pub fn fits_screen(&self) -> (ok: bool)
        ensures
            ok == (self.upper() < u32::MAX && self.spec_width() <= u32::MAX),
    {
        proof {
            use_type_invariant(self);
        }
        if self.max == u32::MAX {
            return false;
        }
        let (lhs_chars, rhs_chars) = self.side_char_sizes();
        let width: u64 = lhs_chars as u64 + 1 + self.span_size() as u64 + 1 + rhs_chars as u64;
        width <= 0xffff_ffff
    }

    /// The number of values that can be picked. The highest value must lie
    /// below `u32::MAX`, or the number would not fit where the highest and
    /// the lowest value are as far apart as can be.
    pub fn span_size(&self) -> (span: u32)
        requires
            self.upper() < u32::MAX,
        ensures
            span == self.upper() - self.lower() + 1,
    {
        proof {
            use_type_invariant(self);
        }
        self.max + 1 - self.min
    }

    /// The number of digits of the lowest and of the highest value.
    pub fn side_char_sizes(&self) -> (sizes: (u32, u32))
        ensures
            sizes.0 == digits(self.lower() as nat),
            sizes.1 == digits(self.upper() as nat),
    {
        proof {
            lemma_at_most_ten_digits(self.min);
            lemma_at_most_ten_digits(self.max);
        }
        let lhs_chars = match checked_ilog10(self.min) {
            Some(log) => log,
            None => 0,
        } + 1;
        let rhs_chars = match checked_ilog10(self.max) {
            Some(log) => log,
            None => 0,
        } + 1;
        (lhs_chars, rhs_chars)
    }

    /// The value that the slider stands at.
    pub fn value(&self) -> (value: u32)
        ensures
            value == self.spec_value(),
            self.lower() <= value <= self.upper(),
    {
        proof {
            use_type_invariant(self);
        }
        self.min + self.val_offset
    }

    /// The size that the slider needs on the screen: its width, and two
    /// lines. The highest value must lie below `u32::MAX`, and the width
    /// must fit a `u32`.
    pub fn required_size(&self) -> (size: (usize, usize))
        requires
            self.upper() < u32::MAX,
            self.spec_width() <= u32::MAX,
        ensures
            size.0 == self.spec_width(),
            size.1 == 2,
    {
        proof {
            use_type_invariant(self);
        }
        let (lhs_chars, rhs_chars) = self.side_char_sizes();
        let size = lhs_chars + 1 + self.span_size() + 1 + rhs_chars;
        (size as usize, 2)
    }

    /// Where the parts of the slider stand in its second line. The
    /// highest value must lie below `u32::MAX`, and the width of the slider
    /// must fit a `u32`.
    pub fn draw(&self) -> (picture: SliderPicture)
        requires
            self.upper() < u32::MAX,
            self.spec_width() <= u32::MAX,
        ensures
            picture.rail_at == digits(self.lower() as nat) + 1,
            picture.rail_len == self.upper() - self.lower() + 1,
            picture.max_at == picture.rail_at + picture.rail_len + 1,
            picture.knob_at == picture.rail_at + self.offset(),
            picture.rail_at <= picture.knob_at < picture.rail_at + picture.rail_len,
    {
        proof {
            use_type_invariant(self);
        }
        let (lhs_char_sz, _) = self.side_char_sizes();
        SliderPicture {
            rail_at: lhs_char_sz + 1,
            rail_len: self.span_size(),
            max_at: lhs_char_sz + 1 + self.span_size() + 1,
            knob_at: lhs_char_sz + 1 + self.val_offset,
        }
    }

    /// Moves the slider as the event asks, and says whether the event was
    /// one for the slider. The ends and the title stay as they are.
    pub fn on_event(&mut self, ev: Event) -> (result: EventResult)
        ensures
            final(self).lower() == old(self).lower(),
            final(self).upper() == old(self).upper(),
            final(self).spec_title() == old(self).spec_title(),
            final(self).offset() == slid(
                old(self).offset(),
                (old(self).upper() - old(self).lower()) as u32,
                ev,
            ),
            result == (if slides(ev) {
                EventResult::Consumed
            } else {
                EventResult::Ignored
            }),
    {
        proof {
            use_type_invariant(&*self);
        }
        let top = self.max - self.min;
        match ev {
            Event::Key(Key::Left) => {
                if self.val_offset > 0 {
                    self.val_offset -= 1;
                }
                EventResult::Consumed
            },
            Event::Key(Key::Right) => {
                if self.val_offset < top {
                    self.val_offset += 1;
                }
                EventResult::Consumed
            },
            Event::Ctrl(Key::Left) | Event::Shift(Key::Left) => {
                self.val_offset = 0;
                EventResult::Consumed
            },
            Event::Ctrl(Key::Right) | Event::Shift(Key::Right) => {
                self.val_offset = top;
                EventResult::Consumed
            },
            _ => EventResult::Ignored,
        }
    }
}

/// The quarter turn that a letter asks for: `u` turns counter-clockwise and
/// `i` clockwise.
pub open spec fn rotation_key(ch: char) -> Option<Rotation> {
    if ch == 'u' {
        Some(Rotation::CounterClockwise)
    } else if ch == 'i' {
        Some(Rotation::Clockwise)
    } else {
        None
    }
}

/// The direction in which an arrow moves the focus.
pub open spec fn heading(key: Key) -> Option<Direction4> {
    match key {
        Key::Left => Some(Direction4::West),
        Key::Down => Some(Direction4::South),
        Key::Up => Some(Direction4::North),
        Key::Right => Some(Direction4::East),
        Key::Other => None,
    }
}

/// The coordinate one step from `from` in direction `dir` on a board of
/// the given size whose edges are joined: a step off one edge comes in
/// again at the opposite edge.
pub open spec fn wrapped_step(from: Coord, dir: Direction4, width: nat, height: nat) -> Coord {
    match dir {
        Direction4::North => Coord { x: from.x, y: ((from.y - 1) % (height as int)) as u32 },
        Direction4::East => Coord { x: ((from.x + 1) % (width as int)) as u32, y: from.y },
        Direction4::South => Coord { x: from.x, y: ((from.y + 1) % (height as int)) as u32 },
        Direction4::West => Coord { x: ((from.x - 1) % (width as int)) as u32, y: from.y },
    }
}

/// One step along a row or column of `len` places whose ends are joined
/// stays inside, but for the step off either end.
proof fn lemma_wrapped(from: int, by: int, len: int)
    requires
        0 <= from < len,
        by == 1 || by == -1,
    ensures
        (from + by) % len == (if from + by < 0 {
            len - 1
        } else if from + by == len {
            0
        } else {
            from + by
        }),
{
    if from + by < 0 {
        lemma_fundamental_div_mod_converse(from + by, len, -1, len - 1);
    } else if from + by == len {
        lemma_fundamental_div_mod_converse(from + by, len, 1, 0);
    } else {
        lemma_fundamental_div_mod_converse(from + by, len, 0, from + by);
    }
}

/// The colour behind a cell: the terminal's own once the board is solved,
/// and else a checkerboard of two greys, with the cell in focus in blue.
pub open spec fn background(solved: bool, focus_here: bool, at: Coord) -> Color {
    if solved {
        Color::TerminalDefault
    } else {
        let checkerboard = (at.x + at.y) % 2 == 0;
        if focus_here {
            if checkerboard {
                Color::RgbLowRes(2, 2, 4)
            } else {
                Color::RgbLowRes(1, 1, 3)
            }
        } else {
            if checkerboard {
                Color::RgbLowRes(2, 2, 2)
            } else {
                Color::RgbLowRes(1, 1, 1)
            }
        }
    }
}

/// The colour of a cell's picture: red for a cell that is shown as wrong,
/// white for any other.
pub open spec fn foreground(wrong: bool) -> Color {
    if wrong {
        Color::RgbLowRes(5, 0, 0)
    } else {
        Color::RgbLowRes(5, 5, 5)
    }
}

/// One cell as the screen shows it: where its picture starts, the picture,
/// and its colours.
#[derive(Debug, Clone, Copy)]
pub struct Tile {
    pub x: u32,
    pub y: u32,
    pub text: &'static str,
    pub fg: Color,
    pub bg: Color,
}

/// The board on the screen: the board, the cell in focus, whether the
/// board has been solved, and whether cells with an unanswered stub are
/// shown as wrong.
///
/// A puzzle is unsolved until a turn of a cell leaves the board solved.
/// From then on the board takes no more turns; only a new board starts
/// over.
pub struct BoardView {
    board: Board,
    focused: Coord,
    solved: bool,
    error_view: bool,
}

impl BoardView {
    /// The board.
    pub closed spec fn spec_board(&self) -> Board {
        self.board
    }

    /// The coordinate in focus.
    pub closed spec fn focus(&self) -> Coord {
        self.focused
    }

    /// Whether a turn has left the board solved.
    pub closed spec fn is_solved(&self) -> bool {
        self.solved
    }

    /// Whether cells with an unanswered stub are shown as wrong.
    pub closed spec fn shows_errors(&self) -> bool {
        self.error_view
    }

    /// The board has a playable size, and the focus lies on it.
    pub open spec fn wf(&self) -> bool {
        self.spec_board().wf() && self.spec_board()@.holds(self.focus())
    }

    /// The quarter turn that an event asks of the cell in focus: that of
    /// `u` or `i`, while the board is unsolved.
    pub open spec fn turn_asked(&self, ev: Event) -> Option<Rotation> {
        match ev {
            Event::Char(ch) => if self.is_solved() {
                None
            } else {
                rotation_key(ch)
            },
            _ => None,
        }
    }

    /// The direction in which an event moves the focus: that of an arrow,
    /// while the board is unsolved.
    pub open spec fn step_asked(&self, ev: Event) -> Option<Direction4> {
        match ev {
            Event::Key(key) => if self.is_solved() {
                None
            } else {
                heading(key)
            },
            _ => None,
        }
    }

    /// Whether an event turns a cell or moves the focus.
    pub open spec fn acts_on_board(&self, ev: Event) -> bool {
        self.turn_asked(ev) is Some || self.step_asked(ev) is Some
    }

    /// Whether the view takes an event: one that turns a cell or moves the
    /// focus, and `z`.
    pub open spec fn takes(&self, ev: Event) -> bool {
        self.acts_on_board(ev) || ev == Event::Char('z')
    }

    /// The view of a board, unsolved, with the focus in the corner.
    pub fn new(board: Board) -> (view: BoardView)
        ensures
            view.spec_board() == board,
            view.focus() == (Coord { x: 0, y: 0 }),
            !view.is_solved(),
            !view.shows_errors(),
    {
        BoardView { board, focused: Coord { x: 0, y: 0 }, solved: false, error_view: false }
    }

    /// Starts over with a new board. The focus stays where it is.
    pub fn clobber_board(&mut self, new_board: Board)
        ensures
            final(self).spec_board() == new_board,
            final(self).focus() == old(self).focus(),
            !final(self).is_solved(),
            !final(self).shows_errors(),
    {
        self.solved = false;
        self.error_view = false;
        self.board = new_board;
    }

    /// The board.
    pub fn board(&self) -> (board: &Board)
        ensures
            *board == self.spec_board(),
    {
        &self.board
    }

    /// The coordinate in focus.
    pub fn focused(&self) -> (focused: Coord)
        ensures
            focused == self.focus(),
    {
        self.focused
    }

    /// Whether a turn has left the board solved.
    pub fn solved(&self) -> (solved: bool)
        ensures
            solved == self.is_solved(),
    {
        self.solved
    }

    /// Whether the board has a playable size and the focus lies on it:
    /// whether the view can be drawn and can take events.
    pub fn is_playable(&self) -> (ok: bool)
        ensures
            ok == self.wf(),
    {
        self.board.is_playable() && self.focused.x < width_of(&self.board.inner)
            && self.focused.y < height_of(&self.board.inner)
    }

    /// Whether an event turns a cell or moves the focus, for which
    /// `on_event` asks for a view that can be played.
    pub fn needs_board(&self, ev: Event) -> (needed: bool)
        ensures
            needed == self.acts_on_board(ev),
    {
        match ev {
            Event::Char(ch) => !self.solved && (ch == 'u' || ch == 'i'),
            Event::Key(key) => !self.solved && match key {
                Key::Other => false,
                _ => true,
            },
            _ => false,
        }
    }

    /// The size that the board needs on the screen: the width of a cell's
    /// picture for each column, and a line for each row. The width must fit
    /// a `usize`.
    pub fn required_size(&self) -> (size: (usize, usize))
        requires
            self.spec_board()@.width * Cell::DISPLAY_LEN <= usize::MAX,
        ensures
            size.0 == self.spec_board()@.width * Cell::DISPLAY_LEN,
            size.1 == self.spec_board()@.height,
    {
        (
            width_of(&self.board.inner) as usize * Cell::DISPLAY_LEN,
            height_of(&self.board.inner) as usize,
        )
    }

    /// The cell at `pos` as the screen shows it, if the board has a cell
    /// there. The column at which the picture starts must fit a `u32`.
    pub fn draw(&self, pos: Coord) -> (tile: Option<Tile>)
        requires
            self.spec_board().wf(),
            self.spec_board().cell(pos) is Some ==> pos.x * Cell::DISPLAY_LEN <= u32::MAX,
        ensures
            match self.spec_board().cell(pos) {
                Some(cell) => tile matches Some(tile) && {
                    &&& tile.x == pos.x * Cell::DISPLAY_LEN
                    &&& tile.y == pos.y
                    &&& tile.text@ == cell.glyph(false)
                    &&& tile.fg == foreground(
                        self.shows_errors() && !self.spec_board()@.cell_ok(pos),
                    )
                    &&& tile.bg == background(self.is_solved(), self.focus() == pos, pos)
                },
                None => tile is None,
            },
    {
        let cell = match cell_at(&self.board.inner, pos) {
            Some(cell) => cell,
            None => {
                return None;
            },
        };
        let text = cell.render(false);
        let error_color = if self.error_view {
            !self.board.check_single_cell_ok(pos)
        } else {
            false
        };
        let fg = if error_color {
            Color::RgbLowRes(5, 0, 0)
        } else {
            Color::RgbLowRes(5, 5, 5)
        };
        let bg = if self.solved {
            Color::TerminalDefault
        } else {
            let checkerboard = (pos.x + pos.y) % 2 == 0;
            let focus_here = self.focused.x == pos.x && self.focused.y == pos.y;
            if focus_here {
                if checkerboard {
                    Color::RgbLowRes(2, 2, 4)
                } else {
                    Color::RgbLowRes(1, 1, 3)
                }
            } else {
                if checkerboard {
                    Color::RgbLowRes(2, 2, 2)
                } else {
                    Color::RgbLowRes(1, 1, 1)
                }
            }
        };
        Some(Tile { x: pos.x * Cell::DISPLAY_LEN as u32, y: pos.y, text, fg, bg })
    }

    /// What the view does with an event. For an event that turns a cell or
    /// moves the focus, the board must have a playable size and the focus
    /// must lie on it (`needs_board` tells such an event).
    ///
    /// While the board is unsolved, `u` and `i` turn the cell in focus
    /// counter-clockwise and clockwise, after which the board is solved if
    /// the scan of the whole board succeeds, and the arrows move the focus,
    /// which leaves the board at one edge to come in again at the opposite
    /// edge. At any time `z` switches the showing of wrong cells on or off.
    /// Nothing else is taken, and what is not taken changes nothing.
    pub fn on_event(&mut self, ev: Event) -> (result: EventResult)
        requires
            old(self).acts_on_board(ev) ==> old(self).wf(),
        ensures
            old(self).wf() ==> final(self).wf(),
            result == (if old(self).takes(ev) {
                EventResult::Consumed
            } else {
                EventResult::Ignored
            }),
            match old(self).turn_asked(ev) {
                Some(rot) => {
                    &&& final(self).spec_board()@ == old(self).spec_board()@.turned_at(
                        old(self).focus(),
                        quarter_turns(rot),
                    )
                    &&& forall|at: Coord|
                        at != old(self).focus() ==> final(self).spec_board().cell(at) == old(
                            self,
                        ).spec_board().cell(at)
                    &&& final(self).is_solved() == final(self).spec_board()@.scan_ok()
                },
                None => {
                    &&& final(self).spec_board() == old(self).spec_board()
                    &&& final(self).is_solved() == old(self).is_solved()
                },
            },
            final(self).focus() == (match old(self).step_asked(ev) {
                Some(dir) => wrapped_step(
                    old(self).focus(),
                    dir,
                    old(self).spec_board()@.width,
                    old(self).spec_board()@.height,
                ),
                None => old(self).focus(),
            }),
            final(self).shows_errors() == (if ev == Event::Char('z') {
                !old(self).shows_errors()
            } else {
                old(self).shows_errors()
            }),
    {
        match ev {
            Event::Char(ch) => {
                if (ch == 'u' || ch == 'i') && !self.solved {
                    let rot = if ch == 'u' {
                        Rotation::CounterClockwise
                    } else {
                        Rotation::Clockwise
                    };
                    self.board.rotate_cell(self.focused, rot);
                    if self.board.check_ok() {
                        self.solved = true;
                    }
                    EventResult::Consumed
                } else if ch == 'z' {
                    self.error_view = !self.error_view;
                    EventResult::Consumed
                } else {
                    EventResult::Ignored
                }
            },
            Event::Key(key) => {
                if self.solved {
                    return EventResult::Ignored;
                }
                let w = width_of(&self.board.inner);
                let h = height_of(&self.board.inner);
                let x = self.focused.x;
                let y = self.focused.y;
                proof {
                    if heading(key) is Some {
                        lemma_wrapped(x as int, 1, w as int);
                        lemma_wrapped(x as int, -1, w as int);
                        lemma_wrapped(y as int, 1, h as int);
                        lemma_wrapped(y as int, -1, h as int);
                    }
                }
                let moved = match key {
                    Key::Left => Coord {
                        x: if x == 0 {
                            w - 1
                        } else {
                            x - 1
                        },
                        y,
                    },
                    Key::Down => Coord {
                        x,
                        y: if y + 1 == h {
                            0
                        } else {
                            y + 1
                        },
                    },
                    Key::Up => Coord {
                        x,
                        y: if y == 0 {
                            h - 1
                        } else {
                            y - 1
                        },
                    },
                    Key::Right => Coord {
                        x: if x + 1 == w {
                            0
                        } else {
                            x + 1
                        },
                        y,
                    },
                    Key::Other => {
                        return EventResult::Ignored;
                    },
                };
                self.focused = moved;
                EventResult::Consumed
            },
            _ => EventResult::Ignored,
        }
    }

}

} // verus!
