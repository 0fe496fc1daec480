//! The decisions of the board application: what each event does to the
//! state, and what the host has to do next (draw, save, exit).
//!
//! The host owns the device: it delivers events, draws the screen that
//! [`ChessBoardApp::screen`] describes and performs the returned [`Step`].

use vstd::prelude::*;
use crate::board::{Board, BoardView, Piece};
use crate::display::{
    board_square, shown_square, square_action, square_action_name, square_label, square_text,
    CELLS,
};
use crate::fen::fen_squares;
use crate::positions::{parse_position_file, position_file, string_seqs};
use crate::text::{decimal, decimal_string, same_text, utf8_text};

verus! {

pub const RESET: &'static str = "reset";

pub const FLIP: &'static str = "flip";

pub const EXIT: &'static str = "exit";

pub const POSITIONS_FILE: &'static str = "positions.fen";

/// What the host has to do after an event.
pub enum Step {
    /// Nothing visible changed.
    Idle,
    /// Draw the screen again.
    Show,
    /// Store these contents as the positions file, then draw the screen.
    SaveThenShow(String),
    /// Return to the reader.
    Exit,
}

/// What the store answered to the load of a file.
pub enum Loaded {
    /// The file exists and holds these bytes.
    Found(Vec<u8>),
    /// There is no such file.
    Missing,
    /// The store refused to read it.
    Denied,
    /// Any other answer.
    Other,
}

/// A touch on the screen.
pub enum Action {
    Exit,
    Reset,
    Flip,
    Square(usize),
    Other,
}

/// One square as the screen shows it.
pub struct Cell {
    pub action: String,
    pub label: String,
    pub piece: Option<Piece>,
    pub selected: bool,
}

/// What the screen shows.
pub struct ScreenModel {
    pub title: String,
    pub cells: Vec<Cell>,
    pub note: Option<String>,
}

/// The state of the application.
pub struct AppView {
    pub board: BoardView,
    pub positions: Seq<Seq<char>>,
    pub position_index: usize,
    pub file_error: Option<Seq<char>>,
    pub sleeping: bool,
    pub flipped: bool,
}

impl AppView {
    /// The board is valid; the position index names a position, or there
    /// are none yet and it is zero; and the board was set up from the
    /// position that the index names, so a reset shows that position again.
    pub open spec fn valid(self) -> bool {
        &&& self.board.valid()
        &&& self.positions.len() <= usize::MAX
        &&& (self.position_index < self.positions.len() || (self.positions.len() == 0
            && self.position_index == 0))
        &&& self.positions.len() > 0 ==> fen_squares(self.positions[self.position_index as int])
            == Ok::<Seq<Option<Piece>>, crate::fen::FenError>(self.board.starting)
    }
}

/// Each position followed by a line feed: the positions file as it is saved.
pub open spec fn saved_text(positions: Seq<Seq<char>>) -> Seq<char>
    decreases positions.len(),
{
    if positions.len() == 0 {
        Seq::empty()
    } else {
        saved_text(positions.drop_last()) + positions.last() + seq!['\n']
    }
}

/// The title bar text.
pub open spec fn title_text(a: AppView) -> Seq<char> {
    if a.sleeping {
        "Sleeping - press power to wake"@
    } else if a.file_error is Some {
        "FEN file needs fixing"@
    } else {
        "E-Ink Chess "@ + decimal((a.position_index + 1) as nat) + "/"@ + decimal(a.positions.len())
    }
}

/// The message shown when the positions file is not UTF-8 text.
pub open spec fn not_utf8_message() -> &'static str {
    "The positions.fen file is not UTF-8 text."
}

/// The message shown when the store refuses to read the positions file.
pub open spec fn denied_message() -> &'static str {
    "Saved positions could not be read; showing examples."
}

pub struct ChessBoardApp {
    board: Board,
    positions: Vec<String>,
    position_index: usize,
    file_error: Option<String>,
    sleeping: bool,
    flipped: bool,
}

impl View for ChessBoardApp {
    type V = AppView;

    closed spec fn view(&self) -> AppView {
        AppView {
            board: self.board@,
            positions: string_seqs(self.positions@),
            position_index: self.position_index,
            file_error: match self.file_error {
                Some(e) => Some(e@),
                None => None,
            },
            sleeping: self.sleeping,
            flipped: self.flipped,
        }
    }
}

impl Default for ChessBoardApp {
    fn default() -> (a: Self)
        ensures
            a@ == (AppView {
                board: BoardView::fresh(crate::board::standard_squares()),
                positions: Seq::empty(),
                position_index: 0,
                file_error: None,
                sleeping: false,
                flipped: false,
            }),
            a@.valid(),
    {
        let a = ChessBoardApp {
            board: Board::default(),
            positions: Vec::new(),
            position_index: 0,
            file_error: None,
            sleeping: false,
            flipped: false,
        };
        assert(string_seqs(a.positions@) =~= Seq::<Seq<char>>::empty());
        a
    }
}


/// `a` browsing `positions` from the first, with the board set up from it.
pub open spec fn browsing(a: AppView, positions: Seq<Seq<char>>) -> AppView {
    AppView {
        board: BoardView::fresh(fen_squares(positions[0])->Ok_0),
        positions: positions,
        position_index: 0,
        ..a
    }
}

/// The positions of a positions file that is known to be valid.
pub open spec fn file_positions(text: Seq<char>) -> Seq<Seq<char>> {
    position_file(text)->Ok_0
}

/// How the screen shows the square at screen position `d`.
pub open spec fn cell_shows(c: Cell, a: AppView, d: int) -> bool {
    let sq = shown_square(d, a.flipped);
    &&& c.action@ == square_action_name(sq as nat)
    &&& c.label@ == square_text(sq, a.board.squares[sq])
    &&& c.piece == a.board.squares[sq]
    &&& c.selected == (a.board.selected == Some(sq as usize))
}

/// The position the page-turn buttons go to, if there is one.
pub open spec fn page_target(a: AppView, forward: bool) -> Option<int> {
    if forward {
        if a.position_index + 1 < a.positions.len() {
            Some(a.position_index + 1)
        } else {
            None
        }
    } else {
        if a.position_index > 0 {
            Some(a.position_index - 1)
        } else {
            None
        }
    }
}

/// The state after a page turn, and whether the screen changes: the board
/// is set up from the position turned to, provided that position reads as
/// FEN.
pub open spec fn page_turned(a: AppView, forward: bool) -> (AppView, bool) {
    match page_target(a, forward) {
        Some(n) => match fen_squares(a.positions[n]) {
            Ok(squares) => (
                AppView { board: BoardView::fresh(squares), position_index: n as usize, ..a },
                true,
            ),
            Err(_) => (a, false),
        },
        None => (a, false),
    }
}

/// A reset shows again the position that the board was set up from: the
/// one the position index names.
pub proof fn lemma_reset_shows_current_position(a: AppView)
    requires
        a.valid(),
        a.positions.len() > 0,
    ensures
        a.board.reset() == BoardView::fresh(fen_squares(a.positions[a.position_index as int])->Ok_0),
{
}

/// Turning a page forward and then back again shows the position that was
/// shown before, as a reset would.
pub proof fn lemma_page_forward_then_back(a: AppView)
    requires
        a.valid(),
        page_turned(a, true).1,
    ensures
        page_turned(page_turned(a, true).0, false) == (AppView { board: a.board.reset(), ..a }, true),
{
    let n = a.position_index + 1;
    crate::fen::lemma_fen_squares_len(a.positions[n]);
}

/// A page turn keeps the state valid.
pub proof fn lemma_page_turn_keeps_valid(a: AppView, forward: bool)
    requires
        a.valid(),
    ensures
        page_turned(a, forward).0.valid(),
{
    if let Some(n) = page_target(a, forward) {
        crate::fen::lemma_fen_squares_len(a.positions[n]);
    }
}

fn text_of_positions(positions: &Vec<String>) -> (text: String)
    ensures
        text@ == saved_text(string_seqs(positions@)),
{
    let mut text = String::new();
    let mut i: usize = 0;
    assert(string_seqs(positions@).take(0) =~= Seq::<Seq<char>>::empty());
    while i < positions.len()
        invariant
            i <= positions.len(),
            text@ == saved_text(string_seqs(positions@).take(i as int)),
        decreases positions.len() - i,
    {
        assert(string_seqs(positions@).take(i + 1).drop_last() =~= string_seqs(positions@).take(
            i as int,
        ));
        text.append(positions[i].as_str());
        crate::text::push_char(&mut text, '\n');
        i += 1;
    }
    assert(string_seqs(positions@).take(positions.len() as int) =~= string_seqs(positions@));
    text
}

impl ChessBoardApp {
    /// Browses `positions` from the first one, and saves them as the
    /// positions file when `save_copy` is set.
    pub fn activate_positions(&mut self, positions: Vec<String>, save_copy: bool) -> (step: Step)
        requires
            positions.len() > 0,
            fen_squares(positions@[0]@) is Ok,
        ensures
            final(self)@ == browsing(old(self)@, string_seqs(positions@)),
            final(self)@.valid(),
            match step {
                Step::SaveThenShow(text) => save_copy && text@ == saved_text(string_seqs(positions@)),
                Step::Show => !save_copy,
                _ => false,
            },
    {
        let board = match Board::from_fen(positions[0].as_str()) {
            Ok(b) => b,
            Err(_) => vstd::pervasive::unreached(),
        };
        let step = if save_copy {
            Step::SaveThenShow(text_of_positions(&positions))
        } else {
            Step::Show
        };
        self.position_index = 0;
        self.positions = positions;
        self.board = board;
        step
    }

    /// Browses the positions of `examples`, which must be a valid positions
    /// file.
    pub fn load_examples(&mut self, examples: &str, save_copy: bool) -> (step: Step)
        requires
            position_file(examples@) is Ok,
        ensures
            final(self)@ == browsing(old(self)@, file_positions(examples@)),
            final(self)@.valid(),
            match step {
                Step::SaveThenShow(text) => save_copy && text@ == saved_text(
                    file_positions(examples@),
                ),
                Step::Show => !save_copy,
                _ => false,
            },
    {
        let positions = match parse_position_file(examples) {
            Ok(p) => p,
            Err(_) => vstd::pervasive::unreached(),
        };
        self.activate_positions(positions, save_copy)
    }

    /// Handles the store's answer to the load of `key`. A readable positions
    /// file is browsed; where it is missing, `examples` are browsed and
    /// saved in its place; where it cannot be used, `examples` are browsed
    /// and the reason is shown.
    pub fn on_load(&mut self, key: &str, result: Loaded, examples: &str) -> (step: Step)
        requires
            old(self)@.valid(),
            position_file(examples@) is Ok,
        ensures
            final(self)@.valid(),
            !(key@ == POSITIONS_FILE@) ==> final(self)@ == old(self)@ && step is Idle,
            key@ == POSITIONS_FILE@ ==> match result {
                Loaded::Found(bytes) => step is Show && if !vstd::utf8::valid_utf8(bytes@) {
                    final(self)@ == browsing(
                        AppView { file_error: Some(not_utf8_message()@), ..old(self)@ },
                        file_positions(examples@),
                    )
                } else {
                    match position_file(vstd::utf8::decode_utf8(bytes@)) {
                        Ok(positions) => final(self)@ == browsing(
                            AppView { file_error: None, ..old(self)@ },
                            positions,
                        ),
                        Err(message) => final(self)@ == browsing(
                            AppView { file_error: Some(message), ..old(self)@ },
                            file_positions(examples@),
                        ),
                    }
                },
                Loaded::Missing => {
                    &&& final(self)@ == browsing(
                        AppView { file_error: None, ..old(self)@ },
                        file_positions(examples@),
                    )
                    &&& step matches Step::SaveThenShow(text) && text@ == saved_text(
                        file_positions(examples@),
                    )
                },
                Loaded::Denied => step is Show && final(self)@ == browsing(
                    AppView { file_error: Some(denied_message()@), ..old(self)@ },
                    file_positions(examples@),
                ),
                Loaded::Other => final(self)@ == old(self)@ && step is Idle,
            },
    {
        if !same_text(key, POSITIONS_FILE) {
            return Step::Idle;
        }
        match result {
            Loaded::Found(bytes) => match utf8_text(bytes) {
                Some(contents) => match parse_position_file(contents.as_str()) {
                    Ok(positions) => {
                        self.file_error = None;
                        self.activate_positions(positions, false)
                    },
                    Err(error) => {
                        self.file_error = Some(error);
                        self.load_examples(examples, false)
                    },
                },
                None => {
                    self.file_error = Some(String::from_str("The positions.fen file is not UTF-8 text."));
                    self.load_examples(examples, false)
                },
            },
            Loaded::Missing => {
                self.file_error = None;
                self.load_examples(examples, true)
            },
            Loaded::Denied => {
                self.file_error = Some(
                    String::from_str("Saved positions could not be read; showing examples."),
                );
                self.load_examples(examples, false)
            },
            Loaded::Other => Step::Idle,
        }
    }

    /// Handles a touch. Tapping a square shows the screen again only when
    /// the tap changed the board.
    pub fn on_action(&mut self, action: Action) -> (step: Step)
        requires
            old(self)@.valid(),
        ensures
            final(self)@.valid(),
            match action {
                Action::Exit => final(self)@ == old(self)@ && step is Exit,
                Action::Reset => final(self)@ == (AppView {
                    board: old(self)@.board.reset(),
                    ..old(self)@
                }) && step is Show,
                Action::Flip => final(self)@ == (AppView {
                    flipped: !old(self)@.flipped,
                    ..old(self)@
                }) && step is Show,
                Action::Square(square) => {
                    let (board, changed) = old(self)@.board.tapped(square);
                    &&& final(self)@ == (AppView { board: board, ..old(self)@ })
                    &&& if changed {
                        step is Show
                    } else {
                        step is Idle
                    }
                },
                Action::Other => final(self)@ == old(self)@ && step is Idle,
            },
    {
        match action {
            Action::Exit => Step::Exit,
            Action::Reset => {
                self.board.reset();
                Step::Show
            },
            Action::Flip => {
                self.flipped = !self.flipped;
                Step::Show
            },
            Action::Square(square) => {
                // Avoid an e-ink refresh when a tap changed nothing.
                if self.board.tap(square) {
                    Step::Show
                } else {
                    Step::Idle
                }
            },
            Action::Other => Step::Idle,
        }
    }

    /// Turns to the next or the previous position, if there is one and it
    /// reads as FEN.
    pub fn turn_position(&mut self, forward: bool) -> (step: Step)
        requires
            old(self)@.valid(),
        ensures
            final(self)@.valid(),
            (final(self)@, step is Show) == page_turned(old(self)@, forward),
            step is Show || step is Idle,
    {
        assert(self@.positions.len() == self.positions.len());
        let next = if forward {
            match self.position_index.checked_add(1) {
                Some(index) => if index < self.positions.len() {
                    Some(index)
                } else {
                    None
                },
                None => None,
            }
        } else {
            self.position_index.checked_sub(1)
        };
        let next = match next {
            Some(n) => n,
            None => return Step::Idle,
        };
        assert(string_seqs(self.positions@)[next as int] == self.positions@[next as int]@);
        match Board::from_fen(self.positions[next].as_str()) {
            Ok(board) => {
                self.position_index = next;
                self.board = board;
                Step::Show
            },
            Err(_) => Step::Idle,
        }
    }

    /// The device goes to sleep.
    pub fn on_suspend(&mut self) -> (step: Step)
        requires
            old(self)@.valid(),
        ensures
            final(self)@ == (AppView { sleeping: true, ..old(self)@ }),
            final(self)@.valid(),
            step is Show,
    {
        self.sleeping = true;
        Step::Show
    }

    /// The device wakes up.
    pub fn on_resume(&mut self) -> (step: Step)
        requires
            old(self)@.valid(),
        ensures
            final(self)@ == (AppView { sleeping: false, ..old(self)@ }),
            final(self)@.valid(),
            step is Show,
    {
        self.sleeping = false;
        Step::Show
    }

    /// What the screen shows: the title, the 64 squares in screen order
    /// (turned around when the board is flipped) and any file error.
    pub fn screen(&self) -> (s: ScreenModel)
        requires
            self@.valid(),
        ensures
            s.title@ == title_text(self@),
            match s.note {
                Some(n) => self@.file_error == Some(n@),
                None => self@.file_error is None,
            },
            s.cells@.len() == CELLS,
            forall|d: int| 0 <= d < CELLS ==> cell_shows(#[trigger] s.cells@[d], self@, d),
    {
        assert(self@.positions.len() == self.positions.len());
        let selected = self.board.selected();
        let mut cells: Vec<Cell> = Vec::new();
        let mut d: usize = 0;
        while d < CELLS
            invariant
                d <= CELLS,
                cells@.len() == d,
                selected == self@.board.selected,
                self@.board.valid(),
                forall|e: int| 0 <= e < d ==> cell_shows(#[trigger] cells@[e], self@, e),
            decreases CELLS - d,
        {
            let square = board_square(d, self.flipped);
            let piece = self.board.piece_at(square);
            let is_selected = match selected {
                Some(s) => s == square,
                None => false,
            };
            let cell = Cell {
                action: square_action(square),
                label: square_label(square, piece),
                piece,
                selected: is_selected,
            };
            cells.push(cell);
            d += 1;
        }
        let title = if self.sleeping {
            String::from_str("Sleeping - press power to wake")
        } else if self.file_error.is_some() {
            String::from_str("FEN file needs fixing")
        } else {
            let mut title = String::from_str("E-Ink Chess ");
            title.append(decimal_string(self.position_index + 1).as_str());
            title.append("/");
            title.append(decimal_string(self.positions.len()).as_str());
            title
        };
        let note = match &self.file_error {
            Some(error) => Some(error.clone()),
            None => None,
        };
        ScreenModel { title, cells, note }
    }
}


/// The highlight marks the picked-up piece: a highlighted cell is the one
/// whose action and label name the selected square, and it shows that
/// piece; and the cell showing the selected square is highlighted, flipped
/// or not.
pub proof fn lemma_highlight_marks_picked_up_square(c: Cell, a: AppView, d: int)
    requires
        a.valid(),
        0 <= d < 64,
        cell_shows(c, a, d),
    ensures
        c.selected ==> ({
            &&& a.board.selected is Some
            &&& c.action@ == square_action_name(a.board.selected->0 as nat)
            &&& c.label@ == square_text(
                a.board.selected->0 as int,
                a.board.squares[a.board.selected->0 as int],
            )
            &&& c.piece == a.board.squares[a.board.selected->0 as int]
            &&& c.piece is Some
        }),
        (a.board.selected matches Some(s) && s == shown_square(d, a.flipped)) ==> c.selected,
{
    crate::display::lemma_flip_is_involution(d, a.flipped);
}

/// Paging never wraps around: a forward turn on the last position and a
/// backward turn on the first change nothing and report no change; any
/// other turn that changes the screen goes exactly one position forward or
/// back, and keeps the list of positions.
pub proof fn lemma_paging_never_wraps(a: AppView, forward: bool)
    requires
        a.valid(),
    ensures
        forward && a.position_index + 1 >= a.positions.len() ==> page_turned(a, forward) == (a, false),
        !forward && a.position_index == 0 ==> page_turned(a, forward) == (a, false),
        page_turned(a, forward).1 ==> {
            &&& page_turned(a, forward).0.position_index == (if forward {
                a.position_index + 1
            } else {
                a.position_index - 1
            })
            &&& page_turned(a, forward).0.positions == a.positions
        },
        !page_turned(a, forward).1 ==> page_turned(a, forward).0 == a,
{
}

} // verus!
