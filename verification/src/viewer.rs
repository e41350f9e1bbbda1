//! The viewer's state and the decisions it takes: what becomes of a file
//! that was handed over, and what a key press does. Reading files, running
//! the structural parser, the terminal and the keyboard are the caller's.

use vstd::prelude::*;
use crate::store::{
    lemma_shift_keeps_order, lemma_unshifted_is_turned, Direction, RowStore, Rows,
};

verus! {

/// What reading a file and running the structural parser over it gave.
pub enum FileInput {
    /// The file could not be read.
    Unreadable,
    /// The file was read, but the structural parser could not make sense of
    /// its bytes.
    Unparsed,
    /// The file was read and parsed; `report` is the parser's account of it.
    Parsed { bytes: Vec<u8>, report: String },
}

/// Why a file is not shown.
#[derive(Clone, Copy, Debug, PartialEq, Eq, Structural)]
pub enum LoadError {
    /// The file could not be read.
    Unreadable,
    /// The structural parser rejected the file.
    StructuralParse,
}

/// An input event, as far as the viewer tells them apart.
#[derive(Clone, Copy, Debug, PartialEq, Eq, Structural)]
pub enum Key {
    /// A character key.
    Char(char),
    /// The up arrow.
    Up,
    /// The down arrow.
    Down,
    /// Any other key, and any event that is no key press.
    Other,
}

/// What the caller does after an input event.
#[derive(Clone, Copy, Debug, PartialEq, Eq, Structural)]
pub enum Step {
    /// Leave the event loop.
    Quit,
    /// Draw the panes again and wait for the next key.
    Redraw,
}

/// The character that quits the viewer.
pub const QUIT_KEY: char = 'q';

/// Rows moved when an amount is not given.
pub const DEFAULT_SHIFT: usize = 1;

/// The amount that an optional count stands for.
pub open spec fn shift_amount(number: Option<usize>) -> nat {
    match number {
        Some(n) => n as nat,
        None => DEFAULT_SHIFT as nat,
    }
}

/// What the caller is told to do after `key`.
pub open spec fn step_after(key: Key) -> Step {
    if key == Key::Char(QUIT_KEY) {
        Step::Quit
    } else {
        Step::Redraw
    }
}

/// The viewer's state as mathematical values.
pub struct AppView {
    /// The bytes of the file that is shown; empty when none is.
    pub bytes: Seq<u8>,
    /// The structural parser's report on that file, if there is one.
    pub report: Option<Seq<char>>,
    /// The two panes in their current order.
    pub rows: Rows,
}

impl AppView {
    /// The state with no file: no bytes, no report, no rows.
    pub open spec fn empty() -> AppView {
        AppView { bytes: Seq::empty(), report: None, rows: Rows::empty() }
    }

    /// The state right after `input` was opened. Only a file that was both
    /// read and parsed is shown; any failure leaves the viewer empty.
    pub open spec fn opened(input: FileInput) -> AppView {
        match input {
            FileInput::Parsed { bytes, report } => AppView {
                bytes: bytes@,
                report: Some(report@),
                rows: Rows::of_bytes(bytes@),
            },
            _ => AppView::empty(),
        }
    }

    /// The rows are those of the bytes, in the order in which the bytes give
    /// them, started at some row.
    pub open spec fn shows_its_bytes(self) -> bool {
        self.rows.turned_from(Rows::of_bytes(self.bytes))
    }

    /// The state after `key`: the arrows scroll by one row, every other key
    /// leaves the state as it is.
    pub open spec fn after_key(self, key: Key) -> AppView {
        match key {
            Key::Up => AppView {
                rows: self.rows.shifted(Direction::Up, DEFAULT_SHIFT as nat),
                ..self
            },
            Key::Down => AppView {
                rows: self.rows.shifted(Direction::Down, DEFAULT_SHIFT as nat),
                ..self
            },
            _ => self,
        }
    }
}

/// The outcome that opening `input` reports.
pub open spec fn load_result(input: FileInput) -> Result<(), LoadError> {
    match input {
        FileInput::Unreadable => Err(LoadError::Unreadable),
        FileInput::Unparsed => Err(LoadError::StructuralParse),
        FileInput::Parsed { .. } => Ok(()),
    }
}

/// The viewer: the bytes of the file it shows, the structural report on
/// them, and the row store behind the two panes.
pub struct App {
    file_as_bytes: Vec<u8>,
    file_report: Option<String>,
    rows: RowStore,
}

impl View for App {
    type V = AppView;

    closed spec fn view(&self) -> AppView {
        AppView {
            bytes: self.file_as_bytes@,
            report: match self.file_report {
                Some(text) => Some(text@),
                None => None,
            },
            rows: self.rows@,
        }
    }
}

impl App {
    #[verifier::type_invariant]
    spec fn inv(self) -> bool {
        self@.shows_its_bytes()
    }

    /// A viewer with no file.
    pub fn new() -> (app: App)
        ensures
            app@ == AppView::empty(),
            app@.shows_its_bytes(),
    {
        let file_as_bytes: Vec<u8> = Vec::new();
        let rows = RowStore::new();
        proof {
            let base = Rows::of_bytes(file_as_bytes@);
            assert(rows@.hex =~= base.hex && rows@.ascii =~= base.ascii);
            lemma_unshifted_is_turned(base);
        }
        App { file_as_bytes, file_report: None, rows }
    }

    /// Replaces whatever was shown by the file that `input` describes. A file
    /// that was read and parsed is laid out afresh, unshifted; one that could
    /// not be read or parsed leaves the viewer empty, and the error says which
    /// of the two it was.
    pub fn open_file(&mut self, input: FileInput) -> (result: Result<(), LoadError>)
        ensures
            result == load_result(input),
            final(self)@ == AppView::opened(input),
            final(self)@.shows_its_bytes(),
    {
        match input {
            FileInput::Unreadable => {
                *self = App::new();
                Err(LoadError::Unreadable)
            },
            FileInput::Unparsed => {
                *self = App::new();
                Err(LoadError::StructuralParse)
            },
            FileInput::Parsed { bytes, report } => {
                let rows = RowStore::from_bytes(bytes.as_slice());
                proof {
                    lemma_unshifted_is_turned(Rows::of_bytes(bytes@));
                }
                *self = App { file_as_bytes: bytes, file_report: Some(report), rows };
                Ok(())
            },
        }
    }

    /// Scrolls by `n` rows in the given direction. The bytes and the report
    /// stay as they are; the rows keep their order round the circle.
    pub fn scroll(&mut self, direction: Direction, n: usize)
        ensures
            final(self)@ == (AppView {
                rows: old(self)@.rows.shifted(direction, n as nat),
                ..old(self)@
            }),
            final(self)@.rows.hex.len() == old(self)@.rows.hex.len(),
            final(self)@.rows.ascii.len() == old(self)@.rows.ascii.len(),
            final(self)@.shows_its_bytes(),
    {
        proof {
            use_type_invariant(&*self);
        }
        let mut taken = App::new();
        core::mem::swap(self, &mut taken);
        let App { file_as_bytes, file_report, mut rows } = taken;
        proof {
            lemma_shift_keeps_order(rows@, Rows::of_bytes(file_as_bytes@), direction, n as nat);
        }
        rows.shift(direction, n);
        *self = App { file_as_bytes, file_report, rows };
    }

    /// Scrolls up by `number` rows, by one when no number is given.
    pub fn move_up(&mut self, number: Option<usize>)
        ensures
            final(self)@ == (AppView {
                rows: old(self)@.rows.shifted_up(shift_amount(number)),
                ..old(self)@
            }),
            final(self)@.rows.hex.len() == old(self)@.rows.hex.len(),
            final(self)@.rows.ascii.len() == old(self)@.rows.ascii.len(),
            final(self)@.shows_its_bytes(),
    {
        let number = match number {
            Some(n) => n,
            None => DEFAULT_SHIFT,
        };
        self.scroll(Direction::Up, number);
    }

    /// Scrolls down by `number` rows, by one when no number is given.
    pub fn move_down(&mut self, number: Option<usize>)
        ensures
            final(self)@ == (AppView {
                rows: old(self)@.rows.shifted_down(shift_amount(number)),
                ..old(self)@
            }),
            final(self)@.rows.hex.len() == old(self)@.rows.hex.len(),
            final(self)@.rows.ascii.len() == old(self)@.rows.ascii.len(),
            final(self)@.shows_its_bytes(),
    {
        let number = match number {
            Some(n) => n,
            None => DEFAULT_SHIFT,
        };
        self.scroll(Direction::Down, number);
    }

    /// Takes one input event: `q` asks the caller to quit and changes nothing,
    /// the up and down arrows scroll by one row, anything else is ignored.
    pub fn on_key(&mut self, key: Key) -> (step: Step)
        ensures
            step == step_after(key),
            final(self)@ == old(self)@.after_key(key),
            final(self)@.rows.hex.len() == old(self)@.rows.hex.len(),
            final(self)@.rows.ascii.len() == old(self)@.rows.ascii.len(),
            final(self)@.shows_its_bytes(),
    {
        proof {
            use_type_invariant(&*self);
        }
        match key {
            Key::Char(c) => {
                if c == QUIT_KEY {
                    return Step::Quit;
                }
            },
            Key::Up => {
                self.move_up(None);
            },
            Key::Down => {
                self.move_down(None);
            },
            Key::Other => {},
        }
        Step::Redraw
    }

    /// The bytes of the file that is shown.
    pub fn bytes(&self) -> (bytes: &Vec<u8>)
        ensures
            bytes@ == self@.bytes,
    {
        &self.file_as_bytes
    }

    /// The structural parser's report on the file that is shown.
    pub fn report(&self) -> (report: &Option<String>)
        ensures
            match *report {
                Some(text) => self@.report == Some(text@),
                None => self@.report is None,
            },
    {
        &self.file_report
    }

    /// The hex pane in its current order.
    pub fn hex_rows(&self) -> (rows: &Vec<String>)
        ensures
            rows.deep_view() == self@.rows.hex,
            rows.len() == self@.rows.hex.len(),
            forall|i: int| 0 <= i < rows.len() ==> (#[trigger] rows[i])@ == self@.rows.hex[i],
            self@.rows.in_step(),
            self@.shows_its_bytes(),
    {
        proof {
            use_type_invariant(self);
        }
        self.rows.hex_rows()
    }

    /// The ASCII pane in its current order.
    pub fn ascii_rows(&self) -> (rows: &Vec<String>)
        ensures
            rows.deep_view() == self@.rows.ascii,
            rows.len() == self@.rows.ascii.len(),
            forall|i: int| 0 <= i < rows.len() ==> (#[trigger] rows[i])@ == self@.rows.ascii[i],
            self@.rows.in_step(),
            self@.shows_its_bytes(),
    {
        proof {
            use_type_invariant(self);
        }
        self.rows.ascii_rows()
    }
}

} // verus!
