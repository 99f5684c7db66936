//! The keys of the keyboard on the board.

use vstd::prelude::*;
use vstd::string::StringExecFns;
use crate::state::LetterState;

verus! {

/// What a key of the board is.
#[derive(Debug, Clone, Copy, PartialEq, Eq, Structural)]
pub enum KeyboardType {
    /// A key that types a letter.
    Char(char),
    /// The key that deletes backwards.
    Backspace,
    /// The key that confirms.
    Enter,
}

/// A key of the board: where it stands, how wide it is, what it shows.
#[derive(Debug)]
pub struct Keyboard {
    _x: u16,
    _y: u16,
    /// The width of the key, in cells.
    pub size: u16,
    /// What the key shows.
    pub text: String,
    state: LetterState,
    ktype: KeyboardType,
}

/// What a key of some kind shows.
pub open spec fn label(ktype: KeyboardType) -> Seq<char> {
    match ktype {
        KeyboardType::Char(ch) => seq![ch],
        KeyboardType::Backspace => "\u{21e6}"@,
        KeyboardType::Enter => "Enter"@,
    }
}

/// The width of a key of some kind, in cells.
pub open spec fn width(ktype: KeyboardType) -> u16 {
    match ktype {
        KeyboardType::Char(_) => 3,
        _ => 6,
    }
}

/// The kinds of the keys of the board, row by row.
pub open spec fn layout() -> Seq<Seq<KeyboardType>> {
    seq![
        seq![
            KeyboardType::Char('Q'),
            KeyboardType::Char('W'),
            KeyboardType::Char('E'),
            KeyboardType::Char('R'),
            KeyboardType::Char('T'),
            KeyboardType::Char('Y'),
            KeyboardType::Char('U'),
            KeyboardType::Char('I'),
            KeyboardType::Char('O'),
            KeyboardType::Char('P'),
        ],
        seq![
            KeyboardType::Char('A'),
            KeyboardType::Char('S'),
            KeyboardType::Char('D'),
            KeyboardType::Char('F'),
            KeyboardType::Char('G'),
            KeyboardType::Char('H'),
            KeyboardType::Char('J'),
            KeyboardType::Char('K'),
            KeyboardType::Char('L'),
        ],
        seq![
            KeyboardType::Backspace,
            KeyboardType::Char('Z'),
            KeyboardType::Char('X'),
            KeyboardType::Char('C'),
            KeyboardType::Char('V'),
            KeyboardType::Char('B'),
            KeyboardType::Char('N'),
            KeyboardType::Char('M'),
            KeyboardType::Enter,
        ],
    ]
}

impl Keyboard {
    /// The row the key stands in.
    pub closed spec fn row(&self) -> u16 {
        self._x
    }

    /// The place of the key in its row.
    pub closed spec fn place(&self) -> u16 {
        self._y
    }

    /// The width of the key, in cells: the value of `size`.
    pub closed spec fn cells(&self) -> u16 {
        self.size
    }

    /// What the key shows: the text of `text`.
    pub closed spec fn shows(&self) -> Seq<char> {
        self.text@
    }

    /// What the key is.
    pub closed spec fn kind(&self) -> KeyboardType {
        self.ktype
    }

    /// The state the key shows its letter in.
    pub closed spec fn shown_state(&self) -> LetterState {
        self.state
    }

    /// Whether this is the key of the given kind, at the given place of the
    /// given row, as the board starts with it.
    pub open spec fn is_key(&self, row: int, place: int, ktype: KeyboardType) -> bool {
        &&& self.row() == row
        &&& self.place() == place
        &&& self.kind() == ktype
        &&& self.cells() == width(ktype)
        &&& self.shows() == label(ktype)
        &&& self.shown_state() == LetterState::X
    }

    /// A key of the given kind and width at the given place. It shows its
    /// letter, or the name of what it does, and no state yet.
    pub fn new(_x: u16, _y: u16, size: u16, ktype: KeyboardType) -> (key: Keyboard)
        ensures
            key.row() == _x,
            key.place() == _y,
            key.cells() == size,
            key.kind() == ktype,
            key.shows() == label(ktype),
            key.shown_state() == LetterState::X,
    {
        let text = match ktype {
            KeyboardType::Char(ch) => {
                let mut text = String::new();
                text.push(ch);
                assert(text@ =~= seq![ch]);
                text
            },
            KeyboardType::Backspace => String::from_str("\u{21e6}"),
            KeyboardType::Enter => String::from_str("Enter"),
        };
        Keyboard { _x, _y, size, text, state: LetterState::X, ktype }
    }

    /// The key showing the given state.
    pub fn state(self, state: LetterState) -> (key: Keyboard)
        ensures
            key.shown_state() == state,
            key.row() == self.row(),
            key.place() == self.place(),
            key.cells() == self.cells(),
            key.kind() == self.kind(),
            key.shows() == self.shows(),
    {
        let mut key = self;
        key.state = state;
        key
    }

    /// The letter that the key types, if it types one.
    pub fn letter(&self) -> (ch: Option<char>)
        ensures
            ch == match self.kind() {
                KeyboardType::Char(c) => Some(c),
                _ => None,
            },
    {
        if let KeyboardType::Char(ch) = self.ktype {
            return Some(ch);
        }
        None
    }
}

/// Adds the letter keys for `letters` to a row, from place `first` on.
fn push_letters(keys: &mut Vec<Keyboard>, row: u16, first: u16, letters: &[char])
    requires
        old(keys)@.len() == first,
        first + letters@.len() <= u16::MAX,
    ensures
        final(keys)@.len() == old(keys)@.len() + letters@.len(),
        forall|k: int| 0 <= k < old(keys)@.len() ==> final(keys)@[k] == old(keys)@[k],
        forall|k: int|
            0 <= k < letters@.len() ==> (#[trigger] final(keys)@[first + k]).is_key(
                row as int,
                first + k,
                KeyboardType::Char(letters@[k]),
            ),
{
    let mut i: usize = 0;
    while i < letters.len()
        invariant
            i <= letters.len(),
            first + letters@.len() <= u16::MAX,
            old(keys)@.len() == first,
            keys@.len() == first + i,
            forall|k: int| 0 <= k < old(keys)@.len() ==> keys@[k] == old(keys)@[k],
            forall|k: int|
                0 <= k < i ==> (#[trigger] keys@[first + k]).is_key(
                    row as int,
                    first + k,
                    KeyboardType::Char(letters@[k]),
                ),
        decreases letters.len() - i,
    {
        keys.push(Keyboard::new(row, first + i as u16, 3, KeyboardType::Char(letters[i])));
        i += 1;
    }
}

/// Whether the rows are the keys of the board as it starts: the keys of
/// [`layout`], each at its place, with its width and its label.
pub open spec fn is_board(rows: Seq<Vec<Keyboard>>) -> bool {
    &&& rows.len() == layout().len()
    &&& forall|r: int| 0 <= r < rows.len() ==> (#[trigger] rows[r])@.len() == layout()[r].len()
    &&& forall|r: int, k: int|
        0 <= r < rows.len() && 0 <= k < rows[r]@.len() ==> (#[trigger] rows[r]@[k]).is_key(
            r,
            k,
            layout()[r][k],
        )
}

/// The keys of the board, row by row: ten letters, nine letters, and seven
/// letters between backspace and enter.
pub fn init_keyboard() -> (rows: Vec<Vec<Keyboard>>)
    ensures
        is_board(rows@),
{
    let mut rows: Vec<Vec<Keyboard>> = Vec::new();
    let mut top: Vec<Keyboard> = Vec::new();
    push_letters(&mut top, 0, 0, &['Q', 'W', 'E', 'R', 'T', 'Y', 'U', 'I', 'O', 'P']);
    let mut middle: Vec<Keyboard> = Vec::new();
    push_letters(&mut middle, 1, 0, &['A', 'S', 'D', 'F', 'G', 'H', 'J', 'K', 'L']);
    let mut last: Vec<Keyboard> = Vec::new();
    last.push(Keyboard::new(2, 0, 6, KeyboardType::Backspace));
    push_letters(&mut last, 2, 1, &['Z', 'X', 'C', 'V', 'B', 'N', 'M']);
    last.push(Keyboard::new(2, 8, 6, KeyboardType::Enter));
    proof {
        assert forall|k: int| 0 <= k < top@.len() implies (#[trigger] top@[k]).is_key(
            0,
            k,
            layout()[0][k],
        ) by {
            assert(top@[0 + k].is_key(0, 0 + k, layout()[0][k]));
        }
        assert forall|k: int| 0 <= k < middle@.len() implies (#[trigger] middle@[k]).is_key(
            1,
            k,
            layout()[1][k],
        ) by {
            assert(middle@[0 + k].is_key(1, 0 + k, layout()[1][k]));
        }
        assert forall|k: int| 0 <= k < last@.len() implies (#[trigger] last@[k]).is_key(
            2,
            k,
            layout()[2][k],
        ) by {
            if 1 <= k < 8 {
                assert(last@[1 + (k - 1)].is_key(2, 1 + (k - 1), layout()[2][k]));
            }
        }
    }
    rows.push(top);
    rows.push(middle);
    rows.push(last);
    rows
}

} // verus!
