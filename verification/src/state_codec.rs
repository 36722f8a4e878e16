//! The wire `state` schema: one decision-time game state, as the JSON
//! object a request's `state` string carries. The encoding is exact: the
//! board crosses as `#`/`.` rows (row 0 = top), pieces cross by their
//! one-letter ids, and the bag remainder is the 7-bag state after `next`
//! was drawn.

use crate::text::{debug_str, debug_text, decimal_spec, push_decimal, texts};
use vstd::prelude::*;
use vstd::string::StrSliceExecFns;
use vstd::utf8::{encode_utf8, is_ascii_chars, is_ascii_chars_encode_utf8};

verus! {

/// Board rows on the wire.
pub const HEIGHT: usize = 20;

/// Cells per board row on the wire.
pub const WIDTH: usize = 10;

/// The seven tetrominoes, by their wire ids `I O T S Z J L`.
#[derive(Clone, Copy, Debug, PartialEq, Eq)]
pub enum Piece {
    I,
    O,
    T,
    S,
    Z,
    J,
    L,
}

/// One decision-time game state, in wire form.
#[derive(Clone, Debug, PartialEq)]
pub struct GameState {
    /// Exactly [`HEIGHT`] rows of exactly [`WIDTH`] `#`/`.` chars
    /// (row 0 = top).
    pub board: Vec<String>,
    /// Piece id letter (`I O T S Z J L`).
    pub cur: String,
    /// The preview piece id.
    pub next: String,
    /// The held piece id, if any.
    pub held: Option<String>,
    /// Hold not yet used this drop. Defaults true.
    pub hold_ready: bool,
    /// The 7-bag remainder after `next` was drawn, in draw order. Empty
    /// means a fresh full bag is next.
    pub bag: Vec<String>,
}

/// The `hold_ready` a state without one gets.
pub fn default_hold_ready() -> (b: bool)
    ensures
        b,
{
    true
}

/// The decoded, validated view of a [`GameState`].
#[derive(Clone, Debug, PartialEq)]
pub struct SimState {
    /// [`HEIGHT`] rows of [`WIDTH`] cells, `true` = filled (row 0 = top).
    pub board: Vec<Vec<bool>>,
    pub cur: Piece,
    pub next: Piece,
    pub held: Option<Piece>,
    pub hold_ready: bool,
    pub bag: Vec<Piece>,
}

/// Why a state failed to decode.
#[derive(Clone, Debug, PartialEq)]
pub enum StateError {
    Rows(usize),
    RowWidth { row: usize, len: usize },
    RowChars { row: usize },
    Piece(String),
}

/// A decode failure, by the text it carries.
pub enum StateFault {
    Rows(nat),
    RowWidth(nat, nat),
    RowChars(nat),
    Piece(Seq<char>),
}

impl View for StateError {
    type V = StateFault;

    open spec fn view(&self) -> StateFault {
        match self {
            StateError::Rows(n) => StateFault::Rows(*n as nat),
            StateError::RowWidth { row, len } => StateFault::RowWidth(*row as nat, *len as nat),
            StateError::RowChars { row } => StateFault::RowChars(*row as nat),
            StateError::Piece(s) => StateFault::Piece(s@),
        }
    }
}

/// A piece's wire letter.
pub open spec fn piece_letter(p: Piece) -> char {
    match p {
        Piece::I => 'I',
        Piece::O => 'O',
        Piece::T => 'T',
        Piece::S => 'S',
        Piece::Z => 'Z',
        Piece::J => 'J',
        Piece::L => 'L',
    }
}

/// The piece a wire id names, if any: exactly one of the seven letters.
pub open spec fn piece_of(id: Seq<char>) -> Option<Piece> {
    if id.len() != 1 {
        None
    } else if id[0] == 'I' {
        Some(Piece::I)
    } else if id[0] == 'O' {
        Some(Piece::O)
    } else if id[0] == 'T' {
        Some(Piece::T)
    } else if id[0] == 'S' {
        Some(Piece::S)
    } else if id[0] == 'Z' {
        Some(Piece::Z)
    } else if id[0] == 'J' {
        Some(Piece::J)
    } else if id[0] == 'L' {
        Some(Piece::L)
    } else {
        None
    }
}

/// A piece's wire id.
pub fn piece_id(p: Piece) -> (s: &'static str)
    ensures
        s@ == seq![piece_letter(p)],
{
    match p {
        Piece::I => {
            proof {
                reveal_strlit("I");
            }
            "I"
        },
        Piece::O => {
            proof {
                reveal_strlit("O");
            }
            "O"
        },
        Piece::T => {
            proof {
                reveal_strlit("T");
            }
            "T"
        },
        Piece::S => {
            proof {
                reveal_strlit("S");
            }
            "S"
        },
        Piece::Z => {
            proof {
                reveal_strlit("Z");
            }
            "Z"
        },
        Piece::J => {
            proof {
                reveal_strlit("J");
            }
            "J"
        },
        Piece::L => {
            proof {
                reveal_strlit("L");
            }
            "L"
        },
    }
}

/// The piece a wire id names.
pub fn piece_from_id(s: &str) -> (p: Option<Piece>)
    ensures
        p == piece_of(s@),
{
    if s.unicode_len() != 1 {
        return None;
    }
    match s.get_char(0) {
        'I' => Some(Piece::I),
        'O' => Some(Piece::O),
        'T' => Some(Piece::T),
        'S' => Some(Piece::S),
        'Z' => Some(Piece::Z),
        'J' => Some(Piece::J),
        'L' => Some(Piece::L),
        _ => None,
    }
}

/// The cells a wire row says: `#` filled, anything else empty.
pub open spec fn row_cells(row: Seq<char>) -> Seq<bool> {
    row.map_values(|c: char| c == '#')
}

/// The wire row of a row of cells.
pub open spec fn render_row(cells: Seq<bool>) -> Seq<char> {
    cells.map_values(|b: bool| if b { '#' } else { '.' })
}

/// Why row `r` is refused, if it is: its byte length, then its chars.
pub open spec fn row_fault(row: Seq<char>, r: nat) -> Option<StateFault> {
    if encode_utf8(row).len() != WIDTH {
        Some(StateFault::RowWidth(r, encode_utf8(row).len()))
    } else if exists|i: int| 0 <= i < row.len() && row[i] != '#' && row[i] != '.' {
        Some(StateFault::RowChars(r))
    } else {
        None
    }
}

/// The first refused row at or after `from`, if any.
pub open spec fn rows_fault(rows: Seq<Seq<char>>, from: nat) -> Option<StateFault>
    decreases rows.len() - from,
{
    if from >= rows.len() {
        None
    } else if row_fault(rows[from as int], from) is Some {
        row_fault(rows[from as int], from)
    } else {
        rows_fault(rows, from + 1)
    }
}

/// The first bag id at or after `from` that names no piece, if any.
pub open spec fn bag_fault(bag: Seq<Seq<char>>, from: nat) -> Option<Seq<char>>
    decreases bag.len() - from,
{
    if from >= bag.len() {
        None
    } else if piece_of(bag[from as int]) is None {
        Some(bag[from as int])
    } else {
        bag_fault(bag, from + 1)
    }
}

/// Why a wire state does not decode, if it does not, in the order the
/// checks run: row count, each row (width, then chars), current piece,
/// next piece, held piece, bag.
pub open spec fn state_fault(gs: GameState) -> Option<StateFault> {
    if gs.board@.len() != HEIGHT {
        Some(StateFault::Rows(gs.board@.len()))
    } else if rows_fault(texts(gs.board@), 0) is Some {
        rows_fault(texts(gs.board@), 0)
    } else if piece_of(gs.cur@) is None {
        Some(StateFault::Piece(gs.cur@))
    } else if piece_of(gs.next@) is None {
        Some(StateFault::Piece(gs.next@))
    } else if gs.held is Some && piece_of(gs.held->0@) is None {
        Some(StateFault::Piece(gs.held->0@))
    } else if bag_fault(texts(gs.bag@), 0) is Some {
        Some(StateFault::Piece(bag_fault(texts(gs.bag@), 0)->0))
    } else {
        None
    }
}

/// `sim` is what the (valid) wire state says.
pub open spec fn decodes_to(gs: GameState, sim: SimState) -> bool {
    &&& sim.board@.len() == gs.board@.len()
    &&& forall|r: int|
        0 <= r < sim.board@.len() ==> #[trigger] sim.board@[r]@ == row_cells(gs.board@[r]@)
    &&& Some(sim.cur) == piece_of(gs.cur@)
    &&& Some(sim.next) == piece_of(gs.next@)
    &&& sim.held == match gs.held {
        Some(h) => piece_of(h@),
        None => None,
    }
    &&& sim.hold_ready == gs.hold_ready
    &&& sim.bag@.len() == gs.bag@.len()
    &&& forall|k: int| 0 <= k < sim.bag@.len() ==> Some(#[trigger] sim.bag@[k]) == piece_of(gs.bag@[k]@)
}

/// `gs` is the wire form of these sim-side facts.
pub open spec fn encodes(
    gs: GameState,
    board: Seq<Seq<bool>>,
    cur: Piece,
    next: Piece,
    held: Option<Piece>,
    hold_ready: bool,
    bag: Seq<Piece>,
) -> bool {
    &&& gs.board@.len() == board.len()
    &&& forall|r: int| 0 <= r < board.len() ==> #[trigger] gs.board@[r]@ == render_row(board[r])
    &&& gs.cur@ == seq![piece_letter(cur)]
    &&& gs.next@ == seq![piece_letter(next)]
    &&& match held {
        Some(p) => gs.held is Some && gs.held->0@ == seq![piece_letter(p)],
        None => gs.held is None,
    }
    &&& gs.hold_ready == hold_ready
    &&& gs.bag@.len() == bag.len()
    &&& forall|k: int| 0 <= k < bag.len() ==> #[trigger] gs.bag@[k]@ == seq![piece_letter(bag[k])]
}

proof fn lemma_rendered_row(cells: Seq<bool>, r: nat)
    requires
        cells.len() == WIDTH,
    ensures
        row_fault(render_row(cells), r) is None,
        row_cells(render_row(cells)) == cells,
{
    let row = render_row(cells);
    assert(is_ascii_chars(row));
    is_ascii_chars_encode_utf8(row);
    assert(row_cells(row) =~= cells);
}

proof fn lemma_rows_clean(rows: Seq<Seq<char>>, from: nat)
    requires
        forall|r: int| from <= r < rows.len() ==> row_fault(#[trigger] rows[r], r as nat) is None,
    ensures
        rows_fault(rows, from) is None,
    decreases rows.len() - from,
{
    if from < rows.len() {
        lemma_rows_clean(rows, from + 1);
    }
}

proof fn lemma_bag_clean(bag: Seq<Seq<char>>, from: nat)
    requires
        forall|k: int| from <= k < bag.len() ==> piece_of(#[trigger] bag[k]) is Some,
    ensures
        bag_fault(bag, from) is None,
    decreases bag.len() - from,
{
    if from < bag.len() {
        lemma_bag_clean(bag, from + 1);
    }
}

/// What is encoded decodes: the wire form of a full-size board and any
/// pieces passes every check and reads back the same cells and pieces.
pub proof fn lemma_encoded_state_decodes(
    gs: GameState,
    board: Seq<Seq<bool>>,
    cur: Piece,
    next: Piece,
    held: Option<Piece>,
    hold_ready: bool,
    bag: Seq<Piece>,
)
    requires
        encodes(gs, board, cur, next, held, hold_ready, bag),
        board.len() == HEIGHT,
        forall|r: int| 0 <= r < board.len() ==> (#[trigger] board[r]).len() == WIDTH,
    ensures
        state_fault(gs) is None,
        forall|r: int| 0 <= r < HEIGHT ==> row_cells(#[trigger] gs.board@[r]@) == board[r],
        piece_of(gs.cur@) == Some(cur),
        piece_of(gs.next@) == Some(next),
        match gs.held {
            Some(h) => piece_of(h@) == held,
            None => held is None,
        },
        forall|k: int| 0 <= k < bag.len() ==> piece_of(#[trigger] gs.bag@[k]@) == Some(bag[k]),
{
    let rows = texts(gs.board@);
    assert forall|r: int| 0 <= r < rows.len() implies row_fault(#[trigger] rows[r], r as nat)
        is None && row_cells(gs.board@[r]@) == board[r] by {
        assert(rows[r] == gs.board@[r]@);
        lemma_rendered_row(board[r], r as nat);
    }
    lemma_rows_clean(rows, 0);
    lemma_piece_id_roundtrip(cur);
    lemma_piece_id_roundtrip(next);
    if held is Some {
        lemma_piece_id_roundtrip(held->0);
    }
    let ids = texts(gs.bag@);
    assert forall|k: int| 0 <= k < ids.len() implies piece_of(#[trigger] ids[k]) is Some
        && piece_of(gs.bag@[k]@) == Some(bag[k]) by {
        assert(ids[k] == gs.bag@[k]@);
        lemma_piece_id_roundtrip(bag[k]);
    }
    lemma_bag_clean(ids, 0);
}

/// The wire letters: each piece crosses as the letter of its own name,
/// and each of those letters reads back as that piece.
pub proof fn lemma_piece_letters()
    ensures
        piece_letter(Piece::I) == 'I',
        piece_letter(Piece::O) == 'O',
        piece_letter(Piece::T) == 'T',
        piece_letter(Piece::S) == 'S',
        piece_letter(Piece::Z) == 'Z',
        piece_letter(Piece::J) == 'J',
        piece_letter(Piece::L) == 'L',
        piece_of(seq!['I']) == Some(Piece::I),
        piece_of(seq!['O']) == Some(Piece::O),
        piece_of(seq!['T']) == Some(Piece::T),
        piece_of(seq!['S']) == Some(Piece::S),
        piece_of(seq!['Z']) == Some(Piece::Z),
        piece_of(seq!['J']) == Some(Piece::J),
        piece_of(seq!['L']) == Some(Piece::L),
        forall|c: char|
            c != 'I' && c != 'O' && c != 'T' && c != 'S' && c != 'Z' && c != 'J' && c != 'L'
                ==> #[trigger] piece_of(seq![c]) is None,
{
}

/// Cell by cell: cell `k` of a read row is filled exactly when char `k`
/// is `#`, and char `k` of a rendered row is `#` for a filled cell and
/// `.` for an empty one; neither reorders anything.
pub proof fn lemma_row_cells_by_index(row: Seq<char>, cells: Seq<bool>)
    ensures
        row_cells(row).len() == row.len(),
        forall|k: int| 0 <= k < row.len() ==> #[trigger] row_cells(row)[k] == (row[k] == '#'),
        render_row(cells).len() == cells.len(),
        forall|k: int|
            0 <= k < cells.len() ==> #[trigger] render_row(cells)[k] == if cells[k] {
                '#'
            } else {
                '.'
            },
{
}

/// A decoded board holds, at row `r` and column `k`, a filled cell
/// exactly where the wire row `r` has `#` at char `k`.
pub proof fn lemma_decoded_cells(gs: GameState, sim: SimState)
    requires
        decodes_to(gs, sim),
    ensures
        forall|r: int|
            0 <= r < sim.board@.len() ==> (#[trigger] sim.board@[r])@.len() == gs.board@[r]@.len(),
        forall|r: int, k: int|
            0 <= r < sim.board@.len() && 0 <= k < gs.board@[r]@.len() ==> #[trigger] sim.board@[r]@[k]
                == (gs.board@[r]@[k] == '#'),
{
    assert forall|r: int| 0 <= r < sim.board@.len() implies (#[trigger] sim.board@[r])@.len()
        == gs.board@[r]@.len() by {
        lemma_row_cells_by_index(gs.board@[r]@, Seq::empty());
    }
    assert forall|r: int, k: int|
        0 <= r < sim.board@.len() && 0 <= k < gs.board@[r]@.len() implies #[trigger] sim.board@[r]@[k]
        == (gs.board@[r]@[k] == '#') by {
        lemma_row_cells_by_index(gs.board@[r]@, Seq::empty());
    }
}

/// An encoded board has, at row `r` and char `k`, `#` where cell `k` of
/// row `r` is filled and `.` where it is empty.
pub proof fn lemma_encoded_chars(
    gs: GameState,
    board: Seq<Seq<bool>>,
    cur: Piece,
    next: Piece,
    held: Option<Piece>,
    hold_ready: bool,
    bag: Seq<Piece>,
)
    requires
        encodes(gs, board, cur, next, held, hold_ready, bag),
    ensures
        forall|r: int| 0 <= r < board.len() ==> (#[trigger] gs.board@[r])@.len() == board[r].len(),
        forall|r: int, k: int|
            0 <= r < board.len() && 0 <= k < board[r].len() ==> #[trigger] gs.board@[r]@[k] == if board[r][k] {
                '#'
            } else {
                '.'
            },
{
    assert forall|r: int| 0 <= r < board.len() implies (#[trigger] gs.board@[r])@.len()
        == board[r].len() by {
        lemma_row_cells_by_index(Seq::empty(), board[r]);
    }
    assert forall|r: int, k: int|
        0 <= r < board.len() && 0 <= k < board[r].len() implies #[trigger] gs.board@[r]@[k] == if board[r][k] {
        '#'
    } else {
        '.'
    } by {
        lemma_row_cells_by_index(Seq::empty(), board[r]);
    }
}

/// A piece's id names that piece.
pub proof fn lemma_piece_id_roundtrip(p: Piece)
    ensures
        piece_of(seq![piece_letter(p)]) == Some(p),
{
}

proof fn lemma_rows_fault_skip(rows: Seq<Seq<char>>, from: nat)
    requires
        from < rows.len(),
        row_fault(rows[from as int], from) is None,
    ensures
        rows_fault(rows, from) == rows_fault(rows, from + 1),
{
}

proof fn lemma_bag_fault_skip(bag: Seq<Seq<char>>, from: nat)
    requires
        from < bag.len(),
        piece_of(bag[from as int]) is Some,
    ensures
        bag_fault(bag, from) == bag_fault(bag, from + 1),
{
}

/// Checks one row and reads its cells.
fn decode_row(row: &String, r: usize) -> (res: Result<Vec<bool>, StateError>)
    ensures
        match res {
            Ok(cells) => row_fault(row@, r as nat) is None && cells@ == row_cells(row@),
            Err(e) => row_fault(row@, r as nat) == Some(e@),
        },
{
    let text = row.as_str();
    let len = text.as_bytes().len();
    if len != WIDTH {
        return Err(StateError::RowWidth { row: r, len });
    }
    let n = text.unicode_len();
    let mut cells: Vec<bool> = Vec::new();
    for i in 0..n
        invariant
            n == row@.len(),
            text@ == row@,
            encode_utf8(row@).len() == WIDTH,
            forall|k: int| 0 <= k < i ==> row@[k] == '#' || row@[k] == '.',
            cells@ == row_cells(row@).subrange(0, i as int),
    {
        let c = text.get_char(i);
        if c != '#' && c != '.' {
            assert(row@[i as int] != '#' && row@[i as int] != '.');
            return Err(StateError::RowChars { row: r });
        }
        cells.push(c == '#');
        assert(cells@ =~= row_cells(row@).subrange(0, i + 1));
    }
    assert(row_cells(row@).subrange(0, n as int) =~= row_cells(row@));
    Ok(cells)
}

impl GameState {
    /// Encodes sim-side facts in wire form.
    pub fn encode(
        board: &[Vec<bool>],
        cur: Piece,
        next: Piece,
        held: Option<Piece>,
        hold_ready: bool,
        bag: &[Piece],
    ) -> (gs: GameState)
        ensures
            encodes(gs, board@.map_values(|v: Vec<bool>| v@), cur, next, held, hold_ready, bag@),
    {
        let hash = "#";
        let dot = ".";
        proof {
            reveal_strlit("#");
            reveal_strlit(".");
        }
        let mut rows: Vec<String> = Vec::new();
        let nr = board.len();
        for r in 0..nr
            invariant
                nr == board@.len(),
                hash@ == seq!['#'],
                dot@ == seq!['.'],
                rows@.len() == r,
                forall|q: int| 0 <= q < r ==> #[trigger] rows@[q]@ == render_row(board@[q]@),
        {
            let cells = &board[r];
            let mut line = String::new();
            let nc = cells.len();
            for c in 0..nc
                invariant
                    nc == cells@.len(),
                    hash@ == seq!['#'],
                    dot@ == seq!['.'],
                    line@ == render_row(cells@).subrange(0, c as int),
            {
                if cells[c] {
                    line.append(hash);
                } else {
                    line.append(dot);
                }
                assert(line@ =~= render_row(cells@).subrange(0, c + 1));
            }
            assert(render_row(cells@).subrange(0, nc as int) =~= render_row(cells@));
            rows.push(line);
        }
        let mut ids: Vec<String> = Vec::new();
        let nb = bag.len();
        for k in 0..nb
            invariant
                nb == bag@.len(),
                ids@.len() == k,
                forall|q: int| 0 <= q < k ==> #[trigger] ids@[q]@ == seq![piece_letter(bag@[q])],
        {
            ids.push(String::from_str(piece_id(bag[k])));
        }
        let held_id = match held {
            Some(p) => Some(String::from_str(piece_id(p))),
            None => None,
        };
        let gs = GameState {
            board: rows,
            cur: String::from_str(piece_id(cur)),
            next: String::from_str(piece_id(next)),
            held: held_id,
            hold_ready,
            bag: ids,
        };
        assert(encodes(gs, board@.map_values(|v: Vec<bool>| v@), cur, next, held, hold_ready, bag@));
        gs
    }

    /// Validates and decodes to the sim-side view. Fail-closed on shape.
    pub fn to_sim(&self) -> (r: Result<SimState, StateError>)
        ensures
            match r {
                Ok(sim) => state_fault(*self) is None && decodes_to(*self, sim),
                Err(e) => state_fault(*self) == Some(e@),
            },
    {
        if self.board.len() != HEIGHT {
            return Err(StateError::Rows(self.board.len()));
        }
        let ghost rows = texts(self.board@);
        let mut board: Vec<Vec<bool>> = Vec::new();
        for r in 0..HEIGHT
            invariant
                self.board@.len() == HEIGHT,
                rows == texts(self.board@),
                rows_fault(rows, 0) == rows_fault(rows, r as nat),
                board@.len() == r,
                forall|q: int| 0 <= q < r ==> #[trigger] board@[q]@ == row_cells(self.board@[q]@),
        {
            assert(rows[r as int] == self.board@[r as int]@);
            match decode_row(&self.board[r], r) {
                Ok(cells) => {
                    proof {
                        lemma_rows_fault_skip(rows, r as nat);
                    }
                    board.push(cells);
                },
                Err(e) => {
                    return Err(e);
                },
            }
        }
        assert(rows_fault(rows, 0) is None);
        let cur = match piece_from_id(self.cur.as_str()) {
            Some(p) => p,
            None => return Err(StateError::Piece(self.cur.clone())),
        };
        let next = match piece_from_id(self.next.as_str()) {
            Some(p) => p,
            None => return Err(StateError::Piece(self.next.clone())),
        };
        let held = match &self.held {
            None => None,
            Some(id) => match piece_from_id(id.as_str()) {
                Some(p) => Some(p),
                None => return Err(StateError::Piece(id.clone())),
            },
        };
        let ghost ids = texts(self.bag@);
        let mut bag: Vec<Piece> = Vec::new();
        let nb = self.bag.len();
        for k in 0..nb
            invariant
                nb == self.bag@.len(),
                ids == texts(self.bag@),
                self.board@.len() == HEIGHT,
                rows_fault(texts(self.board@), 0) is None,
                piece_of(self.cur@) == Some(cur),
                piece_of(self.next@) == Some(next),
                held == match self.held {
                    Some(h) => piece_of(h@),
                    None => None,
                },
                self.held is Some ==> piece_of(self.held->0@) is Some,
                bag_fault(ids, 0) == bag_fault(ids, k as nat),
                bag@.len() == k,
                forall|q: int| 0 <= q < k ==> Some(#[trigger] bag@[q]) == piece_of(self.bag@[q]@),
        {
            assert(ids[k as int] == self.bag@[k as int]@);
            match piece_from_id(self.bag[k].as_str()) {
                Some(p) => {
                    proof {
                        lemma_bag_fault_skip(ids, k as nat);
                    }
                    bag.push(p);
                },
                None => {
                    return Err(StateError::Piece(self.bag[k].clone()));
                },
            }
        }
        assert(bag_fault(ids, 0) is None);
        Ok(SimState { board, cur, next, held, hold_ready: self.hold_ready, bag })
    }
}


/// The text of a decode refusal.
pub open spec fn state_error_text(e: StateError) -> Seq<char> {
    match e {
        StateError::Rows(n) => "board must be "@ + decimal_spec(HEIGHT as nat) + " rows, got "@
            + decimal_spec(n as nat),
        StateError::RowWidth { row, len } => "row "@ + decimal_spec(row as nat) + " must be "@
            + decimal_spec(WIDTH as nat) + " chars, got "@ + decimal_spec(len as nat),
        StateError::RowChars { row } => "row "@ + decimal_spec(row as nat)
            + " has chars other than '#'/'.'"@,
        StateError::Piece(s) => "unknown piece id "@ + debug_text(s@) + " (want I O T S Z J L)"@,
    }
}

impl StateError {
    /// The refusal as display text.
    pub fn message(&self) -> (m: String)
        ensures
            m@ == state_error_text(*self),
    {
        match self {
            StateError::Rows(n) => {
                let mut m = String::from_str("board must be ");
                push_decimal(&mut m, HEIGHT as u64);
                m.append(" rows, got ");
                push_decimal(&mut m, *n as u64);
                m
            },
            StateError::RowWidth { row, len } => {
                let mut m = String::from_str("row ");
                push_decimal(&mut m, *row as u64);
                m.append(" must be ");
                push_decimal(&mut m, WIDTH as u64);
                m.append(" chars, got ");
                push_decimal(&mut m, *len as u64);
                m
            },
            StateError::RowChars { row } => {
                let mut m = String::from_str("row ");
                push_decimal(&mut m, *row as u64);
                m.append(" has chars other than '#'/'.'");
                m
            },
            StateError::Piece(s) => {
                let mut m = String::from_str("unknown piece id ");
                let quoted = debug_str(s.as_str());
                m.append(quoted.as_str());
                m.append(" (want I O T S Z J L)");
                m
            },
        }
    }
}

} // verus!
