//! The immutable 3x3 board model.
//!
//! A board is a snapshot of occupancy over nine cells. Every mutating
//! operation returns a new board; a holder of an earlier snapshot never
//! observes a change. The board also enumerates the eight winnable lines
//! ("segments") in one fixed, observable order.

use vstd::prelude::*;
use crate::player::PlayerId;

verus! {

/// What a board abstracts to: for each of the nine positions, in index
/// order, the marker of the occupant, or `None` for an empty cell.
pub type BoardView = Seq<Option<Seq<char>>>;

/// Errors a board operation or the game loop can report.
#[derive(Debug, PartialEq)]
pub enum GameError {
    /// A cell reference outside `0..9` was passed to `occupy_cell`.
    IndexOutOfRange(usize),
    /// `occupy_cell` was asked to fill a cell that already holds a marker.
    AlreadyOccupied(usize),
    /// A player capability chose a cell it may not occupy; carries the
    /// offending player's marker and the chosen index.
    InvalidMove(String, usize),
}

/// An opaque, comparable handle to one of the nine board positions.
/// Two references are equal exactly when their indices are.
#[derive(Clone, Copy, Debug, PartialEq, Eq, Structural)]
pub struct CellReference(usize);

impl View for CellReference {
    type V = int;

    closed spec fn view(&self) -> int {
        self.0 as int
    }
}

impl CellReference {
    /// A handle to the position with the given zero-based index.
    pub fn new(index: usize) -> (r: CellReference)
        ensures
            r@ == index as int,
    {
        CellReference(index)
    }

    /// The zero-based index of the position this handle names.
    pub fn index(&self) -> (i: usize)
        ensures
            i as int == self@,
    {
        self.0
    }
}

/// One board position together with its occupant, if any. A cell never
/// owns the side that occupies it: it carries the identity by value.
#[derive(Debug)]
pub struct Cell {
    reference: CellReference,
    occupant: Option<PlayerId>,
}

impl Cell {
    /// The position this cell sits at.
    pub closed spec fn idx(self) -> int {
        self.reference@
    }

    /// The occupant's marker, or `None` for an empty cell.
    pub closed spec fn occupant_marker(self) -> Option<Seq<char>> {
        match self.occupant {
            Some(p) => Some(p@),
            None => None,
        }
    }

    /// The occupant's marker, if the cell is occupied.
    pub fn get_marker(&self) -> (m: Option<String>)
        ensures
            match m {
                Some(s) => self.occupant_marker() == Some(s@),
                None => self.occupant_marker() is None,
            },
    {
        match &self.occupant {
            Some(p) => Some(p.get_marker()),
            None => None,
        }
    }

    /// The reference of the position this cell sits at.
    pub fn get_reference(&self) -> (r: &CellReference)
        ensures
            r@ == self.idx(),
    {
        &self.reference
    }

    /// The identity occupying this cell, if any.
    pub fn get_occupant(&self) -> (o: Option<PlayerId>)
        ensures
            match o {
                Some(p) => self.occupant_marker() == Some(p@),
                None => self.occupant_marker() is None,
            },
    {
        match &self.occupant {
            Some(p) => Some(p.clone()),
            None => None,
        }
    }
}

impl Clone for Cell {
    fn clone(&self) -> (c: Self)
        ensures
            c == *self,
    {
        Cell {
            reference: self.reference,
            occupant: match &self.occupant {
                Some(p) => Some(p.clone()),
                None => None,
            },
        }
    }
}

/// An immutable snapshot of occupancy over the nine cells of a 3x3 board.
#[derive(Debug)]
pub struct Board {
    size: usize,
    cells: Vec<Cell>,
}

impl View for Board {
    type V = BoardView;

    closed spec fn view(&self) -> BoardView {
        self.cells@.map_values(|c: Cell| c.occupant_marker())
    }
}

/// Whether every cell of the board holds a marker.
pub open spec fn board_full(b: BoardView) -> bool {
    forall|i: int| 0 <= i < b.len() ==> b[i] is Some
}

/// The indices of the empty cells among the first `n` positions, in
/// ascending order.
pub open spec fn empty_refs_upto(b: BoardView, n: int) -> Seq<int>
    decreases n,
{
    if n <= 0 {
        Seq::empty()
    } else {
        let rest = empty_refs_upto(b, n - 1);
        if b[n - 1] is None {
            rest.push(n - 1)
        } else {
            rest
        }
    }
}

/// The indices of the empty cells of the board, in ascending order.
pub open spec fn empty_refs(b: BoardView) -> Seq<int> {
    empty_refs_upto(b, b.len() as int)
}

proof fn lemma_empty_refs_upto_props(b: BoardView, n: int)
    requires
        0 <= n <= b.len(),
    ensures
        forall|k: int| 0 <= k < empty_refs_upto(b, n).len() ==> 0 <= #[trigger] empty_refs_upto(
            b,
            n,
        )[k] < n,
        forall|k: int| 0 <= k < empty_refs_upto(b, n).len() ==> b[empty_refs_upto(b, n)[k]] is None,
        forall|k1: int, k2: int| 0 <= k1 < k2 < empty_refs_upto(b, n).len() ==> empty_refs_upto(
            b,
            n,
        )[k1] < empty_refs_upto(b, n)[k2],
        forall|i: int| 0 <= i < n && b[i] is None ==> empty_refs_upto(b, n).contains(i),
    decreases n,
{
    if n > 0 {
        lemma_empty_refs_upto_props(b, n - 1);
        let prev = empty_refs_upto(b, n - 1);
        let cur = empty_refs_upto(b, n);
        assert forall|i: int| 0 <= i < n && b[i] is None implies cur.contains(i) by {
            if i < n - 1 {
                assert(prev.contains(i));
                let k = choose|k: int| 0 <= k < prev.len() && prev[k] == i;
                assert(cur[k] == i);
            } else {
                assert(cur[cur.len() - 1] == i);
            }
        }
    }
}

/// What the list of empty references means: every listed index is a
/// position of the board whose cell is empty, the list is strictly
/// ascending, it covers every empty cell, and it is empty exactly when
/// the board is full.
pub proof fn lemma_empty_refs(b: BoardView)
    ensures
        forall|k: int| 0 <= k < empty_refs(b).len() ==> 0 <= #[trigger] empty_refs(b)[k] < b.len(),
        forall|k: int| 0 <= k < empty_refs(b).len() ==> b[empty_refs(b)[k]] is None,
        forall|k1: int, k2: int| 0 <= k1 < k2 < empty_refs(b).len() ==> empty_refs(b)[k1]
            < empty_refs(b)[k2],
        forall|i: int| 0 <= i < b.len() && b[i] is None ==> empty_refs(b).contains(i),
        empty_refs(b).len() == 0 <==> board_full(b),
{
    lemma_empty_refs_upto_props(b, b.len() as int);
    if empty_refs(b).len() == 0 {
        assert forall|i: int| 0 <= i < b.len() implies b[i] is Some by {
            if b[i] is None {
                assert(empty_refs(b).contains(i));
            }
        }
    }
    if empty_refs(b).len() > 0 {
        assert(b[empty_refs(b)[0]] is None);
    }
}

proof fn lemma_empty_refs_upto_update(b: BoardView, r: int, m: Seq<char>, n: int)
    requires
        0 <= r < b.len(),
        b[r] is None,
        0 <= n <= b.len(),
    ensures
        empty_refs_upto(b.update(r, Some(m)), n).len() == empty_refs_upto(b, n).len() - (if r < n {
            1int
        } else {
            0int
        }),
    decreases n,
{
    if n > 0 {
        lemma_empty_refs_upto_update(b, r, m, n - 1);
    }
}

/// Occupying an empty cell leaves exactly one fewer empty cell.
pub proof fn lemma_empty_refs_update(b: BoardView, r: int, m: Seq<char>)
    requires
        0 <= r < b.len(),
        b[r] is None,
    ensures
        empty_refs(b.update(r, Some(m))).len() == empty_refs(b).len() - 1,
{
    lemma_empty_refs_upto_update(b, r, m, b.len() as int);
}

/// Law: any reference drawn from the empty-cell list names a cell of the
/// board that holds no marker, so `occupy_cell` with it succeeds by its
/// contract; the board it yields holds the mover's marker at exactly that
/// cell and leaves every other cell as it was. The board moved on is a
/// value and is not touched at all.
pub proof fn lemma_occupying_an_empty_cell(b: BoardView, k: int, m: Seq<char>)
    requires
        0 <= k < empty_refs(b).len(),
    ensures
        ({
            let r = empty_refs(b)[k];
            &&& 0 <= r < b.len()
            &&& b[r] is None
            &&& b.update(r, Some(m))[r] == Some(m)
            &&& forall|i: int| 0 <= i < b.len() && i != r ==> b.update(r, Some(m))[i] == b[i]
        }),
{
    lemma_empty_refs(b);
}

/// Whether `c` separates the markers of a board string.
pub open spec fn is_separator(c: char) -> bool {
    c == ' ' || c == '\t' || c == '\n' || c == '\r'
}

/// The state of a left-to-right scan of the first `n` characters of a
/// board string: the tokens already closed, and the token still open.
pub open spec fn token_fold(s: Seq<char>, n: int) -> (Seq<Seq<char>>, Seq<char>)
    decreases n,
{
    if n <= 0 {
        (Seq::empty(), Seq::empty())
    } else {
        let st = token_fold(s, n - 1);
        if is_separator(s[n - 1]) {
            if st.1.len() == 0 {
                st
            } else {
                (st.0.push(st.1), Seq::empty())
            }
        } else {
            (st.0, st.1.push(s[n - 1]))
        }
    }
}

/// The tokens of a board string: its maximal runs of non-separator
/// characters, in order.
pub open spec fn tokens_of(s: Seq<char>) -> Seq<Seq<char>> {
    let st = token_fold(s, s.len() as int);
    if st.1.len() == 0 {
        st.0
    } else {
        st.0.push(st.1)
    }
}

/// The occupant marker that token `i` of a board string assigns: the
/// first player's marker when the token equals it, else the second
/// player's when it equals that, else none. Positions past the last
/// token are left empty.
pub open spec fn fixture_occupant(
    toks: Seq<Seq<char>>,
    m1: Seq<char>,
    m2: Seq<char>,
    i: int,
) -> Option<Seq<char>> {
    if 0 <= i < toks.len() {
        if toks[i] == m1 {
            Some(m1)
        } else if toks[i] == m2 {
            Some(m2)
        } else {
            None
        }
    } else {
        None
    }
}

fn is_separator_exec(c: char) -> (r: bool)
    ensures
        r == is_separator(c),
{
    c == ' ' || c == '\t' || c == '\n' || c == '\r'
}

/// Splits a board string into its whitespace-separated tokens.
fn split_tokens(s: &str) -> (toks: Vec<String>)
    ensures
        toks@.map_values(|t: String| t@) == tokens_of(s@),
{
    let n = s.unicode_len();
    let mut toks: Vec<String> = Vec::new();
    let mut start: Option<usize> = None;
    for i in 0..n
        invariant
            n == s@.len(),
            ({
                let st = token_fold(s@, i as int);
                &&& toks@.map_values(|t: String| t@) == st.0
                &&& match start {
                    Some(a) => a < i <= n && st.1 == s@.subrange(a as int, i as int) && st.1.len()
                        > 0,
                    None => st.1.len() == 0,
                }
            }),
    {
        let c = s.get_char(i);
        if is_separator_exec(c) {
            match start {
                Some(a) => {
                    toks.push(s.substring_char(a, i).to_owned());
                    start = None;
                    proof {
                        assert(toks@.map_values(|t: String| t@) =~= token_fold(s@, i + 1).0);
                    }
                },
                None => {},
            }
        } else {
            match start {
                Some(a) => {
                    proof {
                        assert(token_fold(s@, i + 1).1 =~= s@.subrange(a as int, i + 1));
                    }
                },
                None => {
                    start = Some(i);
                    proof {
                        assert(token_fold(s@, i + 1).1 =~= s@.subrange(i as int, i + 1));
                    }
                },
            }
        }
    }
    match start {
        Some(a) => {
            toks.push(s.substring_char(a, n).to_owned());
        },
        None => {},
    }
    proof {
        assert(toks@.map_values(|t: String| t@) =~= tokens_of(s@));
    }
    toks
}

/// The index of cell `j` of segment `k`, under the fixed enumeration
/// order: row 0, column 0, row 1, column 1, row 2, column 2, the main
/// diagonal, then the anti-diagonal.
pub open spec fn seg_index(k: int, j: int) -> int {
    if k == 6 {
        4 * j
    } else if k == 7 {
        2 * j + 2
    } else if k % 2 == 0 {
        3 * (k / 2) + j
    } else {
        3 * j + k / 2
    }
}

impl Board {
    #[verifier::type_invariant]
    spec fn wf(self) -> bool {
        &&& self.size == 3
        &&& self.cells@.len() == 9
        &&& forall|i: int| 0 <= i < 9 ==> (#[trigger] self.cells@[i]).idx() == i
    }

    /// A 3x3 board with all nine cells unoccupied.
    pub fn empty_board() -> (b: Board)
        ensures
            b@.len() == 9,
            forall|i: int| 0 <= i < 9 ==> b@[i] is None,
    {
        let mut cells: Vec<Cell> = Vec::new();
        for i in 0..9
            invariant
                cells@.len() == i,
                forall|j: int| 0 <= j < i ==> (#[trigger] cells@[j]).idx() == j,
                forall|j: int| 0 <= j < i ==> (#[trigger] cells@[j]).occupant_marker() is None,
        {
            cells.push(Cell { reference: CellReference(i), occupant: None });
        }
        let b = Board { cells, size: 3 };
        b
    }

    /// The eight winnable lines of the board, in the fixed enumeration
    /// order: row 0, column 0, row 1, column 1, row 2, column 2, the main
    /// diagonal, then the anti-diagonal. Each segment carries its three
    /// cells by value, first to last.
    pub fn segments(&self) -> (segs: Vec<Vec<Cell>>)
        ensures
            self@.len() == 9,
            segs@.len() == 8,
            forall|k: int| 0 <= k < 8 ==> (#[trigger] segs@[k])@.len() == 3,
            forall|k: int, j: int| 0 <= k < 8 && 0 <= j < 3 ==> (#[trigger] segs@[k]@[j]).idx()
                == seg_index(k, j),
            forall|k: int, j: int| 0 <= k < 8 && 0 <= j < 3 ==> (#[trigger] segs@[k]@[j]).occupant_marker()
                == self@[seg_index(k, j)],
    {
        proof {
            use_type_invariant(self);
        }
        let mut segs: Vec<Vec<Cell>> = Vec::new();
        for k in 0..8usize
            invariant
                self.wf(),
                segs@.len() == k,
                forall|k2: int| 0 <= k2 < k ==> (#[trigger] segs@[k2])@.len() == 3,
                forall|k2: int, j: int| 0 <= k2 < k && 0 <= j < 3 ==> (#[trigger] segs@[k2]@[j]).idx()
                    == seg_index(k2, j),
                forall|k2: int, j: int| 0 <= k2 < k && 0 <= j < 3 ==> (#[trigger] segs@[k2]@[j]).occupant_marker()
                    == self@[seg_index(k2, j)],
        {
            let mut seg: Vec<Cell> = Vec::new();
            for j in 0..3usize
                invariant
                    self.wf(),
                    k < 8,
                    seg@.len() == j,
                    forall|j2: int| 0 <= j2 < j ==> (#[trigger] seg@[j2]).idx()
                        == seg_index(k as int, j2),
                    forall|j2: int| 0 <= j2 < j ==> (#[trigger] seg@[j2]).occupant_marker()
                        == self@[seg_index(k as int, j2)],
            {
                let idx = Self::seg_index_exec(k, j);
                seg.push(self.cells[idx].clone());
            }
            segs.push(seg);
        }
        segs
    }

    /// The index of cell `j` of segment `k`, as executable arithmetic.
    fn seg_index_exec(k: usize, j: usize) -> (i: usize)
        requires
            k < 8,
            j < 3,
        ensures
            i as int == seg_index(k as int, j as int),
            i < 9,
    {
        if k == 6 {
            4 * j
        } else if k == 7 {
            2 * j + 2
        } else if k % 2 == 0 {
            3 * (k / 2) + j
        } else {
            3 * j + k / 2
        }
    }

    /// The references of all unoccupied cells, in ascending index order.
    /// An empty result signals a full board.
    pub fn empty_cells(&self) -> (r: Vec<CellReference>)
        ensures
            self@.len() == 9,
            r@.map_values(|cr: CellReference| cr@) == empty_refs(self@),
    {
        proof {
            use_type_invariant(self);
        }
        let mut r: Vec<CellReference> = Vec::new();
        for i in 0..9usize
            invariant
                self.wf(),
                r@.map_values(|cr: CellReference| cr@) == empty_refs_upto(self@, i as int),
        {
            if self.cells[i].occupant.is_none() {
                r.push(CellReference(i));
                proof {
                    assert(r@.map_values(|cr: CellReference| cr@) =~= empty_refs_upto(
                        self@,
                        i + 1,
                    ));
                }
            }
        }
        r
    }

    /// A new board identical to this one, except that the cell at
    /// `reference` now holds `occupant`. This board itself is not touched;
    /// earlier snapshots stay valid. The move is rejected when the
    /// reference does not index a cell, or when the cell is already
    /// occupied.
    pub fn occupy_cell(&self, occupant: PlayerId, reference: &CellReference) -> (r: Result<
        Board,
        GameError,
    >)
        ensures
            self@.len() == 9,
            0 <= reference@ < 9 && self@[reference@] is None ==> (r matches Ok(b) && b@ == self@.update(
                reference@,
                Some(occupant@),
            )),
            !(0 <= reference@ < 9) ==> (r matches Err(e) && e matches GameError::IndexOutOfRange(i)
                && i as int == reference@),
            0 <= reference@ < 9 && self@[reference@] is Some ==> (r matches Err(e)
                && e matches GameError::AlreadyOccupied(i) && i as int == reference@),
    {
        proof {
            use_type_invariant(self);
        }
        let index = reference.index();
        if index >= 9 {
            return Err(GameError::IndexOutOfRange(index));
        }
        if self.cells[index].occupant.is_some() {
            return Err(GameError::AlreadyOccupied(index));
        }
        let mut cells: Vec<Cell> = Vec::new();
        for i in 0..9usize
            invariant
                self.wf(),
                index < 9,
                cells@.len() == i,
                forall|j: int| 0 <= j < i && j != index ==> #[trigger] cells@[j] == self.cells@[j],
                index < i ==> cells@[index as int] == (Cell {
                    reference: CellReference(index),
                    occupant: Some(occupant),
                }),
        {
            if i == index {
                cells.push(Cell { reference: CellReference(i), occupant: Some(occupant.clone()) });
            } else {
                cells.push(self.cells[i].clone());
            }
        }
        let b = Board { cells, size: self.size };
        proof {
            assert(b@ =~= self@.update(reference@, Some(occupant@)));
        }
        Ok(b)
    }

    /// A board read off a marker string: nine whitespace-separated
    /// tokens, row-major. A token equal to a player's marker places that
    /// player, the first player taking precedence; any other token leaves
    /// the cell empty, as do missing tokens. Tokens past the ninth are
    /// ignored.
    pub fn with_board(player_one: &PlayerId, player_two: &PlayerId, board_string: &str) -> (b:
        Board)
        ensures
            b@.len() == 9,
            forall|i: int| 0 <= i < 9 ==> b@[i] == fixture_occupant(
                tokens_of(board_string@),
                player_one@,
                player_two@,
                i,
            ),
    {
        let toks = split_tokens(board_string);
        let m1 = player_one.get_marker();
        let m2 = player_two.get_marker();
        let mut cells: Vec<Cell> = Vec::new();
        for i in 0..9usize
            invariant
                toks@.map_values(|t: String| t@) == tokens_of(board_string@),
                m1@ == player_one@,
                m2@ == player_two@,
                cells@.len() == i,
                forall|j: int| 0 <= j < i ==> (#[trigger] cells@[j]).idx() == j,
                forall|j: int| 0 <= j < i ==> (#[trigger] cells@[j]).occupant_marker()
                    == fixture_occupant(tokens_of(board_string@), player_one@, player_two@, j),
        {
            let occupant: Option<PlayerId> = if i < toks.len() {
                if toks[i] == m1 {
                    Some(player_one.clone())
                } else if toks[i] == m2 {
                    Some(player_two.clone())
                } else {
                    None
                }
            } else {
                None
            };
            cells.push(Cell { reference: CellReference(i), occupant });
        }
        let b = Board { cells, size: 3 };
        b
    }

    /// All nine cells, in index order; a read-only view.
    pub fn cells(&self) -> (r: &Vec<Cell>)
        ensures
            r@.len() == 9,
            self@.len() == 9,
            forall|i: int| 0 <= i < 9 ==> (#[trigger] r@[i]).idx() == i,
            forall|i: int| 0 <= i < 9 ==> (#[trigger] r@[i]).occupant_marker() == self@[i],
    {
        proof {
            use_type_invariant(self);
        }
        &self.cells
    }
}

} // verus!
