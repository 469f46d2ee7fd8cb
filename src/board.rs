//! Board state: the cells of a shape and the pieces standing on them.
use vstd::prelude::*;
use crate::coords::{shape_has, BoardType, HexCoord};
use crate::pieces::{is_friendly, king_of, piece_moves, Color, Piece, PieceType};

verus! {

/// Whether some entry of `s` is keyed by `c`.
pub open spec fn has_key(s: Seq<(HexCoord, Piece)>, c: HexCoord) -> bool {
    exists|i: int| 0 <= i < s.len() && (#[trigger] s[i]).0 == c
}

/// No two entries of `s` share a key.
pub open spec fn keys_unique(s: Seq<(HexCoord, Piece)>) -> bool {
    forall|i: int, j: int| 0 <= i < s.len() && 0 <= j < s.len() && (#[trigger] s[i]).0 == (#[trigger] s[j]).0 ==> i == j
}

/// The map from coordinate to piece that a list of entries stands for.
pub open spec fn entries_map(s: Seq<(HexCoord, Piece)>) -> Map<HexCoord, Piece> {
    Map::new(
        |c: HexCoord| has_key(s, c),
        |c: HexCoord| s[choose|i: int| 0 <= i < s.len() && (#[trigger] s[i]).0 == c].1,
    )
}

/// An entry of a list with unique keys is what the map holds at its key.
pub proof fn lemma_entries_map_at(s: Seq<(HexCoord, Piece)>, i: int)
    requires
        keys_unique(s),
        0 <= i < s.len(),
    ensures
        entries_map(s).contains_key(s[i].0),
        entries_map(s)[s[i].0] == s[i].1,
{
    let c = s[i].0;
    assert(has_key(s, c));
    let j = choose|j: int| 0 <= j < s.len() && (#[trigger] s[j]).0 == c;
    assert(s[j].0 == s[i].0);
}

/// Overwriting the piece of an entry overwrites it in the map.
pub proof fn lemma_entries_map_update(s: Seq<(HexCoord, Piece)>, i: int, p: Piece)
    requires
        keys_unique(s),
        0 <= i < s.len(),
    ensures
        keys_unique(s.update(i, (s[i].0, p))),
        entries_map(s.update(i, (s[i].0, p))) == entries_map(s).insert(s[i].0, p),
{
    let t = s.update(i, (s[i].0, p));
    assert forall|a: int, b: int| 0 <= a < t.len() && 0 <= b < t.len() && (#[trigger] t[a]).0 == (
    #[trigger] t[b]).0 implies a == b by {
        assert(t[a].0 == s[a].0 && t[b].0 == s[b].0);
    }
    assert forall|c: HexCoord| has_key(t, c) <==> has_key(s, c) || c == s[i].0 by {
        if has_key(t, c) {
            let j = choose|j: int| 0 <= j < t.len() && (#[trigger] t[j]).0 == c;
            assert(s[j].0 == c);
        }
        if has_key(s, c) {
            let j = choose|j: int| 0 <= j < s.len() && (#[trigger] s[j]).0 == c;
            assert(t[j].0 == c);
        }
        if c == s[i].0 {
            assert(t[i].0 == c);
        }
    }
    assert forall|c: HexCoord| #[trigger] entries_map(t).contains_key(c) implies entries_map(t)[c] == entries_map(s).insert(s[i].0, p)[c] by {
        let j = choose|j: int| 0 <= j < t.len() && (#[trigger] t[j]).0 == c;
        lemma_entries_map_at(t, j);
        if j != i {
            lemma_entries_map_at(s, j);
        }
    }
    assert(entries_map(t) =~= entries_map(s).insert(s[i].0, p));
}

/// Appending an entry under a new key inserts it into the map.
pub proof fn lemma_entries_map_push(s: Seq<(HexCoord, Piece)>, c: HexCoord, p: Piece)
    requires
        keys_unique(s),
        !has_key(s, c),
    ensures
        keys_unique(s.push((c, p))),
        entries_map(s.push((c, p))) == entries_map(s).insert(c, p),
{
    let t = s.push((c, p));
    assert forall|a: int, b: int| 0 <= a < t.len() && 0 <= b < t.len() && (#[trigger] t[a]).0 == (
    #[trigger] t[b]).0 implies a == b by {
        if a < s.len() {
            assert(t[a] == s[a]);
        }
        if b < s.len() {
            assert(t[b] == s[b]);
        }
    }
    assert forall|k: HexCoord| has_key(t, k) <==> has_key(s, k) || k == c by {
        if has_key(t, k) {
            let j = choose|j: int| 0 <= j < t.len() && (#[trigger] t[j]).0 == k;
            if j < s.len() {
                assert(s[j].0 == k);
            }
        }
        if has_key(s, k) {
            let j = choose|j: int| 0 <= j < s.len() && (#[trigger] s[j]).0 == k;
            assert(t[j].0 == k);
        }
        if k == c {
            assert(t[s.len() as int].0 == k);
        }
    }
    assert forall|k: HexCoord| #[trigger] entries_map(t).contains_key(k) implies entries_map(t)[k] == entries_map(s).insert(c, p)[k] by {
        let j = choose|j: int| 0 <= j < t.len() && (#[trigger] t[j]).0 == k;
        lemma_entries_map_at(t, j);
        if j < s.len() {
            assert(t[j] == s[j]);
            lemma_entries_map_at(s, j);
        }
    }
    assert(entries_map(t) =~= entries_map(s).insert(c, p));
}

/// Removing an entry removes its key from the map.
pub proof fn lemma_entries_map_remove(s: Seq<(HexCoord, Piece)>, i: int)
    requires
        keys_unique(s),
        0 <= i < s.len(),
    ensures
        keys_unique(s.remove(i)),
        entries_map(s.remove(i)) == entries_map(s).remove(s[i].0),
{
    let t = s.remove(i);
    assert forall|a: int| 0 <= a < t.len() implies #[trigger] t[a] == s[if a < i { a } else { a + 1 }] by {}
    assert forall|a: int, b: int| 0 <= a < t.len() && 0 <= b < t.len() && (#[trigger] t[a]).0 == (
    #[trigger] t[b]).0 implies a == b by {
        let a1 = if a < i { a } else { a + 1 };
        let b1 = if b < i { b } else { b + 1 };
        assert(t[a] == s[a1] && t[b] == s[b1]);
    }
    assert forall|k: HexCoord| has_key(t, k) <==> has_key(s, k) && k != s[i].0 by {
        if has_key(t, k) {
            let j = choose|j: int| 0 <= j < t.len() && (#[trigger] t[j]).0 == k;
            let j1 = if j < i { j } else { j + 1 };
            assert(t[j] == s[j1]);
            assert(s[j1].0 == k);
        }
        if has_key(s, k) && k != s[i].0 {
            let j = choose|j: int| 0 <= j < s.len() && (#[trigger] s[j]).0 == k;
            if j < i {
                assert(t[j] == s[j]);
            } else {
                assert(j != i);
                assert(t[j - 1] == s[j]);
            }
        }
    }
    assert forall|k: HexCoord| #[trigger] entries_map(t).contains_key(k) implies entries_map(t)[k] == entries_map(s).remove(s[i].0)[k] by {
        let j = choose|j: int| 0 <= j < t.len() && (#[trigger] t[j]).0 == k;
        lemma_entries_map_at(t, j);
        let j1 = if j < i { j } else { j + 1 };
        assert(t[j] == s[j1]);
        lemma_entries_map_at(s, j1);
    }
    assert(entries_map(t) =~= entries_map(s).remove(s[i].0));
}

/// Whether a move of the piece on `from` may end on `t`: `t` is on the board and holds no
/// piece of the mover's colour.
pub open spec fn lands_ok(shape: BoardType, cells: Map<HexCoord, Piece>, from: HexCoord) -> spec_fn(HexCoord) -> bool {
    |t: HexCoord| shape_has(shape, t.q as int, t.r as int) && !is_friendly(cells, from, t)
}

/// Every destination is on the board, for a piece that is there.
pub proof fn lemma_destination_on_board(shape: BoardType, cells: Map<HexCoord, Piece>, from: HexCoord, t: HexCoord)
    requires
        destinations(shape, cells, from).contains(t),
    ensures
        cells.contains_key(from),
        shape_has(shape, t.q as int, t.r as int),
        !is_friendly(cells, from, t),
        t != from,
{
    let s = piece_moves(cells[from].piece_type, from, shape, cells);
    let i = choose|i: int| 0 <= i < destinations(shape, cells, from).len() && destinations(shape, cells, from)[i] == t;
    s.lemma_filter_pred(lands_ok(shape, cells, from), i);
    s.lemma_filter_contains_rev(lands_ok(shape, cells, from), t);
    crate::pieces::lemma_moves_avoid_origin(cells[from].piece_type, from, shape, cells);
}

/// Filtering changes nothing when every element passes.
proof fn lemma_filter_keeps_all(s: Seq<HexCoord>, pred: spec_fn(HexCoord) -> bool)
    requires
        forall|i: int| 0 <= i < s.len() ==> pred(#[trigger] s[i]),
    ensures
        s.filter(pred) == s,
    decreases s.len(),
{
    reveal(Seq::filter);
    if s.len() > 0 {
        let init = s.drop_last();
        assert forall|i: int| 0 <= i < init.len() implies pred(#[trigger] init[i]) by {
            assert(init[i] == s[i]);
        }
        lemma_filter_keeps_all(init, pred);
        assert(pred(s[s.len() - 1]));
        assert(init.push(s.last()) =~= s);
    }
}

/// The board-level filter of `get_valid_moves` removes nothing: the destinations of an
/// occupied cell are exactly the moves its piece generates.
pub proof fn lemma_destinations_are_piece_moves(shape: BoardType, cells: Map<HexCoord, Piece>, from: HexCoord)
    requires
        cells.contains_key(from),
    ensures
        destinations(shape, cells, from) == piece_moves(cells[from].piece_type, from, shape, cells),
{
    let s = piece_moves(cells[from].piece_type, from, shape, cells);
    crate::pieces::lemma_moves_land_on_board(cells[from].piece_type, from, shape, cells);
    lemma_filter_keeps_all(s, lands_ok(shape, cells, from));
}

/// The destinations that `get_valid_moves` offers for the piece on `from`: its
/// pseudo-legal moves that land on the board and not on a piece of its own colour;
/// none for an empty cell.
pub open spec fn destinations(shape: BoardType, cells: Map<HexCoord, Piece>, from: HexCoord) -> Seq<HexCoord> {
    if cells.contains_key(from) {
        piece_moves(cells[from].piece_type, from, shape, cells).filter(lands_ok(shape, cells, from))
    } else {
        Seq::empty()
    }
}

/// Moving a piece from `from` to `to` and then back restores the position, except that
/// whatever stood on `to` is gone; with `to` empty beforehand it is restored exactly.
pub proof fn lemma_move_and_back(cells: Map<HexCoord, Piece>, from: HexCoord, to: HexCoord)
    requires
        cells.contains_key(from),
    ensures
        moved(moved(cells, from, to), to, from) == cells.remove(to).insert(from, cells[from]),
        !cells.contains_key(to) ==> moved(moved(cells, from, to), to, from) == cells,
{
    assert(moved(moved(cells, from, to), to, from) =~= cells.remove(to).insert(from, cells[from]));
    if !cells.contains_key(to) {
        assert(cells.remove(to).insert(from, cells[from]) =~= cells);
    }
}

/// Colours of the cells, for rendering.
#[derive(Clone, Copy, PartialEq, Eq, Structural, Debug, Hash)]
pub enum CellColor {
    Light,
    Medium,
    Dark,
}

/// Errors of board operations.
#[derive(Clone, Copy, PartialEq, Eq, Structural, Debug)]
pub enum BoardError {
    /// The coordinate is not a cell of this board.
    InvalidCoordinate,
    /// No piece stands on the coordinate.
    NoPieceAtCoordinate,
    /// The move is not allowed.
    InvalidMove,
}

/// The description of each board error.
pub open spec fn board_error_text(e: BoardError) -> &'static str {
    match e {
        BoardError::InvalidCoordinate => "Invalid coordinate for this board",
        BoardError::NoPieceAtCoordinate => "No piece at the specified coordinate",
        BoardError::InvalidMove => "Invalid move",
    }
}

impl BoardError {
    /// A human-readable description of the error.
    pub fn message(&self) -> (m: &'static str)
        ensures
            m@ == board_error_text(*self)@,
    {
        match self {
            BoardError::InvalidCoordinate => "Invalid coordinate for this board",
            BoardError::NoPieceAtCoordinate => "No piece at the specified coordinate",
            BoardError::InvalidMove => "Invalid move",
        }
    }
}

/// The colour of a cell: `(q + r + s) mod 3` picks Light, Medium or Dark on hexagonal
/// shapes; irregular shapes are all Light.
pub open spec fn cell_color_of(shape: BoardType, c: HexCoord) -> CellColor {
    match shape {
        BoardType::Irregular => CellColor::Light,
        _ => {
            let m = (c.q + c.r + (-c.q - c.r)) % 3;
            if m == 0 {
                CellColor::Light
            } else if m == 1 {
                CellColor::Medium
            } else {
                CellColor::Dark
            }
        },
    }
}

/// A hexagonal chess board: its shape, its cells with their colours, and the pieces
/// on it (at most one entry per cell; a cell without an entry is empty).
#[derive(Clone, Debug)]
pub struct Board {
    pub board_type: BoardType,
    pub pieces: Vec<(HexCoord, Piece)>,
    pub valid_coords: Vec<HexCoord>,
    pub cell_colors: Vec<(HexCoord, CellColor)>,
}

/// Whether `move_piece(from, to)` succeeds on a board of this shape holding these pieces.
pub open spec fn move_allowed(shape: BoardType, cells: Map<HexCoord, Piece>, from: HexCoord, to: HexCoord) -> bool {
    shape_has(shape, from.q as int, from.r as int) && shape_has(shape, to.q as int, to.r as int)
        && cells.contains_key(from)
}

/// The pieces after the piece on `from` moves to `to`, replacing whatever stood there.
pub open spec fn moved(cells: Map<HexCoord, Piece>, from: HexCoord, to: HexCoord) -> Map<HexCoord, Piece> {
    cells.remove(from).insert(to, cells[from])
}

/// An element-for-element copy of a vector of plain values.
fn copy_vec<T: Copy>(v: &Vec<T>) -> (r: Vec<T>)
    ensures
        r@ == v@,
{
    let mut r: Vec<T> = Vec::new();
    let mut i: usize = 0;
    while i < v.len()
        invariant
            i <= v@.len(),
            r@ == v@.take(i as int),
        decreases v@.len() - i,
    {
        r.push(v[i]);
        i = i + 1;
        assert(r@ =~= v@.take(i as int));
    }
    assert(v@.take(i as int) =~= v@);
    r
}

/// Well-formedness depends on the shape, cell lists and pieces alone: a board that
/// keeps the first three of a well-formed board, with pieces on cells and one per
/// cell, is well formed.
proof fn lemma_wf_frame(a: &Board, b: &Board)
    requires
        a.wf(),
        b.board_type == a.board_type,
        b.valid_coords@ == a.valid_coords@,
        b.cell_colors@ == a.cell_colors@,
        keys_unique(b.pieces@),
        forall|i: int| 0 <= i < b.pieces@.len() ==> b.has_cell(#[trigger] b.pieces@[i].0),
    ensures
        b.wf(),
{
    assert forall|c: HexCoord| b.valid_coords@.contains(c) <==> b.has_cell(c) by {
        assert(a.valid_coords@.contains(c) <==> a.has_cell(c));
    }
    assert forall|i: int| 0 <= i < b.cell_colors@.len() implies #[trigger] b.cell_colors@[i] == (
        b.valid_coords@[i],
        cell_color_of(b.board_type, b.valid_coords@[i]),
    ) by {
        assert(a.cell_colors@[i] == (a.valid_coords@[i], cell_color_of(a.board_type, a.valid_coords@[i])));
    }
}

impl Board {
    /// The pieces on the board, by cell.
    pub open spec fn cells(&self) -> Map<HexCoord, Piece> {
        entries_map(self.pieces@)
    }

    /// Whether `c` is a cell of this board.
    pub open spec fn has_cell(&self, c: HexCoord) -> bool {
        shape_has(self.board_type, c.q as int, c.r as int)
    }

    /// The board is well formed: its cell list is exactly the shape's cells, each
    /// listed once with its colour, and every piece stands on a cell, one per cell.
    pub open spec fn wf(&self) -> bool {
        &&& forall|c: HexCoord| self.valid_coords@.contains(c) <==> self.has_cell(c)
        &&& self.valid_coords@.no_duplicates()
        &&& self.cell_colors@.len() == self.valid_coords@.len()
        &&& forall|i: int|
            0 <= i < self.cell_colors@.len() ==> #[trigger] self.cell_colors@[i] == (
                self.valid_coords@[i],
                cell_color_of(self.board_type, self.valid_coords@[i]),
            )
        &&& keys_unique(self.pieces@)
        &&& forall|i: int| 0 <= i < self.pieces@.len() ==> self.has_cell(#[trigger] self.pieces@[i].0)
    }

    /// Two boards hold the same position: same shape, cells, colours and pieces.
    pub open spec fn same_position(&self, other: &Board) -> bool {
        &&& self.board_type == other.board_type
        &&& self.valid_coords@ == other.valid_coords@
        &&& self.cell_colors@ == other.cell_colors@
        &&& self.cells() == other.cells()
    }

    /// An empty board of the given shape.
    pub fn new(board_type: BoardType) -> (b: Self)
        ensures
            b.wf(),
            b.board_type == board_type,
            b.cells() == Map::<HexCoord, Piece>::empty(),
            b.pieces@.len() == 0,
    {
        let valid_coords = board_type.valid_coords();
        let cell_colors = Self::generate_cell_colors(&valid_coords, board_type);
        let b = Board { board_type, pieces: Vec::new(), valid_coords, cell_colors };
        assert(b.cells() =~= Map::<HexCoord, Piece>::empty());
        b
    }

    /// Pairs each cell with its colour.
    fn generate_cell_colors(coords: &Vec<HexCoord>, board_type: BoardType) -> (colors: Vec<(HexCoord, CellColor)>)
        ensures
            colors@.len() == coords@.len(),
            forall|i: int|
                0 <= i < colors@.len() ==> #[trigger] colors@[i] == (
                    coords@[i],
                    cell_color_of(board_type, coords@[i]),
                ),
    {
        let mut colors: Vec<(HexCoord, CellColor)> = Vec::new();
        let mut i: usize = 0;
        while i < coords.len()
            invariant
                i <= coords@.len(),
                colors@.len() == i,
                forall|j: int|
                    0 <= j < i ==> #[trigger] colors@[j] == (
                        coords@[j],
                        cell_color_of(board_type, coords@[j]),
                    ),
            decreases coords@.len() - i,
        {
            let coord = coords[i];
            let color = match board_type {
                BoardType::Regular { .. } | BoardType::Small => {
                    let q: i64 = coord.q as i64;
                    let r: i64 = coord.r as i64;
                    let s: i64 = -q - r;
                    let m: i64 = (q + r + s) % 3;
                    if m == 0 {
                        CellColor::Light
                    } else if m == 1 {
                        CellColor::Medium
                    } else {
                        CellColor::Dark
                    }
                },
                BoardType::Irregular => CellColor::Light,
            };
            colors.push((coord, color));
            i = i + 1;
        }
        colors
    }

    /// The index of the entry keyed by `coord`, if any.
    fn find_entry(&self, coord: HexCoord) -> (k: Option<usize>)
        requires
            self.wf(),
        ensures
            k.is_none() ==> !has_key(self.pieces@, coord) && !self.cells().contains_key(coord),
            k.is_some() ==> k.unwrap() < self.pieces@.len() && self.pieces@[k.unwrap() as int].0 == coord
                && self.cells().contains_key(coord) && self.cells()[coord] == self.pieces@[k.unwrap() as int].1,
    {
        let mut i: usize = 0;
        while i < self.pieces.len()
            invariant
                self.wf(),
                i <= self.pieces@.len(),
                forall|j: int| 0 <= j < i ==> (#[trigger] self.pieces@[j]).0 != coord,
            decreases self.pieces@.len() - i,
        {
            if self.pieces[i].0 == coord {
                proof {
                    lemma_entries_map_at(self.pieces@, i as int);
                }
                return Some(i);
            }
            i = i + 1;
        }
        None
    }

    /// Places a piece on a cell, replacing any piece there.
    pub fn place_piece(&mut self, coord: HexCoord, piece: Piece) -> (res: Result<(), BoardError>)
        requires
            old(self).wf(),
        ensures
            final(self).wf(),
            final(self).board_type == old(self).board_type,
            final(self).valid_coords@ == old(self).valid_coords@,
            final(self).cell_colors@ == old(self).cell_colors@,
            res is Err <==> !old(self).has_cell(coord),
            res is Err ==> res == Err::<(), BoardError>(BoardError::InvalidCoordinate) && final(self).cells() == old(self).cells(),
            res is Ok ==> final(self).cells() == old(self).cells().insert(coord, piece),
    {
        if !self.is_valid_coord(coord) {
            return Err(BoardError::InvalidCoordinate);
        }
        match self.find_entry(coord) {
            Some(i) => {
                proof {
                    lemma_entries_map_update(self.pieces@, i as int, piece);
                }
                let ghost before = self.pieces@;
                self.pieces.set(i, (coord, piece));
                assert forall|j: int| 0 <= j < self.pieces@.len() implies self.has_cell(
                    #[trigger] self.pieces@[j].0,
                ) by {
                    if j != i {
                        assert(self.pieces@[j] == before[j]);
                    }
                }
            },
            None => {
                proof {
                    lemma_entries_map_push(self.pieces@, coord, piece);
                }
                let ghost before = self.pieces@;
                self.pieces.push((coord, piece));
                assert forall|j: int| 0 <= j < self.pieces@.len() implies self.has_cell(
                    #[trigger] self.pieces@[j].0,
                ) by {
                    if j < before.len() {
                        assert(self.pieces@[j] == before[j]);
                    }
                }
            },
        }
        proof {
            lemma_wf_frame(&*old(self), &*self);
        }
        Ok(())
    }

    /// Removes and returns the piece on a cell, if any.
    pub fn remove_piece(&mut self, coord: HexCoord) -> (res: Option<Piece>)
        requires
            old(self).wf(),
        ensures
            final(self).wf(),
            final(self).board_type == old(self).board_type,
            final(self).valid_coords@ == old(self).valid_coords@,
            final(self).cell_colors@ == old(self).cell_colors@,
            res == (if old(self).cells().contains_key(coord) { Some(old(self).cells()[coord]) } else { None::<Piece> }),
            final(self).cells() == old(self).cells().remove(coord),
    {
        match self.find_entry(coord) {
            Some(i) => {
                proof {
                    lemma_entries_map_remove(self.pieces@, i as int);
                }
                let ghost before = self.pieces@;
                let e = self.pieces.remove(i);
                assert forall|j: int| 0 <= j < self.pieces@.len() implies self.has_cell(
                    #[trigger] self.pieces@[j].0,
                ) by {
                    if j < i {
                        assert(self.pieces@[j] == before[j]);
                    } else {
                        assert(self.pieces@[j] == before[j + 1]);
                    }
                }
                proof {
                    lemma_wf_frame(&*old(self), &*self);
                }
                Some(e.1)
            },
            None => {
                assert(self.cells().remove(coord) =~= self.cells());
                None
            },
        }
    }

    /// The piece on a cell, if any.
    pub fn get_piece(&self, coord: HexCoord) -> (res: Option<&Piece>)
        requires
            self.wf(),
        ensures
            res is Some <==> self.cells().contains_key(coord),
            res is Some ==> *res.unwrap() == self.cells()[coord],
    {
        match self.find_entry(coord) {
            Some(i) => Some(&self.pieces[i].1),
            None => None,
        }
    }

    /// Whether a piece stands on the cell.
    pub fn is_occupied(&self, coord: HexCoord) -> (b: bool)
        requires
            self.wf(),
        ensures
            b == self.cells().contains_key(coord),
    {
        self.find_entry(coord).is_some()
    }

    /// Whether the coordinate is a cell of this board.
    pub fn is_valid_coord(&self, coord: HexCoord) -> (b: bool)
        requires
            self.wf(),
        ensures
            b == self.has_cell(coord),
            b == self.valid_coords@.contains(coord),
    {
        let b = crate::coords::shape_contains(self.board_type, coord.q as i64, coord.r as i64);
        assert(self.valid_coords@.contains(coord) <==> self.has_cell(coord));
        b
    }

    /// The entries of the pieces of one colour, in board order.
    pub fn get_pieces_by_color(&self, color: Color) -> (v: Vec<(HexCoord, Piece)>)
        requires
            self.wf(),
        ensures
            v@ == self.pieces@.filter(|e: (HexCoord, Piece)| e.1.color == color),
    {
        let ghost pred = |e: (HexCoord, Piece)| e.1.color == color;
        let mut v: Vec<(HexCoord, Piece)> = Vec::new();
        let mut i: usize = 0;
        while i < self.pieces.len()
            invariant
                i <= self.pieces@.len(),
                pred == (|e: (HexCoord, Piece)| e.1.color == color),
                v@ == self.pieces@.take(i as int).filter(pred),
            decreases self.pieces@.len() - i,
        {
            let e = self.pieces[i];
            let ghost prefix = self.pieces@.take(i as int);
            proof {
                assert(self.pieces@.take(i + 1) =~= prefix.push(e));
                prefix.lemma_filter_push(e, pred);
            }
            if e.1.color == color {
                v.push(e);
            }
            i = i + 1;
        }
        assert(self.pieces@.take(i as int) == self.pieces@);
        v
    }

    /// The cell of a King of the given colour, if there is one.
    pub fn get_king(&self, color: Color) -> (k: Option<HexCoord>)
        requires
            self.wf(),
        ensures
            k is None <==> !exists|c: HexCoord| #[trigger] self.cells().contains_key(c) && self.cells()[c]
                == king_of(color),
            k is Some ==> self.cells().contains_key(k.unwrap()) && self.cells()[k.unwrap()] == king_of(color),
    {
        let mut i: usize = 0;
        while i < self.pieces.len()
            invariant
                self.wf(),
                i <= self.pieces@.len(),
                forall|j: int| 0 <= j < i ==> (#[trigger] self.pieces@[j]).1 != king_of(color),
            decreases self.pieces@.len() - i,
        {
            let e = self.pieces[i];
            if e.1.color == color && e.1.piece_type == PieceType::King {
                proof {
                    lemma_entries_map_at(self.pieces@, i as int);
                }
                return Some(e.0);
            }
            i = i + 1;
        }
        assert forall|c: HexCoord| #[trigger] self.cells().contains_key(c) implies self.cells()[c]
            != king_of(color) by {
            let j = choose|j: int| 0 <= j < self.pieces@.len() && (#[trigger] self.pieces@[j]).0 == c;
            lemma_entries_map_at(self.pieces@, j);
        }
        None
    }

    /// Moves the piece on `from` to `to`, returning the piece that stood on `to`, if any.
    pub fn move_piece(&mut self, from: HexCoord, to: HexCoord) -> (res: Result<Option<Piece>, BoardError>)
        requires
            old(self).wf(),
        ensures
            final(self).wf(),
            final(self).board_type == old(self).board_type,
            final(self).valid_coords@ == old(self).valid_coords@,
            final(self).cell_colors@ == old(self).cell_colors@,
            res is Ok <==> move_allowed(old(self).board_type, old(self).cells(), from, to),
            res == Err::<Option<Piece>, BoardError>(BoardError::InvalidCoordinate) <==> !old(self).has_cell(from) || !old(self).has_cell(to),
            res == Err::<Option<Piece>, BoardError>(BoardError::NoPieceAtCoordinate) <==> old(self).has_cell(from) && old(self).has_cell(to) && !old(self).cells().contains_key(from),
            res is Err ==> final(self).cells() == old(self).cells(),
            res is Ok ==> final(self).cells() == moved(old(self).cells(), from, to),
            res is Ok ==> res.unwrap() == (if from != to && old(self).cells().contains_key(to) { Some(old(self).cells()[to]) } else { None::<Piece> }),
    {
        if !self.is_valid_coord(from) || !self.is_valid_coord(to) {
            return Err(BoardError::InvalidCoordinate);
        }
        let piece = match self.remove_piece(from) {
            Some(p) => p,
            None => {
                return Err(BoardError::NoPieceAtCoordinate);
            },
        };
        let captured = self.remove_piece(to);
        let placed = self.place_piece(to, piece);
        assert(placed is Ok);
        assert(self.cells() =~= moved(old(self).cells(), from, to));
        Ok(captured)
    }

    /// A copy of this board, entry for entry.
    pub fn duplicate(&self) -> (b: Board)
        ensures
            b.board_type == self.board_type,
            b.pieces@ == self.pieces@,
            b.valid_coords@ == self.valid_coords@,
            b.cell_colors@ == self.cell_colors@,
    {
        Board {
            board_type: self.board_type,
            pieces: copy_vec(&self.pieces),
            valid_coords: copy_vec(&self.valid_coords),
            cell_colors: copy_vec(&self.cell_colors),
        }
    }

    /// A copy of this board with a move applied; this board is left as it is.
    pub fn with_move(&self, from: HexCoord, to: HexCoord) -> (res: Result<Board, BoardError>)
        requires
            self.wf(),
        ensures
            res is Ok <==> move_allowed(self.board_type, self.cells(), from, to),
            res == Err::<Board, BoardError>(BoardError::InvalidCoordinate) <==> !self.has_cell(from) || !self.has_cell(to),
            res == Err::<Board, BoardError>(BoardError::NoPieceAtCoordinate) <==> self.has_cell(from) && self.has_cell(to) && !self.cells().contains_key(from),
            res is Ok ==> {
                let b = res.unwrap();
                &&& b.wf()
                &&& b.board_type == self.board_type
                &&& b.valid_coords@ == self.valid_coords@
                &&& b.cell_colors@ == self.cell_colors@
                &&& b.cells() == moved(self.cells(), from, to)
            },
    {
        let mut new_board = self.duplicate();
        proof {
            lemma_wf_frame(self, &new_board);
        }
        match new_board.move_piece(from, to) {
            Ok(_) => Ok(new_board),
            Err(e) => Err(e),
        }
    }


    /// The pseudo-legal destinations of the piece on `coord`; none for an empty cell.
    pub fn get_valid_moves(&self, coord: HexCoord) -> (v: Vec<HexCoord>)
        requires
            self.wf(),
        ensures
            v@ == destinations(self.board_type, self.cells(), coord),
            self.cells().contains_key(coord) ==> v@ == piece_moves(
                self.cells()[coord].piece_type,
                coord,
                self.board_type,
                self.cells(),
            ),
    {
        proof {
            if self.cells().contains_key(coord) {
                lemma_destinations_are_piece_moves(self.board_type, self.cells(), coord);
            }
        }
        let piece = match self.get_piece(coord) {
            Some(p) => *p,
            None => {
                return Vec::new();
            },
        };
        let possible = piece.piece_type.get_moves(coord, self);
        let ghost pred = lands_ok(self.board_type, self.cells(), coord);
        let mut moves: Vec<HexCoord> = Vec::new();
        let mut i: usize = 0;
        while i < possible.len()
            invariant
                self.wf(),
                i <= possible@.len(),
                pred == lands_ok(self.board_type, self.cells(), coord),
                moves@ == possible@.take(i as int).filter(pred),
            decreases possible@.len() - i,
        {
            let target = possible[i];
            let ghost prefix = possible@.take(i as int);
            proof {
                assert(possible@.take(i + 1) =~= prefix.push(target));
                prefix.lemma_filter_push(target, pred);
            }
            if self.is_valid_move(coord, target) {
                moves.push(target);
            }
            i = i + 1;
        }
        assert(possible@.take(i as int) =~= possible@);
        moves
    }

    /// Whether `to` is on the board and holds no piece of the colour of the piece on `from`.
    fn is_valid_move(&self, from: HexCoord, to: HexCoord) -> (b: bool)
        requires
            self.wf(),
        ensures
            b == (self.has_cell(to) && !is_friendly(self.cells(), from, to)),
    {
        if !self.is_valid_coord(to) {
            return false;
        }
        if let Some(target_piece) = self.get_piece(to) {
            if let Some(from_piece) = self.get_piece(from) {
                if target_piece.color == from_piece.color {
                    return false;
                }
            }
        }
        true
    }

}

} // verus!
