//! The game state machine: turns, check-safe move application, undo, and the
//! check / checkmate / stalemate status.
use std::collections::VecDeque;
use vstd::prelude::*;
use vstd::string::StringExecFns;
use crate::board::{destinations, lemma_destination_on_board, lemma_entries_map_at, move_allowed, moved, Board, BoardError};
use crate::coords::{BoardType, HexCoord};
use crate::pieces::{king_of, opponent, piece_moves, Color, Piece};
use crate::variants::VariantConfig;

verus! {

/// The status of a game.
#[derive(Clone, Copy, PartialEq, Eq, Structural, Debug)]
pub enum GameState {
    Playing,
    /// The colour that is in check.
    Check(Color),
    /// The colour that won by checkmate.
    Checkmate(Color),
    Stalemate,
    /// Reserved for draw rules; nothing in the engine enters it.
    Draw,
}

/// A move as recorded in the history.
#[derive(Clone, Copy, PartialEq, Eq, Structural, Debug)]
pub struct Move {
    pub from: HexCoord,
    pub to: HexCoord,
    /// The piece that moved.
    pub piece: Piece,
    /// The piece that stood on `to` before the move, if any.
    pub captured_piece: Option<Piece>,
    pub move_number: u32,
}

/// Errors of game operations.
#[derive(Clone, Copy, PartialEq, Eq, Structural, Debug)]
pub enum GameError {
    NoPieceAtCoordinate,
    NotYourPiece,
    InvalidMove,
    MoveWouldPutKingInCheck,
    NoMovesToUndo,
    BoardError(BoardError),
}

/// The description of each game error; a board error keeps its own.
pub open spec fn game_error_text(e: GameError) -> &'static str {
    match e {
        GameError::NoPieceAtCoordinate => "No piece at the specified coordinate",
        GameError::NotYourPiece => "Not your piece",
        GameError::InvalidMove => "Invalid move",
        GameError::MoveWouldPutKingInCheck => "Move would put king in check",
        GameError::NoMovesToUndo => "No moves to undo",
        GameError::BoardError(b) => crate::board::board_error_text(b),
    }
}

impl GameError {
    /// A human-readable description of the error.
    pub fn message(&self) -> (m: &'static str)
        ensures
            m@ == game_error_text(*self)@,
    {
        match self {
            GameError::NoPieceAtCoordinate => "No piece at the specified coordinate",
            GameError::NotYourPiece => "Not your piece",
            GameError::InvalidMove => "Invalid move",
            GameError::MoveWouldPutKingInCheck => "Move would put king in check",
            GameError::NoMovesToUndo => "No moves to undo",
            GameError::BoardError(e) => e.message(),
        }
    }
}

/// Whether a King of `color` stands on a cell that some piece of the other colour has
/// among its pseudo-legal destinations.
pub open spec fn in_check(shape: BoardType, cells: Map<HexCoord, Piece>, color: Color) -> bool {
    exists|a: HexCoord, k: HexCoord|
        cells.contains_key(a) && cells[a].color != color && cells.contains_key(k) && cells[k]
            == king_of(color) && #[trigger] piece_moves(cells[a].piece_type, a, shape, cells).contains(k)
}

/// Whether `color` has a move among its pieces' destinations after which it is not in check.
pub open spec fn has_safe_move(shape: BoardType, cells: Map<HexCoord, Piece>, color: Color) -> bool {
    exists|c: HexCoord, t: HexCoord|
        cells.contains_key(c) && cells[c].color == color && #[trigger] destinations(shape, cells, c).contains(t)
            && !in_check(shape, moved(cells, c, t), color)
}

/// The status of a position with `color` to move.
pub open spec fn status(shape: BoardType, cells: Map<HexCoord, Piece>, color: Color) -> GameState {
    if in_check(shape, cells, color) && !has_safe_move(shape, cells, color) {
        GameState::Checkmate(opponent(color))
    } else if !in_check(shape, cells, color) && !has_safe_move(shape, cells, color) {
        GameState::Stalemate
    } else if in_check(shape, cells, color) {
        GameState::Check(color)
    } else {
        GameState::Playing
    }
}

/// The pieces after undoing the recorded move: the mover goes back to `from` and the
/// captured piece, if any, returns to `to`.
pub open spec fn unmoved(cells: Map<HexCoord, Piece>, m: Move) -> Map<HexCoord, Piece> {
    let back = moved(cells, m.to, m.from);
    match m.captured_piece {
        Some(p) => back.insert(m.to, p),
        None => back,
    }
}

/// Undoing a move right after it was made restores the board exactly, a captured piece
/// included, together with the side to move, the history and the status.
pub proof fn lemma_undo_after_move_restores(g0: Game, g1: Game, g2: Game, from: HexCoord, to: HexCoord)
    requires
        g0.wf(),
        Game::move_verdict(g0, from, to) is Ok,
        Game::move_made(g0, g1, from, to),
        Game::move_undone(g1, g2),
    ensures
        g2.board.same_position(&g0.board),
        g2.current_player == g0.current_player,
        g2.move_history@ == g0.move_history@,
        g2.game_state == status(g0.shape(), g0.cells(), g0.current_player),
{
    lemma_destination_on_board(g0.shape(), g0.cells(), from, to);
    let cells = g0.cells();
    assert(g1.move_history@.last() == g0.record_of(from, to));
    assert(g2.cells() =~= cells);
    assert(g2.move_history@ =~= g0.move_history@);
}

/// How the status is decided: a side in check with no move out of it is checkmated (the
/// other side wins); a side not in check whose every move among its pieces' destinations
/// would leave it in check is stalemated; otherwise it is in check or playing on.
pub proof fn lemma_status_cases(shape: BoardType, cells: Map<HexCoord, Piece>, color: Color)
    ensures
        in_check(shape, cells, color) && !has_safe_move(shape, cells, color) ==> status(shape, cells, color)
            == GameState::Checkmate(opponent(color)),
        (!in_check(shape, cells, color) && forall|c: HexCoord, t: HexCoord|
            cells.contains_key(c) && cells[c].color == color && #[trigger] destinations(shape, cells, c).contains(t)
                ==> in_check(shape, moved(cells, c, t), color)) ==> status(shape, cells, color)
            == GameState::Stalemate,
        in_check(shape, cells, color) && has_safe_move(shape, cells, color) ==> status(shape, cells, color)
            == GameState::Check(color),
        !in_check(shape, cells, color) && has_safe_move(shape, cells, color) ==> status(shape, cells, color)
            == GameState::Playing,
{
}

/// Whether `c` is among the coordinates.
fn contains_coord(v: &Vec<HexCoord>, c: HexCoord) -> (b: bool)
    ensures
        b == v@.contains(c),
{
    let mut i: usize = 0;
    while i < v.len()
        invariant
            i <= v@.len(),
            forall|j: int| 0 <= j < i ==> v@[j] != c,
        decreases v@.len() - i,
    {
        if v[i] == c {
            assert(v@[i as int] == c);
            return true;
        }
        i = i + 1;
    }
    false
}

/// A game: the board, the side to move, the move history and the status.
#[derive(Clone, Debug)]
pub struct Game {
    pub board: Board,
    pub current_player: Color,
    pub move_history: VecDeque<Move>,
    pub game_state: GameState,
    pub variant: VariantConfig,
}

impl Game {
    /// The game is well formed: its board is.
    pub open spec fn wf(&self) -> bool {
        self.board.wf()
    }

    /// The shape of the board.
    pub open spec fn shape(&self) -> BoardType {
        self.board.board_type
    }

    /// The pieces on the board, by cell.
    pub open spec fn cells(&self) -> Map<HexCoord, Piece> {
        self.board.cells()
    }

    /// The record that `make_move(from, to)` appends in this game.
    pub open spec fn record_of(&self, from: HexCoord, to: HexCoord) -> Move {
        Move {
            from,
            to,
            piece: self.cells()[from],
            captured_piece: if self.cells().contains_key(to) {
                Some(self.cells()[to])
            } else {
                None
            },
            move_number: (self.move_history@.len() / 2 + 1) as u32,
        }
    }

    /// `after` is `before` with the move from `from` to `to` made: the piece moved,
    /// the move recorded, the turn passed, and the status recomputed.
    pub open spec fn move_made(before: Game, after: Game, from: HexCoord, to: HexCoord) -> bool {
        &&& after.wf()
        &&& after.board.board_type == before.board.board_type
        &&& after.board.valid_coords@ == before.board.valid_coords@
        &&& after.board.cell_colors@ == before.board.cell_colors@
        &&& after.cells() == moved(before.cells(), from, to)
        &&& after.move_history@ == before.move_history@.push(before.record_of(from, to))
        &&& after.current_player == opponent(before.current_player)
        &&& after.game_state == status(after.shape(), after.cells(), after.current_player)
        &&& after.variant == before.variant
    }

    /// `after` is `before` with its last recorded move taken back.
    pub open spec fn move_undone(before: Game, after: Game) -> bool {
        &&& before.move_history@.len() > 0
        &&& after.wf()
        &&& after.board.board_type == before.board.board_type
        &&& after.board.valid_coords@ == before.board.valid_coords@
        &&& after.board.cell_colors@ == before.board.cell_colors@
        &&& after.cells() == unmoved(before.cells(), before.move_history@.last())
        &&& after.move_history@ == before.move_history@.drop_last()
        &&& after.current_player == opponent(before.current_player)
        &&& after.game_state == status(after.shape(), after.cells(), after.current_player)
        &&& after.variant == before.variant
    }

    /// A new game of the variant: its starting board, White to move, no history.
    pub fn new(variant: VariantConfig) -> (g: Self)
        ensures
            g.wf(),
            g.board.board_type == variant.board_type,
            g.cells() == crate::variants::placed(variant.starting_positions@, variant.board_type),
            g.current_player == Color::White,
            g.move_history@.len() == 0,
            g.game_state == GameState::Playing,
            g.variant == variant,
    {
        let board = variant.create_board();
        Game {
            board,
            current_player: Color::White,
            move_history: VecDeque::new(),
            game_state: GameState::Playing,
            variant,
        }
    }

    /// Whether a King of `color` is attacked on `board`.
    fn is_king_in_check(&self, board: &Board, color: Color) -> (b: bool)
        requires
            board.wf(),
        ensures
            b == in_check(board.board_type, board.cells(), color),
    {
        let ghost shape = board.board_type;
        let ghost cells = board.cells();
        let king = Piece::new(crate::pieces::PieceType::King, color);
        let mut i: usize = 0;
        while i < board.pieces.len()
            invariant
                board.wf(),
                shape == board.board_type,
                cells == board.cells(),
                king == king_of(color),
                i <= board.pieces@.len(),
                forall|j: int, k: HexCoord|
                    0 <= j < i && board.pieces@[j].1.color != color && cells.contains_key(k)
                        && cells[k] == king_of(color) ==> !#[trigger] piece_moves(
                        board.pieces@[j].1.piece_type,
                        board.pieces@[j].0,
                        shape,
                        cells,
                    ).contains(k),
            decreases board.pieces@.len() - i,
        {
            let (coord, piece) = board.pieces[i];
            proof {
                lemma_entries_map_at(board.pieces@, i as int);
            }
            if piece.color != color {
                let moves = piece.piece_type.get_moves(coord, board);
                let mut j: usize = 0;
                while j < moves.len()
                    invariant
                        board.wf(),
                        shape == board.board_type,
                        cells == board.cells(),
                        king == king_of(color),
                        j <= moves@.len(),
                        i < board.pieces@.len(),
                        board.pieces@[i as int] == (coord, piece),
                        cells.contains_key(coord) && cells[coord] == piece,
                        piece.color != color,
                        moves@ == piece_moves(piece.piece_type, coord, shape, cells),
                        forall|j2: int, k: HexCoord|
                            0 <= j2 < i && board.pieces@[j2].1.color != color && cells.contains_key(k)
                                && cells[k] == king_of(color) ==> !#[trigger] piece_moves(
                                board.pieces@[j2].1.piece_type,
                                board.pieces@[j2].0,
                                shape,
                                cells,
                            ).contains(k),
                        forall|m: int| 0 <= m < j ==> !(cells.contains_key(#[trigger] moves@[m]) && cells[moves@[m]] == king_of(color)),
                    decreases moves@.len() - j,
                {
                    let target = moves[j];
                    match board.get_piece(target) {
                        Some(p) => {
                            if *p == king {
                                assert(moves@[j as int] == target);
                                assert(cells.contains_key(coord) && cells[coord] == piece);
                                assert(piece_moves(cells[coord].piece_type, coord, shape, cells).contains(target));
                                return true;
                            }
                        },
                        None => {},
                    }
                    j = j + 1;
                }
                assert forall|k: HexCoord| cells.contains_key(k) && cells[k] == king_of(color) implies !piece_moves(
                    piece.piece_type,
                    coord,
                    shape,
                    cells,
                ).contains(k) by {
                    if piece_moves(piece.piece_type, coord, shape, cells).contains(k) {
                        let m = choose|m: int| 0 <= m < moves@.len() && moves@[m] == k;
                        assert(!(cells.contains_key(moves@[m]) && cells[moves@[m]] == king_of(color)));
                    }
                }
            }
            i = i + 1;
        }
        assert forall|a: HexCoord, k: HexCoord|
            cells.contains_key(a) && cells[a].color != color && cells.contains_key(k) && cells[k]
                == king_of(color) implies !#[trigger] piece_moves(cells[a].piece_type, a, shape, cells).contains(k) by {
            let j = choose|j: int| 0 <= j < board.pieces@.len() && (#[trigger] board.pieces@[j]).0 == a;
            lemma_entries_map_at(board.pieces@, j);
        }
        false
    }

    /// Whether `color` has a move on the current board that leaves it out of check.
    fn has_safe_move_for(&self, color: Color) -> (b: bool)
        requires
            self.wf(),
        ensures
            b == has_safe_move(self.shape(), self.cells(), color),
    {
        let ghost shape = self.shape();
        let ghost cells = self.cells();
        let mut i: usize = 0;
        while i < self.board.pieces.len()
            invariant
                self.wf(),
                shape == self.shape(),
                cells == self.cells(),
                i <= self.board.pieces@.len(),
                forall|j: int, t: HexCoord|
                    0 <= j < i && self.board.pieces@[j].1.color == color && #[trigger] destinations(
                        shape,
                        cells,
                        self.board.pieces@[j].0,
                    ).contains(t) ==> in_check(shape, moved(cells, self.board.pieces@[j].0, t), color),
            decreases self.board.pieces@.len() - i,
        {
            let (coord, piece) = self.board.pieces[i];
            proof {
                lemma_entries_map_at(self.board.pieces@, i as int);
            }
            if piece.color == color {
                let targets = self.board.get_valid_moves(coord);
                let mut j: usize = 0;
                while j < targets.len()
                    invariant
                        self.wf(),
                        shape == self.shape(),
                        cells == self.cells(),
                        i < self.board.pieces@.len(),
                        self.board.pieces@[i as int] == (coord, piece),
                        cells.contains_key(coord) && cells[coord] == piece,
                        piece.color == color,
                        targets@ == destinations(shape, cells, coord),
                        j <= targets@.len(),
                        forall|m: int| 0 <= m < j ==> in_check(shape, moved(cells, coord, #[trigger] targets@[m]), color),
                        forall|j2: int, t: HexCoord|
                            0 <= j2 < i && self.board.pieces@[j2].1.color == color && #[trigger] destinations(
                                shape,
                                cells,
                                self.board.pieces@[j2].0,
                            ).contains(t) ==> in_check(shape, moved(cells, self.board.pieces@[j2].0, t), color),
                    decreases targets@.len() - j,
                {
                    let target = targets[j];
                    proof {
                        assert(targets@[j as int] == target);
                        lemma_destination_on_board(shape, cells, coord, target);
                        assert(self.board.has_cell(self.board.pieces@[i as int].0));
                    }
                    match self.board.with_move(coord, target) {
                        Ok(test_board) => {
                            if !self.is_king_in_check(&test_board, color) {
                                assert(destinations(shape, cells, coord).contains(target));
                                assert(!in_check(shape, moved(cells, coord, target), color));
                                return true;
                            }
                        },
                        Err(_) => {},
                    }
                    j = j + 1;
                }
                assert forall|t: HexCoord| #[trigger] destinations(shape, cells, coord).contains(t) implies in_check(
                    shape,
                    moved(cells, coord, t),
                    color,
                ) by {
                    let m = choose|m: int| 0 <= m < targets@.len() && targets@[m] == t;
                    assert(in_check(shape, moved(cells, coord, targets@[m]), color));
                }
            }
            i = i + 1;
        }
        assert forall|c: HexCoord, t: HexCoord|
            cells.contains_key(c) && cells[c].color == color && #[trigger] destinations(shape, cells, c).contains(t)
                implies in_check(shape, moved(cells, c, t), color) by {
            let j = choose|j: int| 0 <= j < self.board.pieces@.len() && (#[trigger] self.board.pieces@[j]).0 == c;
            lemma_entries_map_at(self.board.pieces@, j);
        }
        false
    }

    /// Whether `color` is checkmated: in check with no move out of it.
    fn is_checkmate(&self, color: Color) -> (b: bool)
        requires
            self.wf(),
        ensures
            b == (in_check(self.shape(), self.cells(), color) && !has_safe_move(self.shape(), self.cells(), color)),
    {
        if !self.is_king_in_check(&self.board, color) {
            return false;
        }
        !self.has_safe_move_for(color)
    }

    /// Whether `color` is stalemated: not in check, with no move that keeps it so.
    fn is_stalemate(&self, color: Color) -> (b: bool)
        requires
            self.wf(),
        ensures
            b == (!in_check(self.shape(), self.cells(), color) && !has_safe_move(self.shape(), self.cells(), color)),
    {
        if self.is_king_in_check(&self.board, color) {
            return false;
        }
        !self.has_safe_move_for(color)
    }

    /// Recomputes the status for the side to move.
    fn update_game_state(&mut self)
        requires
            old(self).wf(),
        ensures
            final(self).board == old(self).board,
            final(self).current_player == old(self).current_player,
            final(self).move_history == old(self).move_history,
            final(self).variant == old(self).variant,
            final(self).game_state == status(old(self).shape(), old(self).cells(), old(self).current_player),
    {
        let player = self.current_player;
        if self.is_checkmate(player) {
            self.game_state = GameState::Checkmate(player.opponent());
        } else if self.is_stalemate(player) {
            self.game_state = GameState::Stalemate;
        } else if self.is_king_in_check(&self.board, player) {
            self.game_state = GameState::Check(player);
        } else {
            self.game_state = GameState::Playing;
        }
    }

    /// Checks a move of the side to move, in the order: a piece on `from`, of the side
    /// to move, `to` among its destinations, and the mover not in check afterwards.
    pub fn validate_move(&self, from: HexCoord, to: HexCoord) -> (res: Result<(), GameError>)
        requires
            self.wf(),
        ensures
            res == Game::move_verdict(*self, from, to),
    {
        let piece = match self.board.get_piece(from) {
            Some(p) => *p,
            None => {
                return Err(GameError::NoPieceAtCoordinate);
            },
        };
        if piece.color != self.current_player {
            return Err(GameError::NotYourPiece);
        }
        let valid_moves = self.board.get_valid_moves(from);
        if !contains_coord(&valid_moves, to) {
            return Err(GameError::InvalidMove);
        }
        proof {
            lemma_destination_on_board(self.shape(), self.cells(), from, to);
        }
        let test_board = match self.board.with_move(from, to) {
            Ok(b) => b,
            Err(e) => {
                return Err(GameError::BoardError(e));
            },
        };
        if self.is_king_in_check(&test_board, self.current_player) {
            return Err(GameError::MoveWouldPutKingInCheck);
        }
        Ok(())
    }

    /// The outcome of checking the move from `from` to `to` in this game.
    pub open spec fn move_verdict(g: Game, from: HexCoord, to: HexCoord) -> Result<(), GameError> {
        if !g.cells().contains_key(from) {
            Err(GameError::NoPieceAtCoordinate)
        } else if g.cells()[from].color != g.current_player {
            Err(GameError::NotYourPiece)
        } else if !destinations(g.shape(), g.cells(), from).contains(to) {
            Err(GameError::InvalidMove)
        } else if in_check(g.shape(), moved(g.cells(), from, to), g.current_player) {
            Err(GameError::MoveWouldPutKingInCheck)
        } else {
            Ok(())
        }
    }

    /// Makes a move for the side to move. On success the piece moves (capturing what stood
    /// on `to`), the move is recorded, the turn passes and the status is recomputed; on
    /// failure the game is unchanged.
    pub fn make_move(&mut self, from: HexCoord, to: HexCoord) -> (res: Result<(), GameError>)
        requires
            old(self).wf(),
            old(self).move_history@.len() / 2 < u32::MAX,
        ensures
            final(self).wf(),
            res == Game::move_verdict(*old(self), from, to),
            res is Err ==> *final(self) == *old(self),
            res is Ok ==> Game::move_made(*old(self), *final(self), from, to),
    {
        self.validate_move(from, to)?;
        proof {
            lemma_destination_on_board(self.shape(), self.cells(), from, to);
        }
        let piece = match self.board.get_piece(from) {
            Some(p) => *p,
            None => {
                return Err(GameError::NoPieceAtCoordinate);
            },
        };
        let captured_piece = match self.board.get_piece(to) {
            Some(p) => Some(*p),
            None => None,
        };
        let ghost before = *self;
        match self.board.move_piece(from, to) {
            Ok(_) => {},
            Err(e) => {
                return Err(GameError::BoardError(e));
            },
        }
        let move_number = (self.move_history.len() / 2) as u32 + 1;
        let game_move = Move { from, to, piece, captured_piece, move_number };
        assert(game_move == before.record_of(from, to));
        self.move_history.push_back(game_move);
        self.current_player = self.current_player.opponent();
        self.update_game_state();
        Ok(())
    }

    /// Takes back the last recorded move: the mover returns to `from`, a captured piece
    /// returns to `to`, the turn passes back and the status is recomputed. Fails, leaving
    /// the game unchanged, when there is no move to undo or the board no longer allows it.
    pub fn undo_move(&mut self) -> (res: Result<(), GameError>)
        requires
            old(self).wf(),
        ensures
            final(self).wf(),
            res == Err::<(), GameError>(GameError::NoMovesToUndo) <==> old(self).move_history@.len() == 0,
            res is Ok <==> old(self).move_history@.len() > 0 && move_allowed(
                old(self).shape(),
                old(self).cells(),
                old(self).move_history@.last().to,
                old(self).move_history@.last().from,
            ),
            res is Err ==> *final(self) == *old(self),
            res is Ok ==> Game::move_undone(*old(self), *final(self)),
    {
        let n = self.move_history.len();
        if n == 0 {
            return Err(GameError::NoMovesToUndo);
        }
        let last_move = self.move_history[n - 1];
        let mut board = match self.board.with_move(last_move.to, last_move.from) {
            Ok(b) => b,
            Err(e) => {
                return Err(GameError::BoardError(e));
            },
        };
        if let Some(captured) = last_move.captured_piece {
            let _ = board.place_piece(last_move.to, captured);
        }
        self.board = board;
        let _ = self.move_history.pop_back();
        self.current_player = self.current_player.opponent();
        self.update_game_state();
        assert(self.move_history@ =~= old(self).move_history@.drop_last());
        Ok(())
    }


    /// For each piece of the side to move that has destinations, its cell and those
    /// destinations, in board order.
    pub fn get_valid_moves(&self) -> (v: Vec<(HexCoord, Vec<HexCoord>)>)
        requires
            self.wf(),
        ensures
            forall|k: int|
                0 <= k < v@.len() ==> {
                    let c = (#[trigger] v@[k]).0;
                    &&& self.cells().contains_key(c)
                    &&& self.cells()[c].color == self.current_player
                    &&& v@[k].1@ == destinations(self.shape(), self.cells(), c)
                    &&& v@[k].1@.len() > 0
                },
            forall|c: HexCoord|
                #[trigger] self.cells().contains_key(c) && self.cells()[c].color == self.current_player
                    && destinations(self.shape(), self.cells(), c).len() > 0 ==> exists|k: int|
                    0 <= k < v@.len() && (#[trigger] v@[k]).0 == c,
            forall|a: int, b: int| 0 <= a < v@.len() && 0 <= b < v@.len() && a != b ==> (#[trigger] v@[a]).0 != (#[trigger] v@[b]).0,
    {
        let ghost shape = self.shape();
        let ghost cells = self.cells();
        let mut moves: Vec<(HexCoord, Vec<HexCoord>)> = Vec::new();
        let mut i: usize = 0;
        while i < self.board.pieces.len()
            invariant
                self.wf(),
                shape == self.shape(),
                cells == self.cells(),
                i <= self.board.pieces@.len(),
                forall|k: int|
                    0 <= k < moves@.len() ==> {
                        let c = (#[trigger] moves@[k]).0;
                        &&& cells.contains_key(c)
                        &&& cells[c].color == self.current_player
                        &&& moves@[k].1@ == destinations(shape, cells, c)
                        &&& moves@[k].1@.len() > 0
                    },
                forall|k: int| 0 <= k < moves@.len() ==> exists|j: int| 0 <= j < i && (#[trigger] moves@[k]).0 == self.board.pieces@[j].0,
                forall|j: int|
                    0 <= j < i && self.board.pieces@[j].1.color == self.current_player && destinations(
                        shape,
                        cells,
                        self.board.pieces@[j].0,
                    ).len() > 0 ==> exists|k: int| 0 <= k < moves@.len() && (#[trigger] moves@[k]).0 == self.board.pieces@[j].0,
                forall|a: int, b: int| 0 <= a < moves@.len() && 0 <= b < moves@.len() && a != b ==> (#[trigger] moves@[a]).0 != (#[trigger] moves@[b]).0,
            decreases self.board.pieces@.len() - i,
        {
            let (coord, piece) = self.board.pieces[i];
            proof {
                lemma_entries_map_at(self.board.pieces@, i as int);
            }
            let ghost before = moves@;
            if piece.color == self.current_player {
                let piece_moves = self.board.get_valid_moves(coord);
                if piece_moves.len() > 0 {
                    proof {
                        assert forall|k: int| 0 <= k < before.len() implies (#[trigger] before[k]).0 != coord by {
                            let j = choose|j: int| 0 <= j < i && before[k].0 == self.board.pieces@[j].0;
                            assert(self.board.pieces@[j].0 == self.board.pieces@[i as int].0 ==> j == i as int);
                        }
                    }
                    moves.push((coord, piece_moves));
                    proof {
                        assert(moves@[before.len() as int].0 == coord);
                        assert forall|k: int| 0 <= k < moves@.len() implies exists|j: int| 0 <= j < i + 1 && (#[trigger] moves@[k]).0 == self.board.pieces@[j].0 by {
                            if k < before.len() {
                                assert(moves@[k] == before[k]);
                                let j = choose|j: int| 0 <= j < i && before[k].0 == self.board.pieces@[j].0;
                                assert(0 <= j < i + 1 && moves@[k].0 == self.board.pieces@[j].0);
                            } else {
                                assert(moves@[k].0 == self.board.pieces@[i as int].0);
                            }
                        }
                        assert forall|j: int|
                            0 <= j < i + 1 && self.board.pieces@[j].1.color == self.current_player && destinations(
                                shape,
                                cells,
                                self.board.pieces@[j].0,
                            ).len() > 0 implies exists|k: int| 0 <= k < moves@.len() && (#[trigger] moves@[k]).0 == self.board.pieces@[j].0 by {
                            if j < i {
                                let k = choose|k: int| 0 <= k < before.len() && (#[trigger] before[k]).0 == self.board.pieces@[j].0;
                                assert(moves@[k] == before[k]);
                            } else {
                                assert(moves@[before.len() as int].0 == self.board.pieces@[j].0);
                            }
                        }
                    }
                }
            }
            i = i + 1;
        }
        assert forall|c: HexCoord|
            #[trigger] cells.contains_key(c) && cells[c].color == self.current_player
                && destinations(shape, cells, c).len() > 0 implies exists|k: int|
                0 <= k < moves@.len() && (#[trigger] moves@[k]).0 == c by {
            let j = choose|j: int| 0 <= j < self.board.pieces@.len() && (#[trigger] self.board.pieces@[j]).0 == c;
            lemma_entries_map_at(self.board.pieces@, j);
        }
        moves
    }

    /// A description of the result once the game has ended.
    pub fn get_result(&self) -> (r: Option<String>)
        ensures
            r is Some <==> (self.game_state is Checkmate || self.game_state is Stalemate || self.game_state is Draw),
            self.game_state == GameState::Checkmate(Color::White) ==> r.unwrap()@ == "White wins by checkmate"@,
            self.game_state == GameState::Checkmate(Color::Black) ==> r.unwrap()@ == "Black wins by checkmate"@,
            self.game_state == GameState::Stalemate ==> r.unwrap()@ == "Draw by stalemate"@,
            self.game_state == GameState::Draw ==> r.unwrap()@ == "Draw"@,
    {
        match self.game_state {
            GameState::Checkmate(winner) => match winner {
                Color::White => Some(String::from_str("White wins by checkmate")),
                Color::Black => Some(String::from_str("Black wins by checkmate")),
            },
            GameState::Stalemate => Some(String::from_str("Draw by stalemate")),
            GameState::Draw => Some(String::from_str("Draw")),
            _ => None,
        }
    }

}

} // verus!
