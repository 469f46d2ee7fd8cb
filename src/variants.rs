//! Named starting configurations of the variants, and building their boards.
use vstd::prelude::*;
use vstd::string::StringExecFns;
use crate::coords::file_rank_to_axial;
use crate::board::{entries_map, has_key, keys_unique, lemma_entries_map_push, lemma_entries_map_update, Board};
use crate::coords::{glinski_cell, in_hexagon_at, shape_has, BoardType, HexCoord};
use crate::pieces::{cell_at, Color, Piece, PieceType};

verus! {

/// How pawns move in a variant.
#[derive(Clone, Debug)]
pub enum PawnMovement {
    /// Standard pawn movement.
    Standard,
    /// Pawns may move in three directions.
    ThreeDirection,
    /// Custom pawn directions.
    Custom(Vec<HexCoord>),
}

/// Special rules a variant declares. They are advisory: move generation does not
/// consult them.
#[derive(Clone, Debug)]
pub enum SpecialRule {
    EnPassant,
    Castling,
    Custom(String),
}

/// A named variant: its board shape, starting placements (applied in order when the
/// board is built; the catalogued variants hold at most one per coordinate), pawn
/// movement and special rules.
#[derive(Clone, Debug)]
pub struct VariantConfig {
    pub name: String,
    pub description: String,
    pub board_type: BoardType,
    pub starting_positions: Vec<(HexCoord, Piece)>,
    pub pawn_movement: PawnMovement,
    pub special_rules: Vec<SpecialRule>,
}

/// The pieces that placing the entries in order on a board of the shape leaves there:
/// each entry on a cell of the shape is placed, replacing an earlier one; others are skipped.
pub open spec fn placed(s: Seq<(HexCoord, Piece)>, shape: BoardType) -> Map<HexCoord, Piece>
    decreases s.len(),
{
    if s.len() == 0 {
        Map::empty()
    } else {
        let rest = placed(s.drop_last(), shape);
        let e = s.last();
        if shape_has(shape, e.0.q as int, e.0.r as int) {
            rest.insert(e.0, e.1)
        } else {
            rest
        }
    }
}

/// Sets the piece of a starting position, replacing any entry for the same coordinate.
fn set_start(v: &mut Vec<(HexCoord, Piece)>, c: HexCoord, p: Piece)
    requires
        keys_unique(old(v)@),
    ensures
        keys_unique(final(v)@),
        entries_map(final(v)@) == entries_map(old(v)@).insert(c, p),
{
    let mut i: usize = 0;
    while i < v.len()
        invariant
            i <= v@.len(),
            v@ == old(v)@,
            keys_unique(v@),
            forall|j: int| 0 <= j < i ==> (#[trigger] v@[j]).0 != c,
        decreases v@.len() - i,
    {
        if v[i].0 == c {
            proof {
                lemma_entries_map_update(v@, i as int, p);
            }
            v.set(i, (c, p));
            return;
        }
        i = i + 1;
    }
    proof {
        lemma_entries_map_push(v@, c, p);
    }
    v.push((c, p));
}


/// How many of the first `n` entries hold the piece `p`.
pub open spec fn count_in_prefix(s: Seq<(HexCoord, Piece)>, p: Piece, n: int) -> nat
    decreases n,
{
    if n <= 0 {
        0
    } else {
        count_in_prefix(s, p, n - 1) + if s[n - 1].1 == p {
            1nat
        } else {
            0nat
        }
    }
}

/// How many entries hold the piece `p`.
pub open spec fn count_of(s: Seq<(HexCoord, Piece)>, p: Piece) -> nat {
    count_in_prefix(s, p, s.len() as int)
}

/// The number of pieces of each kind that a colour has, in the order King, Queen, Rook,
/// Bishop, Knight, Pawn, Chancellor, Archbishop.
pub open spec fn army(s: Seq<(HexCoord, Piece)>, color: Color) -> Seq<nat> {
    seq![
        count_of(s, Piece { piece_type: PieceType::King, color }),
        count_of(s, Piece { piece_type: PieceType::Queen, color }),
        count_of(s, Piece { piece_type: PieceType::Rook, color }),
        count_of(s, Piece { piece_type: PieceType::Bishop, color }),
        count_of(s, Piece { piece_type: PieceType::Knight, color }),
        count_of(s, Piece { piece_type: PieceType::Pawn, color }),
        count_of(s, Piece { piece_type: PieceType::Chancellor, color }),
        count_of(s, Piece { piece_type: PieceType::Archbishop, color }),
    ]
}

/// Every entry stands in the hexagon of the given radius.
pub open spec fn all_on_board(s: Seq<(HexCoord, Piece)>, radius: int) -> bool {
    forall|i: int| 0 <= i < s.len() ==> in_hexagon_at((#[trigger] s[i]).0.q as int, s[i].0.r as int, radius)
}

/// The point reflection of a cell through the centre.
pub open spec fn mirror(c: HexCoord) -> HexCoord {
    cell_at(-c.q, -c.r)
}

/// The first half of the entries are White's; the second half mirrors them through the
/// centre, entry for entry, with the same kinds for Black.
pub open spec fn mirrored_halves(s: Seq<(HexCoord, Piece)>) -> bool {
    &&& s.len() % 2 == 0
    &&& forall|i: int| 0 <= i < s.len() / 2 ==> mirrors(#[trigger] s[i], s[i + s.len() / 2])
}

/// `b` is the Black mirror image of the White entry `a`.
pub open spec fn mirrors(a: (HexCoord, Piece), b: (HexCoord, Piece)) -> bool {
    &&& a.1.color == Color::White
    &&& b.1.color == Color::Black
    &&& b.1.piece_type == a.1.piece_type
    &&& b.0 == mirror(a.0)
}

spec fn on_board_prefix(s: Seq<(HexCoord, Piece)>, radius: int, n: int) -> bool
    decreases n,
{
    n <= 0 || (on_board_prefix(s, radius, n - 1) && in_hexagon_at(s[n - 1].0.q as int, s[n - 1].0.r as int, radius))
}

spec fn key_absent_in_prefix(s: Seq<(HexCoord, Piece)>, c: HexCoord, n: int) -> bool
    decreases n,
{
    n <= 0 || (key_absent_in_prefix(s, c, n - 1) && s[n - 1].0 != c)
}

spec fn distinct_prefix(s: Seq<(HexCoord, Piece)>, n: int) -> bool
    decreases n,
{
    n <= 0 || (distinct_prefix(s, n - 1) && key_absent_in_prefix(s, s[n - 1].0, n - 1))
}

spec fn mirrored_prefix(s: Seq<(HexCoord, Piece)>, h: int, n: int) -> bool
    decreases n,
{
    n <= 0 || (mirrored_prefix(s, h, n - 1) && mirrors(s[n - 1], s[n - 1 + h]))
}

proof fn lemma_on_board_prefix(s: Seq<(HexCoord, Piece)>, radius: int, n: int)
    requires
        0 <= n <= s.len(),
        on_board_prefix(s, radius, n),
    ensures
        forall|i: int| 0 <= i < n ==> in_hexagon_at((#[trigger] s[i]).0.q as int, s[i].0.r as int, radius),
    decreases n,
{
    if n > 0 {
        lemma_on_board_prefix(s, radius, n - 1);
    }
}

proof fn lemma_key_absent_in_prefix(s: Seq<(HexCoord, Piece)>, c: HexCoord, n: int)
    requires
        0 <= n <= s.len(),
        key_absent_in_prefix(s, c, n),
    ensures
        forall|i: int| 0 <= i < n ==> (#[trigger] s[i]).0 != c,
    decreases n,
{
    if n > 0 {
        lemma_key_absent_in_prefix(s, c, n - 1);
    }
}

proof fn lemma_distinct_prefix(s: Seq<(HexCoord, Piece)>, n: int)
    requires
        0 <= n <= s.len(),
        distinct_prefix(s, n),
    ensures
        forall|i: int, j: int| 0 <= i < n && 0 <= j < n && (#[trigger] s[i]).0 == (#[trigger] s[j]).0 ==> i == j,
    decreases n,
{
    if n > 0 {
        lemma_distinct_prefix(s, n - 1);
        lemma_key_absent_in_prefix(s, s[n - 1].0, n - 1);
    }
}

proof fn lemma_mirrored_prefix(s: Seq<(HexCoord, Piece)>, h: int, n: int)
    requires
        0 <= n <= h,
        n + h <= s.len(),
        mirrored_prefix(s, h, n),
    ensures
        forall|i: int| 0 <= i < n ==> mirrors(#[trigger] s[i], s[i + h]),
    decreases n,
{
    if n > 0 {
        lemma_mirrored_prefix(s, h, n - 1);
    }
}

/// The facts of a mirrored starting position on a hexagon, from the checks that
/// evaluate them entry by entry.
proof fn lemma_layout_facts(s: Seq<(HexCoord, Piece)>, radius: int)
    requires
        s.len() % 2 == 0,
        on_board_prefix(s, radius, s.len() as int),
        distinct_prefix(s, s.len() as int),
        mirrored_prefix(s, (s.len() / 2) as int, (s.len() / 2) as int),
    ensures
        all_on_board(s, radius),
        keys_unique(s),
        mirrored_halves(s),
{
    lemma_on_board_prefix(s, radius, s.len() as int);
    lemma_distinct_prefix(s, s.len() as int);
    lemma_mirrored_prefix(s, (s.len() / 2) as int, (s.len() / 2) as int);
}

/// Gliński's starting position: White's eighteen pieces, named in notation, then their
/// mirror images for Black in the same order.
pub open spec fn glinski_entries() -> Seq<(HexCoord, Piece)> {
    seq![
        (cell_at(1, 4), Piece { piece_type: PieceType::King, color: Color::White }),  // g1
        (cell_at(-1, 5), Piece { piece_type: PieceType::Queen, color: Color::White }),  // e1
        (cell_at(-4, 5), Piece { piece_type: PieceType::Rook, color: Color::White }),  // b1
        (cell_at(4, 1), Piece { piece_type: PieceType::Rook, color: Color::White }),  // k1
        (cell_at(-2, 5), Piece { piece_type: PieceType::Knight, color: Color::White }),  // d1
        (cell_at(2, 3), Piece { piece_type: PieceType::Knight, color: Color::White }),  // h1
        (cell_at(-3, 5), Piece { piece_type: PieceType::Bishop, color: Color::White }),  // c1
        (cell_at(3, 2), Piece { piece_type: PieceType::Bishop, color: Color::White }),  // i1
        (cell_at(0, 3), Piece { piece_type: PieceType::Bishop, color: Color::White }),  // f3
        (cell_at(-4, 4), Piece { piece_type: PieceType::Pawn, color: Color::White }),  // b2
        (cell_at(-3, 4), Piece { piece_type: PieceType::Pawn, color: Color::White }),  // c2
        (cell_at(-2, 3), Piece { piece_type: PieceType::Pawn, color: Color::White }),  // d3
        (cell_at(-1, 2), Piece { piece_type: PieceType::Pawn, color: Color::White }),  // e4
        (cell_at(0, 1), Piece { piece_type: PieceType::Pawn, color: Color::White }),  // f5
        (cell_at(1, 1), Piece { piece_type: PieceType::Pawn, color: Color::White }),  // g4
        (cell_at(2, 1), Piece { piece_type: PieceType::Pawn, color: Color::White }),  // h3
        (cell_at(3, 1), Piece { piece_type: PieceType::Pawn, color: Color::White }),  // i2
        (cell_at(4, 0), Piece { piece_type: PieceType::Pawn, color: Color::White }),  // k2
        (cell_at(-1, -4), Piece { piece_type: PieceType::King, color: Color::Black }),
        (cell_at(1, -5), Piece { piece_type: PieceType::Queen, color: Color::Black }),
        (cell_at(4, -5), Piece { piece_type: PieceType::Rook, color: Color::Black }),
        (cell_at(-4, -1), Piece { piece_type: PieceType::Rook, color: Color::Black }),
        (cell_at(2, -5), Piece { piece_type: PieceType::Knight, color: Color::Black }),
        (cell_at(-2, -3), Piece { piece_type: PieceType::Knight, color: Color::Black }),
        (cell_at(3, -5), Piece { piece_type: PieceType::Bishop, color: Color::Black }),
        (cell_at(-3, -2), Piece { piece_type: PieceType::Bishop, color: Color::Black }),
        (cell_at(0, -3), Piece { piece_type: PieceType::Bishop, color: Color::Black }),
        (cell_at(4, -4), Piece { piece_type: PieceType::Pawn, color: Color::Black }),
        (cell_at(3, -4), Piece { piece_type: PieceType::Pawn, color: Color::Black }),
        (cell_at(2, -3), Piece { piece_type: PieceType::Pawn, color: Color::Black }),
        (cell_at(1, -2), Piece { piece_type: PieceType::Pawn, color: Color::Black }),
        (cell_at(0, -1), Piece { piece_type: PieceType::Pawn, color: Color::Black }),
        (cell_at(-1, -1), Piece { piece_type: PieceType::Pawn, color: Color::Black }),
        (cell_at(-2, -1), Piece { piece_type: PieceType::Pawn, color: Color::Black }),
        (cell_at(-3, -1), Piece { piece_type: PieceType::Pawn, color: Color::Black }),
        (cell_at(-4, 0), Piece { piece_type: PieceType::Pawn, color: Color::Black }),
    ]
}

/// McCooey's starting position in placement order: White's nine Pawns on the cells of
/// rows `r = 2` and `r = 3` inside the radius-3 hexagon, White's back rank on row `r = 4`,
/// then Black's nine Pawns on rows `r = -3` and `r = -2` and back rank on row `r = -4`.
/// The back ranks lie outside the 37-cell board, so building the board skips them.
pub open spec fn mccooey_entries() -> Seq<(HexCoord, Piece)> {
    seq![
        (cell_at(-3, 2), Piece { piece_type: PieceType::Pawn, color: Color::White }),
        (cell_at(-3, 3), Piece { piece_type: PieceType::Pawn, color: Color::White }),
        (cell_at(-2, 2), Piece { piece_type: PieceType::Pawn, color: Color::White }),
        (cell_at(-2, 3), Piece { piece_type: PieceType::Pawn, color: Color::White }),
        (cell_at(-1, 2), Piece { piece_type: PieceType::Pawn, color: Color::White }),
        (cell_at(-1, 3), Piece { piece_type: PieceType::Pawn, color: Color::White }),
        (cell_at(0, 2), Piece { piece_type: PieceType::Pawn, color: Color::White }),
        (cell_at(0, 3), Piece { piece_type: PieceType::Pawn, color: Color::White }),
        (cell_at(1, 2), Piece { piece_type: PieceType::Pawn, color: Color::White }),
        (cell_at(0, 4), Piece { piece_type: PieceType::King, color: Color::White }),
        (cell_at(1, 4), Piece { piece_type: PieceType::Queen, color: Color::White }),
        (cell_at(-1, 4), Piece { piece_type: PieceType::Bishop, color: Color::White }),
        (cell_at(2, 4), Piece { piece_type: PieceType::Bishop, color: Color::White }),
        (cell_at(-2, 4), Piece { piece_type: PieceType::Knight, color: Color::White }),
        (cell_at(3, 4), Piece { piece_type: PieceType::Knight, color: Color::White }),
        (cell_at(-3, 4), Piece { piece_type: PieceType::Rook, color: Color::White }),
        (cell_at(-1, -2), Piece { piece_type: PieceType::Pawn, color: Color::Black }),
        (cell_at(0, -3), Piece { piece_type: PieceType::Pawn, color: Color::Black }),
        (cell_at(0, -2), Piece { piece_type: PieceType::Pawn, color: Color::Black }),
        (cell_at(1, -3), Piece { piece_type: PieceType::Pawn, color: Color::Black }),
        (cell_at(1, -2), Piece { piece_type: PieceType::Pawn, color: Color::Black }),
        (cell_at(2, -3), Piece { piece_type: PieceType::Pawn, color: Color::Black }),
        (cell_at(2, -2), Piece { piece_type: PieceType::Pawn, color: Color::Black }),
        (cell_at(3, -3), Piece { piece_type: PieceType::Pawn, color: Color::Black }),
        (cell_at(3, -2), Piece { piece_type: PieceType::Pawn, color: Color::Black }),
        (cell_at(0, -4), Piece { piece_type: PieceType::King, color: Color::Black }),
        (cell_at(-1, -4), Piece { piece_type: PieceType::Queen, color: Color::Black }),
        (cell_at(1, -4), Piece { piece_type: PieceType::Bishop, color: Color::Black }),
        (cell_at(-2, -4), Piece { piece_type: PieceType::Bishop, color: Color::Black }),
        (cell_at(2, -4), Piece { piece_type: PieceType::Knight, color: Color::Black }),
        (cell_at(-3, -4), Piece { piece_type: PieceType::Knight, color: Color::Black }),
        (cell_at(3, -4), Piece { piece_type: PieceType::Rook, color: Color::Black }),
    ]
}

/// Gliński's position with four fairy pieces placed in turn: a White Chancellor on (2, 5),
/// a White Archbishop on d1 = (-2, 5) in place of the Knight, a Black Chancellor on
/// (-2, -5), and a Black Archbishop on (2, -5) in place of the Knight. The two Chancellors
/// stand outside the 91-cell board, so building the board skips them.
pub open spec fn glinski_capablanca_entries() -> Seq<(HexCoord, Piece)> {
    glinski_entries().push((cell_at(2, 5), Piece { piece_type: PieceType::Chancellor, color: Color::White }))
        .update(4, (cell_at(-2, 5), Piece { piece_type: PieceType::Archbishop, color: Color::White }))
        .push((cell_at(-2, -5), Piece { piece_type: PieceType::Chancellor, color: Color::Black }))
        .update(22, (cell_at(2, -5), Piece { piece_type: PieceType::Archbishop, color: Color::Black }))
}

/// McCooey's position with four fairy pieces replacing pieces of it: a White Chancellor on
/// (2, 4) and a White Archbishop on (-2, 4), a Black Chancellor on (-2, -4) and a Black
/// Archbishop on (2, -4).
pub open spec fn mccooey_capablanca_entries() -> Seq<(HexCoord, Piece)> {
    mccooey_entries().update(12, (cell_at(2, 4), Piece { piece_type: PieceType::Chancellor, color: Color::White }))
        .update(13, (cell_at(-2, 4), Piece { piece_type: PieceType::Archbishop, color: Color::White }))
        .update(28, (cell_at(-2, -4), Piece { piece_type: PieceType::Chancellor, color: Color::Black }))
        .update(29, (cell_at(2, -4), Piece { piece_type: PieceType::Archbishop, color: Color::Black }))
}

/// Mini Hexchess's starting position, placement by placement.
pub open spec fn mini_layout() -> Map<HexCoord, Piece> {
    Map::empty()
        .insert(cell_at(-2, 1), Piece { piece_type: PieceType::Pawn, color: Color::White })
        .insert(cell_at(-2, 2), Piece { piece_type: PieceType::Pawn, color: Color::White })
        .insert(cell_at(-1, 1), Piece { piece_type: PieceType::Pawn, color: Color::White })
        .insert(cell_at(-1, 2), Piece { piece_type: PieceType::Pawn, color: Color::White })
        .insert(cell_at(0, 1), Piece { piece_type: PieceType::Pawn, color: Color::White })
        .insert(cell_at(0, 2), Piece { piece_type: PieceType::Pawn, color: Color::White })
        .insert(cell_at(1, 1), Piece { piece_type: PieceType::Pawn, color: Color::White })
        .insert(cell_at(0, 3), Piece { piece_type: PieceType::King, color: Color::White })
        .insert(cell_at(1, 3), Piece { piece_type: PieceType::Queen, color: Color::White })
        .insert(cell_at(-1, 3), Piece { piece_type: PieceType::Bishop, color: Color::White })
        .insert(cell_at(2, 3), Piece { piece_type: PieceType::Knight, color: Color::White })
        .insert(cell_at(-2, 3), Piece { piece_type: PieceType::Rook, color: Color::White })
        .insert(cell_at(-1, -1), Piece { piece_type: PieceType::Pawn, color: Color::Black })
        .insert(cell_at(0, -2), Piece { piece_type: PieceType::Pawn, color: Color::Black })
        .insert(cell_at(0, -1), Piece { piece_type: PieceType::Pawn, color: Color::Black })
        .insert(cell_at(1, -2), Piece { piece_type: PieceType::Pawn, color: Color::Black })
        .insert(cell_at(1, -1), Piece { piece_type: PieceType::Pawn, color: Color::Black })
        .insert(cell_at(2, -2), Piece { piece_type: PieceType::Pawn, color: Color::Black })
        .insert(cell_at(2, -1), Piece { piece_type: PieceType::Pawn, color: Color::Black })
        .insert(cell_at(0, -3), Piece { piece_type: PieceType::King, color: Color::Black })
        .insert(cell_at(-1, -3), Piece { piece_type: PieceType::Queen, color: Color::Black })
        .insert(cell_at(1, -3), Piece { piece_type: PieceType::Bishop, color: Color::Black })
        .insert(cell_at(-2, -3), Piece { piece_type: PieceType::Knight, color: Color::Black })
        .insert(cell_at(2, -3), Piece { piece_type: PieceType::Rook, color: Color::Black })
}


/// Gliński's position: 36 pieces on the 91-cell board, no two on a cell, Black mirroring
/// White, each side with a King, a Queen, two Rooks, three Bishops, two Knights and nine Pawns.
#[verifier::spinoff_prover]
#[verifier::rlimit(100)]
pub proof fn lemma_glinski_layout()
    ensures
        glinski_entries().len() == 36,
        all_on_board(glinski_entries(), 5),
        keys_unique(glinski_entries()),
        mirrored_halves(glinski_entries()),
        army(glinski_entries(), Color::White) == seq![1nat, 1, 2, 3, 2, 9, 0, 0],
        army(glinski_entries(), Color::Black) == seq![1nat, 1, 2, 3, 2, 9, 0, 0],
{
    let s = glinski_entries();
    assert(on_board_prefix(s, 5, 36)) by {
        reveal_with_fuel(on_board_prefix, 37);
    }
    assert(distinct_prefix(s, 36)) by {
        reveal_with_fuel(key_absent_in_prefix, 37);
        reveal_with_fuel(distinct_prefix, 37);
    }
    assert(mirrored_prefix(s, 18, 18)) by {
        reveal_with_fuel(mirrored_prefix, 19);
    }
    lemma_layout_facts(s, 5);
    assert(army(s, Color::White) =~= seq![1nat, 1, 2, 3, 2, 9, 0, 0]) by {
        reveal_with_fuel(count_in_prefix, 37);
    }
    assert(army(s, Color::Black) =~= seq![1nat, 1, 2, 3, 2, 9, 0, 0]) by {
        reveal_with_fuel(count_in_prefix, 37);
    }
}

/// McCooey's position: 32 placements, no two on a cell, each side with a King, a Queen,
/// a Rook, two Bishops, two Knights and nine Pawns.
#[verifier::spinoff_prover]
#[verifier::rlimit(100)]
pub proof fn lemma_mccooey_layout()
    ensures
        mccooey_entries().len() == 32,
        keys_unique(mccooey_entries()),
        army(mccooey_entries(), Color::White) == seq![1nat, 1, 1, 2, 2, 9, 0, 0],
        army(mccooey_entries(), Color::Black) == seq![1nat, 1, 1, 2, 2, 9, 0, 0],
{
    let s = mccooey_entries();
    assert(distinct_prefix(s, 32)) by {
        reveal_with_fuel(key_absent_in_prefix, 33);
        reveal_with_fuel(distinct_prefix, 33);
    }
    lemma_distinct_prefix(s, 32);
    assert(army(s, Color::White) =~= seq![1nat, 1, 1, 2, 2, 9, 0, 0]) by {
        reveal_with_fuel(count_in_prefix, 33);
    }
    assert(army(s, Color::Black) =~= seq![1nat, 1, 1, 2, 2, 9, 0, 0]) by {
        reveal_with_fuel(count_in_prefix, 33);
    }
}

/// The Gliński-Capablanca position: 38 placements, no two on a cell, each side with a
/// King, a Queen, two Rooks, three Bishops, a Knight, nine Pawns, a Chancellor and an
/// Archbishop.
#[verifier::spinoff_prover]
#[verifier::rlimit(100)]
pub proof fn lemma_glinski_capablanca_layout()
    ensures
        glinski_capablanca_entries().len() == 38,
        keys_unique(glinski_capablanca_entries()),
        army(glinski_capablanca_entries(), Color::White) == seq![1nat, 1, 2, 3, 1, 9, 1, 1],
        army(glinski_capablanca_entries(), Color::Black) == seq![1nat, 1, 2, 3, 1, 9, 1, 1],
{
    let s = glinski_capablanca_entries();
    assert(distinct_prefix(s, 38)) by {
        reveal_with_fuel(key_absent_in_prefix, 39);
        reveal_with_fuel(distinct_prefix, 39);
    }
    lemma_distinct_prefix(s, 38);
    assert(army(s, Color::White) =~= seq![1nat, 1, 2, 3, 1, 9, 1, 1]) by {
        reveal_with_fuel(count_in_prefix, 39);
    }
    assert(army(s, Color::Black) =~= seq![1nat, 1, 2, 3, 1, 9, 1, 1]) by {
        reveal_with_fuel(count_in_prefix, 39);
    }
}

/// The McCooey-Capablanca position: 32 placements, no two on a cell, each side with a
/// King, a Queen, a Rook, a Bishop, a Knight, nine Pawns, a Chancellor and an Archbishop.
#[verifier::spinoff_prover]
#[verifier::rlimit(100)]
pub proof fn lemma_mccooey_capablanca_layout()
    ensures
        mccooey_capablanca_entries().len() == 32,
        keys_unique(mccooey_capablanca_entries()),
        army(mccooey_capablanca_entries(), Color::White) == seq![1nat, 1, 1, 1, 1, 9, 1, 1],
        army(mccooey_capablanca_entries(), Color::Black) == seq![1nat, 1, 1, 1, 1, 9, 1, 1],
{
    let s = mccooey_capablanca_entries();
    assert(distinct_prefix(s, 32)) by {
        reveal_with_fuel(key_absent_in_prefix, 33);
        reveal_with_fuel(distinct_prefix, 33);
    }
    lemma_distinct_prefix(s, 32);
    assert(army(s, Color::White) =~= seq![1nat, 1, 1, 1, 1, 9, 1, 1]) by {
        reveal_with_fuel(count_in_prefix, 33);
    }
    assert(army(s, Color::Black) =~= seq![1nat, 1, 1, 1, 1, 9, 1, 1]) by {
        reveal_with_fuel(count_in_prefix, 33);
    }
}

/// `c` is Gliński's Chess as catalogued.
pub open spec fn is_glinski(c: VariantConfig) -> bool {
    &&& c.name@ == "Gliński's Chess"@
    &&& c.description@ == "91 cells, regular hexagon"@
    &&& c.board_type == (BoardType::Regular { radius: 5 })
    &&& c.starting_positions@ == glinski_entries()
    &&& c.pawn_movement == PawnMovement::Standard
    &&& c.special_rules@ == seq![SpecialRule::EnPassant]
}

/// `c` is McCooey's Chess as catalogued.
pub open spec fn is_mccooey(c: VariantConfig) -> bool {
    &&& c.name@ == "McCooey's Chess"@
    &&& c.description@ == "81 cells, regular hexagon"@
    &&& c.board_type == (BoardType::Regular { radius: 3 })
    &&& c.starting_positions@ == mccooey_entries()
    &&& c.pawn_movement == PawnMovement::Standard
    &&& c.special_rules@ == seq![SpecialRule::EnPassant]
}

/// `c` is a catalogued variant of the given name whose irregular layout is not defined yet.
pub open spec fn is_unlaid(c: VariantConfig, name: Seq<char>) -> bool {
    &&& c.name@ == name
    &&& c.description@ == "Irregular board layout"@
    &&& c.board_type == BoardType::Irregular
    &&& c.starting_positions@.len() == 0
    &&& c.pawn_movement == PawnMovement::Standard
    &&& c.special_rules@.len() == 0
}

/// `c` is Mini Hexchess as catalogued.
pub open spec fn is_mini(c: VariantConfig) -> bool {
    &&& c.name@ == "Mini Hexchess"@
    &&& c.description@ == "37 cells, small hexagon"@
    &&& c.board_type == BoardType::Small
    &&& keys_unique(c.starting_positions@)
    &&& entries_map(c.starting_positions@) == mini_layout()
    &&& c.pawn_movement == PawnMovement::Standard
    &&& c.special_rules@.len() == 0
}

/// `c` is Gliński-Capablanca Chess as catalogued.
pub open spec fn is_glinski_capablanca(c: VariantConfig) -> bool {
    &&& c.name@ == "Gliński-Capablanca Chess"@
    &&& c.description@ == "91 cells with fairy pieces"@
    &&& c.board_type == (BoardType::Regular { radius: 5 })
    &&& c.starting_positions@ == glinski_capablanca_entries()
    &&& c.pawn_movement == PawnMovement::Standard
    &&& c.special_rules@ == seq![SpecialRule::EnPassant]
}

/// `c` is McCooey-Capablanca Chess as catalogued.
pub open spec fn is_mccooey_capablanca(c: VariantConfig) -> bool {
    &&& c.name@ == "McCooey-Capablanca Chess"@
    &&& c.description@ == "81 cells with fairy pieces"@
    &&& c.board_type == (BoardType::Regular { radius: 3 })
    &&& c.starting_positions@ == mccooey_capablanca_entries()
    &&& c.pawn_movement == PawnMovement::Standard
    &&& c.special_rules@ == seq![SpecialRule::EnPassant]
}

/// Places a piece of the given kind and colour on `(q, r)` in a starting position.
fn put(v: &mut Vec<(HexCoord, Piece)>, q: i32, r: i32, kind: PieceType, color: Color)
    requires
        keys_unique(old(v)@),
    ensures
        keys_unique(final(v)@),
        entries_map(final(v)@) == entries_map(old(v)@).insert(cell_at(q as int, r as int), Piece { piece_type: kind, color }),
{
    set_start(v, HexCoord::new(q, r), Piece::new(kind, color));
}

/// An empty starting position.
fn no_positions() -> (v: Vec<(HexCoord, Piece)>)
    ensures
        v@.len() == 0,
        keys_unique(v@),
        entries_map(v@) == Map::<HexCoord, Piece>::empty(),
{
    let v: Vec<(HexCoord, Piece)> = Vec::new();
    assert(entries_map(v@) =~= Map::<HexCoord, Piece>::empty());
    v
}

/// A White piece on the cell that Gliński notation names.
fn white_at(file: char, rank: u8, kind: PieceType) -> (e: (HexCoord, Piece))
    requires
        glinski_cell(file, rank).is_some(),
    ensures
        e.0 == glinski_cell(file, rank).unwrap(),
        e.1 == (Piece { piece_type: kind, color: Color::White }),
{
    let c = match file_rank_to_axial(file, rank) {
        Some(c) => c,
        None => HexCoord::new(0, 0),
    };
    (c, Piece::new(kind, Color::White))
}

/// The Black piece of the same kind on the mirror image of a White entry's cell.
fn black_mirror(e: (HexCoord, Piece)) -> (m: (HexCoord, Piece))
    requires
        e.0.q > i32::MIN,
        e.0.r > i32::MIN,
        e.1.color == Color::White,
    ensures
        mirrors(e, m),
{
    (HexCoord::new(-e.0.q, -e.0.r), Piece::new(e.1.piece_type, Color::Black))
}

/// The catalogue of variants.
pub struct Variants;

impl Variants {
    /// All catalogued variants, in a fixed order.
    pub fn all() -> (v: Vec<VariantConfig>)
        ensures
            v@.len() == 8,
            is_glinski(v@[0]),
            is_mccooey(v@[1]),
            is_unlaid(v@[2], "Shafran's Chess"@),
            is_unlaid(v@[3], "Brusky's Chess"@),
            is_unlaid(v@[4], "De Vasa's Chess"@),
            is_mini(v@[5]),
            is_glinski_capablanca(v@[6]),
            is_mccooey_capablanca(v@[7]),
    {
        vec![
            Self::glinski_chess(),
            Self::mccooey_chess(),
            Self::shafran_chess(),
            Self::brusky_chess(),
            Self::de_vasa_chess(),
            Self::mini_hexchess(),
            Self::glinski_capablanca_chess(),
            Self::mccooey_capablanca_chess(),
        ]
    }

    /// Gliński's Chess: 91 cells, a regular hexagon of radius 5.
    pub fn glinski_chess() -> (c: VariantConfig)
        ensures
            is_glinski(c),
            c.starting_positions@.len() == 36,
            all_on_board(c.starting_positions@, 5),
            keys_unique(c.starting_positions@),
            mirrored_halves(c.starting_positions@),
            army(c.starting_positions@, Color::White) == seq![1nat, 1, 2, 3, 2, 9, 0, 0],
            army(c.starting_positions@, Color::Black) == seq![1nat, 1, 2, 3, 2, 9, 0, 0],
    {
        let w0 = white_at('g', 1, PieceType::King);
        let w1 = white_at('e', 1, PieceType::Queen);
        let w2 = white_at('b', 1, PieceType::Rook);
        let w3 = white_at('k', 1, PieceType::Rook);
        let w4 = white_at('d', 1, PieceType::Knight);
        let w5 = white_at('h', 1, PieceType::Knight);
        let w6 = white_at('c', 1, PieceType::Bishop);
        let w7 = white_at('i', 1, PieceType::Bishop);
        let w8 = white_at('f', 3, PieceType::Bishop);
        let w9 = white_at('b', 2, PieceType::Pawn);
        let w10 = white_at('c', 2, PieceType::Pawn);
        let w11 = white_at('d', 3, PieceType::Pawn);
        let w12 = white_at('e', 4, PieceType::Pawn);
        let w13 = white_at('f', 5, PieceType::Pawn);
        let w14 = white_at('g', 4, PieceType::Pawn);
        let w15 = white_at('h', 3, PieceType::Pawn);
        let w16 = white_at('i', 2, PieceType::Pawn);
        let w17 = white_at('k', 2, PieceType::Pawn);
        let positions: Vec<(HexCoord, Piece)> = vec![
            w0,
            w1,
            w2,
            w3,
            w4,
            w5,
            w6,
            w7,
            w8,
            w9,
            w10,
            w11,
            w12,
            w13,
            w14,
            w15,
            w16,
            w17,
            black_mirror(w0),
            black_mirror(w1),
            black_mirror(w2),
            black_mirror(w3),
            black_mirror(w4),
            black_mirror(w5),
            black_mirror(w6),
            black_mirror(w7),
            black_mirror(w8),
            black_mirror(w9),
            black_mirror(w10),
            black_mirror(w11),
            black_mirror(w12),
            black_mirror(w13),
            black_mirror(w14),
            black_mirror(w15),
            black_mirror(w16),
            black_mirror(w17),
        ];
        proof {
            assert(positions@ =~= glinski_entries());
            lemma_glinski_layout();
        }
        let c = VariantConfig {
            name: String::from_str("Gliński's Chess"),
            description: String::from_str("91 cells, regular hexagon"),
            board_type: BoardType::Regular { radius: 5 },
            starting_positions: positions,
            pawn_movement: PawnMovement::Standard,
            special_rules: vec![SpecialRule::EnPassant],
        };
        assert(c.name@ == "Gliński's Chess"@);
        assert(c.description@ == "91 cells, regular hexagon"@);
        assert(c.starting_positions@ == glinski_entries());
        assert(c.special_rules@ == seq![SpecialRule::EnPassant]);
        c
    }

    /// McCooey's Chess on a regular hexagon of radius 3; its back ranks are placed beyond
    /// the board's edge.
    pub fn mccooey_chess() -> (c: VariantConfig)
        ensures
            is_mccooey(c),
            c.starting_positions@.len() == 32,
            keys_unique(c.starting_positions@),
            army(c.starting_positions@, Color::White) == seq![1nat, 1, 1, 2, 2, 9, 0, 0],
            army(c.starting_positions@, Color::Black) == seq![1nat, 1, 1, 2, 2, 9, 0, 0],
    {
        let positions: Vec<(HexCoord, Piece)> = vec![
            (HexCoord::new(-3, 2), Piece::new(PieceType::Pawn, Color::White)),
            (HexCoord::new(-3, 3), Piece::new(PieceType::Pawn, Color::White)),
            (HexCoord::new(-2, 2), Piece::new(PieceType::Pawn, Color::White)),
            (HexCoord::new(-2, 3), Piece::new(PieceType::Pawn, Color::White)),
            (HexCoord::new(-1, 2), Piece::new(PieceType::Pawn, Color::White)),
            (HexCoord::new(-1, 3), Piece::new(PieceType::Pawn, Color::White)),
            (HexCoord::new(0, 2), Piece::new(PieceType::Pawn, Color::White)),
            (HexCoord::new(0, 3), Piece::new(PieceType::Pawn, Color::White)),
            (HexCoord::new(1, 2), Piece::new(PieceType::Pawn, Color::White)),
            (HexCoord::new(0, 4), Piece::new(PieceType::King, Color::White)),
            (HexCoord::new(1, 4), Piece::new(PieceType::Queen, Color::White)),
            (HexCoord::new(-1, 4), Piece::new(PieceType::Bishop, Color::White)),
            (HexCoord::new(2, 4), Piece::new(PieceType::Bishop, Color::White)),
            (HexCoord::new(-2, 4), Piece::new(PieceType::Knight, Color::White)),
            (HexCoord::new(3, 4), Piece::new(PieceType::Knight, Color::White)),
            (HexCoord::new(-3, 4), Piece::new(PieceType::Rook, Color::White)),
            (HexCoord::new(-1, -2), Piece::new(PieceType::Pawn, Color::Black)),
            (HexCoord::new(0, -3), Piece::new(PieceType::Pawn, Color::Black)),
            (HexCoord::new(0, -2), Piece::new(PieceType::Pawn, Color::Black)),
            (HexCoord::new(1, -3), Piece::new(PieceType::Pawn, Color::Black)),
            (HexCoord::new(1, -2), Piece::new(PieceType::Pawn, Color::Black)),
            (HexCoord::new(2, -3), Piece::new(PieceType::Pawn, Color::Black)),
            (HexCoord::new(2, -2), Piece::new(PieceType::Pawn, Color::Black)),
            (HexCoord::new(3, -3), Piece::new(PieceType::Pawn, Color::Black)),
            (HexCoord::new(3, -2), Piece::new(PieceType::Pawn, Color::Black)),
            (HexCoord::new(0, -4), Piece::new(PieceType::King, Color::Black)),
            (HexCoord::new(-1, -4), Piece::new(PieceType::Queen, Color::Black)),
            (HexCoord::new(1, -4), Piece::new(PieceType::Bishop, Color::Black)),
            (HexCoord::new(-2, -4), Piece::new(PieceType::Bishop, Color::Black)),
            (HexCoord::new(2, -4), Piece::new(PieceType::Knight, Color::Black)),
            (HexCoord::new(-3, -4), Piece::new(PieceType::Knight, Color::Black)),
            (HexCoord::new(3, -4), Piece::new(PieceType::Rook, Color::Black)),
        ];
        proof {
            assert(positions@ =~= mccooey_entries());
            lemma_mccooey_layout();
        }
        let c = VariantConfig {
            name: String::from_str("McCooey's Chess"),
            description: String::from_str("81 cells, regular hexagon"),
            board_type: BoardType::Regular { radius: 3 },
            starting_positions: positions,
            pawn_movement: PawnMovement::Standard,
            special_rules: vec![SpecialRule::EnPassant],
        };
        assert(c.name@ == "McCooey's Chess"@);
        assert(c.description@ == "81 cells, regular hexagon"@);
        assert(c.starting_positions@ == mccooey_entries());
        assert(c.special_rules@ == seq![SpecialRule::EnPassant]);
        c
    }

    /// Shafran's Chess: an irregular board whose layout is not defined yet.
    pub fn shafran_chess() -> (c: VariantConfig)
        ensures
            is_unlaid(c, "Shafran's Chess"@),
    {
        VariantConfig {
            name: String::from_str("Shafran's Chess"),
            description: String::from_str("Irregular board layout"),
            board_type: BoardType::Irregular,
            starting_positions: no_positions(),
            pawn_movement: PawnMovement::Standard,
            special_rules: Vec::new(),
        }
    }

    /// Brusky's Chess: an irregular board whose layout is not defined yet.
    pub fn brusky_chess() -> (c: VariantConfig)
        ensures
            is_unlaid(c, "Brusky's Chess"@),
    {
        VariantConfig {
            name: String::from_str("Brusky's Chess"),
            description: String::from_str("Irregular board layout"),
            board_type: BoardType::Irregular,
            starting_positions: no_positions(),
            pawn_movement: PawnMovement::Standard,
            special_rules: Vec::new(),
        }
    }

    /// De Vasa's Chess: an irregular board whose layout is not defined yet.
    pub fn de_vasa_chess() -> (c: VariantConfig)
        ensures
            is_unlaid(c, "De Vasa's Chess"@),
    {
        VariantConfig {
            name: String::from_str("De Vasa's Chess"),
            description: String::from_str("Irregular board layout"),
            board_type: BoardType::Irregular,
            starting_positions: no_positions(),
            pawn_movement: PawnMovement::Standard,
            special_rules: Vec::new(),
        }
    }

    /// Mini Hexchess on the 37-cell hexagon.
    pub fn mini_hexchess() -> (c: VariantConfig)
        ensures
            is_mini(c),
    {
        let mut positions = no_positions();
        put(&mut positions, -2, 1, PieceType::Pawn, Color::White);
        put(&mut positions, -2, 2, PieceType::Pawn, Color::White);
        put(&mut positions, -1, 1, PieceType::Pawn, Color::White);
        put(&mut positions, -1, 2, PieceType::Pawn, Color::White);
        put(&mut positions, 0, 1, PieceType::Pawn, Color::White);
        put(&mut positions, 0, 2, PieceType::Pawn, Color::White);
        put(&mut positions, 1, 1, PieceType::Pawn, Color::White);
        put(&mut positions, 0, 3, PieceType::King, Color::White);
        put(&mut positions, 1, 3, PieceType::Queen, Color::White);
        put(&mut positions, -1, 3, PieceType::Bishop, Color::White);
        put(&mut positions, 2, 3, PieceType::Knight, Color::White);
        put(&mut positions, -2, 3, PieceType::Rook, Color::White);
        put(&mut positions, -1, -1, PieceType::Pawn, Color::Black);
        put(&mut positions, 0, -2, PieceType::Pawn, Color::Black);
        put(&mut positions, 0, -1, PieceType::Pawn, Color::Black);
        put(&mut positions, 1, -2, PieceType::Pawn, Color::Black);
        put(&mut positions, 1, -1, PieceType::Pawn, Color::Black);
        put(&mut positions, 2, -2, PieceType::Pawn, Color::Black);
        put(&mut positions, 2, -1, PieceType::Pawn, Color::Black);
        put(&mut positions, 0, -3, PieceType::King, Color::Black);
        put(&mut positions, -1, -3, PieceType::Queen, Color::Black);
        put(&mut positions, 1, -3, PieceType::Bishop, Color::Black);
        put(&mut positions, -2, -3, PieceType::Knight, Color::Black);
        put(&mut positions, 2, -3, PieceType::Rook, Color::Black);
        VariantConfig {
            name: String::from_str("Mini Hexchess"),
            description: String::from_str("37 cells, small hexagon"),
            board_type: BoardType::Small,
            starting_positions: positions,
            pawn_movement: PawnMovement::Standard,
            special_rules: Vec::new(),
        }
    }

    /// Gliński's Chess with a Chancellor and an Archbishop placed for each side.
    pub fn glinski_capablanca_chess() -> (c: VariantConfig)
        ensures
            is_glinski_capablanca(c),
            c.starting_positions@.len() == 38,
            keys_unique(c.starting_positions@),
            army(c.starting_positions@, Color::White) == seq![1nat, 1, 2, 3, 1, 9, 1, 1],
            army(c.starting_positions@, Color::Black) == seq![1nat, 1, 2, 3, 1, 9, 1, 1],
    {
        let mut config = Self::glinski_chess();
        config.name = String::from_str("Gliński-Capablanca Chess");
        config.description = String::from_str("91 cells with fairy pieces");
        config.starting_positions.push((HexCoord::new(2, 5), Piece::new(PieceType::Chancellor, Color::White)));
        config.starting_positions.set(4, (HexCoord::new(-2, 5), Piece::new(PieceType::Archbishop, Color::White)));
        config.starting_positions.push((HexCoord::new(-2, -5), Piece::new(PieceType::Chancellor, Color::Black)));
        config.starting_positions.set(22, (HexCoord::new(2, -5), Piece::new(PieceType::Archbishop, Color::Black)));
        proof {
            assert(config.starting_positions@ =~= glinski_capablanca_entries());
            lemma_glinski_capablanca_layout();
        }
        config
    }

    /// McCooey's Chess with a Bishop and a Knight of each side replaced by a Chancellor and
    /// an Archbishop.
    pub fn mccooey_capablanca_chess() -> (c: VariantConfig)
        ensures
            is_mccooey_capablanca(c),
            c.starting_positions@.len() == 32,
            keys_unique(c.starting_positions@),
            army(c.starting_positions@, Color::White) == seq![1nat, 1, 1, 1, 1, 9, 1, 1],
            army(c.starting_positions@, Color::Black) == seq![1nat, 1, 1, 1, 1, 9, 1, 1],
    {
        let mut config = Self::mccooey_chess();
        config.name = String::from_str("McCooey-Capablanca Chess");
        config.description = String::from_str("81 cells with fairy pieces");
        config.starting_positions.set(12, (HexCoord::new(2, 4), Piece::new(PieceType::Chancellor, Color::White)));
        config.starting_positions.set(13, (HexCoord::new(-2, 4), Piece::new(PieceType::Archbishop, Color::White)));
        config.starting_positions.set(28, (HexCoord::new(-2, -4), Piece::new(PieceType::Chancellor, Color::Black)));
        config.starting_positions.set(29, (HexCoord::new(2, -4), Piece::new(PieceType::Archbishop, Color::Black)));
        proof {
            assert(config.starting_positions@ =~= mccooey_capablanca_entries());
            lemma_mccooey_capablanca_layout();
        }
        config
    }
}

impl VariantConfig {
    /// A board of the configured shape with every starting piece placed; an entry whose
    /// coordinate is not a cell of the shape is skipped.
    pub fn create_board(&self) -> (b: Board)
        ensures
            b.wf(),
            b.board_type == self.board_type,
            b.cells() == placed(self.starting_positions@, self.board_type),
    {
        let mut board = Board::new(self.board_type);
        let mut i: usize = 0;
        while i < self.starting_positions.len()
            invariant
                board.wf(),
                board.board_type == self.board_type,
                i <= self.starting_positions@.len(),
                board.cells() == placed(self.starting_positions@.take(i as int), self.board_type),
            decreases self.starting_positions@.len() - i,
        {
            let (coord, piece) = self.starting_positions[i];
            proof {
                assert(self.starting_positions@.take(i + 1).drop_last() =~= self.starting_positions@.take(i as int));
            }
            let _ = board.place_piece(coord, piece);
            i = i + 1;
        }
        assert(self.starting_positions@.take(i as int) =~= self.starting_positions@);
        board
    }
}

} // verus!
