//! Pieces, colours, and per-kind move generation.
use vstd::prelude::*;
use crate::board::Board;
use crate::coords::{abs, diagonal_dirs, orthogonal_dirs, shape_has, shape_radius, BoardType, HexCoord};

verus! {

/// Chess piece kinds, including the two compound "fairy" pieces.
#[derive(Clone, Copy, PartialEq, Eq, Structural, Debug, Hash)]
pub enum PieceType {
    King,
    Queen,
    Rook,
    Bishop,
    Knight,
    Pawn,
    /// Rook and Knight combined.
    Chancellor,
    /// Bishop and Knight combined.
    Archbishop,
}

/// Piece colours.
#[derive(Clone, Copy, PartialEq, Eq, Structural, Debug, Hash)]
pub enum Color {
    White,
    Black,
}

/// A chess piece.
#[derive(Clone, Copy, PartialEq, Eq, Structural, Debug, Hash)]
pub struct Piece {
    pub piece_type: PieceType,
    pub color: Color,
}

/// The other colour.
pub open spec fn opponent(c: Color) -> Color {
    match c {
        Color::White => Color::Black,
        Color::Black => Color::White,
    }
}

/// The King of a colour.
pub open spec fn king_of(color: Color) -> Piece {
    Piece { piece_type: PieceType::King, color }
}

/// The display letter of a piece: upper case for White, lower case for Black.
pub open spec fn piece_letter(p: Piece) -> char {
    let upper = match p.piece_type {
        PieceType::King => 'K',
        PieceType::Queen => 'Q',
        PieceType::Rook => 'R',
        PieceType::Bishop => 'B',
        PieceType::Knight => 'N',
        PieceType::Pawn => 'P',
        PieceType::Chancellor => 'C',
        PieceType::Archbishop => 'A',
    };
    match p.color {
        Color::White => upper,
        Color::Black => ((upper as u32) + 32) as char,
    }
}

/// The coordinate with the given axial components.
pub open spec fn cell_at(q: int, r: int) -> HexCoord {
    HexCoord { q: q as i32, r: r as i32 }
}

/// Whether `c` holds a piece of the same colour as the piece on `from`.
pub open spec fn is_friendly(cells: Map<HexCoord, Piece>, from: HexCoord, c: HexCoord) -> bool {
    cells.contains_key(from) && cells.contains_key(c) && cells[c].color == cells[from].color
}

/// The twelve knight leaps: six short and six long.
pub open spec fn knight_offsets() -> Seq<(int, int)> {
    seq![
        (2, -1), (1, -2), (-1, -1), (-2, 1), (-1, 2), (1, 1),
        (3, -2), (2, -3), (-2, -1), (-3, 2), (-2, 3), (2, 1),
    ]
}

/// A step or direction used by move generation: small and non-zero.
pub open spec fn small_step(d: (int, int)) -> bool {
    -3 <= d.0 <= 3 && -3 <= d.1 <= 3 && !(d.0 == 0 && d.1 == 0)
}

/// A measure that falls along a ray and stays non-negative while the ray is on the board.
pub open spec fn slide_measure(shape: BoardType, q: int, r: int, d: (int, int)) -> int {
    shape_radius(shape) * (abs(d.0) + abs(d.1)) + d.0 * d.0 + d.1 * d.1 - (q * d.0 + r * d.1)
}

pub proof fn lemma_product_bound(x: int, y: int, k: int)
    requires
        -k <= x <= k,
    ensures
        x * y <= k * abs(y),
{
    if y >= 0 {
        assert(x * y <= k * y) by (nonlinear_arith)
            requires
                x <= k,
                y >= 0,
        ;
    } else {
        assert(x * y <= k * (-y)) by (nonlinear_arith)
            requires
                -k <= x,
                y < 0,
        ;
    }
}

pub proof fn lemma_slide_measure(shape: BoardType, q: int, r: int, d: (int, int))
    requires
        !(d.0 == 0 && d.1 == 0),
        shape_has(shape, q, r),
    ensures
        0 <= slide_measure(shape, q + d.0, r + d.1, d) < slide_measure(shape, q, r, d),
{
    let k = shape_radius(shape);
    lemma_product_bound(q, d.0, k);
    lemma_product_bound(r, d.1, k);
    assert(k * (abs(d.0) + abs(d.1)) == k * abs(d.0) + k * abs(d.1)) by (nonlinear_arith);
    assert((q + d.0) * d.0 + (r + d.1) * d.1 == q * d.0 + r * d.1 + d.0 * d.0 + d.1 * d.1)
        by (nonlinear_arith);
    assert(d.0 * d.0 + d.1 * d.1 >= 1) by (nonlinear_arith)
        requires
            !(d.0 == 0 && d.1 == 0),
    ;
}

/// The cells that a sliding piece on `from` reaches along direction `d`, from the cell
/// `(q, r)` on: empty cells are passed, the first occupied cell ends the ray and is
/// included unless it holds a piece of the mover's colour, and the board's edge ends it.
pub open spec fn ray(
    shape: BoardType,
    cells: Map<HexCoord, Piece>,
    from: HexCoord,
    q: int,
    r: int,
    d: (int, int),
) -> Seq<HexCoord>
    decreases slide_measure(shape, q, r, d),
{
    if (d.0 == 0 && d.1 == 0) || !shape_has(shape, q, r) {
        Seq::empty()
    } else if cells.contains_key(cell_at(q, r)) {
        if is_friendly(cells, from, cell_at(q, r)) {
            Seq::empty()
        } else {
            seq![cell_at(q, r)]
        }
    } else {
        proof {
            lemma_slide_measure(shape, q, r, d);
        }
        seq![cell_at(q, r)] + ray(shape, cells, from, q + d.0, r + d.1, d)
    }
}

/// The rays from `from` in each of the directions, one after the other.
pub open spec fn ray_targets(
    shape: BoardType,
    cells: Map<HexCoord, Piece>,
    from: HexCoord,
    dirs: Seq<(int, int)>,
) -> Seq<HexCoord>
    decreases dirs.len(),
{
    if dirs.len() == 0 {
        Seq::empty()
    } else {
        let d = dirs.last();
        ray_targets(shape, cells, from, dirs.drop_last()) + ray(
            shape,
            cells,
            from,
            from.q + d.0,
            from.r + d.1,
            d,
        )
    }
}

/// The single-step targets `from + d` for each offset in turn, kept when they are on the
/// board and do not hold a piece of the mover's colour.
pub open spec fn step_targets(
    shape: BoardType,
    cells: Map<HexCoord, Piece>,
    from: HexCoord,
    offs: Seq<(int, int)>,
) -> Seq<HexCoord>
    decreases offs.len(),
{
    if offs.len() == 0 {
        Seq::empty()
    } else {
        let d = offs.last();
        let t = cell_at(from.q + d.0, from.r + d.1);
        let rest = step_targets(shape, cells, from, offs.drop_last());
        if shape_has(shape, from.q + d.0, from.r + d.1) && !is_friendly(cells, from, t) {
            rest.push(t)
        } else {
            rest
        }
    }
}

/// The direction in which a pawn of the colour advances: White toward decreasing `r`.
pub open spec fn pawn_forward(color: Color) -> (int, int) {
    match color {
        Color::White => (0, -1),
        Color::Black => (0, 1),
    }
}

/// The two diagonal-forward capture directions of a pawn of the colour.
pub open spec fn pawn_captures(color: Color) -> Seq<(int, int)> {
    match color {
        Color::White => seq![(-1, -1), (1, -1)],
        Color::Black => seq![(-1, 1), (1, 1)],
    }
}

/// The capture of the pawn on `from` in direction `d`: the target, when it is on the
/// board and holds a piece of the other colour.
pub open spec fn pawn_capture_at(
    shape: BoardType,
    cells: Map<HexCoord, Piece>,
    from: HexCoord,
    d: (int, int),
) -> Seq<HexCoord> {
    let t = cell_at(from.q + d.0, from.r + d.1);
    if shape_has(shape, from.q + d.0, from.r + d.1) && cells.contains_key(t) && cells[t].color
        != cells[from].color {
        seq![t]
    } else {
        Seq::empty()
    }
}

/// Pawn moves: the empty cell straight ahead, then the two diagonal-forward captures.
/// The pawn's colour is that of the piece on `from`; with no piece there, no moves.
pub open spec fn pawn_targets(shape: BoardType, cells: Map<HexCoord, Piece>, from: HexCoord) -> Seq<
    HexCoord,
> {
    if !cells.contains_key(from) {
        Seq::empty()
    } else {
        let color = cells[from].color;
        let f = pawn_forward(color);
        let ahead = cell_at(from.q + f.0, from.r + f.1);
        let forward = if shape_has(shape, from.q + f.0, from.r + f.1) && !cells.contains_key(ahead) {
            seq![ahead]
        } else {
            Seq::empty()
        };
        forward + pawn_capture_at(shape, cells, from, pawn_captures(color)[0]) + pawn_capture_at(
            shape,
            cells,
            from,
            pawn_captures(color)[1],
        )
    }
}

/// The pseudo-legal destinations of a piece of the kind standing on `from`, in the order
/// the generator lists them. They ignore whether the mover's own King is left in check.
pub open spec fn piece_moves(
    kind: PieceType,
    from: HexCoord,
    shape: BoardType,
    cells: Map<HexCoord, Piece>,
) -> Seq<HexCoord> {
    match kind {
        PieceType::King => step_targets(shape, cells, from, orthogonal_dirs()),
        PieceType::Queen => ray_targets(shape, cells, from, orthogonal_dirs()) + ray_targets(
            shape,
            cells,
            from,
            diagonal_dirs(),
        ),
        PieceType::Rook => ray_targets(shape, cells, from, orthogonal_dirs()),
        PieceType::Bishop => ray_targets(shape, cells, from, diagonal_dirs()),
        PieceType::Knight => step_targets(shape, cells, from, knight_offsets()),
        PieceType::Pawn => pawn_targets(shape, cells, from),
        PieceType::Chancellor => ray_targets(shape, cells, from, orthogonal_dirs()) + step_targets(
            shape,
            cells,
            from,
            knight_offsets(),
        ),
        PieceType::Archbishop => ray_targets(shape, cells, from, diagonal_dirs()) + step_targets(
            shape,
            cells,
            from,
            knight_offsets(),
        ),
    }
}

/// Every cell of a ray lies strictly further along the direction than `from`, so `from`
/// is not among them.
proof fn lemma_ray_avoids(shape: BoardType, cells: Map<HexCoord, Piece>, from: HexCoord, q: int, r: int, d: (int, int))
    requires
        small_step(d),
        (q - from.q) * d.0 + (r - from.r) * d.1 > 0,
    ensures
        forall|i: int| 0 <= i < ray(shape, cells, from, q, r, d).len() ==> #[trigger] ray(shape, cells, from, q, r, d)[i] != from,
    decreases slide_measure(shape, q, r, d),
{
    if shape_has(shape, q, r) {
        assert(shape_radius(shape) <= i32::MAX);
        assert(cell_at(q, r).q == q && cell_at(q, r).r == r);
        if q == from.q && r == from.r {
            assert((q - from.q) * d.0 + (r - from.r) * d.1 == 0) by (nonlinear_arith)
                requires
                    q == from.q,
                    r == from.r,
            ;
        }
        assert(cell_at(q, r) != from);
        if !cells.contains_key(cell_at(q, r)) {
            lemma_slide_measure(shape, q, r, d);
            assert((q + d.0 - from.q) * d.0 + (r + d.1 - from.r) * d.1 > 0) by (nonlinear_arith)
                requires
                    (q - from.q) * d.0 + (r - from.r) * d.1 > 0,
            ;
            lemma_ray_avoids(shape, cells, from, q + d.0, r + d.1, d);
            let rest = ray(shape, cells, from, q + d.0, r + d.1, d);
            let all = ray(shape, cells, from, q, r, d);
            assert forall|i: int| 0 <= i < all.len() implies #[trigger] all[i] != from by {
                if i > 0 {
                    assert(all[i] == rest[i - 1]);
                }
            }
        }
    }
}

/// The rays from `from` do not come back to `from`.
proof fn lemma_rays_avoid(shape: BoardType, cells: Map<HexCoord, Piece>, from: HexCoord, dirs: Seq<(int, int)>)
    requires
        forall|j: int| 0 <= j < dirs.len() ==> small_step(#[trigger] dirs[j]),
    ensures
        forall|i: int| 0 <= i < ray_targets(shape, cells, from, dirs).len() ==> #[trigger] ray_targets(shape, cells, from, dirs)[i] != from,
    decreases dirs.len(),
{
    if dirs.len() > 0 {
        let d = dirs.last();
        assert(small_step(dirs[dirs.len() - 1]));
        lemma_rays_avoid(shape, cells, from, dirs.drop_last());
        assert((from.q + d.0 - from.q) * d.0 + (from.r + d.1 - from.r) * d.1 > 0) by (nonlinear_arith)
            requires
                small_step(d),
        ;
        lemma_ray_avoids(shape, cells, from, from.q + d.0, from.r + d.1, d);
        let a = ray_targets(shape, cells, from, dirs.drop_last());
        let b = ray(shape, cells, from, from.q + d.0, from.r + d.1, d);
        assert forall|i: int| 0 <= i < (a + b).len() implies #[trigger] (a + b)[i] != from by {
            if i >= a.len() {
                assert((a + b)[i] == b[i - a.len()]);
            }
        }
    }
}

/// Single steps by non-zero offsets do not land on `from`.
proof fn lemma_steps_avoid(shape: BoardType, cells: Map<HexCoord, Piece>, from: HexCoord, offs: Seq<(int, int)>)
    requires
        forall|j: int| 0 <= j < offs.len() ==> small_step(#[trigger] offs[j]),
    ensures
        forall|i: int| 0 <= i < step_targets(shape, cells, from, offs).len() ==> #[trigger] step_targets(shape, cells, from, offs)[i] != from,
    decreases offs.len(),
{
    if offs.len() > 0 {
        let d = offs.last();
        assert(small_step(offs[offs.len() - 1]));
        lemma_steps_avoid(shape, cells, from, offs.drop_last());
        if shape_has(shape, from.q + d.0, from.r + d.1) {
            assert(shape_radius(shape) <= i32::MAX);
            assert(cell_at(from.q + d.0, from.r + d.1).q == from.q + d.0);
            assert(cell_at(from.q + d.0, from.r + d.1).r == from.r + d.1);
            assert(cell_at(from.q + d.0, from.r + d.1) != from);
        }
        let rest = step_targets(shape, cells, from, offs.drop_last());
        let all = step_targets(shape, cells, from, offs);
        assert forall|i: int| 0 <= i < all.len() implies #[trigger] all[i] != from by {
            if i < rest.len() {
                assert(all[i] == rest[i]);
            }
        }
    }
}

proof fn lemma_direction_sets_small()
    ensures
        forall|j: int| 0 <= j < orthogonal_dirs().len() ==> small_step(#[trigger] orthogonal_dirs()[j]),
        forall|j: int| 0 <= j < diagonal_dirs().len() ==> small_step(#[trigger] diagonal_dirs()[j]),
        forall|j: int| 0 <= j < knight_offsets().len() ==> small_step(#[trigger] knight_offsets()[j]),
{
    assert forall|j: int| 0 <= j < orthogonal_dirs().len() implies small_step(#[trigger] orthogonal_dirs()[j]) by {
        assert(0 <= j < 6);
    }
    assert forall|j: int| 0 <= j < diagonal_dirs().len() implies small_step(#[trigger] diagonal_dirs()[j]) by {
        assert(0 <= j < 6);
    }
    assert forall|j: int| 0 <= j < knight_offsets().len() implies small_step(#[trigger] knight_offsets()[j]) by {
        assert(0 <= j < 12);
    }
}

/// No piece has its own cell among its destinations.
pub proof fn lemma_moves_avoid_origin(kind: PieceType, from: HexCoord, shape: BoardType, cells: Map<HexCoord, Piece>)
    ensures
        !piece_moves(kind, from, shape, cells).contains(from),
{
    lemma_direction_sets_small();
    lemma_rays_avoid(shape, cells, from, orthogonal_dirs());
    lemma_rays_avoid(shape, cells, from, diagonal_dirs());
    lemma_steps_avoid(shape, cells, from, orthogonal_dirs());
    lemma_steps_avoid(shape, cells, from, knight_offsets());
    let s = piece_moves(kind, from, shape, cells);
    if s.contains(from) {
        let i = choose|i: int| 0 <= i < s.len() && s[i] == from;
        match kind {
            PieceType::Queen => {
                let a = ray_targets(shape, cells, from, orthogonal_dirs());
                if i >= a.len() {
                    assert(s[i] == ray_targets(shape, cells, from, diagonal_dirs())[i - a.len()]);
                }
            },
            PieceType::Chancellor => {
                let a = ray_targets(shape, cells, from, orthogonal_dirs());
                if i >= a.len() {
                    assert(s[i] == step_targets(shape, cells, from, knight_offsets())[i - a.len()]);
                }
            },
            PieceType::Archbishop => {
                let a = ray_targets(shape, cells, from, diagonal_dirs());
                if i >= a.len() {
                    assert(s[i] == step_targets(shape, cells, from, knight_offsets())[i - a.len()]);
                }
            },
            PieceType::Pawn => {
                let color = cells[from].color;
                let f = pawn_forward(color);
                let c0 = pawn_captures(color)[0];
                let c1 = pawn_captures(color)[1];
                assert(!(shape_has(shape, from.q + f.0, from.r + f.1) && cell_at(from.q + f.0, from.r + f.1) == from));
                assert(!(shape_has(shape, from.q + c0.0, from.r + c0.1) && cell_at(from.q + c0.0, from.r + c0.1) == from));
                assert(!(shape_has(shape, from.q + c1.0, from.r + c1.1) && cell_at(from.q + c1.0, from.r + c1.1) == from));
            },
            _ => {},
        }
    }
}

/// Every cell of a ray is on the board and holds no piece of the mover's colour.
proof fn lemma_ray_lands_on_board(shape: BoardType, cells: Map<HexCoord, Piece>, from: HexCoord, q: int, r: int, d: (int, int))
    ensures
        forall|i: int| 0 <= i < ray(shape, cells, from, q, r, d).len() ==> {
            let t = #[trigger] ray(shape, cells, from, q, r, d)[i];
            shape_has(shape, t.q as int, t.r as int) && !is_friendly(cells, from, t)
        },
    decreases slide_measure(shape, q, r, d),
{
    if !(d.0 == 0 && d.1 == 0) && shape_has(shape, q, r) {
        assert(shape_radius(shape) <= i32::MAX);
        assert(cell_at(q, r).q == q && cell_at(q, r).r == r);
        if !cells.contains_key(cell_at(q, r)) {
            lemma_slide_measure(shape, q, r, d);
            lemma_ray_lands_on_board(shape, cells, from, q + d.0, r + d.1, d);
            let rest = ray(shape, cells, from, q + d.0, r + d.1, d);
            let all = ray(shape, cells, from, q, r, d);
            assert forall|i: int| 0 <= i < all.len() implies {
                let t = #[trigger] all[i];
                shape_has(shape, t.q as int, t.r as int) && !is_friendly(cells, from, t)
            } by {
                if i > 0 {
                    assert(all[i] == rest[i - 1]);
                }
            }
        }
    }
}

/// Every cell of the rays is on the board and holds no piece of the mover's colour.
proof fn lemma_rays_land_on_board(shape: BoardType, cells: Map<HexCoord, Piece>, from: HexCoord, dirs: Seq<(int, int)>)
    ensures
        forall|i: int| 0 <= i < ray_targets(shape, cells, from, dirs).len() ==> {
            let t = #[trigger] ray_targets(shape, cells, from, dirs)[i];
            shape_has(shape, t.q as int, t.r as int) && !is_friendly(cells, from, t)
        },
    decreases dirs.len(),
{
    if dirs.len() > 0 {
        let d = dirs.last();
        lemma_rays_land_on_board(shape, cells, from, dirs.drop_last());
        lemma_ray_lands_on_board(shape, cells, from, from.q + d.0, from.r + d.1, d);
        let a = ray_targets(shape, cells, from, dirs.drop_last());
        let b = ray(shape, cells, from, from.q + d.0, from.r + d.1, d);
        assert forall|i: int| 0 <= i < (a + b).len() implies {
            let t = #[trigger] (a + b)[i];
            shape_has(shape, t.q as int, t.r as int) && !is_friendly(cells, from, t)
        } by {
            if i >= a.len() {
                assert((a + b)[i] == b[i - a.len()]);
            } else {
                assert((a + b)[i] == a[i]);
            }
        }
    }
}

/// Every single-step target is on the board and holds no piece of the mover's colour.
proof fn lemma_steps_land_on_board(shape: BoardType, cells: Map<HexCoord, Piece>, from: HexCoord, offs: Seq<(int, int)>)
    ensures
        forall|i: int| 0 <= i < step_targets(shape, cells, from, offs).len() ==> {
            let t = #[trigger] step_targets(shape, cells, from, offs)[i];
            shape_has(shape, t.q as int, t.r as int) && !is_friendly(cells, from, t)
        },
    decreases offs.len(),
{
    if offs.len() > 0 {
        let d = offs.last();
        lemma_steps_land_on_board(shape, cells, from, offs.drop_last());
        if shape_has(shape, from.q + d.0, from.r + d.1) {
            assert(shape_radius(shape) <= i32::MAX);
            assert(cell_at(from.q + d.0, from.r + d.1).q == from.q + d.0);
            assert(cell_at(from.q + d.0, from.r + d.1).r == from.r + d.1);
        }
        let rest = step_targets(shape, cells, from, offs.drop_last());
        let all = step_targets(shape, cells, from, offs);
        assert forall|i: int| 0 <= i < all.len() implies {
            let t = #[trigger] all[i];
            shape_has(shape, t.q as int, t.r as int) && !is_friendly(cells, from, t)
        } by {
            if i < rest.len() {
                assert(all[i] == rest[i]);
            }
        }
    }
}

/// Every destination a piece generates is on the board and holds no piece of its colour.
pub proof fn lemma_moves_land_on_board(kind: PieceType, from: HexCoord, shape: BoardType, cells: Map<HexCoord, Piece>)
    ensures
        forall|i: int| 0 <= i < piece_moves(kind, from, shape, cells).len() ==> {
            let t = #[trigger] piece_moves(kind, from, shape, cells)[i];
            shape_has(shape, t.q as int, t.r as int) && !is_friendly(cells, from, t)
        },
{
    lemma_rays_land_on_board(shape, cells, from, orthogonal_dirs());
    lemma_rays_land_on_board(shape, cells, from, diagonal_dirs());
    lemma_steps_land_on_board(shape, cells, from, orthogonal_dirs());
    lemma_steps_land_on_board(shape, cells, from, knight_offsets());
    let s = piece_moves(kind, from, shape, cells);
    assert forall|i: int| 0 <= i < s.len() implies {
        let t = #[trigger] s[i];
        shape_has(shape, t.q as int, t.r as int) && !is_friendly(cells, from, t)
    } by {
        match kind {
            PieceType::Queen => {
                let a = ray_targets(shape, cells, from, orthogonal_dirs());
                if i >= a.len() {
                    assert(s[i] == ray_targets(shape, cells, from, diagonal_dirs())[i - a.len()]);
                } else {
                    assert(s[i] == a[i]);
                }
            },
            PieceType::Chancellor => {
                let a = ray_targets(shape, cells, from, orthogonal_dirs());
                if i >= a.len() {
                    assert(s[i] == step_targets(shape, cells, from, knight_offsets())[i - a.len()]);
                } else {
                    assert(s[i] == a[i]);
                }
            },
            PieceType::Archbishop => {
                let a = ray_targets(shape, cells, from, diagonal_dirs());
                if i >= a.len() {
                    assert(s[i] == step_targets(shape, cells, from, knight_offsets())[i - a.len()]);
                } else {
                    assert(s[i] == a[i]);
                }
            },
            PieceType::Pawn => {
                let color = cells[from].color;
                let f = pawn_forward(color);
                let c0 = pawn_captures(color)[0];
                let c1 = pawn_captures(color)[1];
                assert(shape_radius(shape) <= i32::MAX);
                if shape_has(shape, from.q + f.0, from.r + f.1) {
                    assert(cell_at(from.q + f.0, from.r + f.1).q == from.q + f.0);
                    assert(cell_at(from.q + f.0, from.r + f.1).r == from.r + f.1);
                }
                if shape_has(shape, from.q + c0.0, from.r + c0.1) {
                    assert(cell_at(from.q + c0.0, from.r + c0.1).q == from.q + c0.0);
                    assert(cell_at(from.q + c0.0, from.r + c0.1).r == from.r + c0.1);
                }
                if shape_has(shape, from.q + c1.0, from.r + c1.1) {
                    assert(cell_at(from.q + c1.0, from.r + c1.1).q == from.q + c1.0);
                    assert(cell_at(from.q + c1.0, from.r + c1.1).r == from.r + c1.1);
                }
            },
            _ => {},
        }
    }
}

/// A White pawn with an empty cell ahead on the board moves to that cell first, then to
/// each of its two forward diagonals that holds a Black piece, and to nothing else: the
/// cell ahead comes once, and no destination holds a White piece.
pub proof fn lemma_white_pawn_moves(shape: BoardType, cells: Map<HexCoord, Piece>, from: HexCoord)
    requires
        cells.contains_key(from),
        cells[from] == (Piece { piece_type: PieceType::Pawn, color: Color::White }),
        shape_has(shape, from.q as int, from.r - 1),
        !cells.contains_key(cell_at(from.q as int, from.r - 1)),
    ensures
        piece_moves(PieceType::Pawn, from, shape, cells) == seq![cell_at(from.q as int, from.r - 1)]
            + pawn_capture_at(shape, cells, from, (-1, -1)) + pawn_capture_at(shape, cells, from, (1, -1)),
        forall|d: (int, int)|
            (d == (-1int, -1int) || d == (1int, -1int)) ==> (pawn_capture_at(shape, cells, from, d).len() > 0
                <==> white_pawn_captures(shape, cells, from, d)),
        forall|i: int|
            0 < i < piece_moves(PieceType::Pawn, from, shape, cells).len() ==> #[trigger] piece_moves(
                PieceType::Pawn,
                from,
                shape,
                cells,
            )[i] != cell_at(from.q as int, from.r - 1),
        forall|i: int|
            0 <= i < piece_moves(PieceType::Pawn, from, shape, cells).len() ==> !is_friendly(
                cells,
                from,
                #[trigger] piece_moves(PieceType::Pawn, from, shape, cells)[i],
            ),
{
    let s = piece_moves(PieceType::Pawn, from, shape, cells);
    let ahead = cell_at(from.q as int, from.r - 1);
    let a = pawn_capture_at(shape, cells, from, (-1, -1));
    let b = pawn_capture_at(shape, cells, from, (1, -1));
    assert(pawn_captures(Color::White)[0] == (-1int, -1int));
    assert(pawn_captures(Color::White)[1] == (1int, -1int));
    assert(s =~= seq![ahead] + a + b);
    assert(shape_radius(shape) <= i32::MAX);
    lemma_moves_land_on_board(PieceType::Pawn, from, shape, cells);
    assert forall|i: int| 0 < i < s.len() implies #[trigger] s[i] != ahead by {
        if i < 1 + a.len() {
            assert(s[i] == a[i - 1]);
            assert(a[i - 1] == cell_at(from.q - 1, from.r - 1));
        } else {
            assert(s[i] == b[i - 1 - a.len()]);
            assert(b[i - 1 - a.len()] == cell_at(from.q + 1, from.r - 1));
        }
    }
}

/// The White pawn on `from` captures in direction `d`: the target is on the board and
/// holds a Black piece.
pub open spec fn white_pawn_captures(shape: BoardType, cells: Map<HexCoord, Piece>, from: HexCoord, d: (int, int)) -> bool {
    let t = cell_at(from.q + d.0, from.r + d.1);
    shape_has(shape, from.q + d.0, from.r + d.1) && cells.contains_key(t) && cells[t].color == Color::Black
}

/// Offsets given as machine integers, read as mathematical pairs.
pub open spec fn int_pairs(s: Seq<(i64, i64)>) -> Seq<(int, int)> {
    s.map_values(|p: (i64, i64)| (p.0 as int, p.1 as int))
}

fn orthogonal_offsets() -> (v: Vec<(i64, i64)>)
    ensures
        int_pairs(v@) == orthogonal_dirs(),
        forall|j: int| 0 <= j < v@.len() ==> small_step(#[trigger] int_pairs(v@)[j]),
{
    let v: Vec<(i64, i64)> = vec![(1, 0), (1, -1), (0, -1), (-1, 0), (-1, 1), (0, 1)];
    assert(int_pairs(v@) =~= orthogonal_dirs());
    v
}

fn diagonal_offsets() -> (v: Vec<(i64, i64)>)
    ensures
        int_pairs(v@) == diagonal_dirs(),
        forall|j: int| 0 <= j < v@.len() ==> small_step(#[trigger] int_pairs(v@)[j]),
{
    let v: Vec<(i64, i64)> = vec![(2, -1), (1, -2), (-1, -1), (-2, 1), (-1, 2), (1, 1)];
    assert(int_pairs(v@) =~= diagonal_dirs());
    v
}

fn knight_leaps() -> (v: Vec<(i64, i64)>)
    ensures
        int_pairs(v@) == knight_offsets(),
        forall|j: int| 0 <= j < v@.len() ==> small_step(#[trigger] int_pairs(v@)[j]),
{
    let v: Vec<(i64, i64)> = vec![
        (2, -1), (1, -2), (-1, -1), (-2, 1), (-1, 2), (1, 1),
        (3, -2), (2, -3), (-2, -1), (-3, 2), (-2, 3), (2, 1),
    ];
    assert(int_pairs(v@) =~= knight_offsets());
    v
}

/// Whether `c` holds a piece of the same colour as the piece on `from`.
fn friendly_at(board: &Board, from: HexCoord, c: HexCoord) -> (b: bool)
    requires
        board.wf(),
    ensures
        b == is_friendly(board.cells(), from, c),
{
    match board.get_piece(from) {
        Some(p) => match board.get_piece(c) {
            Some(t) => t.color == p.color,
            None => false,
        },
        None => false,
    }
}

/// Appends the ray from `from` in direction `(dq, dr)`.
fn push_ray(board: &Board, from: HexCoord, dq: i64, dr: i64, moves: &mut Vec<HexCoord>)
    requires
        board.wf(),
        small_step((dq as int, dr as int)),
    ensures
        final(moves)@ == old(moves)@ + ray(
            board.board_type,
            board.cells(),
            from,
            from.q + dq,
            from.r + dr,
            (dq as int, dr as int),
        ),
{
    let ghost shape = board.board_type;
    let ghost cells = board.cells();
    let ghost d = (dq as int, dr as int);
    let ghost target = old(moves)@ + ray(shape, cells, from, from.q + dq, from.r + dr, d);
    let mut q: i64 = from.q as i64 + dq;
    let mut r: i64 = from.r as i64 + dr;
    let mut stop = false;
    while !stop && crate::coords::shape_contains(board.board_type, q, r)
        invariant
            board.wf(),
            shape == board.board_type,
            cells == board.cells(),
            d == (dq as int, dr as int),
            small_step(d),
            i32::MIN - 8 <= q <= i32::MAX + 8,
            i32::MIN - 8 <= r <= i32::MAX + 8,
            stop ==> moves@ == target,
            !stop ==> moves@ + ray(shape, cells, from, q as int, r as int, d) == target,
        decreases slide_measure(shape, q as int, r as int, d),
    {
        let c = HexCoord::new(q as i32, r as i32);
        proof {
            lemma_slide_measure(shape, q as int, r as int, d);
            assert(c == cell_at(q as int, r as int));
        }
        if board.is_occupied(c) {
            if !friendly_at(board, from, c) {
                moves.push(c);
            }
            stop = true;
            assert(moves@ =~= target);
        } else {
            let ghost before = moves@;
            moves.push(c);
            assert(before + ray(shape, cells, from, q as int, r as int, d) =~= moves@ + ray(
                shape,
                cells,
                from,
                q + dq,
                r + dr,
                d,
            ));
        }
        q = q + dq;
        r = r + dr;
    }
    if !stop {
        assert(moves@ + ray(shape, cells, from, q as int, r as int, d) =~= moves@);
    }
}

/// Appends the rays from `from` in each of the directions.
fn push_rays(board: &Board, from: HexCoord, dirs: &Vec<(i64, i64)>, moves: &mut Vec<HexCoord>)
    requires
        board.wf(),
        forall|j: int| 0 <= j < dirs@.len() ==> small_step(#[trigger] int_pairs(dirs@)[j]),
    ensures
        final(moves)@ == old(moves)@ + ray_targets(board.board_type, board.cells(), from, int_pairs(dirs@)),
{
    let ghost all = int_pairs(dirs@);
    let mut i: usize = 0;
    while i < dirs.len()
        invariant
            board.wf(),
            all == int_pairs(dirs@),
            all.len() == dirs@.len(),
            forall|j: int| 0 <= j < dirs@.len() ==> small_step(#[trigger] int_pairs(dirs@)[j]),
            i <= dirs@.len(),
            moves@ == old(moves)@ + ray_targets(board.board_type, board.cells(), from, all.take(i as int)),
        decreases dirs@.len() - i,
    {
        let (dq, dr) = dirs[i];
        proof {
            assert(all[i as int] == (dq as int, dr as int));
            assert(small_step(int_pairs(dirs@)[i as int]));
            assert(all.take(i + 1).drop_last() =~= all.take(i as int));
        }
        push_ray(board, from, dq, dr, moves);
        i = i + 1;
    }
    assert(all.take(i as int) =~= all);
}

/// Appends, for each offset, the cell `from + offset` when it is on the board and holds
/// no piece of the mover's colour.
fn push_steps(board: &Board, from: HexCoord, offs: &Vec<(i64, i64)>, moves: &mut Vec<HexCoord>)
    requires
        board.wf(),
        forall|j: int| 0 <= j < offs@.len() ==> small_step(#[trigger] int_pairs(offs@)[j]),
    ensures
        final(moves)@ == old(moves)@ + step_targets(board.board_type, board.cells(), from, int_pairs(offs@)),
{
    let ghost all = int_pairs(offs@);
    let mut i: usize = 0;
    while i < offs.len()
        invariant
            board.wf(),
            all == int_pairs(offs@),
            all.len() == offs@.len(),
            forall|j: int| 0 <= j < offs@.len() ==> small_step(#[trigger] int_pairs(offs@)[j]),
            i <= offs@.len(),
            moves@ == old(moves)@ + step_targets(board.board_type, board.cells(), from, all.take(i as int)),
        decreases offs@.len() - i,
    {
        let (dq, dr) = offs[i];
        proof {
            assert(all[i as int] == (dq as int, dr as int));
            assert(small_step(int_pairs(offs@)[i as int]));
            assert(all.take(i + 1).drop_last() =~= all.take(i as int));
        }
        let q: i64 = from.q as i64 + dq;
        let r: i64 = from.r as i64 + dr;
        let ghost before = moves@;
        if crate::coords::shape_contains(board.board_type, q, r) {
            let t = HexCoord::new(q as i32, r as i32);
            assert(t == cell_at(q as int, r as int));
            if !friendly_at(board, from, t) {
                moves.push(t);
            }
        }
        assert(moves@ =~= old(moves)@ + step_targets(board.board_type, board.cells(), from, all.take(i + 1)));
        i = i + 1;
    }
    assert(all.take(i as int) =~= all);
}

/// Appends the pawn capture in direction `(dq, dr)` when the target is on the board and
/// holds a piece of the other colour.
fn push_pawn_capture(board: &Board, from: HexCoord, color: Color, dq: i64, dr: i64, moves: &mut Vec<HexCoord>)
    requires
        board.wf(),
        board.cells().contains_key(from),
        board.cells()[from].color == color,
        -1 <= dq <= 1,
        -1 <= dr <= 1,
    ensures
        final(moves)@ == old(moves)@ + pawn_capture_at(board.board_type, board.cells(), from, (dq as int, dr as int)),
{
    let q: i64 = from.q as i64 + dq;
    let r: i64 = from.r as i64 + dr;
    if crate::coords::shape_contains(board.board_type, q, r) {
        let t = HexCoord::new(q as i32, r as i32);
        assert(t == cell_at(q as int, r as int));
        match board.get_piece(t) {
            Some(target) => {
                if target.color != color {
                    moves.push(t);
                }
            },
            None => {},
        }
    }
    assert(moves@ =~= old(moves)@ + pawn_capture_at(board.board_type, board.cells(), from, (dq as int, dr as int)));
}

impl PieceType {
    /// The pseudo-legal destinations of a piece of this kind standing on `from`.
    pub fn get_moves(&self, from: HexCoord, board: &Board) -> (v: Vec<HexCoord>)
        requires
            board.wf(),
        ensures
            v@ == piece_moves(*self, from, board.board_type, board.cells()),
    {
        match self {
            PieceType::King => self.king_moves(from, board),
            PieceType::Queen => self.queen_moves(from, board),
            PieceType::Rook => self.rook_moves(from, board),
            PieceType::Bishop => self.bishop_moves(from, board),
            PieceType::Knight => self.knight_moves(from, board),
            PieceType::Pawn => self.pawn_moves(from, board),
            PieceType::Chancellor => self.chancellor_moves(from, board),
            PieceType::Archbishop => self.archbishop_moves(from, board),
        }
    }

    /// One step to each of the six edge-adjacent cells.
    fn king_moves(&self, from: HexCoord, board: &Board) -> (v: Vec<HexCoord>)
        requires
            board.wf(),
        ensures
            v@ == step_targets(board.board_type, board.cells(), from, orthogonal_dirs()),
    {
        let mut moves: Vec<HexCoord> = Vec::new();
        push_steps(board, from, &orthogonal_offsets(), &mut moves);
        moves
    }

    /// Rook moves followed by Bishop moves.
    fn queen_moves(&self, from: HexCoord, board: &Board) -> (v: Vec<HexCoord>)
        requires
            board.wf(),
        ensures
            v@ == ray_targets(board.board_type, board.cells(), from, orthogonal_dirs()) + ray_targets(
                board.board_type,
                board.cells(),
                from,
                diagonal_dirs(),
            ),
    {
        let mut moves: Vec<HexCoord> = Vec::new();
        push_rays(board, from, &orthogonal_offsets(), &mut moves);
        push_rays(board, from, &diagonal_offsets(), &mut moves);
        moves
    }

    /// Slides along the six edge directions.
    fn rook_moves(&self, from: HexCoord, board: &Board) -> (v: Vec<HexCoord>)
        requires
            board.wf(),
        ensures
            v@ == ray_targets(board.board_type, board.cells(), from, orthogonal_dirs()),
    {
        let mut moves: Vec<HexCoord> = Vec::new();
        push_rays(board, from, &orthogonal_offsets(), &mut moves);
        moves
    }

    /// Slides along the six across-corner directions.
    fn bishop_moves(&self, from: HexCoord, board: &Board) -> (v: Vec<HexCoord>)
        requires
            board.wf(),
        ensures
            v@ == ray_targets(board.board_type, board.cells(), from, diagonal_dirs()),
    {
        let mut moves: Vec<HexCoord> = Vec::new();
        push_rays(board, from, &diagonal_offsets(), &mut moves);
        moves
    }

    /// The twelve leaps, over any pieces in between.
    fn knight_moves(&self, from: HexCoord, board: &Board) -> (v: Vec<HexCoord>)
        requires
            board.wf(),
        ensures
            v@ == step_targets(board.board_type, board.cells(), from, knight_offsets()),
    {
        let mut moves: Vec<HexCoord> = Vec::new();
        push_steps(board, from, &knight_leaps(), &mut moves);
        moves
    }

    /// One step straight ahead onto an empty cell, and diagonal-forward captures.
    fn pawn_moves(&self, from: HexCoord, board: &Board) -> (v: Vec<HexCoord>)
        requires
            board.wf(),
        ensures
            v@ == pawn_targets(board.board_type, board.cells(), from),
    {
        let mut moves: Vec<HexCoord> = Vec::new();
        let piece = match board.get_piece(from) {
            Some(p) => *p,
            None => {
                assert(moves@ =~= pawn_targets(board.board_type, board.cells(), from));
                return moves;
            },
        };
        let forward: (i64, i64) = match piece.color {
            Color::White => (0, -1),
            Color::Black => (0, 1),
        };
        let q: i64 = from.q as i64 + forward.0;
        let r: i64 = from.r as i64 + forward.1;
        if crate::coords::shape_contains(board.board_type, q, r) {
            let t = HexCoord::new(q as i32, r as i32);
            assert(t == cell_at(q as int, r as int));
            if !board.is_occupied(t) {
                moves.push(t);
            }
        }
        let ghost forward_part = moves@;
        match piece.color {
            Color::White => {
                push_pawn_capture(board, from, piece.color, -1, -1, &mut moves);
                push_pawn_capture(board, from, piece.color, 1, -1, &mut moves);
            },
            Color::Black => {
                push_pawn_capture(board, from, piece.color, -1, 1, &mut moves);
                push_pawn_capture(board, from, piece.color, 1, 1, &mut moves);
            },
        }
        assert(moves@ =~= pawn_targets(board.board_type, board.cells(), from));
        moves
    }

    /// Rook moves followed by Knight moves.
    fn chancellor_moves(&self, from: HexCoord, board: &Board) -> (v: Vec<HexCoord>)
        requires
            board.wf(),
        ensures
            v@ == ray_targets(board.board_type, board.cells(), from, orthogonal_dirs()) + step_targets(
                board.board_type,
                board.cells(),
                from,
                knight_offsets(),
            ),
    {
        let mut moves: Vec<HexCoord> = Vec::new();
        push_rays(board, from, &orthogonal_offsets(), &mut moves);
        push_steps(board, from, &knight_leaps(), &mut moves);
        moves
    }

    /// Bishop moves followed by Knight moves.
    fn archbishop_moves(&self, from: HexCoord, board: &Board) -> (v: Vec<HexCoord>)
        requires
            board.wf(),
        ensures
            v@ == ray_targets(board.board_type, board.cells(), from, diagonal_dirs()) + step_targets(
                board.board_type,
                board.cells(),
                from,
                knight_offsets(),
            ),
    {
        let mut moves: Vec<HexCoord> = Vec::new();
        push_rays(board, from, &diagonal_offsets(), &mut moves);
        push_steps(board, from, &knight_leaps(), &mut moves);
        moves
    }
}

impl Color {
    /// The other colour.
    pub fn opponent(self) -> (c: Color)
        ensures
            c == opponent(self),
    {
        match self {
            Color::White => Color::Black,
            Color::Black => Color::White,
        }
    }
}

impl Piece {
    pub fn new(piece_type: PieceType, color: Color) -> (p: Self)
        ensures
            p.piece_type == piece_type,
            p.color == color,
    {
        Piece { piece_type, color }
    }

    /// The display letter of this piece.
    pub fn symbol(&self) -> (c: char)
        ensures
            c == piece_letter(*self),
    {
        match self.color {
            Color::White => match self.piece_type {
                PieceType::King => 'K',
                PieceType::Queen => 'Q',
                PieceType::Rook => 'R',
                PieceType::Bishop => 'B',
                PieceType::Knight => 'N',
                PieceType::Pawn => 'P',
                PieceType::Chancellor => 'C',
                PieceType::Archbishop => 'A',
            },
            Color::Black => match self.piece_type {
                PieceType::King => 'k',
                PieceType::Queen => 'q',
                PieceType::Rook => 'r',
                PieceType::Bishop => 'b',
                PieceType::Knight => 'n',
                PieceType::Pawn => 'p',
                PieceType::Chancellor => 'c',
                PieceType::Archbishop => 'a',
            },
        }
    }
}

} // verus!
