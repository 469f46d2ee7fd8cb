//! Axial hex coordinates, their geometry, and board shapes.
use vstd::prelude::*;

verus! {

/// Absolute value over the mathematical integers.
pub open spec fn abs(x: int) -> int {
    if x < 0 {
        -x
    } else {
        x
    }
}

/// Axial coordinates for hexagonal grids: `q` is the column, `r` the row.
/// The cube form is `(q, r, -q - r)`.
#[derive(Clone, Copy, PartialEq, Eq, Structural, Debug, Hash)]
pub struct HexCoord {
    pub q: i32,
    pub r: i32,
}

/// The third cube component of a coordinate.
pub open spec fn cube_s(c: HexCoord) -> int {
    -c.q - c.r
}

/// Hex distance of an axial offset: half the cube Manhattan length.
pub open spec fn offset_length(dq: int, dr: int) -> int {
    (abs(dq) + abs(dr) + abs(-dq - dr)) / 2
}

/// Hex distance between two coordinates.
pub open spec fn hex_distance(a: HexCoord, b: HexCoord) -> int {
    offset_length(a.q - b.q, a.r - b.r)
}

/// Membership of the axial point `(q, r)` in the regular hexagon of the given radius
/// centred on the origin: every cube component is at most `radius` in absolute value.
pub open spec fn in_hexagon_at(q: int, r: int, radius: int) -> bool {
    abs(q) <= radius && abs(r) <= radius && abs(-q - r) <= radius
}

/// Integer division rounding toward zero, for a positive divisor.
pub open spec fn div_toward_zero(a: int, n: int) -> int {
    if a >= 0 {
        a / n
    } else {
        -((-a) / n)
    }
}

/// Point `i` of `n` of the interpolated line from `a` to `b`: each axial component is
/// `a + (b - a) * i / n`, the division rounding toward zero.
pub open spec fn line_point(a: HexCoord, b: HexCoord, i: int, n: int) -> HexCoord {
    HexCoord {
        q: (a.q + div_toward_zero((b.q - a.q) * i, n)) as i32,
        r: (a.r + div_toward_zero((b.r - a.r) * i, n)) as i32,
    }
}

/// The interpolated line from `a` to `b`: the points `i = 0 ..= distance`, or `[a]`
/// when the two coincide.
pub open spec fn line_between(a: HexCoord, b: HexCoord) -> Seq<HexCoord> {
    let n = hex_distance(a, b);
    if n == 0 {
        seq![a]
    } else {
        Seq::new((n + 1) as nat, |i: int| line_point(a, b, i, n))
    }
}

/// A fraction `delta * i / n` with `0 <= i <= n`, rounded toward zero, lies between
/// 0 and `delta`.
proof fn lemma_fraction_between(delta: int, i: int, n: int)
    requires
        0 <= i <= n,
        n > 0,
    ensures
        delta >= 0 ==> 0 <= div_toward_zero(delta * i, n) <= delta,
        delta < 0 ==> delta <= div_toward_zero(delta * i, n) <= 0,
{
    let m = if delta >= 0 { delta } else { -delta };
    assert(0 <= m * i <= m * n) by (nonlinear_arith)
        requires
            m >= 0,
            0 <= i <= n,
    ;
    vstd::arithmetic::div_mod::lemma_div_is_ordered(m * i, m * n, n);
    vstd::arithmetic::div_mod::lemma_div_multiples_vanish(m, n);
    vstd::arithmetic::div_mod::lemma_div_pos_is_pos(m * i, n);
    assert((m * n) / n == m) by {
        vstd::arithmetic::mul::lemma_mul_is_commutative(m, n);
    }
    if delta < 0 {
        assert(delta * i == -(m * i)) by (nonlinear_arith)
            requires
                m == -delta,
        ;
    }
}

/// The hex distance bounds each axial component of the offset.
proof fn lemma_distance_bounds(a: HexCoord, b: HexCoord)
    ensures
        abs(b.q - a.q) <= hex_distance(a, b),
        abs(b.r - a.r) <= hex_distance(a, b),
{
}

/// The origin `(0, 0)`.
pub open spec fn origin() -> HexCoord {
    HexCoord { q: 0, r: 0 }
}

/// A cell lies in the hexagon of radius `radius` around the origin exactly when its hex
/// distance to the origin is at most `radius`.
pub proof fn lemma_in_hexagon_iff_within_distance(c: HexCoord, radius: int)
    ensures
        in_hexagon_at(c.q as int, c.r as int, radius) <==> hex_distance(c, origin()) <= radius,
{
}

/// Hex distance is a metric: zero from a cell to itself, symmetric, and obeying the
/// triangle inequality.
pub proof fn lemma_distance_is_metric(a: HexCoord, b: HexCoord, c: HexCoord)
    ensures
        hex_distance(a, a) == 0,
        hex_distance(a, b) == hex_distance(b, a),
        hex_distance(a, b) == 0 <==> a == b,
        hex_distance(a, c) <= hex_distance(a, b) + hex_distance(b, c),
{
}

/// The six edge-adjacent directions, in the fixed order East, Northeast, Northwest,
/// West, Southwest, Southeast.
pub open spec fn orthogonal_dirs() -> Seq<(int, int)> {
    seq![(1, 0), (1, -1), (0, -1), (-1, 0), (-1, 1), (0, 1)]
}

/// The six across-corner directions.
pub open spec fn diagonal_dirs() -> Seq<(int, int)> {
    seq![(2, -1), (1, -2), (-1, -1), (-2, 1), (-1, 2), (1, 1)]
}

/// The Gliński file letters `a`..`l` (no `j`) as the axial column `q`.
pub open spec fn file_column(file: char) -> Option<int> {
    if file == 'a' {
        Some(-5)
    } else if file == 'b' {
        Some(-4)
    } else if file == 'c' {
        Some(-3)
    } else if file == 'd' {
        Some(-2)
    } else if file == 'e' {
        Some(-1)
    } else if file == 'f' {
        Some(0)
    } else if file == 'g' {
        Some(1)
    } else if file == 'h' {
        Some(2)
    } else if file == 'i' {
        Some(3)
    } else if file == 'k' {
        Some(4)
    } else if file == 'l' {
        Some(5)
    } else {
        None
    }
}

/// The bottom cell of column `q` on the 91-cell board, the cell of rank 1.
pub open spec fn column_bottom(q: int) -> int {
    if q <= 0 {
        5
    } else {
        5 - q
    }
}

/// The file letter of column `q` of the 91-cell board.
pub open spec fn column_file(q: int) -> char {
    if q == -5 {
        'a'
    } else if q == -4 {
        'b'
    } else if q == -3 {
        'c'
    } else if q == -2 {
        'd'
    } else if q == -1 {
        'e'
    } else if q == 0 {
        'f'
    } else if q == 1 {
        'g'
    } else if q == 2 {
        'h'
    } else if q == 3 {
        'i'
    } else if q == 4 {
        'k'
    } else {
        'l'
    }
}

/// The cell that Gliński notation names on the 91-cell board: the file gives the
/// column `q`, and ranks count the column's `11 - |q|` cells from White's side, rank 1
/// being its bottom cell (the largest `r`).
pub open spec fn glinski_cell(file: char, rank: u8) -> Option<HexCoord> {
    match file_column(file) {
        Some(q) => if 1 <= rank <= 11 - abs(q) {
            Some(HexCoord { q: q as i32, r: (column_bottom(q) + 1 - rank) as i32 })
        } else {
            None
        },
        None => None,
    }
}

/// The cell named by `(file, rank)`, when there is one, lies in the hexagon of radius 5
/// in the column of its file.
pub open spec fn names_board_cell(file: char, rank: u8) -> bool {
    match glinski_cell(file, rank) {
        Some(h) => in_hexagon_at(h.q as int, h.r as int, 5) && file_column(file) == Some(h.q as int),
        None => true,
    }
}

/// Going one rank up a file moves one cell toward Black: same `q`, `r` one less.
pub open spec fn next_rank_steps_up(file: char, rank: u8) -> bool {
    match (glinski_cell(file, rank), glinski_cell(file, (rank + 1) as u8)) {
        (Some(a), Some(b)) => rank < 255 ==> b.q == a.q && b.r == a.r - 1,
        _ => true,
    }
}

/// Gliński notation covers the 91-cell board one to one: every named cell lies in the
/// hexagon of radius 5 in the column of its file, distinct names give distinct cells,
/// every cell of the hexagon has a name, and the next rank up a file is the next cell
/// toward Black.
pub proof fn lemma_glinski_notation_covers_board(f1: char, k1: u8, f2: char, k2: u8, c: HexCoord)
    ensures
        names_board_cell(f1, k1),
        next_rank_steps_up(f1, k1),
        glinski_cell(f1, k1).is_some() && glinski_cell(f1, k1) == glinski_cell(f2, k2) ==> f1 == f2
            && k1 == k2,
        in_hexagon_at(c.q as int, c.r as int, 5) ==> glinski_cell(
            column_file(c.q as int),
            (column_bottom(c.q as int) + 1 - c.r) as u8,
        ) == Some(c),
{
}

impl HexCoord {
    pub fn new(q: i32, r: i32) -> (c: Self)
        ensures
            c.q == q,
            c.r == r,
    {
        HexCoord { q, r }
    }

    /// The cube form `(q, r, s)` with `s = -q - r`.
    pub fn to_cube(self) -> (t: (i32, i32, i32))
        requires
            i32::MIN <= cube_s(self) <= i32::MAX,
        ensures
            t.0 == self.q,
            t.1 == self.r,
            t.2 == cube_s(self),
    {
        (self.q, self.r, (-(self.q as i64) - self.r as i64) as i32)
    }

    /// Builds a coordinate from its cube form; the third component is implied by
    /// the other two and is not consulted.
    pub fn from_cube(q: i32, r: i32, _s: i32) -> (c: Self)
        ensures
            c.q == q,
            c.r == r,
    {
        HexCoord { q, r }
    }

    /// The six edge-adjacent cells, in the order of `orthogonal_dirs`.
    pub fn neighbors(self) -> (n: [HexCoord; 6])
        requires
            i32::MIN < self.q < i32::MAX,
            i32::MIN < self.r < i32::MAX,
        ensures
            n@.len() == 6,
            forall|i: int|
                0 <= i < 6 ==> n@[i].q == self.q + orthogonal_dirs()[i].0 && n@[i].r == self.r
                    + orthogonal_dirs()[i].1,
            forall|i: int| 0 <= i < 6 ==> hex_distance(#[trigger] n@[i], self) == 1,
            forall|i: int, j: int| 0 <= i < 6 && 0 <= j < 6 && i != j ==> n@[i] != n@[j],
    {
        let n = [
            HexCoord::new(self.q + 1, self.r),
            HexCoord::new(self.q + 1, self.r - 1),
            HexCoord::new(self.q, self.r - 1),
            HexCoord::new(self.q - 1, self.r),
            HexCoord::new(self.q - 1, self.r + 1),
            HexCoord::new(self.q, self.r + 1),
        ];
        assert(n@ =~= seq![n[0], n[1], n[2], n[3], n[4], n[5]]);
        n
    }

    /// The six across-corner cells, in the order of `diagonal_dirs`.
    pub fn diagonal_neighbors(self) -> (n: [HexCoord; 6])
        requires
            i32::MIN + 2 <= self.q <= i32::MAX - 2,
            i32::MIN + 2 <= self.r <= i32::MAX - 2,
        ensures
            n@.len() == 6,
            forall|i: int|
                0 <= i < 6 ==> n@[i].q == self.q + diagonal_dirs()[i].0 && n@[i].r == self.r
                    + diagonal_dirs()[i].1,
    {
        let n = [
            HexCoord::new(self.q + 2, self.r - 1),
            HexCoord::new(self.q + 1, self.r - 2),
            HexCoord::new(self.q - 1, self.r - 1),
            HexCoord::new(self.q - 2, self.r + 1),
            HexCoord::new(self.q - 1, self.r + 2),
            HexCoord::new(self.q + 1, self.r + 1),
        ];
        assert(n@ =~= seq![n[0], n[1], n[2], n[3], n[4], n[5]]);
        n
    }

    /// Hex distance to `other`.
    pub fn distance_to(self, other: HexCoord) -> (d: i32)
        requires
            hex_distance(self, other) <= i32::MAX,
        ensures
            d == hex_distance(self, other),
    {
        let dq: i64 = self.q as i64 - other.q as i64;
        let dr: i64 = self.r as i64 - other.r as i64;
        let ds: i64 = -dq - dr;
        let aq: i64 = if dq < 0 { -dq } else { dq };
        let ar: i64 = if dr < 0 { -dr } else { dr };
        let a_s: i64 = if ds < 0 { -ds } else { ds };
        ((aq + ar + a_s) / 2) as i32
    }

    /// The interpolated line from this cell to `other`, endpoints included.
    pub fn line_to(self, other: HexCoord) -> (v: Vec<HexCoord>)
        requires
            hex_distance(self, other) <= i32::MAX,
        ensures
            v@ == line_between(self, other),
    {
        let distance = self.distance_to(other);
        if distance == 0 {
            return vec![self];
        }
        let n: i128 = distance as i128;
        let dq: i128 = other.q as i128 - self.q as i128;
        let dr: i128 = other.r as i128 - self.r as i128;
        proof {
            lemma_distance_bounds(self, other);
        }
        let mut result: Vec<HexCoord> = Vec::new();
        let mut i: i128 = 0;
        while i <= n
            invariant
                n == hex_distance(self, other),
                0 < n <= i32::MAX,
                dq == other.q - self.q,
                dr == other.r - self.r,
                abs(dq as int) <= n,
                abs(dr as int) <= n,
                0 <= i <= n + 1,
                result@.len() == i,
                forall|j: int| 0 <= j < i ==> #[trigger] result@[j] == line_point(self, other, j, n as int),
            decreases n + 1 - i,
        {
            assert(-(n * n) <= dq * i <= n * n && -(n * n) <= dr * i <= n * n) by (nonlinear_arith)
                requires
                    abs(dq as int) <= n,
                    abs(dr as int) <= n,
                    0 <= i <= n,
            ;
            assert(n * n <= 0x4000_0000_0000_0000) by (nonlinear_arith)
                requires
                    0 < n <= i32::MAX,
            ;
            let xq: i128 = dq * i;
            let xr: i128 = dr * i;
            let fq: i128 = if xq >= 0 { xq / n } else { -((-xq) / n) };
            let fr: i128 = if xr >= 0 { xr / n } else { -((-xr) / n) };
            proof {
                lemma_fraction_between(dq as int, i as int, n as int);
                lemma_fraction_between(dr as int, i as int, n as int);
            }
            result.push(HexCoord::new((self.q as i128 + fq) as i32, (self.r as i128 + fr) as i32));
            i = i + 1;
        }
        assert(result@ =~= line_between(self, other));
        result
    }

    /// Whether this cell lies in the regular hexagon of the given radius around the origin.
    pub fn in_hexagon(self, radius: i32) -> (b: bool)
        ensures
            b == in_hexagon_at(self.q as int, self.r as int, radius as int),
    {
        let q: i64 = self.q as i64;
        let r: i64 = self.r as i64;
        let s: i64 = -q - r;
        let rad: i64 = radius as i64;
        -rad <= q && q <= rad && -rad <= r && r <= rad && -rad <= s && s <= rad
    }

    /// The cell named by Gliński file/rank notation, if any.
    pub fn from_file_rank(file: char, rank: u8) -> (c: Option<Self>)
        ensures
            c == glinski_cell(file, rank),
    {
        file_rank_to_axial(file, rank)
    }
}

/// Gliński file/rank notation to axial coordinates on the 91-cell board. Files `a`..`l`
/// without `j` give the column (`f` is `q = 0`); rank 1 is the bottom cell of the
/// column on White's side, and a column of `11 - |q|` cells has that many ranks.
pub fn file_rank_to_axial(file: char, rank: u8) -> (c: Option<HexCoord>)
    ensures
        c == glinski_cell(file, rank),
{
    let q: i32 = match file {
        'a' => -5,
        'b' => -4,
        'c' => -3,
        'd' => -2,
        'e' => -1,
        'f' => 0,
        'g' => 1,
        'h' => 2,
        'i' => 3,
        'k' => 4,
        'l' => 5,
        _ => {
            return None;
        },
    };
    let ranks: i32 = if q < 0 { 11 + q } else { 11 - q };
    let bottom: i32 = if q <= 0 { 5 } else { 5 - q };
    if rank >= 1 && (rank as i32) <= ranks {
        Some(HexCoord::new(q, bottom + 1 - rank as i32))
    } else {
        None
    }
}

impl std::ops::Add for HexCoord {
    type Output = HexCoord;

    fn add(self, rhs: HexCoord) -> (c: HexCoord) {
        HexCoord::new(self.q + rhs.q, self.r + rhs.r)
    }
}

impl vstd::std_specs::ops::AddSpecImpl for HexCoord {
    open spec fn obeys_add_spec() -> bool {
        true
    }

    open spec fn add_req(self, rhs: HexCoord) -> bool {
        i32::MIN <= self.q + rhs.q <= i32::MAX && i32::MIN <= self.r + rhs.r <= i32::MAX
    }

    open spec fn add_spec(self, rhs: HexCoord) -> HexCoord {
        HexCoord { q: (self.q + rhs.q) as i32, r: (self.r + rhs.r) as i32 }
    }
}

impl std::ops::Sub for HexCoord {
    type Output = HexCoord;

    fn sub(self, rhs: HexCoord) -> (c: HexCoord) {
        HexCoord::new(self.q - rhs.q, self.r - rhs.r)
    }
}

impl vstd::std_specs::ops::SubSpecImpl for HexCoord {
    open spec fn obeys_sub_spec() -> bool {
        true
    }

    open spec fn sub_req(self, rhs: HexCoord) -> bool {
        i32::MIN <= self.q - rhs.q <= i32::MAX && i32::MIN <= self.r - rhs.r <= i32::MAX
    }

    open spec fn sub_spec(self, rhs: HexCoord) -> HexCoord {
        HexCoord { q: (self.q - rhs.q) as i32, r: (self.r - rhs.r) as i32 }
    }
}

/// The shape of a board, which fixes its set of cells.
#[derive(Clone, Copy, PartialEq, Eq, Structural, Debug)]
pub enum BoardType {
    /// Regular hexagon with the given radius (number of rings around the centre).
    Regular { radius: i32 },
    /// Irregular layout; no cells are defined for it yet.
    Irregular,
    /// The 37-cell hexagon of radius 3.
    Small,
}

/// The radius of the hexagon that a shape covers; negative for a shape with no cells.
pub open spec fn shape_radius(shape: BoardType) -> int {
    match shape {
        BoardType::Regular { radius } => radius as int,
        BoardType::Irregular => -1,
        BoardType::Small => 3,
    }
}

/// Whether the axial point `(q, r)` is a cell of the shape.
pub open spec fn shape_has(shape: BoardType, q: int, r: int) -> bool {
    in_hexagon_at(q, r, shape_radius(shape))
}

/// The number of cells of a shape: `3k² + 3k + 1` for a hexagon of radius `k`.
pub open spec fn cell_count(shape: BoardType) -> int {
    let k = shape_radius(shape);
    if k < 0 {
        0
    } else {
        3 * k * k + 3 * k + 1
    }
}

/// Strict lexicographic order on coordinates, by `q` then `r`.
pub open spec fn coord_lt(a: HexCoord, b: HexCoord) -> bool {
    a.q < b.q || (a.q == b.q && a.r < b.r)
}

/// Number of cells in the rows `-k <= q' < q` of the hexagon of radius `k`;
/// row `q'` holds `2k + 1 - |q'|` cells.
pub open spec fn cells_before_row(k: int, q: int) -> int
    decreases q + k,
{
    if q <= -k {
        0
    } else {
        cells_before_row(k, q - 1) + 2 * k + 1 - abs(q - 1)
    }
}

proof fn lemma_cells_before_row(k: int, q: int)
    requires
        k >= 0,
        -k <= q <= k + 1,
    ensures
        q <= 0 ==> 2 * cells_before_row(k, q) == 2 * (q + k) * (k + 1) + (q + k) * (q + k - 1),
        q >= 0 ==> 2 * cells_before_row(k, q) == 2 * k * (k + 1) + k * (k - 1) + 2 * q * (2 * k
            + 1) - q * (q - 1),
    decreases q + k,
{
    if q == 0 {
        assert(2 * (q + k) * (k + 1) + (q + k) * (q + k - 1) == 2 * k * (k + 1) + k * (k - 1) + 2
            * q * (2 * k + 1) - q * (q - 1)) by (nonlinear_arith)
            requires
                q == 0,
        ;
    }
    if q == -k {
        assert(2 * (q + k) * (k + 1) + (q + k) * (q + k - 1) == 0) by (nonlinear_arith)
            requires
                q + k == 0,
        ;
    }
    if q > -k {
        lemma_cells_before_row(k, q - 1);
        let p = cells_before_row(k, q - 1);
        if q <= 0 {
            assert(2 * (p + 2 * k + 1 + (q - 1)) == 2 * (q + k) * (k + 1) + (q + k) * (q + k - 1))
                by (nonlinear_arith)
                requires
                    2 * p == 2 * (q - 1 + k) * (k + 1) + (q - 1 + k) * (q - 1 + k - 1),
            ;
        } else {
            assert(2 * (p + 2 * k + 1 - (q - 1)) == 2 * k * (k + 1) + k * (k - 1) + 2 * q * (2 * k
                + 1) - q * (q - 1)) by (nonlinear_arith)
                requires
                    2 * p == 2 * k * (k + 1) + k * (k - 1) + 2 * (q - 1) * (2 * k + 1) - (q - 1) * (
                    q - 2),
            ;
        }
    }
}

/// Whether the axial point `(q, r)` is a cell of the shape.
pub fn shape_contains(shape: BoardType, q: i64, r: i64) -> (b: bool)
    requires
        i32::MIN - 8 <= q <= i32::MAX + 8,
        i32::MIN - 8 <= r <= i32::MAX + 8,
    ensures
        b == shape_has(shape, q as int, r as int),
{
    let k: i64 = match shape {
        BoardType::Regular { radius } => radius as i64,
        BoardType::Irregular => -1,
        BoardType::Small => 3,
    };
    let s: i64 = -q - r;
    -k <= q && q <= k && -k <= r && r <= k && -k <= s && s <= k
}

impl BoardType {
    /// All cells of the shape, row by row (`q` ascending, then `r` ascending).
    pub fn valid_coords(self) -> (v: Vec<HexCoord>)
        ensures
            forall|c: HexCoord| v@.contains(c) <==> shape_has(self, c.q as int, c.r as int),
            forall|i: int, j: int| 0 <= i < j < v@.len() ==> coord_lt(v@[i], v@[j]),
            v@.no_duplicates(),
            v@.len() == cell_count(self),
    {
        let k: i64 = match self {
            BoardType::Regular { radius } => radius as i64,
            BoardType::Irregular => -1,
            BoardType::Small => 3,
        };
        let mut v: Vec<HexCoord> = Vec::new();
        if k < 0 {
            assert forall|c: HexCoord| !shape_has(self, c.q as int, c.r as int) by {}
            return v;
        }
        let mut q: i64 = -k;
        while q <= k
            invariant
                k == shape_radius(self),
                0 <= k <= i32::MAX,
                -k <= q <= k + 1,
                v@.len() == cells_before_row(k as int, q as int),
                forall|i: int| 0 <= i < v@.len() ==> #[trigger] v@[i].q < q,
                forall|i: int|
                    0 <= i < v@.len() ==> shape_has(self, v@[i].q as int, #[trigger] v@[i].r as int),
                forall|i: int, j: int| 0 <= i < j < v@.len() ==> coord_lt(v@[i], v@[j]),
                forall|c: HexCoord|
                    shape_has(self, c.q as int, c.r as int) && c.q < q ==> #[trigger] v@.contains(c),
            decreases k + 1 - q,
        {
            let lo: i64 = if -k > -q - k { -k } else { -q - k };
            let hi: i64 = if k < -q + k { k } else { -q + k };
            let mut r: i64 = lo;
            let ghost start = v@.len();
            while r <= hi
                invariant
                    k == shape_radius(self),
                    0 <= k <= i32::MAX,
                    -k <= q <= k,
                    lo == (if -k > -q - k { -k as int } else { -q - k }),
                    hi == (if k < -q + k { k as int } else { -q + k }),
                    lo <= r <= hi + 1,
                    start == cells_before_row(k as int, q as int),
                    v@.len() == start + (r - lo),
                    forall|i: int| 0 <= i < v@.len() ==> #[trigger] v@[i].q < q || (v@[i].q == q
                        && v@[i].r < r),
                    forall|i: int|
                        0 <= i < v@.len() ==> shape_has(self, v@[i].q as int, #[trigger] v@[i].r as int),
                    forall|i: int, j: int| 0 <= i < j < v@.len() ==> coord_lt(v@[i], v@[j]),
                    forall|c: HexCoord|
                        shape_has(self, c.q as int, c.r as int) && (c.q < q || (c.q == q && c.r < r))
                            ==> #[trigger] v@.contains(c),
                decreases hi + 1 - r,
            {
                let c = HexCoord::new(q as i32, r as i32);
                let ghost old_v = v@;
                v.push(c);
                proof {
                    assert(v@[v@.len() - 1] == c);
                    assert forall|d: HexCoord|
                        shape_has(self, d.q as int, d.r as int) && (d.q < q || (d.q == q && d.r < r
                            + 1)) implies #[trigger] v@.contains(d) by {
                        if d == c {
                            assert(v@[v@.len() - 1] == d);
                        } else {
                            assert(old_v.contains(d));
                            let j = choose|j: int| 0 <= j < old_v.len() && old_v[j] == d;
                            assert(v@[j] == d);
                        }
                    }
                }
                r = r + 1;
            }
            proof {
                assert(cells_before_row(k as int, q + 1) == cells_before_row(k as int, q as int) + 2
                    * k + 1 - abs(q as int));
            }
            q = q + 1;
        }
        proof {
            lemma_cells_before_row(k as int, k + 1);
            assert(2 * cells_before_row(k as int, k + 1) == 2 * (3 * k * k + 3 * k + 1))
                by (nonlinear_arith)
                requires
                    2 * cells_before_row(k as int, k + 1) == 2 * k * (k + 1) + k * (k - 1) + 2 * (k
                        + 1) * (2 * k + 1) - (k + 1) * k,
            ;
            assert forall|c: HexCoord| #[trigger] v@.contains(c) implies shape_has(
                self,
                c.q as int,
                c.r as int,
            ) by {
                let j = choose|j: int| 0 <= j < v@.len() && v@[j] == c;
                assert(shape_has(self, v@[j].q as int, v@[j].r as int));
            }
            assert forall|i: int, j: int| 0 <= i < v@.len() && 0 <= j < v@.len() && i != j implies v@[i]
                != v@[j] by {
                if i < j {
                    assert(coord_lt(v@[i], v@[j]));
                } else {
                    assert(coord_lt(v@[j], v@[i]));
                }
            }
        }
        v
    }

    /// The centre cell, `(0, 0)` for every shape.
    pub fn center(self) -> (c: HexCoord)
        ensures
            c == origin(),
    {
        match self {
            BoardType::Regular { .. } | BoardType::Small => HexCoord::new(0, 0),
            BoardType::Irregular => HexCoord::new(0, 0),
        }
    }
}

} // verus!
