//! Board model: player signs, coordinates, cells and the 3x3 sub-grid,
//! with verified win and tie detection.
use vstd::prelude::*;
use vstd::pervasive::VecAdditionalExecFns;

verus! {

/// A player's marker.
#[derive(Copy, Clone, PartialEq, Eq, Structural, Debug, Hash)]
pub enum Sign {
    Cross,
    Circle,
}

impl Sign {
    /// The other player's sign.
    pub open spec fn spec_opponent(self) -> Sign {
        match self {
            Sign::Cross => Sign::Circle,
            Sign::Circle => Sign::Cross,
        }
    }

    #[verifier::when_used_as_spec(spec_opponent)]
    pub fn opponent(self) -> (r: Sign)
        ensures
            r == self.spec_opponent(),
    {
        match self {
            Sign::Cross => Sign::Circle,
            Sign::Circle => Sign::Cross,
        }
    }
}

/// A pair of components, each in [0, 3): selects a sub-grid within the
/// meta-grid or a cell within a sub-grid.
#[derive(Copy, Clone, PartialEq, Eq, Structural, Debug, Hash)]
pub struct Coord {
    pub x: usize,
    pub y: usize,
}

impl Coord {
    /// Both components are on the 3x3 grid.
    pub open spec fn valid(self) -> bool {
        self.x < 3 && self.y < 3
    }

    pub fn new(x: usize, y: usize) -> (r: Coord)
        requires
            x < 3,
            y < 3,
        ensures
            r == (Coord { x, y }),
    {
        Coord { x, y }
    }

    /// Reads a coordinate from the first two bytes of `data`; fails on a
    /// short slice or an out-of-range component.
    pub fn from_raw(data: &[u8]) -> (r: Option<Coord>)
        ensures
            r == Self::spec_from_raw(data@),
            r matches Some(c) ==> c.valid(),
    {
        if data.len() < 2 {
            return None;
        }
        let x = data[0] as usize;
        let y = data[1] as usize;
        if x < 3 && y < 3 {
            Some(Coord { x, y })
        } else {
            None
        }
    }

    /// What `from_raw` returns for a given byte sequence.
    pub open spec fn spec_from_raw(data: Seq<u8>) -> Option<Coord> {
        if data.len() >= 2 && data[0] < 3 && data[1] < 3 {
            Some(Coord { x: data[0] as usize, y: data[1] as usize })
        } else {
            None
        }
    }
}

/// One square of a sub-grid.
#[derive(Copy, Clone, PartialEq, Eq, Structural, Debug)]
pub enum Cell {
    Unset,
    Taken(Sign),
}

/// Column of point `j` on line `l`: lines 0..3 are the rows, 3..6 the
/// columns, 6 the main diagonal, 7 the anti-diagonal.
pub open spec fn line_x(l: int, j: int) -> int {
    if l < 3 {
        j
    } else if l < 6 {
        l - 3
    } else if l == 6 {
        j
    } else {
        2 - j
    }
}

/// Row of point `j` on line `l`.
pub open spec fn line_y(l: int, j: int) -> int {
    if l < 3 {
        l
    } else {
        j
    }
}

/// All three cells of line `l` carry `s`.
pub open spec fn line_complete(g: Grid, s: Sign, l: int) -> bool {
    forall|j: int|
        0 <= j < 3 ==> g.cell_at(#[trigger] line_x(l, j), line_y(l, j)) == Cell::Taken(s)
}

/// Some of the eight canonical lines is complete for `s`.
pub open spec fn has_win(g: Grid, s: Sign) -> bool {
    exists|l: int| 0 <= l < 8 && #[trigger] line_complete(g, s, l)
}

/// `(x, y)` is one of the first `jmax` points of line `l`.
pub open spec fn on_line_upto(l: int, jmax: int, x: int, y: int) -> bool {
    exists|j: int| 0 <= j < jmax && #[trigger] line_x(l, j) == x && line_y(l, j) == y
}

/// `(x, y)` lies on a line among the first `lmax` that is complete for `s`.
pub open spec fn in_win_upto(g: Grid, s: Sign, lmax: int, x: int, y: int) -> bool {
    exists|l: int| 0 <= l < lmax && #[trigger] line_complete(g, s, l) && on_line_upto(l, 3, x, y)
}

/// `(x, y)` lies on some complete line for `s`: the winning-cell union.
pub open spec fn in_win_set(g: Grid, s: Sign, x: int, y: int) -> bool {
    in_win_upto(g, s, 8, x, y)
}

/// Every coordinate of the winning-cell union occurs in `v`.
pub open spec fn covers_win_set(g: Grid, s: Sign, v: Seq<Coord>) -> bool {
    forall|x: int, y: int|
        #[trigger] in_win_set(g, s, x, y) ==> exists|i: int|
            0 <= i < v.len() && v[i].x == x && v[i].y == y
}

/// `cells` lists the winning-cell union of `s` on `g` exactly: distinct,
/// on-grid, each on a complete line, and together covering every such cell.
pub open spec fn win_cells_ok(g: Grid, s: Sign, cells: Seq<Coord>) -> bool {
    &&& forall|i: int, k: int| 0 <= i < k < cells.len() ==> cells[i] != cells[k]
    &&& forall|i: int|
        0 <= i < cells.len() ==> (#[trigger] cells[i]).valid() && in_win_set(
            g,
            s,
            cells[i].x as int,
            cells[i].y as int,
        )
    &&& covers_win_set(g, s, cells)
}

/// An empty sub-grid has no winning cells at all.
pub proof fn lemma_empty_no_win(g: Grid, s: Sign)
    requires
        g.is_empty_grid(),
    ensures
        !has_win(g, s),
        forall|x: int, y: int| !in_win_set(g, s, x, y),
{
    assert forall|l: int| 0 <= l < 8 implies !line_complete(g, s, l) by {
        lemma_line_in_range(l, 0);
        assert(g.cell_at(line_x(l, 0), line_y(l, 0)) == Cell::Unset);
    }
    assert forall|x: int, y: int| !in_win_set(g, s, x, y) by {
        if in_win_set(g, s, x, y) {
            let l = choose|l: int|
                0 <= l < 8 && #[trigger] line_complete(g, s, l) && on_line_upto(l, 3, x, y);
            assert(!line_complete(g, s, l));
        }
    }
}

/// With exactly one complete line, the winning-cell union is exactly that
/// line's three points.
pub proof fn lemma_single_line_win(g: Grid, s: Sign, l: int)
    requires
        0 <= l < 8,
        line_complete(g, s, l),
        forall|l2: int| 0 <= l2 < 8 && l2 != l ==> !(#[trigger] line_complete(g, s, l2)),
    ensures
        has_win(g, s),
        forall|x: int, y: int| in_win_set(g, s, x, y) <==> on_line_upto(l, 3, x, y),
{
    assert forall|x: int, y: int| in_win_set(g, s, x, y) <==> on_line_upto(l, 3, x, y) by {
        if in_win_set(g, s, x, y) {
            let l2 = choose|l2: int|
                0 <= l2 < 8 && #[trigger] line_complete(g, s, l2) && on_line_upto(l2, 3, x, y);
            assert(l2 == l);
        }
        if on_line_upto(l, 3, x, y) {
            assert(0 <= l < 8 && line_complete(g, s, l) && on_line_upto(l, 3, x, y));
            assert(in_win_set(g, s, x, y));
        }
    }
}

/// The three points of one line are pairwise distinct.
pub proof fn lemma_line_points_distinct(l: int, j1: int, j2: int)
    requires
        0 <= l < 8,
        0 <= j1 < 3,
        0 <= j2 < 3,
        j1 != j2,
    ensures
        line_x(l, j1) != line_x(l, j2) || line_y(l, j1) != line_y(l, j2),
{
}

/// Every point of every line stays on the 3x3 grid.
pub proof fn lemma_line_in_range(l: int, j: int)
    requires
        0 <= l < 8,
        0 <= j < 3,
    ensures
        0 <= line_x(l, j) < 3,
        0 <= line_y(l, j) < 3,
{
}

/// The mask marks exactly the cells covered by complete lines among the
/// first `lmax`.
spec fn mask_matches(mask: Seq<bool>, g: Grid, s: Sign, lmax: int) -> bool {
    forall|x: int, y: int|
        0 <= x < 3 && 0 <= y < 3 ==> mask[y * 3 + x] == #[trigger] in_win_upto(g, s, lmax, x, y)
}

/// `(x, y)` is covered by a complete line among the first `l`, or is one of
/// the first `jmax` points of line `l` itself.
spec fn covered(g: Grid, s: Sign, l: int, jmax: int, x: int, y: int) -> bool {
    in_win_upto(g, s, l, x, y) || on_line_upto(l, jmax, x, y)
}

/// The mask marks the cells covered by the first `l` lines, plus the first
/// `jmax` points of line `l` itself.
spec fn mask_matches_part(mask: Seq<bool>, g: Grid, s: Sign, l: int, jmax: int) -> bool {
    forall|x: int, y: int|
        0 <= x < 3 && 0 <= y < 3 ==> mask[y * 3 + x] == #[trigger] covered(g, s, l, jmax, x, y)
}

/// The point `j` of line `l`, as an on-grid coordinate.
fn line_cell(l: usize, j: usize) -> (c: Coord)
    requires
        l < 8,
        j < 3,
    ensures
        c.valid(),
        c.x as int == line_x(l as int, j as int),
        c.y as int == line_y(l as int, j as int),
{
    let x: usize = if l < 3 {
        j
    } else if l < 6 {
        l - 3
    } else if l == 6 {
        j
    } else {
        2 - j
    };
    let y: usize = if l < 3 {
        l
    } else {
        j
    };
    Coord { x, y }
}

/// One 3x3 sub-grid, stored row-major.
#[derive(Debug)]
pub struct Grid {
    cells: Vec<Cell>,
}

impl Grid {
    /// The grid holds exactly its nine cells.
    pub closed spec fn wf(self) -> bool {
        self.cells@.len() == 9
    }

    /// The cell at column `x`, row `y`.
    pub closed spec fn cell_at(self, x: int, y: int) -> Cell {
        self.cells@[y * 3 + x]
    }

    /// Every cell is unset.
    pub open spec fn is_empty_grid(self) -> bool {
        forall|x: int, y: int| 0 <= x < 3 && 0 <= y < 3 ==> self.cell_at(x, y) == Cell::Unset
    }

    /// Every cell is set.
    pub open spec fn full(self) -> bool {
        forall|x: int, y: int| 0 <= x < 3 && 0 <= y < 3 ==> self.cell_at(x, y) != Cell::Unset
    }

    pub fn new() -> (g: Grid)
        ensures
            g.wf(),
            g.is_empty_grid(),
    {
        let mut cells: Vec<Cell> = Vec::new();
        let mut i: usize = 0;
        while i < 9
            invariant
                cells@.len() == i,
                i <= 9,
                forall|k: int| 0 <= k < i ==> cells@[k] == Cell::Unset,
            decreases 9 - i,
        {
            cells.push(Cell::Unset);
            i += 1;
        }
        let g = Grid { cells };
        assert forall|x: int, y: int| 0 <= x < 3 && 0 <= y < 3 implies g.cell_at(x, y)
            == Cell::Unset by {
            assert(0 <= y * 3 + x < 9);
        }
        g
    }

    pub fn get(&self, c: Coord) -> (r: Cell)
        requires
            self.wf(),
            c.valid(),
        ensures
            r == self.cell_at(c.x as int, c.y as int),
    {
        self.cells[c.y * 3 + c.x]
    }

    pub fn set_at(&mut self, c: Coord, v: Cell)
        requires
            old(self).wf(),
            c.valid(),
        ensures
            final(self).wf(),
            final(self).cell_at(c.x as int, c.y as int) == v,
            forall|x: int, y: int|
                0 <= x < 3 && 0 <= y < 3 && !(x == c.x as int && y == c.y as int)
                    ==> final(self).cell_at(x, y) == old(self).cell_at(x, y),
    {
        self.cells.set(c.y * 3 + c.x, v);
        assert forall|x: int, y: int|
            0 <= x < 3 && 0 <= y < 3 && !(x == c.x as int && y == c.y as int) implies self.cell_at(
            x,
            y,
        ) == old(self).cell_at(x, y) by {
            assert(y * 3 + x != c.y as int * 3 + c.x as int);
        }
    }

    /// True iff the three cells of line `l` all carry `s`.
    fn check_line(&self, s: Sign, l: usize) -> (r: bool)
        requires
            self.wf(),
            l < 8,
        ensures
            r == line_complete(*self, s, l as int),
    {
        let mut j: usize = 0;
        while j < 3
            invariant
                self.wf(),
                l < 8,
                j <= 3,
                forall|jj: int|
                    0 <= jj < j ==> self.cell_at(line_x(l as int, jj), line_y(l as int, jj))
                        == Cell::Taken(s),
            decreases 3 - j,
        {
            let c = line_cell(l, j);
            if !matches!(self.get(c), Cell::Taken(t) if t == s) {
                assert(self.cell_at(line_x(l as int, j as int), line_y(l as int, j as int))
                    != Cell::Taken(s));
                return false;
            }
            j += 1;
        }
        true
    }

    /// Every completed line of `sign`, as the union of their coordinates:
    /// `None` when no line is complete, else the distinct coordinates of all
    /// simultaneously completed lines (a single move can finish several).
    #[verifier::rlimit(60)]
    pub fn is_win(&self, sign: Sign) -> (r: Option<Vec<Coord>>)
        requires
            self.wf(),
        ensures
            r is None ==> !has_win(*self, sign),
            r is Some ==> has_win(*self, sign),
            r matches Some(v) ==> forall|i: int, k: int| 0 <= i < k < v@.len() ==> v@[i] != v@[k],
            r matches Some(v) ==> forall|i: int|
                0 <= i < v@.len() ==> (#[trigger] v@[i]).valid() && in_win_set(
                    *self,
                    sign,
                    v@[i].x as int,
                    v@[i].y as int,
                ),
            r matches Some(v) ==> covers_win_set(*self, sign, v@),
    {
        let mut mask: Vec<bool> = Vec::new();
        let mut i: usize = 0;
        while i < 9
            invariant
                mask@.len() == i,
                i <= 9,
                forall|k: int| 0 <= k < i ==> !mask@[k],
            decreases 9 - i,
        {
            mask.push(false);
            i += 1;
        }
        assert(mask_matches(mask@, *self, sign, 0)) by {
            assert forall|x: int, y: int| 0 <= x < 3 && 0 <= y < 3 implies mask@[y * 3 + x]
                == in_win_upto(*self, sign, 0, x, y) by {
                assert(0 <= y * 3 + x < 9);
                assert(!in_win_upto(*self, sign, 0, x, y));
            }
        }

        let mut l: usize = 0;
        while l < 8
            invariant
                self.wf(),
                mask@.len() == 9,
                l <= 8,
                mask_matches(mask@, *self, sign, l as int),
            decreases 8 - l,
        {
            let ghost lc = l as int;
            let ghost lnext = lc + 1;
            if self.check_line(sign, l) {
                let mut j: usize = 0;
                assert(mask_matches_part(mask@, *self, sign, lc, 0)) by {
                    assert forall|x: int, y: int| 0 <= x < 3 && 0 <= y < 3 implies mask@[y * 3 + x]
                        == (in_win_upto(*self, sign, lc, x, y) || on_line_upto(lc, 0, x, y)) by {
                        assert(mask@[y * 3 + x] == in_win_upto(*self, sign, lc, x, y));
                        assert(!on_line_upto(lc, 0, x, y));
                        assert(mask@[y * 3 + x] == covered(*self, sign, lc, 0, x, y));
                    }
                }
                while j < 3
                    invariant
                        self.wf(),
                        mask@.len() == 9,
                        l < 8,
                        lc == l as int,
                        j <= 3,
                        line_complete(*self, sign, lc),
                        mask_matches_part(mask@, *self, sign, lc, j as int),
                    decreases 3 - j,
                {
                    let ghost jc = j as int;
                    let ghost jnext = jc + 1;
                    let c = line_cell(l, j);
                    let ghost m0 = mask@;
                    mask.set(c.y * 3 + c.x, true);
                    assert(mask_matches_part(mask@, *self, sign, lc, jnext)) by {
                        assert forall|x: int, y: int|
                            0 <= x < 3 && 0 <= y < 3 implies mask@[y * 3 + x] == covered(
                            *self,
                            sign,
                            lc,
                            jnext,
                            x,
                            y,
                        ) by {
                            if x == c.x as int && y == c.y as int {
                                assert(y * 3 + x == c.y * 3 + c.x);
                                assert(mask@[y * 3 + x]);
                                assert(0 <= jc < jnext && line_x(lc, jc) == x && line_y(lc, jc)
                                    == y);
                                assert(on_line_upto(lc, jnext, x, y));
                            } else {
                                assert(y * 3 + x != c.y * 3 + c.x);
                                assert(mask@[y * 3 + x] == m0[y * 3 + x]);
                                assert(m0[y * 3 + x] == covered(*self, sign, lc, jc, x, y));
                                if on_line_upto(lc, jnext, x, y) {
                                    let jj = choose|jj: int|
                                        0 <= jj < jnext && #[trigger] line_x(lc, jj) == x
                                            && line_y(lc, jj) == y;
                                    assert(jj != jc);
                                    assert(on_line_upto(lc, jc, x, y));
                                }
                                if on_line_upto(lc, jc, x, y) {
                                    let jj = choose|jj: int|
                                        0 <= jj < jc && #[trigger] line_x(lc, jj) == x && line_y(
                                            lc,
                                            jj,
                                        ) == y;
                                    assert(0 <= jj < jnext && line_x(lc, jj) == x && line_y(
                                        lc,
                                        jj,
                                    ) == y);
                                    assert(on_line_upto(lc, jnext, x, y));
                                }
                            }
                        }
                    }
                    j += 1;
                }
                assert(mask_matches(mask@, *self, sign, lnext)) by {
                    assert forall|x: int, y: int| 0 <= x < 3 && 0 <= y < 3 implies mask@[y * 3 + x]
                        == in_win_upto(*self, sign, lnext, x, y) by {
                        assert(mask@[y * 3 + x] == covered(*self, sign, lc, 3, x, y));
                        if in_win_upto(*self, sign, lnext, x, y) {
                            let ll = choose|ll: int|
                                0 <= ll < lnext && #[trigger] line_complete(*self, sign, ll)
                                    && on_line_upto(ll, 3, x, y);
                            if ll < lc {
                                assert(in_win_upto(*self, sign, lc, x, y));
                            }
                        }
                        if in_win_upto(*self, sign, lc, x, y) {
                            let ll = choose|ll: int|
                                0 <= ll < lc && #[trigger] line_complete(*self, sign, ll)
                                    && on_line_upto(ll, 3, x, y);
                            assert(0 <= ll < lnext && line_complete(*self, sign, ll)
                                && on_line_upto(ll, 3, x, y));
                            assert(in_win_upto(*self, sign, lnext, x, y));
                        }
                        if on_line_upto(lc, 3, x, y) {
                            assert(0 <= lc < lnext && line_complete(*self, sign, lc)
                                && on_line_upto(lc, 3, x, y));
                            assert(in_win_upto(*self, sign, lnext, x, y));
                        }
                    }
                }
            } else {
                assert(mask_matches(mask@, *self, sign, lnext)) by {
                    assert forall|x: int, y: int| 0 <= x < 3 && 0 <= y < 3 implies mask@[y * 3 + x]
                        == in_win_upto(*self, sign, lnext, x, y) by {
                        assert(mask@[y * 3 + x] == in_win_upto(*self, sign, lc, x, y));
                        if in_win_upto(*self, sign, lnext, x, y) {
                            let ll = choose|ll: int|
                                0 <= ll < lnext && #[trigger] line_complete(*self, sign, ll)
                                    && on_line_upto(ll, 3, x, y);
                            assert(ll != lc);
                            assert(in_win_upto(*self, sign, lc, x, y));
                        }
                        if in_win_upto(*self, sign, lc, x, y) {
                            let ll = choose|ll: int|
                                0 <= ll < lc && #[trigger] line_complete(*self, sign, ll)
                                    && on_line_upto(ll, 3, x, y);
                            assert(0 <= ll < lnext && line_complete(*self, sign, ll)
                                && on_line_upto(ll, 3, x, y));
                            assert(in_win_upto(*self, sign, lnext, x, y));
                        }
                    }
                }
            }
            l += 1;
        }

        assert(mask_matches(mask@, *self, sign, 8));
        let mut v: Vec<Coord> = Vec::new();
        let mut idx: usize = 0;
        while idx < 9
            invariant
                self.wf(),
                mask@.len() == 9,
                idx <= 9,
                mask_matches(mask@, *self, sign, 8),
                forall|i: int| 0 <= i < v@.len() ==> (#[trigger] v@[i]).valid(),
                forall|i: int| 0 <= i < v@.len() ==> (#[trigger] v@[i]).y * 3 + v@[i].x < idx,
                forall|i: int, k: int|
                    0 <= i < k < v@.len() ==> ((#[trigger] v@[i]).y * 3 + v@[i].x) < ((
                    #[trigger] v@[k]).y * 3 + v@[k].x),
                forall|i: int|
                    0 <= i < v@.len() ==> in_win_set(
                        *self,
                        sign,
                        (#[trigger] v@[i]).x as int,
                        v@[i].y as int,
                    ),
                forall|x: int, y: int|
                    0 <= x < 3 && 0 <= y < 3 && y * 3 + x < idx && #[trigger] in_win_set(
                        *self,
                        sign,
                        x,
                        y,
                    ) ==> exists|i: int| 0 <= i < v@.len() && v@[i].x == x && v@[i].y == y,
            decreases 9 - idx,
        {
            let ghost v0 = v@;
            if mask[idx] {
                let c = Coord { x: idx % 3, y: idx / 3 };
                assert(c.y * 3 + c.x == idx);
                assert(in_win_set(*self, sign, c.x as int, c.y as int)) by {
                    assert(mask@[c.y * 3 + c.x] == in_win_upto(
                        *self,
                        sign,
                        8,
                        c.x as int,
                        c.y as int,
                    ));
                }
                v.push(c);
            }
            assert forall|x: int, y: int|
                0 <= x < 3 && 0 <= y < 3 && y * 3 + x < idx + 1 && #[trigger] in_win_set(
                    *self,
                    sign,
                    x,
                    y,
                ) implies exists|i: int|
                0 <= i < v@.len() && v@[i].x == x && v@[i].y == y by {
                if y * 3 + x == idx {
                    assert(mask@[y * 3 + x] == in_win_upto(*self, sign, 8, x, y));
                    assert(mask@[idx as int]);
                    assert(v@[v@.len() - 1].x == x && v@[v@.len() - 1].y == y);
                } else {
                    let i0 = choose|i0: int|
                        0 <= i0 < v0.len() && (#[trigger] v0[i0]).x == x && v0[i0].y == y;
                    assert(v@[i0].x == x && v@[i0].y == y);
                }
            }
            idx += 1;
        }

        if v.len() == 0 {
            proof {
                if has_win(*self, sign) {
                    let lw = choose|lw: int| 0 <= lw < 8 && line_complete(*self, sign, lw);
                    lemma_line_in_range(lw, 0);
                    assert(on_line_upto(lw, 3, line_x(lw, 0), line_y(lw, 0)));
                    assert(in_win_set(*self, sign, line_x(lw, 0), line_y(lw, 0)));
                    assert(false);
                }
                assert(!has_win(*self, sign));
            }
            None
        } else {
            proof {
                let c0 = v@[0];
                assert(in_win_set(*self, sign, c0.x as int, c0.y as int));
                let lw = choose|lw: int|
                    0 <= lw < 8 && line_complete(*self, sign, lw) && on_line_upto(
                        lw,
                        3,
                        c0.x as int,
                        c0.y as int,
                    );
                assert(has_win(*self, sign));
                assert forall|i: int, k: int| 0 <= i < k < v@.len() implies v@[i] != v@[k] by {
                    assert((v@[i].y * 3 + v@[i].x) < (v@[k].y * 3 + v@[k].x));
                }
                assert forall|x: int, y: int| #[trigger] in_win_set(*self, sign, x, y) implies exists|i: int|
                    0 <= i < v@.len() && v@[i].x == x && v@[i].y == y by {
                    let lw2 = choose|lw2: int|
                        0 <= lw2 < 8 && #[trigger] line_complete(*self, sign, lw2) && on_line_upto(
                            lw2,
                            3,
                            x,
                            y,
                        );
                    let jj = choose|jj: int|
                        0 <= jj < 3 && #[trigger] line_x(lw2, jj) == x && line_y(lw2, jj) == y;
                    lemma_line_in_range(lw2, jj);
                    assert(0 <= x < 3 && 0 <= y < 3);
                }
                assert(covers_win_set(*self, sign, v@));
            }
            Some(v)
        }
    }

    /// True iff every cell of the sub-grid is set.
    pub fn is_tie(&self) -> (r: bool)
        requires
            self.wf(),
        ensures
            r == self.full(),
    {
        let mut i: usize = 0;
        while i < 9
            invariant
                self.wf(),
                i <= 9,
                forall|k: int| 0 <= k < i ==> self.cells@[k] != Cell::Unset,
            decreases 9 - i,
        {
            if matches!(self.cells[i], Cell::Unset) {
                assert(self.cell_at(i as int % 3, i as int / 3) == Cell::Unset);
                return false;
            }
            i += 1;
        }
        assert forall|x: int, y: int| 0 <= x < 3 && 0 <= y < 3 implies self.cell_at(x, y)
            != Cell::Unset by {
            assert(0 <= y * 3 + x < 9);
        }
        true
    }
}

/// The 3x3 meta-grid of sub-grids, indexed by an outer coordinate, then an
/// inner one.
#[derive(Debug)]
pub struct Board {
    grids: Vec<Grid>,
}

/// `post` is `pre` with the cell at (`outer`, `inner`) set to `s` and every
/// other cell unchanged.
pub open spec fn board_placed(pre: Board, post: Board, outer: Coord, inner: Coord, s: Sign) -> bool {
    &&& post.cell(outer, inner) == Cell::Taken(s)
    &&& forall|ox: int, oy: int, ix: int, iy: int|
        0 <= ox < 3 && 0 <= oy < 3 && 0 <= ix < 3 && 0 <= iy < 3 && !(ox == outer.x as int && oy
            == outer.y as int && ix == inner.x as int && iy == inner.y as int)
            ==> #[trigger] post.sub_at(ox, oy).cell_at(ix, iy) == pre.sub_at(ox, oy).cell_at(ix, iy)
}

impl Board {
    /// The board holds its nine well-formed sub-grids.
    pub closed spec fn wf(self) -> bool {
        self.grids@.len() == 9 && forall|k: int| 0 <= k < 9 ==> (#[trigger] self.grids@[k]).wf()
    }

    /// The sub-grid at outer column `x`, row `y`.
    pub closed spec fn sub_at(self, x: int, y: int) -> Grid {
        self.grids@[y * 3 + x]
    }

    /// The cell selected by an outer and an inner coordinate.
    pub open spec fn cell(self, outer: Coord, inner: Coord) -> Cell {
        self.sub_at(outer.x as int, outer.y as int).cell_at(inner.x as int, inner.y as int)
    }

    /// Every cell of every sub-grid is unset.
    pub open spec fn is_empty_board(self) -> bool {
        forall|x: int, y: int|
            0 <= x < 3 && 0 <= y < 3 ==> (#[trigger] self.sub_at(x, y)).is_empty_grid()
    }

    pub fn new() -> (b: Board)
        ensures
            b.wf(),
            b.is_empty_board(),
    {
        let mut grids: Vec<Grid> = Vec::new();
        let mut i: usize = 0;
        while i < 9
            invariant
                grids@.len() == i,
                i <= 9,
                forall|k: int|
                    0 <= k < i ==> (#[trigger] grids@[k]).wf() && grids@[k].is_empty_grid(),
            decreases 9 - i,
        {
            grids.push(Grid::new());
            i += 1;
        }
        let b = Board { grids };
        assert forall|x: int, y: int| 0 <= x < 3 && 0 <= y < 3 implies (#[trigger] b.sub_at(
            x,
            y,
        )).is_empty_grid() by {
            assert(0 <= y * 3 + x < 9);
        }
        b
    }

    /// The sub-grid at `outer`.
    pub fn sub(&self, outer: Coord) -> (g: &Grid)
        requires
            self.wf(),
            outer.valid(),
        ensures
            *g == self.sub_at(outer.x as int, outer.y as int),
            g.wf(),
    {
        &self.grids[outer.y * 3 + outer.x]
    }

    pub fn get_cell(&self, outer: Coord, inner: Coord) -> (r: Cell)
        requires
            self.wf(),
            outer.valid(),
            inner.valid(),
        ensures
            r == self.cell(outer, inner),
    {
        self.sub(outer).get(inner)
    }

    /// Sets the cell selected by (`outer`, `inner`), leaving all others as
    /// they were.
    pub fn set_cell(&mut self, outer: Coord, inner: Coord, v: Cell)
        requires
            old(self).wf(),
            outer.valid(),
            inner.valid(),
        ensures
            final(self).wf(),
            final(self).cell(outer, inner) == v,
            forall|ox: int, oy: int, ix: int, iy: int|
                0 <= ox < 3 && 0 <= oy < 3 && 0 <= ix < 3 && 0 <= iy < 3 && !(ox == outer.x as int
                    && oy == outer.y as int && ix == inner.x as int && iy == inner.y as int)
                    ==> #[trigger] final(self).sub_at(ox, oy).cell_at(ix, iy) == old(self).sub_at(
                    ox,
                    oy,
                ).cell_at(ix, iy),
    {
        let gi = outer.y * 3 + outer.x;
        let ghost grids0 = self.grids@;
        let mut g = self.grids.remove(gi);
        g.set_at(inner, v);
        self.grids.insert(gi, g);
        proof {
            assert(self.grids@ =~= grids0.update(gi as int, g));
        }
        assert forall|ox: int, oy: int, ix: int, iy: int|
            0 <= ox < 3 && 0 <= oy < 3 && 0 <= ix < 3 && 0 <= iy < 3 && !(ox == outer.x as int && oy
                == outer.y as int && ix == inner.x as int && iy == inner.y as int) implies #[trigger] self.sub_at(
            ox,
            oy,
        ).cell_at(ix, iy) == old(self).sub_at(ox, oy).cell_at(ix, iy) by {
            assert(0 <= oy * 3 + ox < 9);
            if oy * 3 + ox != gi as int {
                assert(self.grids@[oy * 3 + ox] == grids0[oy * 3 + ox]);
            } else {
                assert(ox == outer.x as int && oy == outer.y as int);
                assert(!(ix == inner.x as int && iy == inner.y as int));
            }
        }
    }
}

} // verus!
