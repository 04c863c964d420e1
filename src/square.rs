//! Discretisation of a square boundary into `n` panels of equal length.
//!
//! Lengths are counted in half panels: with `n` panels on a square of side
//! `a`, one unit is `2a / n`, each side is `n / 2` units long, the perimeter
//! is `2n` units, and node `i` sits at the midpoint of panel `i`, at
//! arclength `2i + 1` counterclockwise from the corner at the origin. Every
//! position, normal, weight and arclength is then an exact integer.
use vstd::prelude::*;

verus! {

/// Side length of the square, in half panels, for `n` panels.
pub open spec fn side_units(n: int) -> int {
    n / 2
}

/// Arclength of node `i`, in half panels: the midpoint of panel `i`.
pub open spec fn node_arclength(i: int) -> int {
    2 * i + 1
}

/// The point at arclength `s` on the square `[0, side]²`, walked
/// counterclockwise from the origin: bottom, right, top, then left side.
pub open spec fn point_at(s: int, side: int) -> (int, int) {
    if s < side {
        (s, 0)
    } else if s < 2 * side {
        (side, s - side)
    } else if s < 3 * side {
        (3 * side - s, side)
    } else {
        (0, 4 * side - s)
    }
}

/// The outward unit normal of the side that holds arclength `s`.
pub open spec fn normal_at(s: int, side: int) -> (int, int) {
    if s < side {
        (0, -1)
    } else if s < 2 * side {
        (1, 0)
    } else if s < 3 * side {
        (0, 1)
    } else {
        (-1, 0)
    }
}

/// Squared distance between two points of the plane.
pub open spec fn sq_dist(p: (int, int), q: (int, int)) -> int {
    (p.0 - q.0) * (p.0 - q.0) + (p.1 - q.1) * (p.1 - q.1)
}

proof fn lemma_square_at_least_abs(d: int)
    ensures
        d * d >= if d >= 0 { d } else { -d },
{
    assert(d * d >= if d >= 0 { d } else { -d }) by (nonlinear_arith);
}

/// Two distinct nodes of `n` on the square are never closer than `sqrt(2)`
/// half panels: no two panel midpoints coincide, and the only pairs at that
/// least distance straddle a corner.
pub proof fn lemma_distinct_nodes_apart(n: nat, i: int, j: int)
    requires
        n >= 4,
        n % 4 == 0,
        0 <= i < n,
        0 <= j < n,
        i != j,
    ensures
        sq_dist(
            point_at(node_arclength(i), side_units(n as int)),
            point_at(node_arclength(j), side_units(n as int)),
        ) >= 2,
{
    let side = side_units(n as int);
    let p = point_at(node_arclength(i), side);
    let q = point_at(node_arclength(j), side);
    let dx = p.0 - q.0;
    let dy = p.1 - q.1;
    lemma_square_at_least_abs(dx);
    lemma_square_at_least_abs(dy);
    assert(side % 2 == 0 && side >= 2);
    assert((if dx >= 0 { dx } else { -dx }) + (if dy >= 0 { dy } else { -dy }) >= 2);
}

/// Entry `i` of the per-node sequences is the midpoint of panel `i` of `n`
/// on the square boundary, with the outward normal of its side and the
/// panel length as weight.
pub open spec fn node_fields(
    x: Seq<usize>,
    y: Seq<usize>,
    nx: Seq<i8>,
    ny: Seq<i8>,
    w: Seq<usize>,
    s: Seq<usize>,
    i: int,
    n: nat,
) -> bool {
    let side = side_units(n as int);
    &&& s[i] == node_arclength(i)
    &&& (x[i] as int, y[i] as int) == point_at(node_arclength(i), side)
    &&& (nx[i] as int, ny[i] as int) == normal_at(node_arclength(i), side)
    &&& w[i] == 2
}

/// Node set of a square boundary in half-panel units. All per-node
/// sequences have one entry per node.
pub struct SquareLattice {
    /// x-coordinate of each node.
    pub x: Vec<usize>,
    /// y-coordinate of each node.
    pub y: Vec<usize>,
    /// x-component of the outward unit normal at each node.
    pub nx: Vec<i8>,
    /// y-component of the outward unit normal at each node.
    pub ny: Vec<i8>,
    /// Quadrature weight of each node: the length of its panel.
    pub w: Vec<usize>,
    /// Arclength of each node from the corner at the origin.
    pub s: Vec<usize>,
    /// Perimeter of the square.
    pub l_total: usize,
}

impl SquareLattice {
    /// Node `i` is the midpoint of panel `i` of `n` on the square boundary,
    /// with the outward normal of its side and the panel length as weight.
    pub open spec fn node_is(&self, i: int, n: nat) -> bool {
        node_fields(self.x@, self.y@, self.nx@, self.ny@, self.w@, self.s@, i, n)
    }

    /// The node set of `n` evenly spaced panel midpoints on the square
    /// boundary, as described at the top of this module.
    pub open spec fn is_square_of(&self, n: nat) -> bool {
        &&& self.x.len() == n
        &&& self.y.len() == n
        &&& self.nx.len() == n
        &&& self.ny.len() == n
        &&& self.w.len() == n
        &&& self.s.len() == n
        &&& self.l_total == 2 * n
        &&& forall|i: int| 0 <= i < n ==> #[trigger] self.node_is(i, n)
    }
}

/// Places `n` nodes at the midpoints of `n` equal panels around the square,
/// each with the outward normal of its side and the panel length as weight.
pub fn square_lattice(n: usize) -> (r: SquareLattice)
    requires
        n >= 4,
        n % 4 == 0,
        2 * n <= usize::MAX,
    ensures
        r.is_square_of(n as nat),
{
    let side = n / 2;
    let mut x: Vec<usize> = Vec::with_capacity(n);
    let mut y: Vec<usize> = Vec::with_capacity(n);
    let mut nx: Vec<i8> = Vec::with_capacity(n);
    let mut ny: Vec<i8> = Vec::with_capacity(n);
    let mut w: Vec<usize> = Vec::with_capacity(n);
    let mut s: Vec<usize> = Vec::with_capacity(n);
    let mut i: usize = 0;
    while i < n
        invariant
            i <= n,
            side == side_units(n as int),
            n % 4 == 0,
            2 * n <= usize::MAX,
            x.len() == i,
            y.len() == i,
            nx.len() == i,
            ny.len() == i,
            w.len() == i,
            s.len() == i,
            forall|c: int| 0 <= c < i ==> #[trigger] node_fields(x@, y@, nx@, ny@, w@, s@, c, n as nat),
        decreases n - i,
    {
        let si = 2 * i + 1;
        let (xi, yi, nxi, nyi): (usize, usize, i8, i8) = if si < side {
            (si, 0, 0, -1)
        } else if si < 2 * side {
            (side, si - side, 1, 0)
        } else if si < 3 * side {
            (3 * side - si, side, 0, 1)
        } else {
            (0, 4 * side - si, -1, 0)
        };
        let ghost (x0, y0, nx0, ny0, w0, s0) = (x@, y@, nx@, ny@, w@, s@);
        x.push(xi);
        y.push(yi);
        nx.push(nxi);
        ny.push(nyi);
        w.push(2);
        s.push(si);
        assert forall|c: int| 0 <= c < i + 1 implies #[trigger] node_fields(x@, y@, nx@, ny@, w@, s@, c, n as nat) by {
            if c < i {
                assert(node_fields(x0, y0, nx0, ny0, w0, s0, c, n as nat));
                assert(x[c] == x0[c] && y[c] == y0[c] && nx[c] == nx0[c] && ny[c] == ny0[c]);
                assert(w[c] == w0[c] && s[c] == s0[c]);
            }
        }
        i = i + 1;
    }
    SquareLattice { x, y, nx, ny, w, s, l_total: 2 * n }
}

} // verus!
