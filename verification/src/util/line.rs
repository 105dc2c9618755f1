//! The line tracer: the cells that a straight line between two grid points
//! passes through.
//!
//! A line that is not vertical is traced in a canonical frame in which it
//! runs `run >= 1` columns to the right and rises `0 <= rise <= run` rows.
//! The frame is one of eight octants, each a reflection or rotation of the
//! plane. The error accumulator of the incremental algorithm is kept in
//! exact integers: it holds twice the run times the real-valued error, so
//! that the comparison with one half becomes a comparison with the run.

use vstd::prelude::*;
use vstd::arithmetic::div_mod::lemma_fundamental_div_mod_converse;
use crate::components::position::Position;
use crate::util::span;

verus! {

/// The eight octants of the plane, counterclockwise from the positive
/// x axis.
#[derive(Clone, Copy, Debug, PartialEq, Eq, Structural)]
pub enum Octant {
    O0,
    O1,
    O2,
    O3,
    O4,
    O5,
    O6,
    O7,
}

/// An offset from a grid point, in either direction on both axes.
#[derive(Clone, Copy, Debug, PartialEq, Eq, Structural)]
pub struct SignedPos {
    pub x: i128,
    pub y: i128,
}

impl Octant {
    /// The image of `(x, y)` under the map that takes this octant to the
    /// canonical one.
    pub open spec fn transform_spec(self, x: int, y: int) -> (int, int) {
        match self {
            Octant::O0 => (x, y),
            Octant::O1 => (y, x),
            Octant::O2 => (y, -x),
            Octant::O3 => (-x, y),
            Octant::O4 => (-x, -y),
            Octant::O5 => (-y, -x),
            Octant::O6 => (-y, x),
            Octant::O7 => (x, -y),
        }
    }

    /// The image of `(x, y)` under the map that takes the canonical octant
    /// back to this one.
    pub open spec fn invert_spec(self, x: int, y: int) -> (int, int) {
        match self {
            Octant::O0 => (x, y),
            Octant::O1 => (y, x),
            Octant::O2 => (-y, x),
            Octant::O3 => (-x, y),
            Octant::O4 => (-x, -y),
            Octant::O5 => (-y, -x),
            Octant::O6 => (y, -x),
            Octant::O7 => (x, -y),
        }
    }

    /// The octant in which the direction `(dx, dy)` is traced. A direction
    /// on the boundary of two octants belongs to the one chosen here.
    pub open spec fn containing(dx: int, dy: int) -> Octant {
        let wide = span(0, dx) > span(0, dy);
        if dx > 0 {
            if dy > 0 {
                if wide {
                    Octant::O0
                } else {
                    Octant::O1
                }
            } else {
                if wide {
                    Octant::O7
                } else {
                    Octant::O6
                }
            }
        } else {
            if dy > 0 {
                if wide {
                    Octant::O3
                } else {
                    Octant::O2
                }
            } else {
                if wide {
                    Octant::O4
                } else {
                    Octant::O5
                }
            }
        }
    }

    /// Takes an offset in this octant to the canonical one.
    pub fn transform(&self, p: SignedPos) -> (q: SignedPos)
        requires
            p.x > i128::MIN,
            p.y > i128::MIN,
        ensures
            (q.x as int, q.y as int) == self.transform_spec(p.x as int, p.y as int),
    {
        let x = p.x;
        let y = p.y;
        match *self {
            Octant::O0 => SignedPos { x: x, y: y },
            Octant::O1 => SignedPos { x: y, y: x },
            Octant::O2 => SignedPos { x: y, y: -x },
            Octant::O3 => SignedPos { x: -x, y: y },
            Octant::O4 => SignedPos { x: -x, y: -y },
            Octant::O5 => SignedPos { x: -y, y: -x },
            Octant::O6 => SignedPos { x: -y, y: x },
            Octant::O7 => SignedPos { x: x, y: -y },
        }
    }

    /// Takes an offset in the canonical octant back to this one.
    pub fn invert(&self, p: SignedPos) -> (q: SignedPos)
        requires
            p.x > i128::MIN,
            p.y > i128::MIN,
        ensures
            (q.x as int, q.y as int) == self.invert_spec(p.x as int, p.y as int),
    {
        let x = p.x;
        let y = p.y;
        match *self {
            Octant::O0 => SignedPos { x: x, y: y },
            Octant::O1 => SignedPos { x: y, y: x },
            Octant::O2 => SignedPos { x: -y, y: x },
            Octant::O3 => SignedPos { x: -x, y: y },
            Octant::O4 => SignedPos { x: -x, y: -y },
            Octant::O5 => SignedPos { x: -y, y: -x },
            Octant::O6 => SignedPos { x: y, y: -x },
            Octant::O7 => SignedPos { x: x, y: -y },
        }
    }
}

/// `invert` undoes `transform`, in every octant.
pub proof fn lemma_invert_undoes_transform(o: Octant, x: int, y: int)
    ensures
        ({
            let t = o.transform_spec(x, y);
            o.invert_spec(t.0, t.1) == (x, y)
        }),
        ({
            let t = o.invert_spec(x, y);
            o.transform_spec(t.0, t.1) == (x, y)
        }),
{
}

/// The number of steps from `a` to `b`: the larger of the two spans.
pub open spec fn line_steps(a: Position, b: Position) -> int {
    let h = span(a.x as int, b.x as int);
    let v = span(a.y as int, b.y as int);
    if h >= v {
        h
    } else {
        v
    }
}

/// The larger of the horizontal and the vertical span between `a` and `b`.
pub open spec fn long_span(a: Position, b: Position) -> int {
    line_steps(a, b)
}

/// The smaller of the horizontal and the vertical span between `a` and `b`.
pub open spec fn short_span(a: Position, b: Position) -> int {
    let h = span(a.x as int, b.x as int);
    let v = span(a.y as int, b.y as int);
    if h >= v {
        v
    } else {
        h
    }
}

/// The row that the canonical line of the given run and rise has reached in
/// column `k`. The accumulator starts one slope ahead of the half-way
/// threshold, so the row is the whole part of `(k + 1) * rise / run`; on the
/// exact diagonal the row is the column itself.
pub open spec fn line_row(run: int, rise: int, k: int) -> int {
    if rise == run {
        k
    } else {
        ((k + 1) * rise) / run
    }
}

/// The `k`-th point of the line from `a` to `b`, as unbounded integers.
pub open spec fn line_point(a: Position, b: Position, k: int) -> (int, int) {
    let dx = b.x - a.x;
    let dy = b.y - a.y;
    let o = Octant::containing(dx, dy);
    let far = o.transform_spec(dx, dy);
    let off = o.invert_spec(k, line_row(far.0, far.1, k));
    (a.x + off.0, a.y + off.1)
}

/// The `k`-th cell of the line from `a` to `b`.
pub open spec fn line_cell(a: Position, b: Position, k: int) -> Position {
    let p = line_point(a, b, k);
    Position { x: p.0 as usize, y: p.1 as usize }
}

/// The cells of column `x` from row `lo` up to and including row `hi`.
pub open spec fn vertical_run(x: usize, lo: usize, hi: usize) -> Seq<Position> {
    Seq::new((hi - lo + 1) as nat, |i: int| Position { x: x, y: (lo + i) as usize })
}

/// The trace from `a` to `b`. Two points in one column give the run of
/// that column between them, from the smaller row to the larger; any other
/// pair gives one cell per column of the canonical frame.
pub open spec fn trace(a: Position, b: Position) -> Seq<Position> {
    if a.x == b.x {
        if a.y <= b.y {
            vertical_run(a.x, a.y, b.y)
        } else {
            vertical_run(a.x, b.y, a.y)
        }
    } else {
        Seq::new((line_steps(a, b) + 1) as nat, |k: int| line_cell(a, b, k))
    }
}

/// Whether `c` lies in the smallest rectangle that holds `a` and `b`.
pub open spec fn in_box(a: Position, b: Position, c: Position) -> bool {
    &&& (a.x <= c.x <= b.x || b.x <= c.x <= a.x)
    &&& (a.y <= c.y <= b.y || b.y <= c.y <= a.y)
}

/// In the canonical frame the run is the number of steps and the rise lies
/// between zero and the run.
pub proof fn lemma_canonical_frame(a: Position, b: Position)
    requires
        a.x != b.x,
    ensures
        ({
            let far = Octant::containing(b.x - a.x, b.y - a.y).transform_spec(b.x - a.x, b.y - a.y);
            &&& far.0 == line_steps(a, b)
            &&& far.0 >= 1
            &&& 0 <= far.1 <= far.0
            &&& far.0 == long_span(a, b)
            &&& far.1 == short_span(a, b)
        }),
{
}

/// The rows of a canonical line: it starts in row zero, never climbs faster
/// than one row per column, and reaches exactly the rise in the last column.
pub proof fn lemma_row_bounds(run: int, rise: int, k: int)
    requires
        run >= 1,
        0 <= rise <= run,
        0 <= k <= run,
    ensures
        0 <= line_row(run, rise, k) <= rise,
        line_row(run, rise, k) <= k,
        line_row(run, rise, 0) == 0,
        line_row(run, rise, run) == rise,
{
    if rise < run {
        lemma_fundamental_div_mod_converse(rise, run, 0, rise);
        assert((0 + 1) * rise == rise) by (nonlinear_arith);
        assert((run + 1) * rise == rise * run + rise) by (nonlinear_arith);
        lemma_fundamental_div_mod_converse((run + 1) * rise, run, rise, rise);
        let n = (k + 1) * rise;
        let q = n / run;
        vstd::arithmetic::div_mod::lemma_fundamental_div_mod(n, run);
        vstd::arithmetic::div_mod::lemma_mod_bound(n, run);
        assert(n == run * q + n % run);
        assert(0 <= n) by (nonlinear_arith)
            requires
                n == (k + 1) * rise,
                0 <= k,
                0 <= rise,
        ;
        assert(n <= k * run + rise) by (nonlinear_arith)
            requires
                n == (k + 1) * rise,
                0 <= k,
                0 <= rise < run,
        ;
        assert(n <= run * rise + rise) by (nonlinear_arith)
            requires
                n == (k + 1) * rise,
                0 <= k <= run,
                0 <= rise,
        ;
        assert(q >= 0) by (nonlinear_arith)
            requires
                n == run * q + n % run,
                0 <= n,
                n % run < run,
                run >= 1,
        ;
        assert(q <= k) by (nonlinear_arith)
            requires
                n == run * q + n % run,
                n <= k * run + rise,
                rise < run,
                0 <= n % run,
                run >= 1,
        ;
        assert(q <= rise) by (nonlinear_arith)
            requires
                n == run * q + n % run,
                n <= run * rise + rise,
                rise < run,
                0 <= n % run,
                run >= 1,
        ;
    }
}

/// Every point of a line that is not vertical lies in the rectangle that its
/// end points span.
pub proof fn lemma_point_in_box(a: Position, b: Position, k: int)
    requires
        a.x != b.x,
        0 <= k <= line_steps(a, b),
    ensures
        ({
            let p = line_point(a, b, k);
            &&& (a.x <= p.0 <= b.x || b.x <= p.0 <= a.x)
            &&& (a.y <= p.1 <= b.y || b.y <= p.1 <= a.y)
        }),
        in_box(a, b, line_cell(a, b, k)),
{
    let dx = b.x - a.x;
    let dy = b.y - a.y;
    let far = Octant::containing(dx, dy).transform_spec(dx, dy);
    lemma_canonical_frame(a, b);
    lemma_row_bounds(far.0, far.1, k);
}

/// A trace has one cell more than the larger of the two spans between its
/// end points. Unless it runs up a column, from a larger row to a smaller
/// one, it starts at `a` and ends at `b`.
pub proof fn lemma_trace_ends(a: Position, b: Position)
    requires
        a.x != b.x || a.y <= b.y,
    ensures
        trace(a, b).len() == line_steps(a, b) + 1,
        trace(a, b).first() == a,
        trace(a, b).last() == b,
{
    if a.x != b.x {
        let dx = b.x - a.x;
        let dy = b.y - a.y;
        let far = Octant::containing(dx, dy).transform_spec(dx, dy);
        lemma_canonical_frame(a, b);
        lemma_row_bounds(far.0, far.1, 0);
        lemma_row_bounds(far.0, far.1, far.0);
        lemma_invert_undoes_transform(Octant::containing(dx, dy), dx, dy);
    }
}

/// The length of a trace, whatever its direction.
pub proof fn lemma_trace_len(a: Position, b: Position)
    ensures
        trace(a, b).len() == line_steps(a, b) + 1,
{
}

/// A trace up a column holds the same cells as the trace down it: it
/// starts at the end point and ends at the start.
pub proof fn lemma_trace_up_a_column(a: Position, b: Position)
    requires
        a.x == b.x,
        a.y > b.y,
    ensures
        trace(a, b) == trace(b, a),
        trace(a, b).first() == b,
        trace(a, b).last() == a,
{
}

/// Between two points of one column the trace is the run of that column
/// from the smaller row to the larger, both included, in this order, and
/// nothing else.
pub proof fn lemma_trace_column(a: Position, b: Position)
    requires
        a.x == b.x,
    ensures
        trace(a, b).len() == span(a.y as int, b.y as int) + 1,
        forall|i: int|
            0 <= i < trace(a, b).len() ==> {
                &&& (#[trigger] trace(a, b)[i]).x == a.x
                &&& trace(a, b)[i].y == (if a.y <= b.y {
                    a.y
                } else {
                    b.y
                }) + i
            },
{
}

/// Every cell of a trace lies in the rectangle that its end points span.
pub proof fn lemma_trace_in_box(a: Position, b: Position)
    ensures
        forall|i: int| 0 <= i < trace(a, b).len() ==> in_box(a, b, #[trigger] trace(a, b)[i]),
{
    if a.x != b.x {
        assert forall|i: int| 0 <= i < trace(a, b).len() implies in_box(
            a,
            b,
            #[trigger] trace(a, b)[i],
        ) by {
            lemma_point_in_box(a, b, i);
        }
    }
}

/// Whether the trace between `a` and `b` passes through the same cells in
/// both directions. That is so on the diagonal, and where the two spans are
/// `g * p` and `g * (2 * p + 1)` for some `g >= 1` and `p >= 0`; a line along
/// an axis is the case `p == 0`.
pub open spec fn retraceable(a: Position, b: Position) -> bool {
    ||| short_span(a, b) == long_span(a, b)
    ||| exists|g: int, p: int|
        g >= 1 && p >= 0 && short_span(a, b) == #[trigger] (g * p) && long_span(a, b) == g * (2 * p
            + 1)
}

proof fn lemma_scaled_quotient(x: int, q: int, g: int)
    requires
        q >= 1,
        g >= 1,
    ensures
        (g * x) / (g * q) == x / q,
{
    let s = x / q;
    let r = x % q;
    vstd::arithmetic::div_mod::lemma_fundamental_div_mod(x, q);
    vstd::arithmetic::div_mod::lemma_mod_bound(x, q);
    assert(g * x == s * (g * q) + g * r) by (nonlinear_arith)
        requires
            x == q * s + r,
    ;
    assert(0 <= g * r < g * q) by (nonlinear_arith)
        requires
            0 <= r < q,
            g >= 1,
    ;
    assert(g * q != 0) by (nonlinear_arith)
        requires
            q >= 1,
            g >= 1,
    ;
    lemma_fundamental_div_mod_converse(g * x, g * q, s, g * r);
}

/// With `q == 2 * p + 1`, the whole parts of `(k + 1) * p / q` and of
/// `(1 - k) * p / q` cancel.
proof fn lemma_mirror_quotients(p: int, k: int)
    requires
        p >= 0,
    ensures
        ((k + 1) * p) / (2 * p + 1) + ((1 - k) * p) / (2 * p + 1) == 0,
{
    let q = 2 * p + 1;
    let m = (k - 1) * p;
    let s = m / q;
    let r = m % q;
    vstd::arithmetic::div_mod::lemma_fundamental_div_mod(m, q);
    vstd::arithmetic::div_mod::lemma_mod_bound(m, q);
    assert((k + 1) * p == m + 2 * p) by (nonlinear_arith)
        requires
            m == (k - 1) * p,
    ;
    assert((1 - k) * p == -m) by (nonlinear_arith)
        requires
            m == (k - 1) * p,
    ;
    if r == 0 {
        assert(m + 2 * p == s * q + (q - 1)) by (nonlinear_arith)
            requires
                m == q * s + r,
                r == 0,
                q == 2 * p + 1,
        ;
        lemma_fundamental_div_mod_converse(m + 2 * p, q, s, q - 1);
        assert(-m == (-s) * q + 0) by (nonlinear_arith)
            requires
                m == q * s + r,
                r == 0,
        ;
        lemma_fundamental_div_mod_converse(-m, q, -s, 0);
    } else {
        assert(m + 2 * p == (s + 1) * q + (r - 1)) by (nonlinear_arith)
            requires
                m == q * s + r,
                q == 2 * p + 1,
        ;
        lemma_fundamental_div_mod_converse(m + 2 * p, q, s + 1, r - 1);
        assert(-m == (-s - 1) * q + (q - r)) by (nonlinear_arith)
            requires
                m == q * s + r,
        ;
        lemma_fundamental_div_mod_converse(-m, q, -s - 1, q - r);
    }
}

/// Where a canonical line has rise `g * p` and run `g * (2 * p + 1)`, the row
/// reached in column `k` and the row reached in column `run - k` add up to
/// the rise.
proof fn lemma_rows_mirror_scaled(g: int, p: int, k: int)
    requires
        g >= 1,
        p >= 0,
        0 <= k <= g * (2 * p + 1),
    ensures
        line_row(g * (2 * p + 1), g * p, k) + line_row(g * (2 * p + 1), g * p, g * (2 * p + 1) - k)
            == g * p,
{
    let q = 2 * p + 1;
    let run = g * q;
    let rise = g * p;
    assert(rise < run) by (nonlinear_arith)
        requires
            rise == g * p,
            run == g * (2 * p + 1),
            g >= 1,
            p >= 0,
    ;
    // the row in column k
    assert((k + 1) * rise == g * ((k + 1) * p)) by (nonlinear_arith)
        requires
            rise == g * p,
    ;
    lemma_scaled_quotient((k + 1) * p, q, g);
    // the row in column run - k
    assert((run - k + 1) * rise == g * (rise * q + (1 - k) * p)) by (nonlinear_arith)
        requires
            rise == g * p,
            run == g * q,
    ;
    lemma_scaled_quotient(rise * q + (1 - k) * p, q, g);
    let m = (1 - k) * p;
    let s = m / q;
    vstd::arithmetic::div_mod::lemma_fundamental_div_mod(m, q);
    vstd::arithmetic::div_mod::lemma_mod_bound(m, q);
    assert(rise * q + m == (rise + s) * q + m % q) by (nonlinear_arith)
        requires
            m == q * s + m % q,
    ;
    lemma_fundamental_div_mod_converse(rise * q + m, q, rise + s, m % q);
    lemma_mirror_quotients(p, k);
}

/// Where the trace is retraceable, its rows mirror: the row reached in
/// column `k` and the one reached in column `run - k` add up to the rise.
proof fn lemma_rows_mirror(a: Position, b: Position, k: int)
    requires
        a.x != b.x,
        retraceable(a, b),
        0 <= k <= long_span(a, b),
    ensures
        line_row(long_span(a, b), short_span(a, b), k) + line_row(
            long_span(a, b),
            short_span(a, b),
            long_span(a, b) - k,
        ) == short_span(a, b),
{
    if short_span(a, b) != long_span(a, b) {
        let (g, p) = choose|g: int, p: int|
            g >= 1 && p >= 0 && short_span(a, b) == #[trigger] (g * p) && long_span(a, b) == g * (2
                * p + 1);
        lemma_rows_mirror_scaled(g, p, k);
    }
}

/// The trace of a retraceable line that is not vertical, taken from the far
/// end, is the trace from the near end in reverse order.
pub proof fn lemma_trace_reversed(a: Position, b: Position)
    requires
        a.x != b.x,
        retraceable(a, b),
    ensures
        trace(b, a) == trace(a, b).reverse(),
{
    let n = line_steps(a, b);
    lemma_canonical_frame(a, b);
    lemma_canonical_frame(b, a);
    assert forall|k: int| 0 <= k <= n implies line_cell(b, a, k) == line_cell(a, b, n - k) by {
        let run = long_span(a, b);
        let rise = short_span(a, b);
        lemma_rows_mirror(a, b, k);
        lemma_row_bounds(run, rise, k);
        lemma_row_bounds(run, rise, n - k);
        assert(long_span(b, a) == run);
        assert(short_span(b, a) == rise);
    }
    assert(trace(b, a) =~= trace(a, b).reverse());
}

/// A retraceable line visits the same set of cells from either end. This
/// fails of a line that is not retraceable: from `(0, 0)` to `(5, 1)` the
/// trace climbs in the last but one column, from `(5, 1)` to `(0, 0)` it
/// descends there.
pub proof fn lemma_trace_same_cells(a: Position, b: Position)
    requires
        retraceable(a, b),
    ensures
        trace(a, b).to_set() == trace(b, a).to_set(),
{
    if a.x != b.x {
        lemma_trace_reversed(a, b);
        let t = trace(a, b);
        let r = trace(b, a);
        assert forall|c: Position| t.contains(c) <==> r.contains(c) by {
            if t.contains(c) {
                let i = choose|i: int| 0 <= i < t.len() && t[i] == c;
                assert(r[t.len() - 1 - i] == c);
            }
            if r.contains(c) {
                let i = choose|i: int| 0 <= i < r.len() && r[i] == c;
                assert(t[t.len() - 1 - i] == c);
            }
        }
        assert(t.to_set() =~= r.to_set());
    } else {
        assert(trace(a, b) == trace(b, a));
    }
}

/// Where a canonical line is neither diagonal nor of rise `g * p` and run
/// `g * (2 * p + 1)`, its rows do not mirror: in some column `k` the row
/// reached there and the row reached in column `run - k` do not add up to
/// the rise.
proof fn lemma_rows_unmirrored(run: int, rise: int) -> (k: int)
    requires
        run >= 1,
        0 <= rise < run,
        !exists|g: int, p: int| g >= 1 && p >= 0 && rise == #[trigger] (g * p) && run == g * (2 * p + 1),
    ensures
        0 <= k <= run,
        line_row(run, rise, k) + line_row(run, rise, run - k) != rise,
{
    if 2 * rise >= run {
        assert((1 + 1) * rise == 1 * run + (2 * rise - run)) by (nonlinear_arith);
        lemma_fundamental_div_mod_converse((1 + 1) * rise, run, 1, 2 * rise - run);
        assert((run - 1 + 1) * rise == rise * run + 0) by (nonlinear_arith);
        lemma_fundamental_div_mod_converse((run - 1 + 1) * rise, run, rise, 0);
        1
    } else {
        let d = run - 2 * rise;
        let c = rise / d;
        let s = rise % d;
        vstd::arithmetic::div_mod::lemma_fundamental_div_mod(rise, d);
        vstd::arithmetic::div_mod::lemma_mod_bound(rise, d);
        assert(c >= 0) by (nonlinear_arith)
            requires
                rise == d * c + s,
                0 <= s < d,
                rise >= 0,
        ;
        if s == 0 {
            assert(rise == d * c);
            assert(run == d * (2 * c + 1)) by (nonlinear_arith)
                requires
                    rise == d * c,
                    run == 2 * rise + d,
            ;
            assert(false);
        }
        let k = 2 * c + 2;
        assert(2 * c <= rise) by (nonlinear_arith)
            requires
                rise == d * c + s,
                s >= 0,
                d >= 2,
                c >= 0,
        ;
        assert((k + 1) * rise == c * run + (run + s - d)) by (nonlinear_arith)
            requires
                k == 2 * c + 2,
                rise == d * c + s,
                run == 2 * rise + d,
        ;
        lemma_fundamental_div_mod_converse((k + 1) * rise, run, c, run + s - d);
        assert((run - k + 1) * rise == (rise - c - 1) * run + (run - s)) by (nonlinear_arith)
            requires
                k == 2 * c + 2,
                rise == d * c + s,
                run == 2 * rise + d,
        ;
        lemma_fundamental_div_mod_converse((run - k + 1) * rise, run, rise - c - 1, run - s);
        k
    }
}

/// A line that is not retraceable does not visit the same set of cells from
/// either end: retraceable lines are the only ones that do.
pub proof fn lemma_trace_other_cells(a: Position, b: Position)
    requires
        !retraceable(a, b),
    ensures
        trace(a, b).to_set() != trace(b, a).to_set(),
{
    let run = long_span(a, b);
    let rise = short_span(a, b);
    if a.x == b.x {
        if rise != run {
            assert(rise == #[trigger] (run * 0) && run == run * (2 * 0 + 1)) by (nonlinear_arith)
                requires
                    rise == 0,
            ;
        }
        assert(false);
    }
    lemma_canonical_frame(a, b);
    lemma_canonical_frame(b, a);
    let k = lemma_rows_unmirrored(run, rise);
    let n = run;
    let there = trace(a, b);
    let back = trace(b, a);
    let c = line_cell(a, b, n - k);
    assert(there[n - k] == c);
    assert(there.contains(c));
    lemma_point_in_box(a, b, n - k);
    lemma_row_bounds(run, rise, n - k);
    assert forall|i: int| 0 <= i < back.len() implies back[i] != c by {
        lemma_point_in_box(b, a, i);
        lemma_row_bounds(run, rise, i);
        assert(long_span(b, a) == run);
        assert(short_span(b, a) == rise);
        if i == k {
            assert(line_point(b, a, i) != line_point(a, b, n - k));
        } else {
            assert(line_point(b, a, i) != line_point(a, b, n - k));
        }
    }
    assert(!back.contains(c));
    assert(there.to_set().contains(c));
    assert(!back.to_set().contains(c));
}

/// Traces the line from `start` to `end`.
pub fn bresenham(start: Position, end: Position) -> (result: Vec<Position>)
    ensures
        result@ == trace(start, end),
{
    let mut result: Vec<Position> = Vec::new();
    if start.x == end.x {
        let lo: usize = if start.y <= end.y { start.y } else { end.y };
        let hi: usize = if start.y <= end.y { end.y } else { start.y };
        let mut y: usize = lo;
        loop
            invariant_except_break
                lo <= y <= hi,
                result@ == vertical_run(start.x, lo, hi).subrange(0, y - lo),
            ensures
                result@ == vertical_run(start.x, lo, hi),
            decreases hi - y,
        {
            result.push(Position { x: start.x, y: y });
            assert(result@ == vertical_run(start.x, lo, hi).subrange(0, y - lo + 1));
            if y == hi {
                assert(vertical_run(start.x, lo, hi).subrange(0, hi - lo + 1) == vertical_run(
                    start.x,
                    lo,
                    hi,
                ));
                break ;
            }
            y = y + 1;
        }
        return result;
    }
    let dx: i128 = end.x as i128 - start.x as i128;
    let dy: i128 = end.y as i128 - start.y as i128;
    let wide: bool = span_signed(dx) > span_signed(dy);
    let octant = if end.x > start.x {
        if end.y > start.y {
            if wide {
                Octant::O0
            } else {
                Octant::O1
            }
        } else {
            if wide {
                Octant::O7
            } else {
                Octant::O6
            }
        }
    } else {
        if end.y > start.y {
            if wide {
                Octant::O3
            } else {
                Octant::O2
            }
        } else {
            if wide {
                Octant::O4
            } else {
                Octant::O5
            }
        }
    };
    let far = octant.transform(SignedPos { x: dx, y: dy });
    let run: i128 = far.x;
    let rise: i128 = far.y;
    proof {
        lemma_canonical_frame(start, end);
    }
    // Twice the run times the error of the real-valued algorithm; the
    // threshold of one half becomes the run.
    let mut err: i128 = 2 * rise - run;
    let mut x: i128 = 0;
    let mut y: i128 = 0;
    let ghost mut rest: int = rise as int;
    while x <= run
        invariant
            start.x != end.x,
            octant == Octant::containing(end.x - start.x, end.y - start.y),
            (run as int, rise as int) == octant.transform_spec(end.x - start.x, end.y - start.y),
            run == line_steps(start, end),
            1 <= run <= usize::MAX,
            0 <= rise <= run,
            0 <= x <= run + 1,
            0 <= y <= x,
            err == 2 * rest - run,
            rise < run ==> 0 <= rest < run && (x + 1) * rise == run * y + rest,
            rise == run ==> y == x && rest == run,
            result@.len() == x,
            forall|k: int| 0 <= k < x ==> result@[k] == line_cell(start, end, k),
        decreases run + 1 - x,
    {
        proof {
            if rise < run {
                lemma_fundamental_div_mod_converse((x + 1) * rise, run as int, y as int, rest);
            }
            assert(y == line_row(run as int, rise as int, x as int));
            lemma_row_bounds(run as int, rise as int, x as int);
            lemma_point_in_box(start, end, x as int);
        }
        let offset = octant.invert(SignedPos { x: x, y: y });
        let pos = Position {
            x: (start.x as i128 + offset.x) as usize,
            y: (start.y as i128 + offset.y) as usize,
        };
        assert(pos == line_cell(start, end, x as int));
        result.push(pos);
        err = err + 2 * rise;
        proof {
            assert((x + 2) * rise == (x + 1) * rise + rise) by (nonlinear_arith);
            assert(run * (y + 1) == run * y + run) by (nonlinear_arith);
            rest = rest + rise;
        }
        if err >= run {
            y = y + 1;
            err = err - 2 * run;
            proof {
                rest = rest - run;
            }
        }
        x = x + 1;
    }
    assert(result@ =~= trace(start, end));
    result
}

fn span_signed(d: i128) -> (s: i128)
    requires
        d > i128::MIN,
    ensures
        s == span(0, d as int),
{
    if d >= 0 {
        d
    } else {
        -d
    }
}

} // verus!
