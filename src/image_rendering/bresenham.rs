use vstd::arithmetic::div_mod::{lemma_fundamental_div_mod, lemma_mod_bound};
use vstd::prelude::*;

verus! {

pub open spec fn abs(x: int) -> int {
    if x < 0 { -x } else { x }
}

/// The direction from `from` to `to` along one axis; a flat axis counts as negative.
pub open spec fn toward(from: int, to: int) -> int {
    if from < to { 1 } else { -1 }
}

/// How far a line that covers `other` units while its driving axis covers
/// `drive` units has moved after `k` driving steps: the nearest integer to
/// `k * other / drive`, with ties toward the start.
pub open spec fn line_offset(k: int, drive: int, other: int) -> int {
    if drive == 0 { 0 } else { (2 * other * k + drive - 1) / (2 * drive) }
}

/// The coordinate, after `k` driving steps, of an axis that runs from
/// `start` to `end` while the driving axis covers `drive` units.
pub open spec fn follow(k: int, start: int, end: int, drive: int) -> int {
    start + toward(start, end) * line_offset(k, drive, abs(end - start))
}

proof fn lemma_div_bounds(n: int, d: int)
    requires
        d > 0,
    ensures
        d * (n / d) <= n < d * (n / d) + d,
{
    lemma_fundamental_div_mod(n, d);
    lemma_mod_bound(n, d);
}

/// The offset stays within `[0, other]` along the whole line.
proof fn lemma_offset_range(k: int, drive: int, other: int)
    requires
        0 <= other <= drive,
        0 <= k <= drive,
    ensures
        0 <= line_offset(k, drive, other) <= other,
{
    if drive > 0 {
        let n = 2 * other * k + drive - 1;
        let q = line_offset(k, drive, other);
        lemma_div_bounds(n, 2 * drive);
        assert(0 <= n < 2 * drive * (other + 1)) by (nonlinear_arith)
            requires
                n == 2 * other * k + drive - 1,
                0 <= other <= drive,
                0 <= k <= drive,
                drive > 0,
        ;
        assert(0 <= q <= other) by (nonlinear_arith)
            requires
                2 * drive * q <= n < 2 * drive * q + 2 * drive,
                0 <= n < 2 * drive * (other + 1),
                drive > 0,
        ;
    }
}

proof fn lemma_cancel(d: int, a: int, b: int)
    requires
        d > 0,
        d * a < d * b,
    ensures
        a < b,
{
    assert(a < b) by (nonlinear_arith)
        requires
            d > 0,
            d * a < d * b,
    ;
}

/// The error term of an axis after `k` driving steps.
pub open spec fn line_error(k: int, drive: int, other: int) -> int {
    2 * other * (k + 1) - drive - 2 * drive * line_offset(k, drive, other)
}

/// One driving step moves the offset by one exactly when the error term is
/// positive, and moves the error term to match.
proof fn lemma_offset_step(k: int, drive: int, other: int)
    requires
        0 <= other <= drive,
        0 <= k,
    ensures
        line_offset(k + 1, drive, other) == line_offset(k, drive, other) + if line_error(k, drive, other) > 0 {
            1int
        } else {
            0int
        },
        line_error(k + 1, drive, other) == line_error(k, drive, other) + 2 * other - if line_error(
            k,
            drive,
            other,
        ) > 0 {
            2 * drive
        } else {
            0
        },
{
    let q = line_offset(k, drive, other);
    let q2 = line_offset(k + 1, drive, other);
    let big_d = 2 * drive;
    assert(2 * other * (k + 2) == 2 * other * (k + 1) + 2 * other) by (nonlinear_arith);
    if drive > 0 {
        let n = 2 * other * k + drive - 1;
        let m = 2 * other * (k + 1) + drive - 1;
        assert(m == n + 2 * other) by (nonlinear_arith)
            requires
                n == 2 * other * k + drive - 1,
                m == 2 * other * (k + 1) + drive - 1,
        ;
        assert(q == n / big_d);
        assert(q2 == m / big_d);
        lemma_div_bounds(n, big_d);
        lemma_div_bounds(m, big_d);
        assert(big_d * (q + 1) == big_d * q + big_d && big_d * (q + 2) == big_d * q + 2 * big_d
            && big_d * (q2 + 1) == big_d * q2 + big_d) by (nonlinear_arith);
        if line_error(k, drive, other) > 0 {
            lemma_cancel(big_d, q, q2);
            lemma_cancel(big_d, q2, q + 2);
            assert(q2 == q + 1);
        } else {
            lemma_cancel(big_d, q2, q + 1);
            lemma_cancel(big_d, q, q2 + 1);
            assert(q2 == q);
        }
        assert(big_d * q2 == big_d * q + big_d * (q2 - q)) by (nonlinear_arith);
    } else {
        assert(2 * other * (k + 1) == 0 && 2 * other * (k + 2) == 0) by (nonlinear_arith)
            requires
                other == 0,
        ;
    }
}

/// The error-term state of one axis of a line. Every axis follows the
/// driving one; the driving axis itself moves on every step.
struct Follower {
    value: i64,
    err: i64,
    sign: i64,
    other2: i64,
    drive2: i64,
    k: Ghost<int>,
    start: Ghost<int>,
    end: Ghost<int>,
    drive: Ghost<int>,
}

impl Follower {
    spec fn wf(&self) -> bool {
        let (k, start, end, drive) = (self.k@, self.start@, self.end@, self.drive@);
        let other = abs(end - start);
        &&& 0 <= k <= drive + 1
        &&& other <= drive <= u32::MAX
        &&& i32::MIN <= start <= i32::MAX
        &&& i32::MIN <= end <= i32::MAX
        &&& self.value == follow(k, start, end, drive)
        &&& self.err == line_error(k, drive, other)
        &&& self.sign == toward(start, end)
        &&& self.other2 == 2 * other
        &&& self.drive2 == 2 * drive
    }

    fn new(start: i32, end: i32, drive: i64) -> (r: Follower)
        requires
            abs(end - start) <= drive <= u32::MAX,
        ensures
            r.wf(),
            r.k@ == 0,
            r.start@ == start,
            r.end@ == end,
            r.drive@ == drive,
    {
        let other: i64 = if end >= start { end as i64 - start as i64 } else { start as i64 - end as i64 };
        proof {
            lemma_offset_range(0, drive as int, other as int);
            if drive > 0 {
                assert((drive - 1) / (2 * drive) == 0) by (nonlinear_arith)
                    requires
                        drive > 0,
                ;
            }
            assert(line_offset(0, drive as int, other as int) == 0);
            assert(abs(end - start) == other);
            assert(line_error(0, drive as int, other as int) == 2 * other - drive) by (nonlinear_arith)
                requires
                    line_offset(0, drive as int, other as int) == 0,
            ;
            assert(follow(0, start as int, end as int, drive as int) == start) by (nonlinear_arith)
                requires
                    line_offset(0, drive as int, other as int) == 0,
                    abs(end - start) == other,
            ;
        }
        Follower {
            value: start as i64,
            err: 2 * other - drive,
            sign: if start < end { 1 } else { -1 },
            other2: 2 * other,
            drive2: 2 * drive,
            k: Ghost(0),
            start: Ghost(start as int),
            end: Ghost(end as int),
            drive: Ghost(drive as int),
        }
    }

    fn advance(&mut self)
        requires
            old(self).wf(),
            old(self).k@ <= old(self).drive@,
        ensures
            final(self).wf(),
            final(self).k@ == old(self).k@ + 1,
            final(self).start@ == old(self).start@,
            final(self).end@ == old(self).end@,
            final(self).drive@ == old(self).drive@,
    {
        let ghost (k, start, end, drive) = (self.k@, self.start@, self.end@, self.drive@);
        let ghost other = abs(end - start);
        proof {
            lemma_offset_range(k, drive, other);
            lemma_offset_step(k, drive, other);
            assert(toward(start, end) * line_offset(k + 1, drive, other) == toward(start, end) * line_offset(
                k,
                drive,
                other,
            ) + toward(start, end) * (line_offset(k + 1, drive, other) - line_offset(k, drive, other)))
                by (nonlinear_arith);
        }
        if self.err > 0 {
            self.err = self.err - self.drive2;
            self.value = self.value + self.sign;
        }
        self.err = self.err + self.other2;
        self.k = Ghost(k + 1);
    }

    /// The coordinate on the line, which lies between the endpoints.
    fn coordinate(&self) -> (r: i32)
        requires
            self.wf(),
            self.k@ <= self.drive@,
        ensures
            r == follow(self.k@, self.start@, self.end@, self.drive@),
    {
        proof {
            lemma_offset_range(self.k@, self.drive@, abs(self.end@ - self.start@));
        }
        self.value as i32
    }
}


pub open spec fn delta(p: Seq<int>, q: Seq<int>, i: int) -> int {
    abs(q[i] - p[i])
}

/// The first axis among the first `n` along which the endpoints lie furthest apart.
pub open spec fn widest_axis(p: Seq<int>, q: Seq<int>, n: int) -> int
    decreases n,
{
    if n <= 1 {
        0
    } else {
        let best = widest_axis(p, q, n - 1);
        if delta(p, q, n - 1) > delta(p, q, best) { n - 1 } else { best }
    }
}

/// The axis a line steps along one unit at a time.
pub open spec fn driving_axis(p: Seq<int>, q: Seq<int>) -> int {
    widest_axis(p, q, p.len() as int)
}

/// The endpoint a line is drawn from: the one lower on the driving axis, or `p` on a tie.
pub open spec fn line_start(p: Seq<int>, q: Seq<int>) -> Seq<int> {
    if p[driving_axis(p, q)] > q[driving_axis(p, q)] { q } else { p }
}

pub open spec fn line_end(p: Seq<int>, q: Seq<int>) -> Seq<int> {
    if p[driving_axis(p, q)] > q[driving_axis(p, q)] { p } else { q }
}

/// The number of points on the line from `p` to `q`.
pub open spec fn line_len(p: Seq<int>, q: Seq<int>) -> int {
    delta(p, q, driving_axis(p, q)) + 1
}

/// The `k`-th point of the digital line from `p` to `q`: `k` units from its
/// start along the driving axis, and on every other axis the integer nearest
/// to the ideal line, with ties toward the start.
pub open spec fn line_point(p: Seq<int>, q: Seq<int>, k: int) -> Seq<int> {
    let (a, b) = (line_start(p, q), line_end(p, q));
    Seq::new(p.len(), |i: int| follow(k, a[i], b[i], delta(p, q, driving_axis(p, q))))
}

pub open spec fn ints(v: Seq<i32>) -> Seq<int> {
    v.map_values(|x: i32| x as int)
}

spec fn tracks_line(f: Seq<Follower>, p: Seq<int>, q: Seq<int>, k: int) -> bool {
    &&& f.len() == p.len()
    &&& forall|i: int|
        0 <= i < f.len() ==> {
            &&& (#[trigger] f[i]).wf()
            &&& f[i].k@ == k
            &&& f[i].start@ == line_start(p, q)[i]
            &&& f[i].end@ == line_end(p, q)[i]
            &&& f[i].drive@ == delta(p, q, driving_axis(p, q))
        }
}

/// Sets up one follower per axis for the line from `p` to `q`; returns them
/// with the number of steps after the first point.
fn start_line(p: &Vec<i32>, q: &Vec<i32>) -> (r: (Vec<Follower>, i64))
    requires
        p@.len() == q@.len() >= 1,
    ensures
        tracks_line(r.0@, ints(p@), ints(q@), 0),
        r.1 == delta(ints(p@), ints(q@), driving_axis(ints(p@), ints(q@))),
{
    let ghost (pp, qq) = (ints(p@), ints(q@));
    let n = p.len();
    let mut axis: usize = 0;
    let mut widest: i64 = if q[0] >= p[0] { q[0] as i64 - p[0] as i64 } else { p[0] as i64 - q[0] as i64 };
    assert(pp[0] == p@[0] && qq[0] == q@[0]);
    let mut i: usize = 1;
    while i < n
        invariant
            1 <= i <= n,
            n == p@.len() == q@.len(),
            pp == ints(p@),
            qq == ints(q@),
            axis == widest_axis(pp, qq, i as int),
            axis < i,
            widest == delta(pp, qq, axis as int),
            widest <= u32::MAX,
            forall|j: int| 0 <= j < i ==> delta(pp, qq, j) <= widest,
        decreases n - i,
    {
        assert(pp[i as int] == p@[i as int] && qq[i as int] == q@[i as int]);
        let d: i64 = if q[i] >= p[i] { q[i] as i64 - p[i] as i64 } else { p[i] as i64 - q[i] as i64 };
        if d > widest {
            axis = i;
            widest = d;
        }
        i = i + 1;
    }
    let flip = p[axis] > q[axis];
    let mut followers: Vec<Follower> = Vec::new();
    let mut j: usize = 0;
    while j < n
        invariant
            j <= n,
            n == p@.len() == q@.len(),
            pp == ints(p@),
            qq == ints(q@),
            axis == driving_axis(pp, qq),
            axis < n,
            widest == delta(pp, qq, axis as int),
            widest <= u32::MAX,
            forall|j: int| 0 <= j < n ==> delta(pp, qq, j) <= widest,
            flip == (pp[axis as int] > qq[axis as int]),
            followers@.len() == j,
            forall|i: int|
                0 <= i < j ==> {
                    &&& (#[trigger] followers@[i]).wf()
                    &&& followers@[i].k@ == 0
                    &&& followers@[i].start@ == line_start(pp, qq)[i]
                    &&& followers@[i].end@ == line_end(pp, qq)[i]
                    &&& followers@[i].drive@ == widest
                },
        decreases n - j,
    {
        assert(delta(pp, qq, j as int) <= widest);
        assert(pp[j as int] == p@[j as int] && qq[j as int] == q@[j as int]);
        let f = if flip { Follower::new(q[j], p[j], widest) } else { Follower::new(p[j], q[j], widest) };
        followers.push(f);
        j = j + 1;
    }
    (followers, widest)
}

/// Moves every follower one step on.
fn step_line(followers: &mut Vec<Follower>, Ghost(p): Ghost<Seq<int>>, Ghost(q): Ghost<Seq<int>>, Ghost(k): Ghost<int>)
    requires
        tracks_line(old(followers)@, p, q, k),
        k <= delta(p, q, driving_axis(p, q)),
    ensures
        tracks_line(final(followers)@, p, q, k + 1),
{
    let n = followers.len();
    let mut i: usize = 0;
    while i < n
        invariant
            i <= n,
            n == followers@.len() == p.len(),
            k <= delta(p, q, driving_axis(p, q)),
            forall|j: int|
                0 <= j < n ==> {
                    &&& (#[trigger] followers@[j]).wf()
                    &&& followers@[j].k@ == if j < i { k + 1 } else { k }
                    &&& followers@[j].start@ == line_start(p, q)[j]
                    &&& followers@[j].end@ == line_end(p, q)[j]
                    &&& followers@[j].drive@ == delta(p, q, driving_axis(p, q))
                },
        decreases n - i,
    {
        followers[i].advance();
        i = i + 1;
    }
}


/// The points of the digital line from `(x0, y0)` to `(x1, y1)`, in order
/// from the end lower on the driving axis. Horizontal and vertical lines need
/// no case of their own: the error term of the flat axis never fires.
pub fn plot_bresenham_2d(x0: i32, y0: i32, x1: i32, y1: i32) -> (r: Vec<(i32, i32)>)
    ensures
        r@.len() == line_len(seq![x0 as int, y0 as int], seq![x1 as int, y1 as int]),
        forall|k: int|
            0 <= k < r@.len() ==> seq![r@[k].0 as int, r@[k].1 as int] == line_point(
                seq![x0 as int, y0 as int],
                seq![x1 as int, y1 as int],
                k,
            ),
{
    let ghost pp = seq![x0 as int, y0 as int];
    let ghost qq = seq![x1 as int, y1 as int];
    let p = vec![x0, y0];
    let q = vec![x1, y1];
    assert(ints(p@) =~= pp);
    assert(ints(q@) =~= qq);
    let (mut followers, count) = start_line(&p, &q);
    let mut points: Vec<(i32, i32)> = Vec::new();
    let mut k: i64 = 0;
    while k <= count
        invariant
            0 <= k <= count + 1,
            count == delta(pp, qq, driving_axis(pp, qq)),
            pp.len() == 2,
            tracks_line(followers@, pp, qq, k as int),
            points@.len() == k,
            forall|j: int|
                0 <= j < k ==> seq![points@[j].0 as int, points@[j].1 as int] == line_point(pp, qq, j),
        decreases count + 1 - k,
    {
        let point = (followers[0].coordinate(), followers[1].coordinate());
        assert(seq![point.0 as int, point.1 as int] =~= line_point(pp, qq, k as int));
        points.push(point);
        step_line(&mut followers, Ghost(pp), Ghost(qq), Ghost(k as int));
        k = k + 1;
    }
    points
}


/// The points of the digital line from `(x0, y0, z0)` to `(x1, y1, z1)`, in
/// order from the end lower on the driving axis.
pub fn plot_bresenham_3d(
    x0: i32, y0: i32, z0: i32,
    x1: i32, y1: i32, z1: i32,
) -> (r: Vec<(i32, i32, i32)>)
    ensures
        r@.len() == line_len(seq![x0 as int, y0 as int, z0 as int], seq![x1 as int, y1 as int, z1 as int]),
        forall|k: int| 0 <= k < r@.len() ==> seq![r@[k].0 as int, r@[k].1 as int, r@[k].2 as int] == line_point(seq![x0 as int, y0 as int, z0 as int], seq![x1 as int, y1 as int, z1 as int], k),
{
    let ghost pp = seq![x0 as int, y0 as int, z0 as int];
    let ghost qq = seq![x1 as int, y1 as int, z1 as int];
    let p = vec![x0, y0, z0];
    let q = vec![x1, y1, z1];
    assert(ints(p@) =~= pp);
    assert(ints(q@) =~= qq);
    let (mut followers, count) = start_line(&p, &q);
    let mut points: Vec<(i32, i32, i32)> = Vec::new();
    let mut k: i64 = 0;
    while k <= count
        invariant
            0 <= k <= count + 1,
            count == delta(pp, qq, driving_axis(pp, qq)),
            pp.len() == 3,
            tracks_line(followers@, pp, qq, k as int),
            points@.len() == k,
            forall|j: int| 0 <= j < k ==> seq![points@[j].0 as int, points@[j].1 as int, points@[j].2 as int] == line_point(pp, qq, j),
        decreases count + 1 - k,
    {
        let point = (followers[0].coordinate(), followers[1].coordinate(), followers[2].coordinate());
        assert(seq![point.0 as int, point.1 as int, point.2 as int] =~= line_point(pp, qq, k as int));
        points.push(point);
        step_line(&mut followers, Ghost(pp), Ghost(qq), Ghost(k as int));
        k = k + 1;
    }
    points
}

/// The points of the digital line from `(x0, y0, z0, w0)` to
/// `(x1, y1, z1, w1)`, in order from the end lower on the driving axis.
pub fn plot_bresenham_4d(
    x0: i32, y0: i32, z0: i32, w0: i32,
    x1: i32, y1: i32, z1: i32, w1: i32,
) -> (r: Vec<(i32, i32, i32, i32)>)
    ensures
        r@.len() == line_len(seq![x0 as int, y0 as int, z0 as int, w0 as int], seq![x1 as int, y1 as int, z1 as int, w1 as int]),
        forall|k: int| 0 <= k < r@.len() ==> seq![r@[k].0 as int, r@[k].1 as int, r@[k].2 as int, r@[k].3 as int] == line_point(seq![x0 as int, y0 as int, z0 as int, w0 as int], seq![x1 as int, y1 as int, z1 as int, w1 as int], k),
{
    let ghost pp = seq![x0 as int, y0 as int, z0 as int, w0 as int];
    let ghost qq = seq![x1 as int, y1 as int, z1 as int, w1 as int];
    let p = vec![x0, y0, z0, w0];
    let q = vec![x1, y1, z1, w1];
    assert(ints(p@) =~= pp);
    assert(ints(q@) =~= qq);
    let (mut followers, count) = start_line(&p, &q);
    let mut points: Vec<(i32, i32, i32, i32)> = Vec::new();
    let mut k: i64 = 0;
    while k <= count
        invariant
            0 <= k <= count + 1,
            count == delta(pp, qq, driving_axis(pp, qq)),
            pp.len() == 4,
            tracks_line(followers@, pp, qq, k as int),
            points@.len() == k,
            forall|j: int| 0 <= j < k ==> seq![points@[j].0 as int, points@[j].1 as int, points@[j].2 as int, points@[j].3 as int] == line_point(pp, qq, j),
        decreases count + 1 - k,
    {
        let point = (followers[0].coordinate(), followers[1].coordinate(), followers[2].coordinate(), followers[3].coordinate());
        assert(seq![point.0 as int, point.1 as int, point.2 as int, point.3 as int] =~= line_point(pp, qq, k as int));
        points.push(point);
        step_line(&mut followers, Ghost(pp), Ghost(qq), Ghost(k as int));
        k = k + 1;
    }
    points
}


/// The sum of how far the two candidates for the next column, `(x + 1, y)`
/// and `(x + 1, y - 1)`, lie off the circle of radius `r`, in squared distance.
pub open spec fn circle_error(r: int, x: int, y: int) -> int {
    2 * (x + 1) * (x + 1) + y * y + (y - 1) * (y - 1) - 2 * r * r
}

/// The `n`-th point of the arc from `(0, r)` through the first octant: each
/// column keeps its row where the error is not positive, else moves down one.
pub open spec fn arc(r: int, n: nat) -> (int, int)
    decreases n,
{
    if n == 0 {
        (0, r)
    } else {
        let (x, y) = arc(r, (n - 1) as nat);
        (x + 1, if circle_error(r, x, y) <= 0 { y } else { y - 1 })
    }
}

/// The arc stops at its `n`-th point, where it meets the diagonal.
pub open spec fn arc_ends_at(r: int, n: nat) -> bool {
    &&& arc(r, n).0 >= arc(r, n).1
    &&& forall|i: nat| i < n ==> arc(r, i).0 < arc(r, i).1
}

/// The eight mirror images of `(dx, dy)` about the center.
pub open spec fn octants(cx: int, cy: int, dx: int, dy: int) -> Seq<(int, int)> {
    seq![
        (cx + dx, cy + dy),
        (cx + dx, cy - dy),
        (cx - dx, cy + dy),
        (cx - dx, cy - dy),
        (cx + dy, cy + dx),
        (cx + dy, cy - dx),
        (cx - dy, cy + dx),
        (cx - dy, cy - dx),
    ]
}

/// The mirror images of the first `n` points of the arc.
pub open spec fn circle_points(cx: int, cy: int, r: int, n: nat) -> Seq<(int, int)>
    decreases n,
{
    if n == 0 {
        Seq::empty()
    } else {
        circle_points(cx, cy, r, (n - 1) as nat) + octants(cx, cy, arc(r, (n - 1) as nat).0, arc(r, (n - 1) as nat).1)
    }
}

pub open spec fn as_int_pairs(v: Seq<(i32, i32)>) -> Seq<(int, int)> {
    v.map_values(|p: (i32, i32)| (p.0 as int, p.1 as int))
}

fn push_octants(points: &mut Vec<(i32, i32)>, cx: i32, cy: i32, dx: i32, dy: i32)
    requires
        i32::MIN <= cx - abs(dx as int) && cx + abs(dx as int) <= i32::MAX,
        i32::MIN <= cx - abs(dy as int) && cx + abs(dy as int) <= i32::MAX,
        i32::MIN <= cy - abs(dx as int) && cy + abs(dx as int) <= i32::MAX,
        i32::MIN <= cy - abs(dy as int) && cy + abs(dy as int) <= i32::MAX,
    ensures
        as_int_pairs(final(points)@) == as_int_pairs(old(points)@) + octants(cx as int, cy as int, dx as int, dy as int),
{
    points.push((cx + dx, cy + dy));
    points.push((cx + dx, cy - dy));
    points.push((cx - dx, cy + dy));
    points.push((cx - dx, cy - dy));
    points.push((cx + dy, cy + dx));
    points.push((cx + dy, cy - dx));
    points.push((cx - dy, cy + dx));
    points.push((cx - dy, cy - dx));
    assert(as_int_pairs(points@) =~= as_int_pairs(old(points)@) + octants(cx as int, cy as int, dx as int, dy as int));
}

/// The points of the circle of radius `r` about `(cx, cy)`, eight mirror
/// images at a time, one group per column of the first octant's arc.
pub fn plot_bresenham_circle(cx: i32, cy: i32, r: i32) -> (points: Vec<(i32, i32)>)
    requires
        i32::MIN <= cx - abs(r as int) && cx + abs(r as int) <= i32::MAX,
        i32::MIN <= cy - abs(r as int) && cy + abs(r as int) <= i32::MAX,
    ensures
        exists|n: nat| arc_ends_at(r as int, n) && as_int_pairs(points@) == circle_points(cx as int, cy as int, r as int, n + 1),
{
    let ghost rr = r as int;
    let mut points: Vec<(i32, i32)> = Vec::new();
    let mut d: i128 = 3 - (r as i128) * 2;
    let mut x: i32 = 0;
    let mut y: i32 = r;
    let ghost mut n: nat = 0;
    assert(as_int_pairs(points@) =~= circle_points(cx as int, cy as int, rr, 0));
    push_octants(&mut points, cx, cy, x, y);
    assert(d == circle_error(rr, 0, rr)) by (nonlinear_arith)
        requires
            d == 3 - rr * 2,
    ;
    while x < y
        invariant
            rr == r,
            i32::MIN <= cx - abs(rr) && cx + abs(rr) <= i32::MAX,
            i32::MIN <= cy - abs(rr) && cy + abs(rr) <= i32::MAX,
            (x as int, y as int) == arc(rr, n),
            0 <= x <= abs(rr),
            rr >= 0 ==> 0 <= y <= rr,
            rr < 0 ==> y == rr && x == 0,
            d == circle_error(rr, x as int, y as int),
            forall|i: nat| i < n ==> arc(rr, i).0 < arc(rr, i).1,
            as_int_pairs(points@) == circle_points(cx as int, cy as int, rr, n + 1),
        decreases abs(rr) - x,
    {
        let ghost (x0, y0) = (x as int, y as int);
        assert(-0x1_0000_0000_0000_0000_00 <= d <= 0x1_0000_0000_0000_0000_00) by (nonlinear_arith)
            requires
                d == circle_error(rr, x0, y0),
                0 <= x0 <= rr,
                0 <= y0 <= rr,
                rr <= 0x1_0000_0000,
        ;
        if d <= 0 {
            d = d + 6 + (x as i128) * 4;
        } else {
            d = d + 10 + ((x as i128) - (y as i128)) * 4;
            y = y - 1;
        }
        x = x + 1;
        proof {
            assert(d == circle_error(rr, x as int, y as int)) by (nonlinear_arith)
                requires
                    x == x0 + 1,
                    y == y0 || y == y0 - 1,
                    y == y0 ==> d == circle_error(rr, x0, y0) + 6 + x0 * 4,
                    y == y0 - 1 ==> d == circle_error(rr, x0, y0) + 10 + (x0 - y0) * 4,
            ;
            n = n + 1;
        }
        push_octants(&mut points, cx, cy, x, y);
    }
    assert(arc_ends_at(rr, n));
    points
}

} // verus!
