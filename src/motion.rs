//! Eased cursor travel between two lines.

use vstd::prelude::*;

use crate::step::{AnimationStep, StepView, step_views};

verus! {

broadcast use crate::step::lemma_step_views_push;

/// Longest travel that the eased path is planned for: its cubic arithmetic
/// stays within 128 bits up to here.
pub const MAX_TRAVEL: usize = 0x4000_0000;

/// Pause multiplier for one waypoint, in tenths of the cursor pause: short
/// travel moves at full pause, longer travel faster per step.
pub open spec fn speed_tier_tenths(distance: nat) -> nat {
    if distance <= 5 {
        10
    } else if distance <= 20 {
        3
    } else {
        1
    }
}

/// The pause multiplier for a travel of `distance` lines, in tenths.
pub fn speed_tier(distance: usize) -> (r: u64)
    ensures
        r == speed_tier_tenths(distance as nat),
{
    if distance <= 5 {
        10
    } else if distance <= 20 {
        3
    } else {
        1
    }
}

/// `num / den` rounded to the nearest integer, halves upwards.
pub open spec fn round_ratio(num: int, den: int) -> int {
    (2 * num + den) / (2 * den)
}

/// Number of samples: three tenths of the distance, rounded, at least ten
/// and at most the distance.
pub open spec fn sample_count(distance: nat) -> nat {
    let x = round_ratio(3 * distance as int, 10) as nat;
    let lo = if x < 10 {
        10
    } else {
        x
    };
    if lo > distance {
        distance
    } else {
        lo
    }
}

/// `round(ease(i / n) * d)` for the cubic ease-in-out curve: `4t³` below one
/// half, `1 - (2 - 2t)³ / 2` from there.
pub open spec fn eased_offset(i: nat, n: nat, d: nat) -> int {
    let c = (n * n * n) as int;
    if 2 * i < n {
        round_ratio(4 * (i * i * i) * d as int, c)
    } else {
        let m = (n - i) as nat;
        round_ratio(d * c - 4 * (m * m * m) * d, c)
    }
}

/// The line that sample `i` of `n` lands on, travelling from `from` to `to`.
pub open spec fn sample_line(from: nat, to: nat, i: nat, n: nat) -> int {
    let d = if from <= to {
        (to - from) as nat
    } else {
        (from - to) as nat
    };
    if from < to {
        from + eased_offset(i, n, d)
    } else {
        from - eased_offset(i, n, d)
    }
}

/// Waypoints of samples `1..=k`: each sample whose line differs from the
/// previous waypoint (from `from` at first).
pub open spec fn waypoints_upto(from: nat, to: nat, n: nat, k: nat) -> Seq<int>
    decreases k,
{
    if k == 0 {
        Seq::empty()
    } else {
        let w = waypoints_upto(from, to, n, (k - 1) as nat);
        let prev = if w.len() == 0 {
            from as int
        } else {
            w.last()
        };
        let line = sample_line(from, to, k, n);
        if line == prev {
            w
        } else {
            w.push(line)
        }
    }
}

/// The waypoints of a travel from `from` to `to`: none where they are equal.
pub open spec fn cursor_waypoints(from: nat, to: nat) -> Seq<int> {
    let d = if from <= to {
        (to - from) as nat
    } else {
        (from - to) as nat
    };
    if from == to {
        Seq::empty()
    } else {
        waypoints_upto(from, to, sample_count(d), sample_count(d))
    }
}

/// The pause after each waypoint: half the base speed times the speed tier,
/// at least one millisecond, capped at the largest `u64`.
pub open spec fn waypoint_pause(speed_ms: nat, distance: nat) -> nat {
    let v = speed_ms * speed_tier_tenths(distance) / 20;
    if v < 1 {
        1
    } else if v > u64::MAX {
        u64::MAX as nat
    } else {
        v
    }
}

/// A move-cursor step and a pause for each waypoint of `w`.
pub open spec fn motion_steps(w: Seq<int>, pause: nat) -> Seq<StepView>
    decreases w.len(),
{
    if w.len() == 0 {
        Seq::empty()
    } else {
        motion_steps(w.drop_last(), pause) + seq![
            StepView::MoveCursor { line: line_index(w.last()), col: 0 },
            StepView::Pause { duration_ms: pause },
        ]
    }
}

/// `x` as a line index; waypoints are never negative.
pub open spec fn line_index(x: int) -> nat {
    if x < 0 {
        0
    } else {
        x as nat
    }
}

/// The steps of a travel from `from` to `to` at base speed `speed_ms`.
pub open spec fn cursor_motion_steps(from: nat, to: nat, speed_ms: nat) -> Seq<StepView> {
    let d = if from <= to {
        (to - from) as nat
    } else {
        (from - to) as nat
    };
    motion_steps(cursor_waypoints(from, to), waypoint_pause(speed_ms, d))
}

proof fn lemma_round_ratio_le(num: int, den: int, d: int)
    requires
        den > 0,
        0 <= num,
        num <= d * den,
    ensures
        0 <= round_ratio(num, den) <= d,
{
    assert(0 <= 2 * num + den);
    assert(2 * num + den < (2 * d + 2) * den) by (nonlinear_arith)
        requires
            num <= d * den,
            den > 0,
    ;
    assert((2 * num + den) / (2 * den) <= d) by (nonlinear_arith)
        requires
            2 * num + den < (2 * d + 2) * den,
            den > 0,
            2 * num + den >= 0,
    ;
    assert((2 * num + den) / (2 * den) >= 0) by (nonlinear_arith)
        requires
            den > 0,
            2 * num + den >= 0,
    ;
}

proof fn lemma_cube_le(a: nat, b: nat)
    requires
        a <= b,
    ensures
        a * a * a <= b * b * b,
{
    assert(a * a <= b * b) by (nonlinear_arith)
        requires
            a <= b,
    ;
    assert(a * a * a <= b * b * b) by (nonlinear_arith)
        requires
            a <= b,
            a * a <= b * b,
    ;
}

/// Every sample lies between the two ends of the travel.
pub proof fn lemma_eased_offset_bounded(i: nat, n: nat, d: nat)
    requires
        0 < n,
        i <= n,
    ensures
        0 <= eased_offset(i, n, d) <= d,
{
    let c = (n * n * n) as int;
    assert(c > 0) by (nonlinear_arith)
        requires
            n > 0,
            c == n * n * n,
    ;
    if 2 * i < n {
        lemma_cube_le(2 * i, n);
        assert((2 * i) * (2 * i) * (2 * i) == 8 * (i * i * i)) by (nonlinear_arith);
        assert(4 * (i * i * i) * d <= d * c) by (nonlinear_arith)
            requires
                8 * (i * i * i) <= c,
        ;
        assert(4 * (i * i * i) * d >= 0) by (nonlinear_arith);
        lemma_round_ratio_le(4 * (i * i * i) * d as int, c, d as int);
    } else {
        let m = (n - i) as nat;
        lemma_cube_le(2 * m, n);
        assert((2 * m) * (2 * m) * (2 * m) == 8 * (m * m * m)) by (nonlinear_arith);
        assert(4 * (m * m * m) * d <= d * c) by (nonlinear_arith)
            requires
                8 * (m * m * m) <= c,
        ;
        assert(4 * (m * m * m) * d >= 0) by (nonlinear_arith);
        lemma_round_ratio_le(d * c - 4 * (m * m * m) * d, c, d as int);
    }
}

/// The last sample lands on the target line.
pub proof fn lemma_eased_offset_end(n: nat, d: nat)
    requires
        0 < n,
    ensures
        eased_offset(n, n, d) == d,
{
    let c = (n * n * n) as int;
    assert(c > 0) by (nonlinear_arith)
        requires
            n > 0,
            c == n * n * n,
    ;
    let z = (n - n) as nat;
    assert(z == 0);
    assert(z * z * z == 0) by (nonlinear_arith)
        requires
            z == 0,
    ;
    assert(4 * (z * z * z) * d == 0) by (nonlinear_arith)
        requires
            z == 0,
    ;
    assert(2 * (d * c - 4 * (z * z * z) * d) + c == (2 * d + 1) * c) by (nonlinear_arith)
        requires
            4 * (z * z * z) * d == 0,
    ;
    assert(((2 * d + 1) * c) / (2 * c) == d) by (nonlinear_arith)
        requires
            c > 0,
    ;
}

proof fn lemma_waypoints_upto_distinct(from: nat, to: nat, n: nat, k: nat)
    ensures
        ({
            let w = waypoints_upto(from, to, n, k);
            &&& w.len() > 0 ==> w[0] != from
            &&& forall|j: int| 0 < j < w.len() ==> #[trigger] w[j] != w[j - 1]
        }),
    decreases k,
{
    if k > 0 {
        lemma_waypoints_upto_distinct(from, to, n, (k - 1) as nat);
    }
}

proof fn lemma_waypoints_upto_last(from: nat, to: nat, n: nat, k: nat)
    requires
        k > 0,
        sample_line(from, to, k, n) != from,
    ensures
        ({
            let w = waypoints_upto(from, to, n, k);
            w.len() > 0 && w.last() == sample_line(from, to, k, n)
        }),
{
}

/// A travel to the line the cursor is on emits no step.
pub proof fn lemma_no_motion_in_place(line: nat, speed_ms: nat)
    ensures
        cursor_motion_steps(line, line, speed_ms) == Seq::<StepView>::empty(),
{
}

/// The waypoints of a real travel: the first differs from the starting line,
/// no two in a row are equal, and the last is the target line.
pub proof fn lemma_waypoints_distinct(from: nat, to: nat)
    requires
        from != to,
    ensures
        ({
            let w = cursor_waypoints(from, to);
            &&& w.len() > 0
            &&& w[0] != from
            &&& w.last() == to
            &&& forall|j: int| 0 < j < w.len() ==> #[trigger] w[j] != w[j - 1]
        }),
{
    let d = if from <= to {
        (to - from) as nat
    } else {
        (from - to) as nat
    };
    let n = sample_count(d);
    assert(n > 0) by {
        assert(round_ratio(3 * d as int, 10) >= 0);
    }
    lemma_waypoints_upto_distinct(from, to, n, n);
    lemma_eased_offset_end(n, d);
    assert(sample_line(from, to, n, n) == to);
    lemma_waypoints_upto_last(from, to, n, n);
}

/// Sample `i` of `n` of a travel of `distance` lines, as an offset from the
/// starting line.
#[verifier::rlimit(50)]
fn eased_progress(i: u64, n: u64, distance: u64) -> (r: u64)
    requires
        0 < n,
        i <= n,
        distance <= MAX_TRAVEL,
        n <= distance,
    ensures
        r == eased_offset(i as nat, n as nat, distance as nat),
{
    proof {
        lemma_eased_offset_bounded(i as nat, n as nat, distance as nat);
    }
    let nn = n as u128;
    let d = distance as u128;
    let ii = i as u128;
    assert(nn * nn <= 0x4000_0000u128 * 0x4000_0000u128) by (nonlinear_arith)
        requires
            nn <= 0x4000_0000u128,
    ;
    let sq: u128 = nn * nn;
    assert(sq * nn <= 0x4000_0000u128 * 0x4000_0000u128 * 0x4000_0000u128) by (nonlinear_arith)
        requires
            nn <= 0x4000_0000u128,
            sq <= 0x4000_0000u128 * 0x4000_0000u128,
    ;
    let c: u128 = sq * nn;
    assert(c > 0) by (nonlinear_arith)
        requires
            nn > 0,
            c == nn * nn * nn,
    ;
    assert(c * d <= 0x4000_0000u128 * 0x4000_0000u128 * 0x4000_0000u128 * 0x4000_0000u128) by (nonlinear_arith)
        requires
            c <= 0x4000_0000u128 * 0x4000_0000u128 * 0x4000_0000u128,
            d <= 0x4000_0000u128,
    ;
    let cd: u128 = c * d;
    let num: u128;
    if 2 * ii < nn {
        assert(ii * ii <= sq) by (nonlinear_arith)
            requires
                ii <= nn,
                sq == nn * nn,
        ;
        let isq: u128 = ii * ii;
        assert(isq * ii <= c) by (nonlinear_arith)
            requires
                ii <= nn,
                isq <= sq,
                c == sq * nn,
        ;
        let cube: u128 = isq * ii;
        assert(cube * d <= cd) by (nonlinear_arith)
            requires
                cube <= c,
                cd == c * d,
        ;
        let t: u128 = cube * d;
        num = 4 * t;
        assert(num == 4 * (i * i * i) * distance) by (nonlinear_arith)
            requires
                num == 4 * t,
                t == cube * d,
                cube == isq * ii,
                isq == ii * ii,
                ii == i,
                d == distance,
        ;
        assert(2 * i < n);
    } else {
        let m: u128 = nn - ii;
        assert(m * m <= sq) by (nonlinear_arith)
            requires
                m <= nn,
                sq == nn * nn,
        ;
        let msq: u128 = m * m;
        assert(msq * m <= c) by (nonlinear_arith)
            requires
                m <= nn,
                msq <= sq,
                c == sq * nn,
        ;
        let mcube: u128 = msq * m;
        proof {
            lemma_cube_le(2 * m as nat, n as nat);
        }
        assert(8 * mcube <= c) by (nonlinear_arith)
            requires
                mcube == msq * m,
                msq == m * m,
                (2 * m) * (2 * m) * (2 * m) <= nn * nn * nn,
                c == sq * nn,
                sq == nn * nn,
        ;
        assert(4 * (mcube * d) <= cd) by (nonlinear_arith)
            requires
                8 * mcube <= c,
                cd == c * d,
        ;
        let t: u128 = mcube * d;
        num = cd - 4 * t;
        assert(num == distance * (n * n * n) - 4 * (((n - i) as nat) * ((n - i) as nat) * ((n - i) as nat))
            * distance) by (nonlinear_arith)
            requires
                num == cd - 4 * t,
                t == mcube * d,
                mcube == msq * m,
                msq == m * m,
                m == n - i,
                cd == c * d,
                c == sq * nn,
                sq == nn * nn,
                nn == n,
                d == distance,
        ;
    }
    assert(c == n * n * n);
    let r = (2 * num + c) / (2 * c);
    r as u64
}

/// The waypoints of a travel from `from` to `to`, as `cursor_waypoints` states.
#[verifier::rlimit(50)]
pub fn plan_cursor_path(from: usize, to: usize) -> (r: Vec<usize>)
    requires
        (if from <= to {
            to - from
        } else {
            from - to
        }) <= MAX_TRAVEL,
    ensures
        r@.map_values(|l: usize| l as int) == cursor_waypoints(from as nat, to as nat),
{
    let mut out: Vec<usize> = Vec::new();
    if from == to {
        assert(out@.map_values(|l: usize| l as int) =~= Seq::<int>::empty());
        return out;
    }
    let distance: usize = if from <= to {
        to - from
    } else {
        from - to
    };
    let d = distance as u64;
    let x: u64 = (2 * (3 * d) + 10) / 20;
    let lo: u64 = if x < 10 {
        10
    } else {
        x
    };
    let n: u64 = if lo > d {
        d
    } else {
        lo
    };
    assert(n == sample_count(distance as nat));
    let mut last: usize = from;
    let mut k: u64 = 1;
    while k <= n
        invariant
            1 <= k <= n + 1,
            n == sample_count(distance as nat),
            0 < n <= d,
            d == distance,
            distance <= MAX_TRAVEL,
            from != to,
            distance == (if from <= to {
                to - from
            } else {
                from - to
            }),
            out@.map_values(|l: usize| l as int) == waypoints_upto(
                from as nat,
                to as nat,
                n as nat,
                (k - 1) as nat,
            ),
            last == (if out@.len() == 0 {
                from
            } else {
                out@.last()
            }),
        decreases n + 1 - k,
    {
        let p = eased_progress(k, n, d);
        proof {
            lemma_eased_offset_bounded(k as nat, n as nat, d as nat);
        }
        let line: usize = if from < to {
            from + p as usize
        } else {
            from - p as usize
        };
        assert(line == sample_line(from as nat, to as nat, k as nat, n as nat));
        let ghost before = out@;
        if line != last {
            out.push(line);
            proof {
                assert(out@.map_values(|l: usize| l as int) =~= before.map_values(|l: usize| l as int).push(
                    line as int,
                ));
            }
            last = line;
        }
        proof {
            if before.len() > 0 {
                assert(before.map_values(|l: usize| l as int).last() == before.last() as int);
            }
        }
        k = k + 1;
    }
    out
}

/// The pause after each waypoint of a travel of `distance` lines.
pub fn cursor_pause(speed_ms: u64, distance: usize) -> (r: u64)
    ensures
        r == waypoint_pause(speed_ms as nat, distance as nat),
{
    let tier = speed_tier(distance);
    assert((speed_ms as u128) * (tier as u128) <= (u64::MAX as u128) * 10) by (nonlinear_arith)
        requires
            tier <= 10,
    ;
    let raw: u128 = (speed_ms as u128) * (tier as u128) / 20;
    if raw < 1 {
        1
    } else if raw > u64::MAX as u128 {
        u64::MAX
    } else {
        raw as u64
    }
}

/// Appends the steps of a travel from `from` to `to` at base speed
/// `speed_ms` and returns the line where the cursor ends.
pub fn push_cursor_motion(steps: &mut Vec<AnimationStep>, from: usize, to: usize, speed_ms: u64) -> (r: usize)
    requires
        (if from <= to {
            to - from
        } else {
            from - to
        }) <= MAX_TRAVEL,
    ensures
        r == to,
        step_views(final(steps)@) == step_views(old(steps)@) + cursor_motion_steps(
            from as nat,
            to as nat,
            speed_ms as nat,
        ),
{
    let path = plan_cursor_path(from, to);
    let distance: usize = if from <= to {
        to - from
    } else {
        from - to
    };
    let pause = cursor_pause(speed_ms, distance);
    let ghost w = cursor_waypoints(from as nat, to as nat);
    let ghost start = step_views(steps@);
    let mut j: usize = 0;
    while j < path.len()
        invariant
            path@.map_values(|l: usize| l as int) == w,
            j <= path@.len(),
            pause == waypoint_pause(speed_ms as nat, distance as nat),
            step_views(steps@) == start + motion_steps(w.take(j as int), pause as nat),
        decreases path@.len() - j,
    {
        let line = path[j];
        let ghost before = steps@;
        steps.push(AnimationStep::MoveCursor { line, col: 0 });
        steps.push(AnimationStep::Pause { duration_ms: pause });
        proof {
            assert(w.take(j + 1).drop_last() =~= w.take(j as int));
            assert(w.take(j + 1).last() == line as int);
            assert(step_views(steps@) =~= step_views(before) + seq![
                StepView::MoveCursor { line: line as nat, col: 0 },
                StepView::Pause { duration_ms: pause as nat },
            ]);
        }
        j = j + 1;
    }
    proof {
        assert(w.take(j as int) =~= w);
    }
    to
}

} // verus!
