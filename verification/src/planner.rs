//! The split planner: turns a strategy and a total duration into cut
//! points, and cut points into an ordered, contiguous list of segment
//! ranges.

use crate::models::SegmentRange;
use crate::models::VideoError;
use crate::models::VideoResult;
use vstd::arithmetic::div_mod::lemma_fundamental_div_mod;
use vstd::prelude::*;

verus! {

// ---------------------------------------------------------------------------
// Cut points
// ---------------------------------------------------------------------------

/// Cut points for an equal-count strategy: `count - 1` points, the i-th at
/// `(i + 1) * (total / count)` milliseconds.
pub open spec fn count_cut_points(total: u64, count: u32) -> Seq<u64> {
    if count == 0 {
        Seq::empty()
    } else {
        Seq::new((count - 1) as nat, |i: int| ((i + 1) * ((total as int) / (count as int))) as u64)
    }
}

/// How many multiples of `duration` lie strictly below `total`.
pub open spec fn num_interval_cuts(total: nat, duration: nat) -> nat
    recommends
        duration > 0,
{
    if total % duration == 0 {
        if total / duration == 0 {
            0
        } else {
            (total / duration - 1) as nat
        }
    } else {
        total / duration
    }
}

/// Cut points for a fixed-interval strategy: every multiple of `duration`
/// strictly below `total`, in order.
pub open spec fn interval_cut_points(total: u64, duration: u64) -> Seq<u64>
    recommends
        duration > 0,
{
    Seq::new(
        num_interval_cuts(total as nat, duration as nat),
        |i: int| ((i + 1) * (duration as int)) as u64,
    )
}

/// Generates the cut points of a time strategy. With a count, the source is
/// divided into `count` equal widths (the last absorbs the remainder);
/// without one, the planner walks forward in steps of `duration_ms`.
pub fn generate_time_splits(total_ms: u64, duration_ms: u64, count: Option<u32>) -> (r: Vec<u64>)
    requires
        count is None ==> duration_ms > 0,
    ensures
        r@ == match count {
            Some(c) => count_cut_points(total_ms, c),
            None => interval_cut_points(total_ms, duration_ms),
        },
{
    match count {
        Some(c) => generate_count_splits(total_ms, c),
        None => generate_interval_splits(total_ms, duration_ms),
    }
}

fn generate_count_splits(total_ms: u64, c: u32) -> (r: Vec<u64>)
    ensures
        r@ == count_cut_points(total_ms, c),
{
    let mut points: Vec<u64> = Vec::new();
    if c == 0 {
        proof {
            assert(points@ =~= count_cut_points(total_ms, c));
        }
        return points;
    }
    let w = total_ms / (c as u64);
    proof {
        lemma_fundamental_div_mod(total_ms as int, c as int);
    }
    let mut i: u32 = 1;
    while i < c
        invariant
            1 <= i <= c,
            w == total_ms / (c as u64),
            (c as int) * (w as int) <= total_ms as int,
            points@.len() == i - 1,
            forall|j: int| 0 <= j < points@.len() ==> points@[j] as int == (j + 1) * (w as int),
        decreases c - i,
    {
        proof {
            assert((i as int) * (w as int) <= (c as int) * (w as int)) by (nonlinear_arith)
                requires
                    1 <= i <= c,
                    w >= 0,
            ;
        }
        points.push((i as u64) * w);
        i = i + 1;
    }
    proof {
        assert(points@ =~= count_cut_points(total_ms, c));
    }
    points
}

fn generate_interval_splits(total_ms: u64, duration_ms: u64) -> (r: Vec<u64>)
    requires
        duration_ms > 0,
    ensures
        r@ == interval_cut_points(total_ms, duration_ms),
{
    let mut points: Vec<u64> = Vec::new();
    let mut cur: u64 = duration_ms;
    let ghost d = duration_ms as int;
    proof {
        assert(points@.len() == 0);
        assert((points@.len() as int + 1) * d == d) by (nonlinear_arith)
            requires
                points@.len() == 0,
        ;
    }
    loop
        invariant_except_break
            cur as int == (points@.len() as int + 1) * d,
        invariant
            duration_ms > 0,
            d == duration_ms as int,
            forall|j: int|
                0 <= j < points@.len() ==> (#[trigger] points@[j]) as int == (j + 1) * d,
            forall|j: int| 0 <= j < points@.len() ==> points@[j] < total_ms,
        ensures
            points@ =~= interval_cut_points(total_ms, duration_ms),
        decreases
                (if cur < total_ms {
                    total_ms - cur
                } else {
                    0
                }),
    {
        let ghost n = points@.len() as int;
        if !(cur < total_ms) {
            proof {
                if total_ms == 0 {
                    assert(num_interval_cuts(0, duration_ms as nat) == 0);
                    assert(points@.len() == 0) by {
                        if points@.len() > 0 {
                            assert(points@[0] < total_ms);
                        }
                    }
                } else {
                    if n > 0 {
                        assert(points@[n - 1] as int == n * d);
                        assert(points@[n - 1] < total_ms);
                    } else {
                        assert(n * d == 0) by (nonlinear_arith)
                            requires
                                n == 0,
                        ;
                    }
                    lemma_num_interval_cuts(total_ms, duration_ms, n + 1);
                }
                assert forall|j: int| 0 <= j < points@.len() implies points@[j]
                    == #[trigger] interval_cut_points(total_ms, duration_ms)[j] by {
                    assert(points@[j] as int == (j + 1) * d);
                }
                assert(points@ =~= interval_cut_points(total_ms, duration_ms));
            }
            break;
        }
        points.push(cur);
        if duration_ms <= u64::MAX - cur {
            proof {
                assert((n + 1) * d + d == (n + 2) * d) by (nonlinear_arith);
            }
            cur = cur + duration_ms;
        } else {
            proof {
                assert((n + 1) * d + d == (n + 2) * d) by (nonlinear_arith);
                assert((n + 1) * d == cur as int);
                lemma_num_interval_cuts(total_ms, duration_ms, n + 2);
                assert forall|j: int| 0 <= j < points@.len() implies points@[j]
                    == #[trigger] interval_cut_points(total_ms, duration_ms)[j] by {
                    assert(points@[j] as int == (j + 1) * d);
                }
                assert(points@ =~= interval_cut_points(total_ms, duration_ms));
            }
            break;
        }
    }
    points
}

/// Exactly `k - 1` multiples of `d` lie strictly below `total` when
/// `(k - 1) * d < total <= k * d`.
proof fn lemma_num_interval_cuts(total: u64, d: u64, k: int)
    requires
        d > 0,
        k >= 1,
        (k - 1) * (d as int) < total as int,
        total as int <= k * (d as int),
    ensures
        num_interval_cuts(total as nat, d as nat) == k - 1,
{
    let t = total as int;
    let dd = d as int;
    if t == k * dd {
        assert(t % dd == 0 && t / dd == k) by (nonlinear_arith)
            requires
                t == k * dd,
                dd > 0,
                k >= 1,
        ;
    } else {
        assert(t / dd == k - 1 && t % dd != 0) by (nonlinear_arith)
            requires
                (k - 1) * dd < t,
                t < k * dd,
                dd > 0,
                k >= 1,
        ;
    }
}

// ---------------------------------------------------------------------------
// Pairing cut points into ranges
// ---------------------------------------------------------------------------

/// Pairs cut points into contiguous ranges: the first range starts at 0,
/// each cut point ends one range and starts the next, and a trailing range
/// up to `total` is appended whenever it would be non-empty.
pub open spec fn pair_ranges(points: Seq<u64>, total: u64) -> Seq<SegmentRange> {
    let base = Seq::new(
        points.len(),
        |i: int|
            SegmentRange {
                start_ms: if i == 0 {
                    0u64
                } else {
                    points[i - 1]
                },
                end_ms: points[i],
            },
    );
    if points.len() == 0 {
        if 0 < total {
            seq![SegmentRange { start_ms: 0u64, end_ms: total }]
        } else {
            Seq::empty()
        }
    } else if points.last() < total {
        base.push(SegmentRange { start_ms: points.last(), end_ms: total })
    } else {
        base
    }
}

/// Pairs cut points into ranges, per `pair_ranges`.
pub fn build_segments(points: &Vec<u64>, total_ms: u64) -> (r: Vec<SegmentRange>)
    ensures
        r@ == pair_ranges(points@, total_ms),
{
    let mut segs: Vec<SegmentRange> = Vec::new();
    let mut start: u64 = 0;
    let n = points.len();
    let mut i: usize = 0;
    while i < n
        invariant
            0 <= i <= n,
            n == points@.len(),
            segs@.len() == i,
            start == if i == 0 {
                0u64
            } else {
                points@[i - 1]
            },
            forall|j: int|
                0 <= j < i ==> #[trigger] segs@[j] == (SegmentRange {
                    start_ms: if j == 0 {
                        0u64
                    } else {
                        points@[j - 1]
                    },
                    end_ms: points@[j],
                }),
        decreases n - i,
    {
        let end = points[i];
        segs.push(SegmentRange { start_ms: start, end_ms: end });
        start = end;
        i = i + 1;
    }
    if n == 0 {
        if 0 < total_ms {
            segs.push(SegmentRange { start_ms: 0, end_ms: total_ms });
        }
    } else if points[n - 1] < total_ms {
        segs.push(SegmentRange { start_ms: start, end_ms: total_ms });
    }
    proof {
        assert(segs@ =~= pair_ranges(points@, total_ms));
    }
    segs
}

/// Pairs cut points into ranges, or reports that there is nothing to cut.
/// The job aborts here, before any extraction, when no cut point was
/// generated.
pub fn plan_segments(total_ms: u64, points: &Vec<u64>) -> (r: VideoResult<Vec<SegmentRange>>)
    ensures
        match r {
            Ok(segs) => points@.len() > 0 && segs@ == pair_ranges(points@, total_ms),
            Err(e) => points@.len() == 0 && (e matches VideoError::ProcessingError(m) && m@
                == "No split points generated"@),
        },
{
    if points.len() == 0 {
        Err(VideoError::ProcessingError("No split points generated".to_owned()))
    } else {
        Ok(build_segments(points, total_ms))
    }
}

// ---------------------------------------------------------------------------
// Shape of a planned range list
// ---------------------------------------------------------------------------

/// Each range ends where the next begins.
pub open spec fn ranges_contiguous(rs: Seq<SegmentRange>) -> bool {
    forall|i: int| 0 <= i < rs.len() - 1 ==> rs[i].end_ms == #[trigger] rs[i + 1].start_ms
}

/// Each range runs forward: its start lies strictly before its end.
pub open spec fn ranges_ascending(rs: Seq<SegmentRange>) -> bool {
    forall|i: int| 0 <= i < rs.len() ==> #[trigger] rs[i].start_ms < rs[i].end_ms
}

/// The summed length of the ranges.
pub open spec fn ranges_total_len(rs: Seq<SegmentRange>) -> int
    decreases rs.len(),
{
    if rs.len() == 0 {
        0
    } else {
        ranges_total_len(rs.drop_last()) + (rs.last().end_ms - rs.last().start_ms)
    }
}

/// The lengths of contiguous ranges telescope: they sum to the distance
/// from the first start to the last end.
pub proof fn lemma_contiguous_total_len(rs: Seq<SegmentRange>)
    requires
        rs.len() > 0,
        ranges_contiguous(rs),
    ensures
        ranges_total_len(rs) == rs.last().end_ms - rs[0].start_ms,
    decreases rs.len(),
{
    if rs.len() > 1 {
        let head = rs.drop_last();
        assert forall|i: int| 0 <= i < head.len() - 1 implies head[i].end_ms == #[trigger] head[i
            + 1].start_ms by {
            assert(rs[i].end_ms == rs[i + 1].start_ms);
        }
        lemma_contiguous_total_len(head);
        let k = rs.len() - 2;
        assert(rs[k].end_ms == rs[k + 1].start_ms);
        assert(head.len() == rs.len() - 1);
        assert(head.last() == head[k]);
        assert(head[k] == rs[k]);
        assert(head[0] == rs[0]);
        assert(ranges_total_len(head) == rs[k].end_ms - rs[0].start_ms);
        assert(rs.last() == rs[k + 1]);
        assert(ranges_total_len(rs) == ranges_total_len(head) + (rs[k + 1].end_ms - rs[k
            + 1].start_ms));
    } else {
        assert(rs.drop_last().len() == 0);
        assert(ranges_total_len(rs.drop_last()) == 0);
        assert(rs.last() == rs[0]);
    }
}

// ---------------------------------------------------------------------------
// Laws of the planner
// ---------------------------------------------------------------------------

/// Planning by count: for a count of at least two and a total of at least
/// `count` milliseconds, pairing the count cut points yields exactly
/// `count` contiguous ranges with strictly ascending boundaries, starting
/// at 0 and ending at `total`, whose lengths sum to `total`.
pub proof fn lemma_count_plan(total: u64, c: u32)
    requires
        c >= 2,
        total >= c,
    ensures
        ({
            let rs = pair_ranges(count_cut_points(total, c), total);
            &&& rs.len() == c
            &&& rs[0].start_ms == 0
            &&& rs.last().end_ms == total
            &&& ranges_contiguous(rs)
            &&& ranges_ascending(rs)
            &&& ranges_total_len(rs) == total
        }),
{
    let t = total as int;
    let cc = c as int;
    let w = t / cc;
    let r = t % cc;
    let pts = count_cut_points(total, c);
    lemma_fundamental_div_mod(t, cc);
    assert(w >= 1) by (nonlinear_arith)
        requires
            cc * w + r == t,
            0 <= r < cc,
            t >= cc,
            cc >= 2,
    ;
    assert forall|i: int| 0 <= i < pts.len() implies (#[trigger] pts[i]) as int == (i + 1) * w && 0
        < pts[i] as int && (pts[i] as int) < t by {
        assert(0 < (i + 1) * w && (i + 1) * w <= (cc - 1) * w) by (nonlinear_arith)
            requires
                w >= 1,
                0 <= i,
                i <= cc - 2,
        ;
        assert((cc - 1) * w < t) by (nonlinear_arith)
            requires
                cc * w + r == t,
                0 <= r,
                w >= 1,
        ;
    }
    assert forall|i: int| 0 <= i < pts.len() - 1 implies #[trigger] pts[i] < #[trigger] pts[i
        + 1] by {
        assert((i + 1) * w < (i + 2) * w) by (nonlinear_arith)
            requires
                w >= 1,
                i >= 0,
        ;
    }
    let rs = pair_ranges(pts, total);
    assert(pts[pts.len() - 1] < total);
    assert(rs.len() == c);
    assert(rs[0].start_ms == 0);
    assert(rs.last().end_ms == total);
    assert forall|i: int| 0 <= i < rs.len() - 1 implies rs[i].end_ms == #[trigger] rs[i
        + 1].start_ms by {}
    assert forall|i: int| 0 <= i < rs.len() implies #[trigger] rs[i].start_ms < rs[i].end_ms by {
        if 0 < i < pts.len() {
            assert(pts[i - 1] < pts[i]);
        }
    }
    lemma_contiguous_total_len(rs);
}

/// How many ranges fixed-interval planning yields: the total divided by
/// the duration, rounded up.
pub open spec fn ceil_div(total: nat, duration: nat) -> nat
    recommends
        duration > 0,
{
    if total % duration == 0 {
        total / duration
    } else {
        total / duration + 1
    }
}

/// Fixed-interval planning: for `0 < duration < total`, pairing the
/// interval cut points yields `ceil(total / duration)` contiguous ranges,
/// each of length `duration` except the last, whose length is
/// `total % duration` (or `duration` when the division is even); they
/// start at 0, end at `total`, and their lengths sum to `total`.
pub proof fn lemma_interval_plan(total: u64, d: u64)
    requires
        0 < d < total,
    ensures
        ({
            let rs = pair_ranges(interval_cut_points(total, d), total);
            &&& rs.len() == ceil_div(total as nat, d as nat)
            &&& rs[0].start_ms == 0
            &&& rs.last().end_ms == total
            &&& ranges_contiguous(rs)
            &&& ranges_ascending(rs)
            &&& ranges_total_len(rs) == total
            &&& forall|i: int|
                0 <= i < rs.len() - 1 ==> #[trigger] (rs[i].end_ms - rs[i].start_ms) == d
            &&& rs.last().end_ms - rs.last().start_ms == if total % d == 0 {
                d as int
            } else {
                (total % d) as int
            }
        }),
{
    let t = total as int;
    let dd = d as int;
    let q = t / dd;
    let r = t % dd;
    lemma_fundamental_div_mod(t, dd);
    assert(q >= 1) by (nonlinear_arith)
        requires
            dd * q + r == t,
            0 <= r < dd,
            0 < dd < t,
    ;
    let pts = interval_cut_points(total, d);
    let n = num_interval_cuts(total as nat, d as nat) as int;
    if r == 0 {
        assert(q >= 2) by (nonlinear_arith)
            requires
                dd * q == t,
                0 < dd < t,
        ;
        assert(n == q - 1);
        assert(n * dd == q * dd - dd) by (nonlinear_arith)
            requires
                n == q - 1,
        ;
        assert(n * dd < t);
        assert(t <= (n + 1) * dd) by (nonlinear_arith)
            requires
                n == q - 1,
                dd * q == t,
        ;
    } else {
        assert(n == q);
        assert(n * dd == dd * q) by (nonlinear_arith)
            requires
                n == q,
        ;
        assert(n * dd < t);
        assert(t <= (n + 1) * dd) by (nonlinear_arith)
            requires
                n == q,
                dd * q + r == t,
                r < dd,
        ;
    }
    assert(n >= 1);
    assert forall|i: int| 0 <= i < pts.len() implies (#[trigger] pts[i]) as int == (i + 1) * dd && 0
        < pts[i] as int && (pts[i] as int) < t by {
        assert(0 < (i + 1) * dd && (i + 1) * dd <= n * dd) by (nonlinear_arith)
            requires
                dd >= 1,
                0 <= i,
                i <= n - 1,
        ;
    }
    assert forall|i: int| 0 <= i < pts.len() - 1 implies #[trigger] pts[i] < #[trigger] pts[i
        + 1] by {
        assert((i + 1) * dd < (i + 2) * dd) by (nonlinear_arith)
            requires
                dd >= 1,
                i >= 0,
        ;
    }
    let rs = pair_ranges(pts, total);
    assert(pts[pts.len() - 1] < total);
    assert(rs.len() == n + 1);
    assert(rs.len() == ceil_div(total as nat, d as nat));
    assert forall|i: int| 0 <= i < rs.len() - 1 implies #[trigger] (rs[i].end_ms - rs[i].start_ms)
        == dd by {
        if i == 0 {
            assert(pts[0] as int == 1 * dd);
            assert(1 * dd == dd) by (nonlinear_arith);
        } else {
            assert(pts[i] as int == (i + 1) * dd);
            assert(pts[i - 1] as int == i * dd);
            assert((i + 1) * dd - i * dd == dd) by (nonlinear_arith);
        }
    }
    assert(rs.last().start_ms as int == n * dd);
    assert(rs.last().end_ms == total);
    if r == 0 {
        assert(t - n * dd == dd);
    } else {
        assert(t - n * dd == r);
    }
    assert forall|i: int| 0 <= i < rs.len() implies #[trigger] rs[i].start_ms < rs[i].end_ms by {
        if 0 < i < pts.len() {
            assert(pts[i - 1] < pts[i]);
        }
    }
    lemma_contiguous_total_len(rs);
}

/// Manual planning is idempotent for sorted, in-range cut points: the
/// boundaries of the planned ranges are exactly the given points plus the
/// implicit bounds 0 and `total`.
pub proof fn lemma_manual_plan(points: Seq<u64>, total: u64)
    requires
        points.len() > 0,
        forall|i: int| 0 <= i < points.len() - 1 ==> #[trigger] points[i] < #[trigger] points[i + 1],
        points[0] > 0,
        points.last() < total,
    ensures
        ({
            let rs = pair_ranges(points, total);
            &&& rs.len() == points.len() + 1
            &&& rs[0].start_ms == 0
            &&& rs.last().end_ms == total
            &&& forall|i: int|
                0 <= i < points.len() ==> #[trigger] (rs[i].end_ms) == points[i] && rs[i
                    + 1].start_ms == points[i]
            &&& ranges_contiguous(rs)
            &&& ranges_ascending(rs)
            &&& ranges_total_len(rs) == total
        }),
{
    let rs = pair_ranges(points, total);
    assert(points[points.len() - 1] < total);
    assert forall|i: int| 0 <= i < rs.len() implies #[trigger] rs[i].start_ms < rs[i].end_ms by {
        if 0 < i < points.len() {
            let j = i - 1;
            assert(points[j] < points[j + 1]);
        }
    }
    lemma_contiguous_total_len(rs);
}

} // verus!
