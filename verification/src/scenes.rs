//! The scene detector's output parser.
//!
//! The external tool reports scene changes on its diagnostic channel as
//! line-oriented text; a line carries a candidate timestamp when a fixed
//! marker token is followed by a decimal token. Candidates are debounced:
//! one is accepted only when it lies at least `min_gap` after the last
//! accepted one, the first being measured against time 0.

use crate::models::ScenePoint;
use crate::text::find_byte;
use crate::text::parse_ms;
use crate::text::parse_ms_range;
use vstd::prelude::*;
use vstd::string::StringSliceAdditionalSpecFns;

verus! {

// ---------------------------------------------------------------------------
// Specification: lines, tokens, candidates, debounce
// ---------------------------------------------------------------------------

/// ASCII whitespace, as the token separator.
pub open spec fn is_ws(b: u8) -> bool {
    b == 32 || (9 <= b && b <= 13)
}

/// The diagnostic output split at newlines; the final piece is kept when
/// it is non-empty.
pub open spec fn split_lines(s: Seq<u8>) -> Seq<Seq<u8>>
    decreases s.len(),
{
    if s.len() == 0 {
        Seq::empty()
    } else {
        match find_byte(s, 10) {
            Some(i) => {
                if 0 <= i < s.len() {
                    seq![s.take(i)] + split_lines(s.skip(i + 1))
                } else {
                    seq![s]
                }
            }
            None => seq![s],
        }
    }
}

/// A line with a trailing carriage return removed.
pub open spec fn strip_cr(line: Seq<u8>) -> Seq<u8> {
    if line.len() > 0 && line.last() == 13 {
        line.drop_last()
    } else {
        line
    }
}

/// The first whitespace position at or after `i`, or the length.
pub open spec fn token_end(s: Seq<u8>, i: int) -> int
    decreases s.len() - i when 0 <= i <= s.len()
{
    if i >= s.len() {
        i
    } else if is_ws(s[i]) {
        i
    } else {
        token_end(s, i + 1)
    }
}

/// The whitespace-separated tokens of `s` from position `i` on.
pub open spec fn tokens_from(s: Seq<u8>, i: int) -> Seq<Seq<u8>>
    decreases s.len() - i when 0 <= i <= s.len() via tokens_from_dec
{
    if i >= s.len() {
        Seq::empty()
    } else if is_ws(s[i]) {
        tokens_from(s, i + 1)
    } else {
        seq![s.subrange(i, token_end(s, i))] + tokens_from(s, token_end(s, i))
    }
}

#[via_fn]
proof fn tokens_from_dec(s: Seq<u8>, i: int) {
    if 0 <= i && i < s.len() && !is_ws(s[i]) {
        lemma_token_end_bounds(s, i);
    }
}

/// `token_end` stays within `[i, s.len()]`, and moves strictly forward
/// from a non-whitespace position.
pub proof fn lemma_token_end_bounds(s: Seq<u8>, i: int)
    requires
        0 <= i <= s.len(),
    ensures
        i <= token_end(s, i) <= s.len(),
        i < s.len() && !is_ws(s[i]) ==> token_end(s, i) >= i + 1,
    decreases s.len() - i,
{
    if i < s.len() && !is_ws(s[i]) {
        lemma_token_end_bounds(s, i + 1);
    }
}

/// The marker token that announces a timestamp on a diagnostic line.
pub open spec fn marker_bytes() -> Seq<u8> {
    "pts_time:".spec_bytes()
}

/// The first index of a marker token that still has a successor token.
pub open spec fn find_marker(tk: Seq<Seq<u8>>) -> Option<int>
    decreases tk.len(),
{
    if tk.len() < 2 {
        None
    } else if tk[0] == marker_bytes() {
        Some(0)
    } else {
        match find_marker(tk.skip(1)) {
            Some(i) => Some(i + 1),
            None => None,
        }
    }
}

/// The candidate timestamp of one raw line: the decimal token right after
/// the first marker token, if both are there and the decimal parses.
pub open spec fn line_candidate(raw: Seq<u8>) -> Option<u64> {
    let line = strip_cr(raw);
    let tk = tokens_from(line, 0);
    match find_marker(tk) {
        Some(i) => parse_ms(tk[i + 1]),
        None => None,
    }
}

/// The candidate timestamps of a line list, in order.
pub open spec fn candidates(lines: Seq<Seq<u8>>) -> Seq<u64>
    decreases lines.len(),
{
    if lines.len() == 0 {
        Seq::empty()
    } else {
        match line_candidate(lines[0]) {
            Some(t) => seq![t] + candidates(lines.skip(1)),
            None => candidates(lines.skip(1)),
        }
    }
}

/// Debouncing: a candidate is accepted only when it lies at least
/// `min_gap` at or after the last accepted time.
pub open spec fn debounce(c: Seq<u64>, min_gap: u64, last: u64) -> Seq<u64>
    decreases c.len(),
{
    if c.len() == 0 {
        Seq::empty()
    } else if c[0] >= last && c[0] - last >= min_gap {
        seq![c[0]] + debounce(c.skip(1), min_gap, c[0])
    } else {
        debounce(c.skip(1), min_gap, last)
    }
}

/// The accepted scene times of a diagnostic output: its lines' candidates,
/// debounced against an initial time of 0.
pub open spec fn scene_times(output: Seq<u8>, min_gap: u64) -> Seq<u64> {
    debounce(candidates(split_lines(output)), min_gap, 0)
}

/// Scene points carry a fixed confidence of 1000 thousandths and frame
/// number 0: the diagnostic channel exposes neither a score nor a frame.
pub open spec fn scene_points_of(times: Seq<u64>) -> Seq<ScenePoint> {
    times.map_values(
        |t: u64| (ScenePoint { time_ms: t, confidence_milli: 1000u32, frame_number: 0u64 }),
    )
}

// ---------------------------------------------------------------------------
// Laws of the debounce
// ---------------------------------------------------------------------------

/// Any two consecutively accepted times lie at least `min_gap` apart, and
/// the first accepted time lies at least `min_gap` at or after `last`.
pub proof fn lemma_debounce_gap(c: Seq<u64>, min_gap: u64, last: u64)
    ensures
        ({
            let r = debounce(c, min_gap, last);
            &&& r.len() > 0 ==> r[0] >= last && r[0] - last >= min_gap
            &&& forall|i: int|
                0 <= i < r.len() - 1 ==> #[trigger] (r[i + 1] - r[i]) >= min_gap && r[i] <= r[i + 1]
        }),
    decreases c.len(),
{
    if c.len() > 0 {
        let r = debounce(c, min_gap, last);
        if c[0] >= last && c[0] - last >= min_gap {
            lemma_debounce_gap(c.skip(1), min_gap, c[0]);
            let rest = debounce(c.skip(1), min_gap, c[0]);
            assert forall|i: int| 0 <= i < r.len() - 1 implies #[trigger] (r[i + 1] - r[i])
                >= min_gap && r[i] <= r[i + 1] by {
                if i == 0 {
                    assert(r[1] == rest[0]);
                } else {
                    assert(r[i] == rest[i - 1]);
                    assert(r[i + 1] == rest[i]);
                    assert(rest[i - 1 + 1] - rest[i - 1] >= min_gap && rest[i - 1] <= rest[i - 1
                        + 1]);
                }
            }
        } else {
            lemma_debounce_gap(c.skip(1), min_gap, last);
        }
    }
}

/// Any two consecutive accepted scene timestamps of a detection run lie
/// at least `min_gap` apart, and the first lies at least `min_gap` after
/// time 0.
pub proof fn lemma_scene_times_gap(output: Seq<u8>, min_gap: u64)
    ensures
        ({
            let r = scene_times(output, min_gap);
            &&& r.len() > 0 ==> r[0] >= min_gap
            &&& forall|i: int|
                0 <= i < r.len() - 1 ==> #[trigger] (r[i + 1] - r[i]) >= min_gap && r[i] <= r[i + 1]
        }),
{
    lemma_debounce_gap(candidates(split_lines(output)), min_gap, 0);
}

/// No candidate is accepted when none clears the debounce window.
pub proof fn lemma_debounce_empty(c: Seq<u64>, min_gap: u64, last: u64)
    requires
        forall|i: int| 0 <= i < c.len() ==> !(#[trigger] c[i] >= last && c[i] - last >= min_gap),
    ensures
        debounce(c, min_gap, last) == Seq::<u64>::empty(),
    decreases c.len(),
{
    if c.len() > 0 {
        assert(!(c[0] >= last && c[0] - last >= min_gap));
        assert forall|i: int|
            0 <= i < c.skip(1).len() implies !(#[trigger] c.skip(1)[i] >= last && c.skip(1)[i]
            - last >= min_gap) by {
            assert(c.skip(1)[i] == c[i + 1]);
        }
        lemma_debounce_empty(c.skip(1), min_gap, last);
    }
}

/// A candidate list whose first entry clears the window from time 0 and
/// whose entries all crowd within `min_gap` of that first entry collapses
/// to a single accepted point.
pub proof fn lemma_debounce_collapse(c: Seq<u64>, min_gap: u64)
    requires
        c.len() > 0,
        c[0] >= min_gap,
        forall|i: int| 0 <= i < c.len() ==> c[0] <= #[trigger] c[i] && c[i] - c[0] < min_gap,
    ensures
        debounce(c, min_gap, 0) =~= seq![c[0]],
{
    assert(c[0] >= 0 && c[0] - 0 >= min_gap);
    assert forall|i: int|
        0 <= i < c.skip(1).len() implies !(#[trigger] c.skip(1)[i] >= c[0] && c.skip(1)[i] - c[0]
        >= min_gap) by {
        assert(c.skip(1)[i] == c[i + 1]);
        assert(c[i + 1] - c[0] < min_gap);
    }
    lemma_debounce_empty(c.skip(1), min_gap, c[0]);
}

// ---------------------------------------------------------------------------
// Executable parser
// ---------------------------------------------------------------------------

pub fn is_ws_byte(b: u8) -> (r: bool)
    ensures
        r == is_ws(b),
{
    b == 32 || (9 <= b && b <= 13)
}

/// Compares `s[a..b]` with `t`.
fn bytes_eq_range(s: &[u8], a: usize, b: usize, t: &[u8]) -> (r: bool)
    requires
        a <= b <= s@.len(),
    ensures
        r == (s@.subrange(a as int, b as int) == t@),
{
    let ghost sub = s@.subrange(a as int, b as int);
    let tn = t.len();
    if b - a != tn {
        return false;
    }
    let mut i: usize = 0;
    while i < tn
        invariant
            0 <= i <= tn,
            a <= b <= s@.len(),
            b - a == tn,
            tn == t@.len(),
            sub == s@.subrange(a as int, b as int),
            forall|j: int| 0 <= j < i ==> sub[j] == t@[j],
        decreases tn - i,
    {
        if s[a + i] != t[i] {
            proof {
                assert(sub[i as int] != t@[i as int]);
            }
            return false;
        }
        i = i + 1;
    }
    proof {
        assert(sub =~= t@);
    }
    true
}

/// `token_end` is the position a forward scan over non-whitespace stops at.
proof fn lemma_token_end_eq(s: Seq<u8>, i: int, j: int)
    requires
        0 <= i <= j <= s.len(),
        forall|k: int| i <= k < j ==> !is_ws(#[trigger] s[k]),
        j == s.len() || is_ws(s[j]),
    ensures
        token_end(s, i) == j,
    decreases j - i,
{
    if i < j {
        lemma_token_end_eq(s, i + 1, j);
    }
}

/// `find_marker` skips a marker-free token prefix.
proof fn lemma_find_marker_prefix(pre: Seq<Seq<u8>>, rest: Seq<Seq<u8>>)
    requires
        forall|j: int| 0 <= j < pre.len() ==> pre[j] != marker_bytes(),
    ensures
        find_marker(pre + rest) == match find_marker(rest) {
            Some(i) => Some(i + pre.len()),
            None => None::<int>,
        },
    decreases pre.len(),
{
    if pre.len() == 0 {
        assert(pre + rest =~= rest);
    } else {
        assert forall|j: int| 0 <= j < pre.skip(1).len() implies #[trigger] pre.skip(1)[j]
            != marker_bytes() by {
            assert(pre.skip(1)[j] == pre[j + 1]);
        }
        lemma_find_marker_prefix(pre.skip(1), rest);
        assert((pre + rest).skip(1) =~= pre.skip(1) + rest);
        assert((pre + rest)[0] == pre[0]);
    }
}

/// The candidate timestamp of the line `s[a..b]`, per `line_candidate`.
#[verifier::loop_isolation(false)]
fn line_candidate_exec(s: &[u8], a: usize, b: usize) -> (r: Option<u64>)
    requires
        a <= b <= s@.len(),
    ensures
        r == line_candidate(s@.subrange(a as int, b as int)),
{
    let b2 = if b > a && s[b - 1] == 13 {
        b - 1
    } else {
        b
    };
    let ghost line = strip_cr(s@.subrange(a as int, b as int));
    proof {
        assert(line =~= s@.subrange(a as int, b2 as int));
    }
    let marker = "pts_time:";
    proof {
        assert(marker@ == "pts_time:"@);
        assert(marker.spec_bytes() == marker_bytes());
    }
    let mut q = a;
    let ghost mut cons: Seq<Seq<u8>> = Seq::empty();
    proof {
        assert(tokens_from(line, 0) =~= cons + tokens_from(line, (q - a) as int));
    }
    loop
        invariant
            a <= q <= b2 <= s@.len(),
            b2 <= b,
            line == s@.subrange(a as int, b2 as int),
            line == strip_cr(s@.subrange(a as int, b as int)),
            tokens_from(line, 0) == cons + tokens_from(line, q - a),
            forall|j: int| 0 <= j < cons.len() ==> #[trigger] cons[j] != marker_bytes(),
        decreases b2 - q,
    {
        if q == b2 {
            proof {
                assert(tokens_from(line, q - a) =~= Seq::<Seq<u8>>::empty());
                lemma_find_marker_prefix(cons, tokens_from(line, q - a));
            }
            return None;
        }
        proof {
            assert(line[q - a] == s@[q as int]);
        }
        if is_ws_byte(s[q]) {
            q = q + 1;
            continue;
        }
        // a token starts at q; scan to its end
        let mut e = q + 1;
        while e < b2 && !is_ws_byte(s[e])
            invariant
                a <= q < e <= b2 <= s@.len(),
                line == s@.subrange(a as int, b2 as int),
                forall|k: int| q <= k < e ==> !is_ws(#[trigger] s@[k]),
            decreases b2 - e,
        {
            e = e + 1;
        }
        proof {
            assert forall|k: int| q - a <= k < e - a implies !is_ws(#[trigger] line[k]) by {
                assert(line[k] == s@[a + k]);
            }
            if e - a < line.len() {
                assert(line[e - a] == s@[e as int]);
            }
            lemma_token_end_eq(line, q - a, e - a);
            assert(line.subrange(q - a, e - a) =~= s@.subrange(q as int, e as int));
        }
        let ghost tok = s@.subrange(q as int, e as int);
        proof {
            assert(marker@ == "pts_time:"@);
            assert(marker.spec_bytes() == marker_bytes());
        }
        if bytes_eq_range(s, q, e, marker.as_bytes()) {
            proof {
                assert(tok == marker_bytes());
            }
            // the marker: the next token, if any, carries the timestamp
            let mut p = e;
            while p < b2 && is_ws_byte(s[p])
                invariant
                    e <= p <= b2 <= s@.len(),
                    a <= e,
                    line == s@.subrange(a as int, b2 as int),
                    tokens_from(line, e - a) == tokens_from(line, p - a),
                decreases b2 - p,
            {
                proof {
                    assert(line[p - a] == s@[p as int]);
                }
                p = p + 1;
            }
            if p == b2 {
                proof {
                    assert(tokens_from(line, p - a) =~= Seq::<Seq<u8>>::empty());
                    assert(tokens_from(line, q - a) =~= seq![tok]);
                    assert(tokens_from(line, 0) =~= cons + seq![tok]);
                    lemma_find_marker_prefix(cons, seq![tok]);
                }
                return None;
            }
            proof {
                assert(line[p - a] == s@[p as int]);
            }
            let mut pe = p + 1;
            while pe < b2 && !is_ws_byte(s[pe])
                invariant
                    a <= p < pe <= b2 <= s@.len(),
                    line == s@.subrange(a as int, b2 as int),
                    forall|k: int| p <= k < pe ==> !is_ws(#[trigger] s@[k]),
                decreases b2 - pe,
            {
                pe = pe + 1;
            }
            proof {
                assert forall|k: int| p - a <= k < pe - a implies !is_ws(#[trigger] line[k]) by {
                    assert(line[k] == s@[a + k]);
                }
                if pe - a < line.len() {
                    assert(line[pe - a] == s@[pe as int]);
                }
                lemma_token_end_eq(line, p - a, pe - a);
                assert(line.subrange(p - a, pe - a) =~= s@.subrange(p as int, pe as int));
                let next = s@.subrange(p as int, pe as int);
                let rest = seq![tok] + (seq![next] + tokens_from(line, pe - a));
                assert(tokens_from(line, p - a) == seq![next] + tokens_from(line, pe - a));
                assert(tokens_from(line, q - a) == rest);
                lemma_find_marker_prefix(cons, rest);
                assert(rest[0] == tok);
                assert(find_marker(rest) == Some(0int));
                let tk = tokens_from(line, 0);
                assert(find_marker(tk) == Some(cons.len() as int));
                assert(tk[cons.len() as int + 1] == rest[1]);
                assert(rest[1] == next);
            }
            return parse_ms_range(s, p, pe);
        } else {
            proof {
                assert(tokens_from(line, q - a) == seq![tok] + tokens_from(line, e - a));
                cons = cons.push(tok);
                assert(tokens_from(line, 0) =~= cons + tokens_from(line, e - a));
            }
            q = e;
        }
    }
}

/// Parses the diagnostic output of a scene-detection run into the
/// debounced list of scene points, per `scene_times`.
pub fn parse_scene_detection_output(output: &[u8], min_duration_ms: u64) -> (r: Vec<ScenePoint>)
    ensures
        r@ == scene_points_of(scene_times(output@, min_duration_ms)),
{
    let mut scenes: Vec<ScenePoint> = Vec::new();
    let mut last: u64 = 0;
    let n = output.len();
    let mut pos: usize = 0;
    let ghost mut done: Seq<u64> = Seq::empty();
    proof {
        assert(output@.skip(0) =~= output@);
        assert(scenes@ =~= scene_points_of(done));
        assert(scene_times(output@, min_duration_ms) =~= done + debounce(
            candidates(split_lines(output@.skip(pos as int))),
            min_duration_ms,
            last,
        ));
    }
    while pos < n
        invariant
            0 <= pos <= n,
            n == output@.len(),
            scenes@ == scene_points_of(done),
            scene_times(output@, min_duration_ms) == done + debounce(
                candidates(split_lines(output@.skip(pos as int))),
                min_duration_ms,
                last,
            ),
        decreases n - pos,
    {
        let ghost t = output@.skip(pos as int);
        let (a, b, npos): (usize, usize, usize) = match crate::text::find_byte_in(
            output,
            pos,
            n,
            10,
        ) {
            Some(k) => (pos, k, k + 1),
            None => (pos, n, n),
        };
        proof {
            assert(t =~= output@.subrange(pos as int, n as int));
            assert(t.len() > 0);
            if b < n {
                // a newline was found at b
                assert(t.skip(b - pos + 1) =~= output@.subrange(npos as int, n as int));
                assert(output@.subrange(npos as int, n as int) =~= output@.skip(npos as int));
                assert(split_lines(t) == seq![t.take(b - pos)] + split_lines(t.skip(b - pos + 1)));
                assert(t.take(b - pos) =~= output@.subrange(pos as int, b as int));
            } else {
                assert(find_byte(t, 10) is None);
                assert(split_lines(t) == seq![t]);
                assert(t =~= output@.subrange(pos as int, b as int));
                assert(output@.skip(npos as int) =~= Seq::<u8>::empty());
                assert(split_lines(output@.skip(npos as int)) =~= Seq::<Seq<u8>>::empty());
            }
            assert(split_lines(t) == seq![output@.subrange(a as int, b as int)] + split_lines(
                output@.skip(npos as int),
            ));
        }
        let ghost lines = split_lines(t);
        let ghost rest_lines = split_lines(output@.skip(npos as int));
        let cand = line_candidate_exec(output, a, b);
        proof {
            assert(lines[0] == output@.subrange(a as int, b as int));
            assert(lines.skip(1) =~= rest_lines);
            assert(candidates(lines) == match cand {
                Some(tm) => seq![tm] + candidates(rest_lines),
                None => candidates(rest_lines),
            });
        }
        match cand {
            Some(tm) => {
                let ghost c = candidates(lines);
                proof {
                    assert(c[0] == tm);
                    assert(c.skip(1) =~= candidates(rest_lines));
                }
                if tm >= last && tm - last >= min_duration_ms {
                    scenes.push(
                        ScenePoint { time_ms: tm, confidence_milli: 1000, frame_number: 0 },
                    );
                    proof {
                        assert(debounce(c, min_duration_ms, last) == seq![tm] + debounce(
                            c.skip(1),
                            min_duration_ms,
                            tm,
                        ));
                        done = done.push(tm);
                        assert(scenes@ =~= scene_points_of(done));
                        assert(done + debounce(candidates(rest_lines), min_duration_ms, tm)
                            =~= done.drop_last() + (seq![tm] + debounce(
                            candidates(rest_lines),
                            min_duration_ms,
                            tm,
                        )));
                    }
                    last = tm;
                } else {
                    proof {
                        assert(debounce(c, min_duration_ms, last) == debounce(
                            c.skip(1),
                            min_duration_ms,
                            last,
                        ));
                    }
                }
            }
            None => {
                proof {
                    assert(candidates(lines) == candidates(rest_lines));
                }
            }
        }
        pos = npos;
    }
    proof {
        assert(output@.skip(pos as int) =~= Seq::<u8>::empty());
        assert(split_lines(output@.skip(pos as int)) =~= Seq::<Seq<u8>>::empty());
        assert(scene_times(output@, min_duration_ms) =~= done);
    }
    scenes
}

} // verus!
