//! The escape-time rule and the colour of a pixel.
//!
//! The orbit `z <- z * z + c` from `z = 0` is computed by the caller in
//! floating point. After each step it reports whether the orbit point lies
//! within the threshold distance of the cursor; this module decides when the
//! count is settled and which colour the count, or the cursor marker, gets.
use vstd::prelude::*;
use crate::gradient::{Gradient, Rgba, ramp_at};

verus! {

/// Orbit steps taken before the distance test begins.
pub const SKIP: u32 = 5;

/// Whether the count settles at `k` steps: the cap is reached, or the
/// distance test has begun and the orbit point is close to the cursor.
pub open spec fn stops_at(k: nat, cap: nat, close: bool) -> bool {
    k == cap || (k >= SKIP && close)
}

/// Flag of step `k`; a missing flag counts as not close.
pub open spec fn close_at(close: Seq<bool>, k: nat) -> bool {
    k < close.len() && close[k as int]
}

/// Count settled by the orbit whose point after `k` steps is close to the
/// cursor where `close[k]` holds, looking from step `from` on.
pub open spec fn settle_from(close: Seq<bool>, cap: nat, from: nat) -> nat
    decreases cap - from,
{
    if from >= cap {
        cap
    } else if stops_at(from, cap, close_at(close, from)) {
        from
    } else {
        settle_from(close, cap, from + 1)
    }
}

/// The escape count of an orbit with closeness flags `close` under the
/// iteration cap `cap`.
pub open spec fn escape_count(close: Seq<bool>, cap: nat) -> nat {
    settle_from(close, cap, 0)
}

/// Decision after `k` orbit steps: `Some(k)` when the count settles there,
/// `None` when the orbit goes on.
pub fn escape_step(k: u32, cap: u32, close: bool) -> (r: Option<u32>)
    requires
        k <= cap,
    ensures
        r == (if stops_at(k as nat, cap as nat, close) {
            Some(k)
        } else {
            None
        }),
{
    if k == cap || (k >= SKIP && close) {
        Some(k)
    } else {
        None
    }
}

proof fn lemma_settle_from(close: Seq<bool>, cap: nat, from: nat)
    requires
        from <= cap,
    ensures
        from <= settle_from(close, cap, from) <= cap,
        forall|k: nat|
            from <= k < settle_from(close, cap, from) ==> !stops_at(
                k,
                cap,
                #[trigger] close_at(close, k),
            ),
        ({
            let s = settle_from(close, cap, from);
            stops_at(s, cap, close_at(close, s))
        }),
    decreases cap - from,
{
    if from < cap && !stops_at(from, cap, close_at(close, from)) {
        lemma_settle_from(close, cap, from + 1);
    }
}

/// The escape count never exceeds the iteration cap.
pub proof fn lemma_count_within_cap(close: Seq<bool>, cap: nat)
    ensures
        0 <= escape_count(close, cap) <= cap,
        cap <= SKIP ==> escape_count(close, cap) == cap,
        cap > SKIP ==> escape_count(close, cap) >= SKIP,
{
    lemma_settle_from(close, cap, 0);
    if cap > SKIP && escape_count(close, cap) < SKIP {
        let s = escape_count(close, cap);
        assert(stops_at(s, cap, close_at(close, s)));
    }
}

/// Feeding `escape_step` the closeness flags from step 0 on goes on at
/// every step before the escape count and stops at it, with the count as
/// its result.
pub proof fn lemma_steps_settle_at_count(close: Seq<bool>, cap: nat)
    ensures
        forall|k: nat|
            k < escape_count(close, cap) ==> !stops_at(k, cap, #[trigger] close_at(close, k)),
        ({
            let s = escape_count(close, cap);
            stops_at(s, cap, close_at(close, s))
        }),
{
    lemma_settle_from(close, cap, 0);
}

/// What a pixel shows: the cursor marker at a ramp position `num / den`,
/// or the escape count of its orbit.
#[derive(Clone, Copy, Debug, PartialEq, Eq, Structural)]
pub enum Sample {
    Marker { num: u32, den: u32 },
    Orbit { count: u32 },
}

/// A marker position lies in `[0, 1]`; an orbit count within the cap.
pub open spec fn sample_ok(s: Sample, cap: nat) -> bool {
    match s {
        Sample::Marker { num, den } => 0 < den && num <= den,
        Sample::Orbit { count } => count <= cap,
    }
}

/// Colour of a sample on the ramp through `stops`: the marker at its own
/// position; an orbit at `count / cap`, or at the ramp's end under a cap of
/// zero.
pub open spec fn sample_color(stops: Seq<Rgba>, s: Sample, cap: nat) -> Rgba {
    match s {
        Sample::Marker { num, den } => ramp_at(stops, num as nat, den as nat),
        Sample::Orbit { count } => if cap == 0 {
            ramp_at(stops, 1, 1)
        } else {
            ramp_at(stops, count as nat, cap)
        },
    }
}

/// The colour that sample `s` gets on `g` under the iteration cap `cap`.
/// It depends on these alone; a marker never reads the cap.
pub fn shade(g: &Gradient, s: Sample, cap: u32) -> (c: Rgba)
    requires
        g.wf(),
        sample_ok(s, cap as nat),
    ensures
        c == sample_color(g@, s, cap as nat),
        s is Marker ==> c == ramp_at(g@, s->num as nat, s->den as nat),
{
    match s {
        Sample::Marker { num, den } => g.at(num, den),
        Sample::Orbit { count } => {
            if cap == 0 {
                g.at(1, 1)
            } else {
                g.at(count, cap)
            }
        },
    }
}

} // verus!
