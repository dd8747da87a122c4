//! The cycle engine: turning one palette's base colors and an animation
//! clock into the fully cycled 256-entry color table for that instant.
//!
//! Every frame starts from the palette's zero-padded base table; each rule
//! then rotates its inclusive slot window `[low, high]` left by an amount
//! derived from the clock and the rule's mode, rules applied in declared
//! order. Nothing persists between frames: the table is a pure function of
//! the palette, the clock, and (for the sine modes) the caller-computed
//! wave step counts.

use vstd::prelude::*;

use vstd::arithmetic::div_mod::{
    lemma_fundamental_div_mod, lemma_mod_bound, lemma_mod_multiples_vanish, lemma_mod_self_0,
    lemma_small_mod,
};

use crate::model::{CycleMode, CycleRule, Palette, Rgb};

verus! {

/// How many raw `rate` units make one real second per rotation step.
pub const CYCLE_SPEED: u32 = 280;

/// The window `[lo, hi]` of `t` rotated left by `k` single-slot steps;
/// slots outside the window keep their value.
pub open spec fn rotate_window(t: Seq<Rgb>, lo: int, hi: int, k: nat) -> Seq<Rgb>
    recommends
        0 <= lo <= hi < t.len(),
{
    Seq::new(
        t.len(),
        |i: int|
            if lo <= i <= hi {
                t[lo + ((i - lo + k) % (hi - lo + 1))]
            } else {
                t[i]
            },
    )
}

/// The first `k` outermost pairs of the window `[lo, hi]` swapped in turn:
/// pair `j` exchanges slots `lo + j` and `hi - j`, each swap seeing the
/// previous swaps' result.
pub open spec fn mirror_steps(t: Seq<Rgb>, lo: int, hi: int, k: nat) -> Seq<Rgb>
    recommends
        0 <= lo <= hi < t.len(),
        lo + k <= hi + 1,
    decreases k,
{
    if k == 0 {
        t
    } else {
        let prev = mirror_steps(t, lo, hi, (k - 1) as nat);
        let a = lo + k - 1;
        let b = hi - k + 1;
        prev.update(a, prev[b]).update(b, prev[a])
    }
}

/// Seconds of animation time per rotation step, derived from the raw rate.
/// Zero means the rule does nothing this frame (degenerate rate).
pub open spec fn spec_cycle_rate(rate: u32) -> int {
    rate as int / CYCLE_SPEED as int
}

/// A rule moves the table only when its per-step duration is at least one
/// second; this also covers `rate == 0`, the explicit no-op rate.
pub open spec fn spec_rule_active(r: CycleRule) -> bool {
    spec_cycle_rate(r.rate) > 0
}

/// Whole rotation steps elapsed on the animation clock for a rule of the
/// given raw rate.
pub open spec fn spec_raw_step(clock_millis: u32, rate: u32) -> int
    recommends
        spec_cycle_rate(rate) > 0,
{
    (clock_millis as int / 1000) / spec_cycle_rate(rate)
}

/// How far a rule shifts its window this frame. Inactive rules shift by
/// zero. `Forward`, `ForwardAlt` and `PingPong` wrap the elapsed steps
/// around the window size; `Bounce` folds them into a triangle wave; the
/// sine modes take the caller-computed wave step count as it stands.
pub open spec fn spec_cycle_amount(r: CycleRule, clock_millis: u32, sine_step: u32) -> nat
    recommends
        r.wf(),
{
    if !spec_rule_active(r) {
        0
    } else {
        let size = r.window_size();
        let raw = spec_raw_step(clock_millis, r.rate);
        match r.mode {
            CycleMode::Forward => (raw % size) as nat,
            CycleMode::ForwardAlt => (raw % size) as nat,
            CycleMode::PingPong => (raw % size) as nat,
            CycleMode::Bounce => {
                let m = raw % (2 * size);
                if m >= size {
                    (2 * size - m) as nat
                } else {
                    m as nat
                }
            },
            CycleMode::SineQuarter => sine_step as nat,
            CycleMode::SineHalf => sine_step as nat,
        }
    }
}

/// One rule's effect on the table, given its shift amount: a plain left
/// rotation of the window, except that `PingPong` mirrors the first
/// `amount` pairs of the window before and after rotating.
pub open spec fn spec_apply_rule(t: Seq<Rgb>, r: CycleRule, amount: nat) -> Seq<Rgb>
    recommends
        t.len() == 256,
        r.wf(),
        r.mode == CycleMode::PingPong ==> amount < r.window_size(),
{
    let lo = r.low as int;
    let hi = r.high as int;
    match r.mode {
        CycleMode::PingPong => mirror_steps(
            rotate_window(mirror_steps(t, lo, hi, amount), lo, hi, amount),
            lo,
            hi,
            amount,
        ),
        _ => rotate_window(t, lo, hi, amount),
    }
}

/// The working table after the first `n` of the palette's rules, starting
/// from the zero-padded base colors.
pub open spec fn spec_frame_upto(p: Palette, clock_millis: u32, sine: Seq<u32>, n: int) -> Seq<Rgb>
    recommends
        p.wf(),
        0 <= n <= p.cycles@.len(),
        sine.len() == p.cycles@.len(),
    decreases n,
{
    if n <= 0 {
        p.padded_base()
    } else {
        let r = p.cycles@[n - 1];
        spec_apply_rule(
            spec_frame_upto(p, clock_millis, sine, n - 1),
            r,
            spec_cycle_amount(r, clock_millis, sine[n - 1]),
        )
    }
}

/// The full cycled table for this palette and clock, with the given sine
/// wave step counts (one per rule; entries for non-sine rules are unused).
pub open spec fn spec_frame(p: Palette, clock_millis: u32, sine: Seq<u32>) -> Seq<Rgb>
    recommends
        p.wf(),
        sine.len() == p.cycles@.len(),
{
    spec_frame_upto(p, clock_millis, sine, p.cycles@.len() as int)
}

/// The cycled table when every sine-mode rule idles (wave step zero).
pub open spec fn spec_frame_plain(p: Palette, clock_millis: u32) -> Seq<Rgb>
    recommends
        p.wf(),
{
    spec_frame(p, clock_millis, Seq::new(p.cycles@.len(), |i: int| 0u32))
}

/// Rotating a window by zero steps changes nothing.
pub proof fn lemma_rotate_zero(t: Seq<Rgb>, lo: int, hi: int)
    requires
        0 <= lo <= hi < t.len(),
    ensures
        rotate_window(t, lo, hi, 0) == t,
{
    let size = hi - lo + 1;
    assert forall|i: int| 0 <= i < t.len() implies rotate_window(t, lo, hi, 0)[i] == t[i] by {
        if lo <= i <= hi {
            lemma_small_mod((i - lo) as nat, size as nat);
        }
    }
    assert(rotate_window(t, lo, hi, 0) =~= t);
}

proof fn lemma_mirror_len(t: Seq<Rgb>, lo: int, hi: int, k: nat)
    requires
        0 <= lo <= hi < t.len(),
        lo + k <= hi + 1,
    ensures
        mirror_steps(t, lo, hi, k).len() == t.len(),
    decreases k,
{
    if k > 0 {
        lemma_mirror_len(t, lo, hi, (k - 1) as nat);
    }
}

proof fn lemma_mod_shift_add(a: int, b: int, d: int)
    requires
        0 <= a,
        0 <= b,
        0 < d,
    ensures
        (a % d + b) % d == (a + b) % d,
{
    lemma_fundamental_div_mod(a, d);
    lemma_mod_multiples_vanish(a / d, a % d + b, d);
}

/// A `PingPong` rule's shift amount always stays inside its window, so the
/// pre- and post-rotation mirrors stay inside it too.
pub proof fn lemma_pingpong_amount_in_window(r: CycleRule, clock_millis: u32, sine_step: u32)
    requires
        r.wf(),
        r.mode == CycleMode::PingPong,
    ensures
        spec_cycle_amount(r, clock_millis, sine_step) < r.window_size(),
{
    if spec_rule_active(r) {
        lemma_mod_bound(spec_raw_step(clock_millis, r.rate), r.window_size());
    }
}

/// How far a rule shifts its window this frame (see `spec_cycle_amount`).
/// For the sine modes, `sine_step` is the caller-computed wave step count
/// and is returned as it stands (or zero while the rule is inactive).
pub fn cycle_amount(rule: &CycleRule, clock_millis: u32, sine_step: u32) -> (a: u32)
    requires
        rule.wf(),
    ensures
        a == spec_cycle_amount(*rule, clock_millis, sine_step),
{
    let cycle_rate = rule.rate / CYCLE_SPEED;
    if cycle_rate == 0 {
        return 0;
    }
    let size = rule.high as u32 - rule.low as u32 + 1;
    let raw = clock_millis / 1000 / cycle_rate;
    match rule.mode {
        CycleMode::Forward => raw % size,
        CycleMode::ForwardAlt => raw % size,
        CycleMode::PingPong => raw % size,
        CycleMode::Bounce => {
            let m = raw % (2 * size);
            if m >= size {
                2 * size - m
            } else {
                m
            }
        },
        CycleMode::SineQuarter => sine_step,
        CycleMode::SineHalf => sine_step,
    }
}

/// Rotate the window `[lo, hi]` left by one slot: the slot at `lo` is
/// saved, every other slot moves down by one, the saved value lands at
/// `hi`.
fn rotate_once(table: &mut Vec<Rgb>, lo: usize, hi: usize)
    requires
        old(table)@.len() == 256,
        lo <= hi < 256,
    ensures
        final(table)@ == rotate_window(old(table)@, lo as int, hi as int, 1),
{
    let first = table[lo];
    let mut j = lo;
    while j < hi
        invariant
            table@.len() == 256,
            lo <= j <= hi < 256,
            forall|m: int| lo <= m < j ==> table@[m] == old(table)@[m + 1],
            forall|m: int| (0 <= m < lo || j <= m < 256) ==> table@[m] == old(table)@[m],
        decreases hi - j,
    {
        let next = table[j + 1];
        table[j] = next;
        j += 1;
    }
    table[hi] = first;
    proof {
        let size = hi - lo + 1;
        let rotated = rotate_window(old(table)@, lo as int, hi as int, 1);
        assert forall|i: int| 0 <= i < 256 implies table@[i] == rotated[i] by {
            if lo <= i < hi {
                lemma_small_mod((i - lo + 1) as nat, size as nat);
            } else if i == hi {
                lemma_mod_self_0(size as int);
            }
        }
        assert(table@ =~= rotated);
    }
}

proof fn lemma_rotate_once_more(t: Seq<Rgb>, lo: int, hi: int, k: nat)
    requires
        0 <= lo <= hi < t.len(),
    ensures
        rotate_window(rotate_window(t, lo, hi, k), lo, hi, 1) == rotate_window(t, lo, hi, k + 1),
{
    let size = hi - lo + 1;
    let once_more = rotate_window(rotate_window(t, lo, hi, k), lo, hi, 1);
    let all_at_once = rotate_window(t, lo, hi, k + 1);
    assert forall|i: int| 0 <= i < t.len() implies once_more[i] == all_at_once[i] by {
        if lo <= i <= hi {
            lemma_mod_bound(i - lo + 1, size);
            lemma_mod_shift_add(i - lo + 1, k as int, size);
        }
    }
    assert(once_more =~= all_at_once);
}

/// Rotating by any amount lands each window slot where the amount reduced
/// modulo the window size would land it.
proof fn lemma_rotate_wraps(t: Seq<Rgb>, lo: int, hi: int, k: nat)
    requires
        0 <= lo <= hi < t.len(),
    ensures
        rotate_window(t, lo, hi, k) == rotate_window(t, lo, hi, (k % (hi - lo + 1) as nat)),
{
    let size = hi - lo + 1;
    let full = rotate_window(t, lo, hi, k);
    let reduced = rotate_window(t, lo, hi, (k % size as nat));
    assert forall|i: int| 0 <= i < t.len() implies full[i] == reduced[i] by {
        if lo <= i <= hi {
            lemma_mod_shift_add(k as int, i - lo, size);
            assert((k as int % size + (i - lo)) % size == (k as int + (i - lo)) % size);
        }
    }
    assert(full =~= reduced);
}

/// Rotate the window `[lo, hi]` left by `amount` single-slot steps.
fn rotate_window_by(table: &mut Vec<Rgb>, lo: usize, hi: usize, amount: u32)
    requires
        old(table)@.len() == 256,
        lo <= hi < 256,
    ensures
        final(table)@.len() == 256,
        final(table)@ == rotate_window(old(table)@, lo as int, hi as int, amount as nat),
{
    proof {
        lemma_rotate_zero(table@, lo as int, hi as int);
    }
    let size = (hi - lo + 1) as u32;
    let steps = amount % size;
    let mut done: u32 = 0;
    while done < steps
        invariant
            table@.len() == 256,
            lo <= hi < 256,
            done <= steps,
            table@ == rotate_window(old(table)@, lo as int, hi as int, done as nat),
        decreases steps - done,
    {
        proof {
            lemma_rotate_once_more(old(table)@, lo as int, hi as int, done as nat);
        }
        rotate_once(table, lo, hi);
        done += 1;
    }
    proof {
        lemma_rotate_wraps(old(table)@, lo as int, hi as int, amount as nat);
    }
}

/// Swap the first `amount` outermost pairs of the window `[lo, hi]`, pair
/// by pair from the ends inward.
fn mirror_window(table: &mut Vec<Rgb>, lo: usize, hi: usize, amount: u32)
    requires
        old(table)@.len() == 256,
        lo <= hi < 256,
        lo + amount <= hi + 1,
    ensures
        final(table)@.len() == 256,
        final(table)@ == mirror_steps(old(table)@, lo as int, hi as int, amount as nat),
{
    proof {
        lemma_mirror_len(table@, lo as int, hi as int, amount as nat);
    }
    let mut i: u32 = 0;
    while i < amount
        invariant
            table@.len() == 256,
            lo <= hi < 256,
            i <= amount,
            lo + amount <= hi + 1,
            table@ == mirror_steps(old(table)@, lo as int, hi as int, i as nat),
        decreases amount - i,
    {
        let a = lo + i as usize;
        let b = hi - i as usize;
        let at_a = table[a];
        let at_b = table[b];
        table[a] = at_b;
        table[b] = at_a;
        i += 1;
    }
}

/// Apply one rule to the working table, shifting its window by `amount`
/// (see `spec_apply_rule`). `PingPong` additionally mirrors the first
/// `amount` pairs of the window before and after the rotation.
pub fn apply_rule(table: &mut Vec<Rgb>, rule: &CycleRule, amount: u32)
    requires
        old(table)@.len() == 256,
        rule.wf(),
        rule.mode == CycleMode::PingPong ==> amount < rule.window_size(),
    ensures
        final(table)@.len() == 256,
        final(table)@ == spec_apply_rule(old(table)@, *rule, amount as nat),
{
    let lo = rule.low as usize;
    let hi = rule.high as usize;
    match rule.mode {
        CycleMode::PingPong => {
            mirror_window(table, lo, hi, amount);
            rotate_window_by(table, lo, hi, amount);
            mirror_window(table, lo, hi, amount);
        },
        _ => {
            rotate_window_by(table, lo, hi, amount);
        },
    }
}

/// The working table every frame starts from: the palette's base colors,
/// zero-filled (black) out to exactly 256 entries.
pub fn padded_table(palette: &Palette) -> (t: Vec<Rgb>)
    requires
        palette.wf(),
    ensures
        t@ == palette.padded_base(),
        t@.len() == 256,
{
    let mut t: Vec<Rgb> = Vec::new();
    let supplied = palette.base_colors.len();
    let mut i: usize = 0;
    while i < 256
        invariant
            palette.wf(),
            supplied == palette.base_colors@.len(),
            i <= 256,
            t@.len() == i,
            forall|j: int| 0 <= j < i ==> t@[j] == palette.padded_base()[j],
        decreases 256 - i,
    {
        if i < supplied {
            let c = palette.base_colors[i];
            t.push(c);
        } else {
            t.push(Rgb::black());
        }
        i += 1;
    }
    proof {
        assert(t@ =~= palette.padded_base());
    }
    t
}

/// The fully cycled 256-entry color table for this palette and animation
/// clock, applying every rule in declared order. `sine_steps` holds one
/// caller-computed sine wave step count per rule; entries for rules of
/// other modes are ignored. Every call is a pure function of its
/// arguments: identical inputs give an identical table.
pub fn compute_frame_with(palette: &Palette, clock_millis: u32, sine_steps: &Vec<u32>) -> (t: Vec<
    Rgb,
>)
    requires
        palette.wf(),
        sine_steps@.len() == palette.cycles@.len(),
    ensures
        t@.len() == 256,
        t@ == spec_frame(*palette, clock_millis, sine_steps@),
{
    let mut table = padded_table(palette);
    let n = palette.cycles.len();
    let mut c: usize = 0;
    while c < n
        invariant
            palette.wf(),
            sine_steps@.len() == palette.cycles@.len(),
            n == palette.cycles@.len(),
            c <= n,
            table@.len() == 256,
            table@ == spec_frame_upto(*palette, clock_millis, sine_steps@, c as int),
        decreases n - c,
    {
        let rule = palette.cycles[c];
        let amount = cycle_amount(&rule, clock_millis, sine_steps[c]);
        proof {
            if rule.mode == CycleMode::PingPong {
                lemma_pingpong_amount_in_window(rule, clock_millis, sine_steps@[c as int]);
            }
        }
        apply_rule(&mut table, &rule, amount);
        c += 1;
    }
    table
}

/// The cycled table with every sine-mode rule idle (wave step zero): the
/// whole frame for palettes without sine rules, since all other modes are
/// computed here in full. Callers that animate sine rules compute the wave
/// steps themselves and use `compute_frame_with`.
pub fn compute_frame(palette: &Palette, clock_millis: u32) -> (t: Vec<Rgb>)
    requires
        palette.wf(),
    ensures
        t@.len() == 256,
        t@ == spec_frame_plain(*palette, clock_millis),
{
    let n = palette.cycles.len();
    let mut zeros: Vec<u32> = Vec::new();
    while zeros.len() < n
        invariant
            n == palette.cycles@.len(),
            zeros@.len() <= n,
            forall|j: int| 0 <= j < zeros@.len() ==> zeros@[j] == 0u32,
        decreases n - zeros@.len(),
    {
        zeros.push(0);
    }
    proof {
        assert(zeros@ =~= Seq::new(palette.cycles@.len(), |i: int| 0u32));
    }
    compute_frame_with(palette, clock_millis, &zeros)
}

/// Shifting a rule's window by zero slots leaves the whole table as it
/// was, whatever the rule's mode.
pub proof fn lemma_apply_amount_zero(t: Seq<Rgb>, r: CycleRule)
    requires
        t.len() == 256,
        r.wf(),
    ensures
        spec_apply_rule(t, r, 0) == t,
{
    lemma_rotate_zero(t, r.low as int, r.high as int);
}

/// A rule whose per-step duration rounds to zero seconds never moves the
/// table, whatever the clock says; `rate == 0` is the plainest such case.
pub proof fn lemma_inactive_rule_is_noop(t: Seq<Rgb>, r: CycleRule, clock_millis: u32, sine_step: u32)
    requires
        t.len() == 256,
        r.wf(),
        spec_cycle_rate(r.rate) == 0,
    ensures
        spec_apply_rule(t, r, spec_cycle_amount(r, clock_millis, sine_step)) == t,
{
    lemma_apply_amount_zero(t, r);
}

/// A forward rule that shifts by exactly one slot moves every window slot
/// down by one, carries the window's first color to its last slot, and
/// leaves everything outside the window alone.
pub proof fn lemma_unit_rotation(t: Seq<Rgb>, r: CycleRule, clock_millis: u32, sine_step: u32)
    requires
        t.len() == 256,
        r.wf(),
        r.mode == CycleMode::Forward,
        spec_cycle_amount(r, clock_millis, sine_step) == 1,
    ensures
        forall|i: int|
            r.low <= i < r.high ==> spec_apply_rule(
                t,
                r,
                spec_cycle_amount(r, clock_millis, sine_step),
            )[i] == t[i + 1],
        spec_apply_rule(t, r, spec_cycle_amount(r, clock_millis, sine_step))[r.high as int] == t[
            r.low as int
        ],
        forall|i: int|
            0 <= i < 256 && !(r.low <= i <= r.high) ==> spec_apply_rule(
                t,
                r,
                spec_cycle_amount(r, clock_millis, sine_step),
            )[i] == t[i],
{
    let lo = r.low as int;
    let hi = r.high as int;
    let size = hi - lo + 1;
    assert forall|i: int| lo <= i < hi implies spec_apply_rule(t, r, 1)[i] == t[i + 1] by {
        lemma_small_mod((i - lo + 1) as nat, size as nat);
    }
    lemma_mod_self_0(size);
}

/// The triangle-wave shape of a `Bounce` rule's shift amount: over the
/// folded clock position `m` it rises with `m` through the window size and
/// falls back with `2 * size - m` after, so it never exceeds the window
/// size, and stays strictly below it except at the fold's very peak.
pub proof fn lemma_bounce_amount(r: CycleRule, clock_millis: u32, sine_step: u32)
    requires
        r.wf(),
        r.mode == CycleMode::Bounce,
        spec_rule_active(r),
    ensures
        ({
            let size = r.window_size();
            let m = spec_raw_step(clock_millis, r.rate) % (2 * size);
            let a = spec_cycle_amount(r, clock_millis, sine_step);
            &&& 0 <= a <= size
            &&& m != size ==> a < size
            &&& m <= size ==> a == m
            &&& m >= size ==> a == 2 * size - m
        }),
{
    let size = r.window_size();
    lemma_mod_bound(spec_raw_step(clock_millis, r.rate), 2 * size);
}

proof fn lemma_mirror_outside(t: Seq<Rgb>, lo: int, hi: int, k: nat, i: int)
    requires
        0 <= lo <= hi < t.len(),
        lo + k <= hi + 1,
        0 <= i < t.len(),
        !(lo <= i <= hi),
    ensures
        mirror_steps(t, lo, hi, k)[i] == t[i],
    decreases k,
{
    if k > 0 {
        lemma_mirror_outside(t, lo, hi, (k - 1) as nat, i);
        lemma_mirror_len(t, lo, hi, (k - 1) as nat);
    }
}

/// One rule touches nothing outside its own window.
pub proof fn lemma_apply_rule_outside(t: Seq<Rgb>, r: CycleRule, amount: nat, i: int)
    requires
        t.len() == 256,
        r.wf(),
        r.mode == CycleMode::PingPong ==> amount < r.window_size(),
        0 <= i < 256,
        !(r.low <= i <= r.high),
    ensures
        spec_apply_rule(t, r, amount)[i] == t[i],
{
    let lo = r.low as int;
    let hi = r.high as int;
    if r.mode == CycleMode::PingPong {
        let once = mirror_steps(t, lo, hi, amount);
        lemma_mirror_len(t, lo, hi, amount);
        lemma_mirror_outside(t, lo, hi, amount, i);
        let twice = rotate_window(once, lo, hi, amount);
        lemma_mirror_len(twice, lo, hi, amount);
        lemma_mirror_outside(twice, lo, hi, amount, i);
    }
}

/// Slot `i` lies in no rule's window of this palette.
pub open spec fn outside_all_windows(p: Palette, i: int) -> bool {
    forall|j: int|
        0 <= j < p.cycles@.len() ==> !((#[trigger] p.cycles@[j]).low <= i <= p.cycles@[j].high)
}

proof fn lemma_frame_upto_len(p: Palette, clock_millis: u32, sine: Seq<u32>, n: int)
    requires
        p.wf(),
        sine.len() == p.cycles@.len(),
        0 <= n <= p.cycles@.len(),
    ensures
        spec_frame_upto(p, clock_millis, sine, n).len() == 256,
    decreases n,
{
    if n > 0 {
        lemma_frame_upto_len(p, clock_millis, sine, n - 1);
        let r = p.cycles@[n - 1];
        let t = spec_frame_upto(p, clock_millis, sine, n - 1);
        if r.mode == CycleMode::PingPong {
            let amount = spec_cycle_amount(r, clock_millis, sine[n - 1]);
            lemma_pingpong_amount_in_window(r, clock_millis, sine[n - 1]);
            lemma_mirror_len(t, r.low as int, r.high as int, amount);
            lemma_mirror_len(
                rotate_window(mirror_steps(t, r.low as int, r.high as int, amount), r.low as int, r.high as int, amount),
                r.low as int,
                r.high as int,
                amount,
            );
        }
    }
}

proof fn lemma_frame_upto_outside(p: Palette, clock_millis: u32, sine: Seq<u32>, n: int, i: int)
    requires
        p.wf(),
        sine.len() == p.cycles@.len(),
        0 <= n <= p.cycles@.len(),
        0 <= i < 256,
        outside_all_windows(p, i),
    ensures
        spec_frame_upto(p, clock_millis, sine, n)[i] == p.padded_base()[i],
    decreases n,
{
    if n > 0 {
        lemma_frame_upto_outside(p, clock_millis, sine, n - 1, i);
        lemma_frame_upto_len(p, clock_millis, sine, n - 1);
        let r = p.cycles@[n - 1];
        let amount = spec_cycle_amount(r, clock_millis, sine[n - 1]);
        if r.mode == CycleMode::PingPong {
            lemma_pingpong_amount_in_window(r, clock_millis, sine[n - 1]);
        }
        lemma_apply_rule_outside(spec_frame_upto(p, clock_millis, sine, n - 1), r, amount, i);
    }
}

/// Color-table slots outside every rule's window always show the base
/// colors exactly, whatever the clock and the sine wave steps.
pub proof fn lemma_untouched_outside_windows(p: Palette, clock_millis: u32, sine: Seq<u32>, i: int)
    requires
        p.wf(),
        sine.len() == p.cycles@.len(),
        0 <= i < 256,
        outside_all_windows(p, i),
    ensures
        spec_frame(p, clock_millis, sine)[i] == p.padded_base()[i],
{
    lemma_frame_upto_outside(p, clock_millis, sine, p.cycles@.len() as int, i);
}

} // verus!
