//! The timeline resolver: which palette is active at a given second of the
//! day. The timeline's breakpoints partition the day into half-open
//! intervals `[time_i, time_{i+1})`; before the first breakpoint the
//! schedule wraps around midnight to the previous day's last breakpoint.

use vstd::prelude::*;

use crate::model::{ConfigError, Scene, Timeline, TimelineEntry};

verus! {

/// Index of the last entry whose time is at most `t`, or `-1` when every
/// entry lies after `t`.
pub open spec fn last_index_at_or_before(entries: Seq<TimelineEntry>, t: u32) -> int
    decreases entries.len(),
{
    if entries.len() == 0 {
        -1
    } else if entries.last().time <= t {
        entries.len() - 1
    } else {
        last_index_at_or_before(entries.drop_last(), t)
    }
}

/// Index of the breakpoint active at second `t`: the greatest one at or
/// before `t`, wrapping to the day's last breakpoint when `t` lies before
/// the first.
pub open spec fn spec_active_index(tl: Timeline, t: u32) -> int
    recommends
        !tl.is_empty(),
{
    let le = last_index_at_or_before(tl.entries@, t);
    if le >= 0 {
        le
    } else {
        tl.entries@.len() - 1
    }
}

/// The time key of the breakpoint active at second `t`.
pub open spec fn spec_active_time(tl: Timeline, t: u32) -> u32
    recommends
        !tl.is_empty(),
{
    tl.entries@[spec_active_index(tl, t)].time
}

/// The palette name active at second `t`.
pub open spec fn spec_resolve(tl: Timeline, t: u32) -> Seq<char>
    recommends
        !tl.is_empty(),
{
    tl.entries@[spec_active_index(tl, t)].name@
}

proof fn lemma_last_le_absent(entries: Seq<TimelineEntry>, t: u32)
    requires
        forall|j: int| 0 <= j < entries.len() ==> (#[trigger] entries[j].time) > t,
    ensures
        last_index_at_or_before(entries, t) == -1,
    decreases entries.len(),
{
    if entries.len() > 0 {
        lemma_last_le_absent(entries.drop_last(), t);
    }
}

proof fn lemma_last_le_at(entries: Seq<TimelineEntry>, t: u32, k: int)
    requires
        0 <= k < entries.len(),
        entries[k].time <= t,
        forall|j: int| k < j < entries.len() ==> (#[trigger] entries[j].time) > t,
    ensures
        last_index_at_or_before(entries, t) == k,
    decreases entries.len(),
{
    if k < entries.len() - 1 {
        lemma_last_le_at(entries.drop_last(), t, k);
    }
}

proof fn lemma_last_le_in_range(entries: Seq<TimelineEntry>, t: u32)
    ensures
        -1 <= last_index_at_or_before(entries, t) < entries.len(),
    decreases entries.len(),
{
    if entries.len() > 0 {
        lemma_last_le_in_range(entries.drop_last(), t);
    }
}

/// The active breakpoint's index is always a real index of a non-empty
/// timeline.
pub proof fn lemma_active_index_in_range(tl: Timeline, t: u32)
    requires
        !tl.is_empty(),
    ensures
        0 <= spec_active_index(tl, t) < tl.entries@.len(),
{
    lemma_last_le_in_range(tl.entries@, t);
}

/// In a well-formed scene with a non-empty timeline, resolving any second
/// of the day yields the name of a palette the scene holds.
pub proof fn lemma_resolve_names_existing_palette(s: Scene, t: u32)
    requires
        s.wf(),
        !s.timeline.is_empty(),
    ensures
        s.has_palette(spec_resolve(s.timeline, t)),
{
    lemma_active_index_in_range(s.timeline, t);
    assert(s.has_palette(s.timeline.entries@[spec_active_index(s.timeline, t)].name@));
}

/// Resolution is a pure function of the timeline and the query second:
/// any two results the resolver's contract admits for identical inputs
/// are the same name.
pub proof fn lemma_resolve_deterministic(tl: Timeline, t: u32, r1: Seq<char>, r2: Seq<char>)
    requires
        !tl.is_empty(),
        r1 == spec_resolve(tl, t),
        r2 == spec_resolve(tl, t),
    ensures
        r1 == r2,
{
}

/// Index of the breakpoint active at second `seconds`.
fn active_index(timeline: &Timeline, seconds: u32) -> (k: usize)
    requires
        timeline.wf(),
        !timeline.is_empty(),
    ensures
        k < timeline.entries@.len(),
        k as int == spec_active_index(*timeline, seconds),
{
    let n = timeline.entries.len();
    let mut i: usize = 0;
    while i < n
        invariant
            timeline.wf(),
            n == timeline.entries@.len(),
            0 < n,
            0 <= i <= n,
            forall|j: int| 0 <= j < i ==> (#[trigger] timeline.entries@[j].time) <= seconds,
        decreases n - i,
    {
        if timeline.entries[i].time > seconds {
            if i == 0 {
                proof {
                    lemma_last_le_absent(timeline.entries@, seconds);
                }
                return n - 1;
            } else {
                proof {
                    lemma_last_le_at(timeline.entries@, seconds, i - 1);
                }
                return i - 1;
            }
        }
        i += 1;
    }
    proof {
        lemma_last_le_at(timeline.entries@, seconds, n - 1);
    }
    n - 1
}

/// The time key of the breakpoint active at `seconds`: the greatest key at
/// or before the query, or the day's last key when the query lies before
/// every breakpoint (the schedule wraps at midnight).
pub fn get_palette_time(timeline: &Timeline, seconds: u32) -> (t: u32)
    requires
        timeline.wf(),
        !timeline.is_empty(),
    ensures
        t == spec_active_time(*timeline, seconds),
{
    let k = active_index(timeline, seconds);
    timeline.entries[k].time
}

/// The name of the palette active at `seconds`. Fails exactly when the
/// timeline has no breakpoints, with `ConfigError::EmptyTimeline`.
pub fn resolve(timeline: &Timeline, seconds: u32) -> (r: Result<String, ConfigError>)
    requires
        timeline.wf(),
    ensures
        r is Ok <==> !timeline.is_empty(),
        timeline.is_empty() ==> r == Result::<String, ConfigError>::Err(ConfigError::EmptyTimeline),
        !timeline.is_empty() ==> (r matches Ok(name) && name@ == spec_resolve(*timeline, seconds)),
{
    if timeline.entries.len() == 0 {
        return Err(ConfigError::EmptyTimeline);
    }
    let k = active_index(timeline, seconds);
    let entry = &timeline.entries[k];
    Ok(entry.name.clone())
}

} // verus!
