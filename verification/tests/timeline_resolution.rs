use living_worlds::model::{ConfigError, Timeline, TimelineEntry};
use living_worlds::timeline::{get_palette_time, resolve};

fn entry(time: u32, name: &str) -> TimelineEntry {
    TimelineEntry { time, name: name.to_string() }
}

fn two_breakpoints() -> Timeline {
    Timeline { entries: vec![entry(0, "A"), entry(43200, "B")] }
}

#[test]
fn resolve_wraps_around_midnight() {
    let tl = two_breakpoints();
    assert_eq!(resolve(&tl, 10).unwrap(), "A");
    assert_eq!(resolve(&tl, 50000).unwrap(), "B");
    assert_eq!(resolve(&tl, 0).unwrap(), "A");
}

#[test]
fn resolve_boundary_is_inclusive() {
    let tl = two_breakpoints();
    assert_eq!(resolve(&tl, 43200).unwrap(), "B");
    assert_eq!(resolve(&tl, 43199).unwrap(), "A");
    assert_eq!(resolve(&tl, 86399).unwrap(), "B");
}

#[test]
fn resolve_before_first_breakpoint_uses_last() {
    let tl = Timeline { entries: vec![entry(100, "day"), entry(60000, "night")] };
    // before the first breakpoint of the day: previous day's schedule holds
    assert_eq!(resolve(&tl, 50).unwrap(), "night");
    assert_eq!(resolve(&tl, 100).unwrap(), "day");
}

#[test]
fn resolve_is_repeatable() {
    let tl = two_breakpoints();
    for t in [0u32, 10, 43199, 43200, 86399] {
        assert_eq!(resolve(&tl, t).unwrap(), resolve(&tl, t).unwrap());
    }
}

#[test]
fn resolve_empty_timeline_fails() {
    let tl = Timeline { entries: vec![] };
    assert_eq!(resolve(&tl, 0), Err(ConfigError::EmptyTimeline));
    assert_eq!(resolve(&tl, 86399), Err(ConfigError::EmptyTimeline));
}

#[test]
fn get_palette_time_returns_active_key() {
    let tl = two_breakpoints();
    assert_eq!(get_palette_time(&tl, 10), 0);
    assert_eq!(get_palette_time(&tl, 43200), 43200);
    assert_eq!(get_palette_time(&tl, 86000), 43200);
    // wrap: before the first key the last key is still active
    let late = Timeline { entries: vec![entry(500, "x"), entry(700, "y")] };
    assert_eq!(get_palette_time(&late, 20), 700);
}

#[test]
fn resolve_single_breakpoint_always_active() {
    let tl = Timeline { entries: vec![entry(0, "only")] };
    for t in [0u32, 1, 43200, 86399] {
        assert_eq!(resolve(&tl, t).unwrap(), "only");
    }
}
