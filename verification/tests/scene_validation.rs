use living_worlds::cycle::compute_frame;
use living_worlds::frame::{active_palette, compose_frame};
use living_worlds::model::{
    find_palette, scene_has_palette, validate, ConfigError, CycleMode, CycleRule, Palette,
    PaletteEntry, Rgb, Scene, Timeline, TimelineEntry,
};
use living_worlds::timeline::resolve;

fn rgb(r: u8, g: u8, b: u8) -> Rgb {
    Rgb { r, g, b }
}

fn entry(time: u32, name: &str) -> TimelineEntry {
    TimelineEntry { time, name: name.to_string() }
}

fn named_palette(name: &str, colors: Vec<Rgb>, cycles: Vec<CycleRule>) -> PaletteEntry {
    PaletteEntry { name: name.to_string(), palette: Palette { base_colors: colors, cycles } }
}

/// The red-green two-pixel scene.
fn tiny_scene() -> Scene {
    Scene {
        width: 2,
        height: 1,
        pixel_indices: vec![0, 1],
        palettes: vec![named_palette("P", vec![rgb(255, 0, 0), rgb(0, 255, 0)], vec![])],
        timeline: Timeline { entries: vec![entry(0, "P")] },
    }
}

#[test]
fn valid_scene_passes() {
    assert_eq!(validate(&tiny_scene()), Ok(()));
}

#[test]
fn zero_dimension_is_rejected() {
    let mut scene = tiny_scene();
    scene.width = 0;
    scene.pixel_indices = vec![];
    assert_eq!(validate(&scene), Err(ConfigError::BadDimensions));
}

#[test]
fn wrong_pixel_count_is_rejected() {
    let mut scene = tiny_scene();
    scene.pixel_indices = vec![0, 1, 1];
    assert_eq!(validate(&scene), Err(ConfigError::BadDimensions));
}

#[test]
fn oversized_palette_is_rejected() {
    let mut scene = tiny_scene();
    let too_many = vec![rgb(0, 0, 0); 257];
    scene.palettes.push(named_palette("big", too_many, vec![]));
    assert_eq!(validate(&scene), Err(ConfigError::TooManyColors));
}

#[test]
fn inverted_rule_range_is_rejected() {
    let mut scene = tiny_scene();
    let bad = CycleRule { low: 9, high: 3, rate: 280, mode: CycleMode::Forward };
    scene.palettes.push(named_palette("animated", vec![rgb(1, 1, 1)], vec![bad]));
    assert_eq!(validate(&scene), Err(ConfigError::BadRuleRange));
}

#[test]
fn duplicate_palette_name_is_rejected() {
    let mut scene = tiny_scene();
    scene.palettes.push(named_palette("P", vec![rgb(9, 9, 9)], vec![]));
    assert_eq!(validate(&scene), Err(ConfigError::DuplicatePalette));
}

#[test]
fn unsorted_timeline_is_rejected() {
    let mut scene = tiny_scene();
    scene.timeline = Timeline { entries: vec![entry(500, "P"), entry(100, "P")] };
    assert_eq!(validate(&scene), Err(ConfigError::BadTimeline));
}

#[test]
fn duplicate_timeline_key_is_rejected() {
    let mut scene = tiny_scene();
    scene.timeline = Timeline { entries: vec![entry(500, "P"), entry(500, "P")] };
    assert_eq!(validate(&scene), Err(ConfigError::BadTimeline));
}

#[test]
fn timeline_key_beyond_day_is_rejected() {
    let mut scene = tiny_scene();
    scene.timeline = Timeline { entries: vec![entry(86400, "P")] };
    assert_eq!(validate(&scene), Err(ConfigError::BadTimeline));
}

#[test]
fn empty_timeline_is_rejected() {
    let mut scene = tiny_scene();
    scene.timeline = Timeline { entries: vec![] };
    assert_eq!(validate(&scene), Err(ConfigError::EmptyTimeline));
}

#[test]
fn missing_timeline_target_is_rejected() {
    let mut scene = tiny_scene();
    scene.timeline = Timeline { entries: vec![entry(0, "P"), entry(100, "absent")] };
    assert_eq!(validate(&scene), Err(ConfigError::MissingPalette));
}

#[test]
fn resolved_name_is_always_a_palette() {
    let scene = Scene {
        width: 1,
        height: 1,
        pixel_indices: vec![0],
        palettes: vec![
            named_palette("dawn", vec![rgb(1, 0, 0)], vec![]),
            named_palette("noon", vec![rgb(0, 1, 0)], vec![]),
            named_palette("dusk", vec![rgb(0, 0, 1)], vec![]),
        ],
        timeline: Timeline {
            entries: vec![entry(21600, "dawn"), entry(43200, "noon"), entry(64800, "dusk")],
        },
    };
    assert_eq!(validate(&scene), Ok(()));
    for t in [0u32, 21599, 21600, 43201, 64800, 86399] {
        let name = resolve(&scene.timeline, t).unwrap();
        assert!(scene_has_palette(&scene, &name));
        assert!(find_palette(&scene, &name).is_some());
    }
}

#[test]
fn find_palette_returns_named_entry() {
    let scene = tiny_scene();
    let name = "P".to_string();
    let palette = find_palette(&scene, &name).unwrap();
    assert_eq!(palette.base_colors, vec![rgb(255, 0, 0), rgb(0, 255, 0)]);
    let absent = "Q".to_string();
    assert!(find_palette(&scene, &absent).is_none());
    assert!(!scene_has_palette(&scene, &absent));
}

#[test]
fn active_palette_follows_the_clock() {
    let scene = Scene {
        width: 1,
        height: 1,
        pixel_indices: vec![0],
        palettes: vec![
            named_palette("day", vec![rgb(200, 200, 0)], vec![]),
            named_palette("night", vec![rgb(0, 0, 60)], vec![]),
        ],
        timeline: Timeline { entries: vec![entry(21600, "day"), entry(72000, "night")] },
    };
    assert_eq!(validate(&scene), Ok(()));
    assert_eq!(active_palette(&scene, 30000).unwrap().base_colors[0], rgb(200, 200, 0));
    assert_eq!(active_palette(&scene, 80000).unwrap().base_colors[0], rgb(0, 0, 60));
    // before dawn, the previous night's palette is still up
    assert_eq!(active_palette(&scene, 100).unwrap().base_colors[0], rgb(0, 0, 60));
    let empty = Scene { timeline: Timeline { entries: vec![] }, ..scene };
    assert!(matches!(active_palette(&empty, 0), Err(ConfigError::EmptyTimeline)));
}

#[test]
fn red_green_scene_end_to_end() {
    let scene = tiny_scene();
    assert_eq!(validate(&scene), Ok(()));
    for t in [0u32, 12345, 86399] {
        assert_eq!(resolve(&scene.timeline, t).unwrap(), "P");
    }
    let name = resolve(&scene.timeline, 777).unwrap();
    let palette = find_palette(&scene, &name).unwrap();
    let table = compute_frame(palette, 999_999);
    assert_eq!(table[0], rgb(255, 0, 0));
    assert_eq!(table[1], rgb(0, 255, 0));
    let pixels = compose_frame(&scene.pixel_indices, &table);
    assert_eq!(pixels, vec![rgb(255, 0, 0), rgb(0, 255, 0)]);
}
