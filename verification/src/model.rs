//! The scene data model: colors, cycle rules, palettes, the timeline, and
//! the whole scene, together with their well-formedness conditions and the
//! load-time validation that establishes them.

use vstd::prelude::*;

verus! {

/// One color table entry: an RGB triple of 8-bit channels.
#[derive(Clone, Copy, PartialEq, Eq, Structural, Debug)]
pub struct Rgb {
    pub r: u8,
    pub g: u8,
    pub b: u8,
}

impl Rgb {
    /// The zero-fill color for palette slots beyond the supplied colors.
    pub fn black() -> (c: Rgb)
        ensures
            c == (Rgb { r: 0, g: 0, b: 0 }),
    {
        Rgb { r: 0, g: 0, b: 0 }
    }
}

/// The animation behavior of a cycle rule.
///
/// `Forward` and `ForwardAlt` are intentionally identical simple rotations
/// (two source encodings with the same meaning). `PingPong` mirrors the
/// rotated window before and after rotating. `Bounce` folds the step count
/// into a triangle wave. `SineQuarter` and `SineHalf` remap the step count
/// through a sine wave at two amplitudes; the wave itself is floating-point
/// work done by the caller (see `cycle::compute_frame_with`).
#[derive(Clone, Copy, PartialEq, Eq, Structural, Debug)]
pub enum CycleMode {
    Forward,
    ForwardAlt,
    PingPong,
    Bounce,
    SineQuarter,
    SineHalf,
}

/// One color-cycling rule: rotate the inclusive slot range `[low, high]` of
/// the 256-entry color table at a speed derived from `rate`.
#[derive(Clone, Copy, PartialEq, Eq, Structural, Debug)]
pub struct CycleRule {
    pub low: u8,
    pub high: u8,
    pub rate: u32,
    pub mode: CycleMode,
}

impl CycleRule {
    /// A rule's bounds must be ordered; the `u8` type already keeps them in
    /// the table's 0..=255 slot range.
    pub open spec fn wf(self) -> bool {
        self.low <= self.high
    }

    /// Number of slots in the rule's window.
    pub open spec fn window_size(self) -> int {
        self.high - self.low + 1
    }
}

/// A named palette: base colors (at most 256, zero-padded to 256 when a
/// frame is computed) and the cycle rules that animate it, applied in their
/// declared order.
pub struct Palette {
    pub base_colors: Vec<Rgb>,
    pub cycles: Vec<CycleRule>,
}

impl Palette {
    /// Every cycle rule has ordered bounds.
    pub open spec fn rules_wf(self) -> bool {
        forall|i: int| 0 <= i < self.cycles@.len() ==> (#[trigger] self.cycles@[i]).wf()
    }

    pub open spec fn wf(self) -> bool {
        &&& self.base_colors@.len() <= 256
        &&& self.rules_wf()
    }

    /// The working table every frame starts from: the base colors,
    /// zero-filled (black) out to exactly 256 entries.
    pub open spec fn padded_base(self) -> Seq<Rgb> {
        Seq::new(
            256,
            |i: int|
                if i < self.base_colors@.len() {
                    self.base_colors@[i]
                } else {
                    Rgb { r: 0, g: 0, b: 0 }
                },
        )
    }
}

/// One timeline breakpoint: from `time` (seconds since midnight) onward,
/// the palette called `name` is active, until the next breakpoint.
pub struct TimelineEntry {
    pub time: u32,
    pub name: String,
}

/// The day's schedule: breakpoints in strictly ascending time order,
/// wrapping at midnight (before the first breakpoint, the last one of the
/// previous day is still active).
pub struct Timeline {
    pub entries: Vec<TimelineEntry>,
}

impl Timeline {
    /// Times are unique and ascending, and lie within one day.
    pub open spec fn wf(self) -> bool {
        &&& forall|i: int, j: int|
            0 <= i < j < self.entries@.len() ==> self.entries@[i].time < self.entries@[j].time
        &&& forall|i: int|
            0 <= i < self.entries@.len() ==> (#[trigger] self.entries@[i].time) < 86400
    }

    pub open spec fn is_empty(self) -> bool {
        self.entries@.len() == 0
    }
}

/// A palette under its lookup name.
pub struct PaletteEntry {
    pub name: String,
    pub palette: Palette,
}

/// One loaded scene: immutable for the whole rendering session.
pub struct Scene {
    pub width: u32,
    pub height: u32,
    pub pixel_indices: Vec<u8>,
    pub palettes: Vec<PaletteEntry>,
    pub timeline: Timeline,
}

impl Scene {
    /// Whether some palette is stored under `name`.
    pub open spec fn has_palette(self, name: Seq<char>) -> bool {
        exists|i: int| 0 <= i < self.palettes@.len() && (#[trigger] self.palettes@[i]).name@ == name
    }

    /// Positive dimensions and a pixel grid that fills them exactly.
    pub open spec fn dims_ok(self) -> bool {
        &&& self.width >= 1
        &&& self.height >= 1
        &&& self.pixel_indices@.len() == self.width * self.height
    }

    /// No palette supplies more than the table's 256 colors.
    pub open spec fn palette_sizes_ok(self) -> bool {
        forall|i: int|
            0 <= i < self.palettes@.len() ==> (#[trigger] self.palettes@[i]).palette.base_colors@.len()
                <= 256
    }

    /// Every cycle rule of every palette has ordered bounds.
    pub open spec fn palette_rules_ok(self) -> bool {
        forall|i: int| 0 <= i < self.palettes@.len() ==> (#[trigger] self.palettes@[i]).palette.rules_wf()
    }

    /// Palette names are unique lookup keys.
    pub open spec fn names_unique(self) -> bool {
        forall|i: int, j: int|
            0 <= i < j < self.palettes@.len() ==> self.palettes@[i].name@ != self.palettes@[j].name@
    }

    /// Every timeline breakpoint names a palette the scene holds.
    pub open spec fn timeline_targets_ok(self) -> bool {
        forall|i: int|
            0 <= i < self.timeline.entries@.len() ==> self.has_palette(
                (#[trigger] self.timeline.entries@[i]).name@,
            )
    }

    /// Structural soundness of a loaded scene: positive dimensions, a
    /// full pixel grid, well-formed palettes under unique names, an
    /// ordered timeline, and every timeline target present among the
    /// palettes. The timeline may still be empty; rendering additionally
    /// needs at least one breakpoint (see `validate`).
    pub open spec fn wf(self) -> bool {
        &&& self.dims_ok()
        &&& self.palette_sizes_ok()
        &&& self.palette_rules_ok()
        &&& self.names_unique()
        &&& self.timeline.wf()
        &&& self.timeline_targets_ok()
    }
}

/// In a well-formed scene, each stored palette is itself well-formed, as
/// the cycle engine's contracts require.
pub proof fn lemma_wf_scene_palette(s: Scene, i: int)
    requires
        s.palette_sizes_ok(),
        s.palette_rules_ok(),
        0 <= i < s.palettes@.len(),
    ensures
        s.palettes@[i].palette.wf(),
{
}

/// Structurally invalid scene data, detected once at load time; fatal for
/// that scene. Never raised by the per-frame computations.
#[derive(Clone, Copy, PartialEq, Eq, Structural, Debug)]
pub enum ConfigError {
    /// Zero width or height, or a pixel grid whose length is not
    /// `width * height`.
    BadDimensions,
    /// A palette supplies more than 256 base colors.
    TooManyColors,
    /// A cycle rule with `low > high`.
    BadRuleRange,
    /// Two palettes stored under the same name.
    DuplicatePalette,
    /// A timeline key outside the day (`86400` seconds or more), or keys
    /// out of ascending order or duplicated.
    BadTimeline,
    /// A timeline with no breakpoints: no palette can ever be resolved.
    EmptyTimeline,
    /// A timeline entry names a palette the scene does not hold.
    MissingPalette,
}

/// The load-time verdict on a scene: the first structural fault in a fixed
/// checking order, or `Ok` for a scene that is safe to render.
pub open spec fn spec_validate(s: Scene) -> Result<(), ConfigError> {
    if !s.dims_ok() {
        Err(ConfigError::BadDimensions)
    } else if !s.palette_sizes_ok() {
        Err(ConfigError::TooManyColors)
    } else if !s.palette_rules_ok() {
        Err(ConfigError::BadRuleRange)
    } else if !s.names_unique() {
        Err(ConfigError::DuplicatePalette)
    } else if !s.timeline.wf() {
        Err(ConfigError::BadTimeline)
    } else if s.timeline.is_empty() {
        Err(ConfigError::EmptyTimeline)
    } else if !s.timeline_targets_ok() {
        Err(ConfigError::MissingPalette)
    } else {
        Ok(())
    }
}

/// Whether some palette of `scene` is stored under `name`.
pub fn scene_has_palette(scene: &Scene, name: &String) -> (found: bool)
    ensures
        found == scene.has_palette(name@),
{
    let n = scene.palettes.len();
    let mut i: usize = 0;
    while i < n
        invariant
            n == scene.palettes@.len(),
            i <= n,
            forall|j: int| 0 <= j < i ==> (#[trigger] scene.palettes@[j]).name@ != name@,
        decreases n - i,
    {
        let entry = &scene.palettes[i];
        if entry.name == *name {
            return true;
        }
        i += 1;
    }
    false
}

/// The palette stored under `name`, if any.
pub fn find_palette<'a>(scene: &'a Scene, name: &String) -> (r: Option<&'a Palette>)
    ensures
        r is Some <==> scene.has_palette(name@),
        r matches Some(p) ==> exists|i: int|
            0 <= i < scene.palettes@.len() && (#[trigger] scene.palettes@[i]).name@ == name@ && *p
                == scene.palettes@[i].palette,
{
    let n = scene.palettes.len();
    let mut i: usize = 0;
    while i < n
        invariant
            n == scene.palettes@.len(),
            i <= n,
            forall|j: int| 0 <= j < i ==> (#[trigger] scene.palettes@[j]).name@ != name@,
        decreases n - i,
    {
        let entry = &scene.palettes[i];
        if entry.name == *name {
            return Some(&entry.palette);
        }
        i += 1;
    }
    None
}

fn palette_colors_fit(p: &Palette) -> (ok: bool)
    ensures
        ok == (p.base_colors@.len() <= 256),
{
    p.base_colors.len() <= 256
}

fn palette_rules_wf(p: &Palette) -> (ok: bool)
    ensures
        ok == p.rules_wf(),
{
    let n = p.cycles.len();
    let mut i: usize = 0;
    while i < n
        invariant
            n == p.cycles@.len(),
            i <= n,
            forall|j: int| 0 <= j < i ==> (#[trigger] p.cycles@[j]).wf(),
        decreases n - i,
    {
        let c = p.cycles[i];
        if c.low > c.high {
            return false;
        }
        i += 1;
    }
    true
}

proof fn lemma_times_increase(entries: Seq<TimelineEntry>, i: int, j: int)
    requires
        forall|k: int| 0 < k < entries.len() ==> (#[trigger] entries[k].time) > entries[k - 1].time,
        0 <= i < j < entries.len(),
    ensures
        entries[i].time < entries[j].time,
    decreases j - i,
{
    if j > i + 1 {
        lemma_times_increase(entries, i, j - 1);
    }
}

/// The load-time check of a freshly built scene: accepts exactly the
/// well-formed scenes with at least one timeline breakpoint, and otherwise
/// reports the first structural fault in `spec_validate`'s checking order.
/// Never called per frame.
pub fn validate(scene: &Scene) -> (r: Result<(), ConfigError>)
    ensures
        r == spec_validate(*scene),
        r is Ok <==> scene.wf() && !scene.timeline.is_empty(),
{
    if scene.width == 0 || scene.height == 0 {
        return Err(ConfigError::BadDimensions);
    }
    proof {
        assert((scene.width as int) * (scene.height as int) <= 0xffff_ffff * 0xffff_ffff)
            by (nonlinear_arith)
            requires
                scene.width <= 0xffff_ffffu32,
                scene.height <= 0xffff_ffffu32,
        ;
    }
    let pixels: u64 = (scene.width as u64) * (scene.height as u64);
    if scene.pixel_indices.len() as u64 != pixels {
        return Err(ConfigError::BadDimensions);
    }
    proof {
        assert(scene.dims_ok());
    }

    let np = scene.palettes.len();
    let mut i: usize = 0;
    while i < np
        invariant
            np == scene.palettes@.len(),
            i <= np,
            scene.dims_ok(),
            forall|k: int|
                0 <= k < i ==> (#[trigger] scene.palettes@[k]).palette.base_colors@.len() <= 256,
        decreases np - i,
    {
        let entry = &scene.palettes[i];
        if !palette_colors_fit(&entry.palette) {
            return Err(ConfigError::TooManyColors);
        }
        i += 1;
    }

    let mut i: usize = 0;
    while i < np
        invariant
            np == scene.palettes@.len(),
            i <= np,
            scene.palette_sizes_ok(),
            scene.dims_ok(),
            forall|k: int| 0 <= k < i ==> (#[trigger] scene.palettes@[k]).palette.rules_wf(),
        decreases np - i,
    {
        let entry = &scene.palettes[i];
        if !palette_rules_wf(&entry.palette) {
            return Err(ConfigError::BadRuleRange);
        }
        i += 1;
    }

    let mut i: usize = 0;
    while i < np
        invariant
            np == scene.palettes@.len(),
            i <= np,
            scene.palette_sizes_ok(),
            scene.palette_rules_ok(),
            scene.dims_ok(),
            forall|a: int, b: int|
                0 <= a < b < np && a < i ==> scene.palettes@[a].name@ != scene.palettes@[b].name@,
        decreases np - i,
    {
        let mut j: usize = i + 1;
        while j < np
            invariant
                np == scene.palettes@.len(),
                i < j <= np,
                i < np,
                scene.palette_sizes_ok(),
                scene.palette_rules_ok(),
                scene.dims_ok(),
                forall|a: int, b: int|
                    0 <= a < b < np && a < i ==> scene.palettes@[a].name@ != scene.palettes@[b].name@,
                forall|b: int| i < b < j ==> scene.palettes@[i as int].name@ != (#[trigger] scene.palettes@[b]).name@,
            decreases np - j,
        {
            let first = &scene.palettes[i];
            let second = &scene.palettes[j];
            if first.name == second.name {
                return Err(ConfigError::DuplicatePalette);
            }
            j += 1;
        }
        i += 1;
    }

    let nt = scene.timeline.entries.len();
    let mut i: usize = 0;
    while i < nt
        invariant
            nt == scene.timeline.entries@.len(),
            i <= nt,
            scene.palette_sizes_ok(),
            scene.palette_rules_ok(),
            scene.names_unique(),
            scene.dims_ok(),
            forall|k: int| 0 <= k < i ==> (#[trigger] scene.timeline.entries@[k].time) < 86400,
            forall|k: int|
                0 < k < i ==> (#[trigger] scene.timeline.entries@[k].time)
                    > scene.timeline.entries@[k - 1].time,
        decreases nt - i,
    {
        let entry = &scene.timeline.entries[i];
        if entry.time >= 86400 {
            return Err(ConfigError::BadTimeline);
        }
        if i > 0 {
            let prev = &scene.timeline.entries[i - 1];
            if prev.time >= entry.time {
                return Err(ConfigError::BadTimeline);
            }
        }
        i += 1;
    }
    proof {
        assert forall|a: int, b: int|
            0 <= a < b < scene.timeline.entries@.len() implies scene.timeline.entries@[a].time
            < scene.timeline.entries@[b].time by {
            lemma_times_increase(scene.timeline.entries@, a, b);
        }
    }

    if nt == 0 {
        return Err(ConfigError::EmptyTimeline);
    }

    let mut i: usize = 0;
    while i < nt
        invariant
            nt == scene.timeline.entries@.len(),
            i <= nt,
            scene.palette_sizes_ok(),
            scene.palette_rules_ok(),
            scene.names_unique(),
            scene.timeline.wf(),
            scene.dims_ok(),
            nt > 0,
            forall|k: int|
                0 <= k < i ==> scene.has_palette((#[trigger] scene.timeline.entries@[k]).name@),
        decreases nt - i,
    {
        let entry = &scene.timeline.entries[i];
        if !scene_has_palette(scene, &entry.name) {
            return Err(ConfigError::MissingPalette);
        }
        i += 1;
    }

    Ok(())
}

} // verus!
