//! The per-frame flow around the cycle engine: picking the palette active
//! right now, and mapping the static grid of palette indices through the
//! current 256-entry color table. The pixel indices never change; only the
//! table they are looked up in does.

use vstd::prelude::*;

use crate::model::{find_palette, ConfigError, Palette, Rgb, Scene};
use crate::timeline::{lemma_resolve_names_existing_palette, resolve, spec_resolve};

verus! {

/// The palette active at second `seconds` of the day, in a validated
/// scene: resolution never fails and the resolved name is always present,
/// so the only error is a timeline with no breakpoints at all.
pub fn active_palette<'a>(scene: &'a Scene, seconds: u32) -> (r: Result<&'a Palette, ConfigError>)
    requires
        scene.wf(),
    ensures
        match r {
            Ok(p) => !scene.timeline.is_empty() && exists|i: int|
                0 <= i < scene.palettes@.len() && (#[trigger] scene.palettes@[i]).name@
                    == spec_resolve(scene.timeline, seconds) && *p == scene.palettes@[i].palette,
            Err(e) => scene.timeline.is_empty() && e == ConfigError::EmptyTimeline,
        },
{
    match resolve(&scene.timeline, seconds) {
        Err(e) => Err(e),
        Ok(name) => {
            proof {
                lemma_resolve_names_existing_palette(*scene, seconds);
            }
            match find_palette(scene, &name) {
                Some(p) => Ok(p),
                None => {
                    // find_palette's contract and the resolver's law rule
                    // this branch out
                    proof {
                        assert(false);
                    }
                    Err(ConfigError::MissingPalette)
                },
            }
        },
    }
}

/// The displayed frame: pixel `i` shows the color table's entry at that
/// pixel's palette index.
pub fn compose_frame(pixel_indices: &Vec<u8>, table: &Vec<Rgb>) -> (out: Vec<Rgb>)
    requires
        table@.len() == 256,
    ensures
        out@.len() == pixel_indices@.len(),
        forall|i: int| 0 <= i < out@.len() ==> out@[i] == table@[pixel_indices@[i] as int],
{
    let mut out: Vec<Rgb> = Vec::new();
    let n = pixel_indices.len();
    let mut i: usize = 0;
    while i < n
        invariant
            table@.len() == 256,
            n == pixel_indices@.len(),
            i <= n,
            out@.len() == i,
            forall|j: int| 0 <= j < i ==> out@[j] == table@[pixel_indices@[j] as int],
        decreases n - i,
    {
        let idx = pixel_indices[i];
        out.push(table[idx as usize]);
        i += 1;
    }
    out
}

} // verus!
