//! Temporal antialiasing types, as far as the meshlet renderer relates
//! to them: the plugin marker, the per-camera settings and the bundle
//! inserting them alongside a temporal jitter.

use vstd::prelude::*;

verus! {

/// Registers temporal antialiasing with an application.
#[derive(Clone, Copy, PartialEq, Eq, Structural, Debug)]
pub struct TemporalAntialiasPlugin;

/// Per-camera temporal antialiasing settings. Temporal antialiasing has
/// no tunables; its presence on a camera enables it.
#[derive(Clone, Copy, PartialEq, Eq, Structural, Debug)]
pub struct TemporalAntialiasSettings;

impl Default for TemporalAntialiasSettings {
    fn default() -> (s: TemporalAntialiasSettings)
        ensures
            s == TemporalAntialiasSettings,
    {
        TemporalAntialiasSettings
    }
}

/// The sub-pixel jitter applied to a camera's projection, as two
/// order-preserving unsigned words.
#[derive(Clone, Copy, PartialEq, Eq, Structural, Debug)]
pub struct TemporalJitter {
    pub offset_x: u32,
    pub offset_y: u32,
}

/// Everything a camera needs for temporal antialiasing: the settings and
/// a projection jitter.
#[derive(Clone, Copy, PartialEq, Eq, Structural, Debug)]
pub struct TemporalAntialiasBundle {
    pub settings: TemporalAntialiasSettings,
    pub jitter: TemporalJitter,
}

impl Default for TemporalAntialiasBundle {
    fn default() -> (b: TemporalAntialiasBundle)
        ensures
            b == (TemporalAntialiasBundle {
                settings: TemporalAntialiasSettings,
                jitter: TemporalJitter { offset_x: 0u32, offset_y: 0u32 },
            }),
    {
        TemporalAntialiasBundle {
            settings: TemporalAntialiasSettings,
            jitter: TemporalJitter { offset_x: 0, offset_y: 0 },
        }
    }
}

} // verus!
