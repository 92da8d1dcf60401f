//! Per-view material pipeline preparation for the meshlet passes.
//!
//! Each view assembles a pipeline key from its features; for every
//! material present in the scene, a specialized pipeline and bind group
//! are prepared and recorded against the material's dense id, so the
//! material passes can draw once per material and mask pixels by the
//! material depth.

use vstd::prelude::*;

verus! {

/// View key bit: the view renders in high dynamic range.
pub const VIEW_KEY_HDR: u32 = 1;

/// View key bit: a normal prepass runs for the view.
pub const VIEW_KEY_NORMAL_PREPASS: u32 = 2;

/// View key bit: a depth prepass runs for the view.
pub const VIEW_KEY_DEPTH_PREPASS: u32 = 4;

/// View key bit: a motion vector prepass runs for the view.
pub const VIEW_KEY_MOTION_VECTOR_PREPASS: u32 = 8;

/// View key bit: a deferred prepass runs for the view.
pub const VIEW_KEY_DEFERRED_PREPASS: u32 = 16;

/// View key bit: the view's projection is jittered for temporal
/// antialiasing.
pub const VIEW_KEY_TEMPORAL_JITTER: u32 = 32;

/// View key bit: environment map lighting applies to the view.
pub const VIEW_KEY_ENVIRONMENT_MAP: u32 = 64;

/// View key bit: screen-space ambient occlusion applies to the view.
pub const VIEW_KEY_SCREEN_SPACE_AMBIENT_OCCLUSION: u32 = 128;

/// View key bit: the view projects perspectively.
pub const VIEW_KEY_PROJECTION_PERSPECTIVE: u32 = 256;

/// View key bit: the view projects orthographically.
pub const VIEW_KEY_PROJECTION_ORTHOGRAPHIC: u32 = 512;

/// View key field unit for the shadow filtering method.
pub const VIEW_KEY_SHADOW_FILTER_FIELD: u32 = 1024;

/// View key bit: tonemapping runs in the material shader.
pub const VIEW_KEY_TONEMAP_IN_SHADER: u32 = 4096;

/// View key bit: deband dithering runs in the material shader.
pub const VIEW_KEY_DEBAND_DITHER: u32 = 8192;

/// View key field unit for the tonemapping method.
pub const VIEW_KEY_TONEMAP_METHOD_FIELD: u32 = 16384;

/// View key field value: the mesh is a triangle list. Meshlet material
/// passes always render triangle lists at one sample per pixel, so the
/// topology and sample-count fields of the key are fixed.
pub const VIEW_KEY_TOPOLOGY_TRIANGLE_LIST: u32 = 131072;

/// How a view projects the scene.
#[derive(Clone, Copy, PartialEq, Eq, Structural, Debug)]
pub enum Projection {
    Perspective,
    Orthographic,
}

/// How shadow edges are filtered.
#[derive(Clone, Copy, PartialEq, Eq, Structural, Debug)]
pub enum ShadowFilteringMethod {
    Hardware2x2,
    Castano13,
    Jimenez14,
}

impl Default for ShadowFilteringMethod {
    /// The filtering used where a view does not choose one.
    fn default() -> (m: ShadowFilteringMethod)
        ensures
            m == ShadowFilteringMethod::Castano13,
    {
        ShadowFilteringMethod::Castano13
    }
}

/// The tonemapping curve applied in the shader for non-HDR views.
#[derive(Clone, Copy, PartialEq, Eq, Structural, Debug)]
pub enum Tonemapping {
    Disabled,
    Reinhard,
    ReinhardLuminance,
    AcesFitted,
    AgX,
    SomewhatBoringDisplayTransform,
    TonyMcMapface,
    BlenderFilmic,
}

/// Whether deband dithering is applied.
#[derive(Clone, Copy, PartialEq, Eq, Structural, Debug)]
pub enum DebandDither {
    Disabled,
    Enabled,
}

/// The tonemapping method's slot in its view key field.
pub open spec fn tonemap_method_index(tonemapping: Tonemapping) -> u32 {
    match tonemapping {
        Tonemapping::Disabled => 0u32,
        Tonemapping::Reinhard => 1u32,
        Tonemapping::ReinhardLuminance => 2u32,
        Tonemapping::AcesFitted => 3u32,
        Tonemapping::AgX => 4u32,
        Tonemapping::SomewhatBoringDisplayTransform => 5u32,
        Tonemapping::TonyMcMapface => 6u32,
        Tonemapping::BlenderFilmic => 7u32,
    }
}

/// The view key contribution of a tonemapping method.
pub fn tonemapping_pipeline_key(tonemapping: Tonemapping) -> (key: u32)
    ensures
        key == tonemap_method_index(tonemapping) * VIEW_KEY_TONEMAP_METHOD_FIELD,
{
    match tonemapping {
        Tonemapping::Disabled => 0,
        Tonemapping::Reinhard => VIEW_KEY_TONEMAP_METHOD_FIELD,
        Tonemapping::ReinhardLuminance => 2 * VIEW_KEY_TONEMAP_METHOD_FIELD,
        Tonemapping::AcesFitted => 3 * VIEW_KEY_TONEMAP_METHOD_FIELD,
        Tonemapping::AgX => 4 * VIEW_KEY_TONEMAP_METHOD_FIELD,
        Tonemapping::SomewhatBoringDisplayTransform => 5 * VIEW_KEY_TONEMAP_METHOD_FIELD,
        Tonemapping::TonyMcMapface => 6 * VIEW_KEY_TONEMAP_METHOD_FIELD,
        Tonemapping::BlenderFilmic => 7 * VIEW_KEY_TONEMAP_METHOD_FIELD,
    }
}

/// The shadow filtering method's slot in its view key field, defaulting
/// where a view does not choose one.
pub open spec fn shadow_filter_index(method: Option<ShadowFilteringMethod>) -> u32 {
    match method {
        Some(ShadowFilteringMethod::Hardware2x2) => 1u32,
        Some(ShadowFilteringMethod::Castano13) => 2u32,
        Some(ShadowFilteringMethod::Jimenez14) => 3u32,
        None => 2u32,
    }
}

/// The view key contribution of a projection choice.
pub open spec fn projection_bits(projection: Option<Projection>) -> u32 {
    match projection {
        Some(Projection::Perspective) => VIEW_KEY_PROJECTION_PERSPECTIVE,
        Some(Projection::Orthographic) => VIEW_KEY_PROJECTION_ORTHOGRAPHIC,
        None => 0u32,
    }
}

/// The view key contribution of the (defaulted) shadow filtering method.
pub fn shadow_filter_pipeline_key(method: Option<ShadowFilteringMethod>) -> (key: u32)
    ensures
        key == shadow_filter_index(method) * VIEW_KEY_SHADOW_FILTER_FIELD,
{
    let filter = match method {
        Some(m) => m,
        None => ShadowFilteringMethod::default(),
    };
    match filter {
        ShadowFilteringMethod::Hardware2x2 => VIEW_KEY_SHADOW_FILTER_FIELD,
        ShadowFilteringMethod::Castano13 => 2 * VIEW_KEY_SHADOW_FILTER_FIELD,
        ShadowFilteringMethod::Jimenez14 => 3 * VIEW_KEY_SHADOW_FILTER_FIELD,
    }
}

/// The view key contribution of tonemapping and dithering: both run in
/// the shader only for non-HDR views.
pub fn color_grading_pipeline_key(
    hdr: bool,
    tonemapping: Option<Tonemapping>,
    dither: Option<DebandDither>,
) -> (key: u32)
    ensures
        key == (if !hdr && tonemapping is Some {
            VIEW_KEY_TONEMAP_IN_SHADER + tonemap_method_index(tonemapping->Some_0)
                * VIEW_KEY_TONEMAP_METHOD_FIELD
        } else {
            0int
        }) + (if !hdr && dither == Some(DebandDither::Enabled) {
            VIEW_KEY_DEBAND_DITHER
        } else {
            0u32
        }),
{
    let mut key: u32 = 0;
    if !hdr {
        match tonemapping {
            Some(t) => {
                key = VIEW_KEY_TONEMAP_IN_SHADER + tonemapping_pipeline_key(t);
            },
            None => {},
        }
        if matches!(dither, Some(DebandDither::Enabled)) {
            key = key + VIEW_KEY_DEBAND_DITHER;
        }
    }
    key
}

/// Assembles a view's pipeline key from its features: one bit or field
/// per feature, with tonemapping and dithering applying only to non-HDR
/// views. The topology and sample-count fields are fixed — meshlet
/// material passes always draw triangle lists at one sample per pixel.
#[verifier::rlimit(60)]
#[verifier::spinoff_prover]
pub fn mesh_view_key(
    hdr: bool,
    normal_prepass: bool,
    depth_prepass: bool,
    motion_vector_prepass: bool,
    deferred_prepass: bool,
    temporal_jitter: bool,
    environment_map: bool,
    projection: Option<Projection>,
    shadow_filter_method: Option<ShadowFilteringMethod>,
    tonemapping: Option<Tonemapping>,
    dither: Option<DebandDither>,
    ssao: bool,
) -> (key: u32)
    ensures
        key == (if hdr {
            VIEW_KEY_HDR
        } else {
            0u32
        }) + (if normal_prepass {
            VIEW_KEY_NORMAL_PREPASS
        } else {
            0u32
        }) + (if depth_prepass {
            VIEW_KEY_DEPTH_PREPASS
        } else {
            0u32
        }) + (if motion_vector_prepass {
            VIEW_KEY_MOTION_VECTOR_PREPASS
        } else {
            0u32
        }) + (if deferred_prepass {
            VIEW_KEY_DEFERRED_PREPASS
        } else {
            0u32
        }) + (if temporal_jitter {
            VIEW_KEY_TEMPORAL_JITTER
        } else {
            0u32
        }) + (if environment_map {
            VIEW_KEY_ENVIRONMENT_MAP
        } else {
            0u32
        }) + projection_bits(projection) + shadow_filter_index(shadow_filter_method)
            * VIEW_KEY_SHADOW_FILTER_FIELD + (if !hdr && tonemapping is Some {
            VIEW_KEY_TONEMAP_IN_SHADER + tonemap_method_index(tonemapping->Some_0)
                * VIEW_KEY_TONEMAP_METHOD_FIELD
        } else {
            0int
        }) + (if !hdr && dither == Some(DebandDither::Enabled) {
            VIEW_KEY_DEBAND_DITHER
        } else {
            0u32
        }) + (if ssao {
            VIEW_KEY_SCREEN_SPACE_AMBIENT_OCCLUSION
        } else {
            0u32
        }) + VIEW_KEY_TOPOLOGY_TRIANGLE_LIST,
{
    let mut key: u32 = 0;
    if hdr {
        key = key + VIEW_KEY_HDR;
    }
    if normal_prepass {
        key = key + VIEW_KEY_NORMAL_PREPASS;
    }
    if depth_prepass {
        key = key + VIEW_KEY_DEPTH_PREPASS;
    }
    if motion_vector_prepass {
        key = key + VIEW_KEY_MOTION_VECTOR_PREPASS;
    }
    if deferred_prepass {
        key = key + VIEW_KEY_DEFERRED_PREPASS;
    }
    if temporal_jitter {
        key = key + VIEW_KEY_TEMPORAL_JITTER;
    }
    if environment_map {
        key = key + VIEW_KEY_ENVIRONMENT_MAP;
    }
    match projection {
        Some(Projection::Perspective) => {
            key = key + VIEW_KEY_PROJECTION_PERSPECTIVE;
        },
        Some(Projection::Orthographic) => {
            key = key + VIEW_KEY_PROJECTION_ORTHOGRAPHIC;
        },
        None => {},
    }
    key = key + shadow_filter_pipeline_key(shadow_filter_method);
    key = key + color_grading_pipeline_key(hdr, tonemapping, dither);
    if ssao {
        key = key + VIEW_KEY_SCREEN_SPACE_AMBIENT_OCCLUSION;
    }
    key + VIEW_KEY_TOPOLOGY_TRIANGLE_LIST
}

/// Whether a material takes part in the meshlet material passes: only
/// fully opaque materials that do not read the view transmission
/// texture are drawn.
pub fn material_eligible(alpha_mode_opaque: bool, reads_view_transmission_texture: bool) -> (r:
    bool)
    ensures
        r == (alpha_mode_opaque && !reads_view_transmission_texture),
{
    alpha_mode_opaque && !reads_view_transmission_texture
}

/// The materials prepared for a view's main opaque pass: each material's
/// dense id with its specialized pipeline and bind group identities.
pub struct MeshletViewMaterialsMainOpaquePass(pub Vec<(u32, u32, u64)>);

/// The materials prepared for a view's prepass, in the same shape.
pub struct MeshletViewMaterialsPrepass(pub Vec<(u32, u32, u64)>);

} // verus!
