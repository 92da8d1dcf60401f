//! Meshlet-based GPU-driven rendering, verified.
//!
//! The library models the CPU-side logic of a meshlet renderer: a
//! multi-level-of-detail cluster asset, a persistent append-only GPU buffer
//! manager, a per-frame scene aggregator, and the two-phase cull/raster
//! pass schedule.

use vstd::prelude::*;

pub mod asset;
pub mod batched_uniform_buffer;
pub mod bind_group_layout_entries;
pub mod blas;
pub mod extract;
pub mod from_mesh;
pub mod fsr2;
pub mod gpu_scene;
pub mod material_draw_prepare;
pub mod persistent_buffer;
pub mod persistent_buffer_impls;
pub mod pipelines;
pub mod solari;
pub mod taa;
pub mod view_resources;
pub mod visibility_buffer_node;
pub mod visibility_buffer_raster_node;

verus! {

/// Rounds `v` up to the next multiple of `a`.
pub fn round_up(v: u64, a: u64) -> (r: u64)
    requires
        a > 0,
        v + a - 1 <= u64::MAX,
    ensures
        r == (((v + a - 1) as int / a as int) * a as int),
        r % a == 0,
        v <= r < v + a,
{
    if v == 0 {
        proof {
            vstd::arithmetic::div_mod::lemma_basic_div((a - 1) as int, a as int);
        }
        0
    } else {
        let q = (v - 1 + a) / a;
        proof {
            let x = (v + a - 1) as int;
            let d = a as int;
            vstd::arithmetic::div_mod::lemma_fundamental_div_mod(x, d);
            vstd::arithmetic::div_mod::lemma_mod_bound(x, d);
            vstd::arithmetic::div_mod::lemma_mod_multiples_basic(x / d, d);
            assert(q == x / d);
            assert((x / d) * d == x - x % d);
            assert(q * a <= x);
        }
        q * a
    }
}

} // verus!
