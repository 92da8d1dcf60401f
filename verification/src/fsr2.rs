//! Super-resolution upscaling types, as far as the meshlet renderer
//! relates to them: the plugin and the monitor-size bound its context is
//! created with.

use vstd::prelude::*;

verus! {

/// Registers super-resolution upscaling with an application.
#[derive(Clone, Copy, PartialEq, Eq, Structural, Debug)]
pub struct Fsr2Plugin {
    pub hdr: bool,
}

/// The componentwise maximum of a run of monitor sizes: the largest
/// resolution the upscaling context must support.
pub open spec fn max_size_spec(sizes: Seq<(u32, u32)>) -> (u32, u32)
    decreases sizes.len(),
{
    if sizes.len() == 0 {
        (0u32, 0u32)
    } else {
        let rest = max_size_spec(sizes.drop_last());
        (
            if sizes.last().0 > rest.0 {
                sizes.last().0
            } else {
                rest.0
            },
            if sizes.last().1 > rest.1 {
                sizes.last().1
            } else {
                rest.1
            },
        )
    }
}

/// The componentwise maximum over the available monitors' sizes.
pub fn max_monitor_size(sizes: &Vec<(u32, u32)>) -> (r: (u32, u32))
    ensures
        r == max_size_spec(sizes@),
{
    let mut max_resolution: (u32, u32) = (0, 0);
    let mut i: usize = 0;
    proof {
        assert(sizes@.take(0) =~= Seq::<(u32, u32)>::empty());
    }
    while i < sizes.len()
        invariant
            0 <= i <= sizes@.len(),
            max_resolution == max_size_spec(sizes@.take(i as int)),
        decreases sizes@.len() - i,
    {
        let size = sizes[i];
        let w = if size.0 > max_resolution.0 {
            size.0
        } else {
            max_resolution.0
        };
        let h = if size.1 > max_resolution.1 {
            size.1
        } else {
            max_resolution.1
        };
        max_resolution = (w, h);
        i = i + 1;
        proof {
            assert(sizes@.take(i as int).drop_last() =~= sizes@.take(i - 1));
            assert(sizes@.take(i as int).last() == sizes@[i - 1]);
        }
    }
    proof {
        assert(sizes@.take(sizes@.len() as int) =~= sizes@);
    }
    max_resolution
}

} // verus!
