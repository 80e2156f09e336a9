//! Texture sampling parameters.
use vstd::prelude::*;

verus! {

/// Filter code of linear sampling.
pub const LINEAR: i32 = 9729;

/// Wrap code of clamping to the edge.
pub const CLAMP_TO_EDGE: i32 = 33071;

/// Filter code of trilinear mipmapped sampling.
pub const LINEAR_MIPMAP_LINEAR: i32 = 9987;

/// Pixel format code of red, green, blue and alpha.
pub const RGBA: u32 = 6408;

/// Pixel format code of red, green and blue.
pub const RGB: u32 = 6407;

/// How a texture is filtered and wrapped.
#[derive(Copy, Clone, Debug, PartialEq, Eq, Structural)]
pub struct Sampler {
    pub mag_filter: i32,
    pub min_filter: i32,
    pub wrap_s: i32,
    pub wrap_t: i32,
}

impl Default for Sampler {
    /// Linear filtering, clamped at the edges.
    fn default() -> (r: Sampler)
        ensures
            r == (Sampler {
                mag_filter: LINEAR,
                min_filter: LINEAR,
                wrap_s: CLAMP_TO_EDGE,
                wrap_t: CLAMP_TO_EDGE,
            }),
    {
        Sampler {
            mag_filter: LINEAR,
            min_filter: LINEAR,
            wrap_s: CLAMP_TO_EDGE,
            wrap_t: CLAMP_TO_EDGE,
        }
    }
}

/// The texture sides that get mipmaps: powers of two from 2 to 4096.
pub open spec fn is_mipmap_size(num: u32) -> bool {
    num == 2 || num == 4 || num == 8 || num == 16 || num == 32 || num == 64 || num == 128 || num
        == 256 || num == 512 || num == 1024 || num == 2048 || num == 4096
}

/// Whether a texture side of `num` pixels gets mipmaps.
pub fn is_power_of_2(num: u32) -> (r: bool)
    ensures
        r == is_mipmap_size(num),
{
    num == 2 || num == 4 || num == 8 || num == 16 || num == 32 || num == 64 || num == 128 || num
        == 256 || num == 512 || num == 1024 || num == 2048 || num == 4096
}

/// How an image becomes a texture: whether it gets mipmaps, its minifying
/// filter, and its pixel format.
#[derive(Copy, Clone, Debug, PartialEq, Eq, Structural)]
pub struct TextureSetup {
    pub use_mipmap: bool,
    pub min_filter: i32,
    pub format: u32,
}

/// Images whose sides are both mipmappable sizes get mipmaps and trilinear
/// minification, others the sampler's filter; unit 0 (the diffuse colour)
/// keeps alpha, other units are opaque.
pub fn texture_setup(width: u32, height: u32, texture_unit: u32, sampler: &Sampler) -> (r:
    TextureSetup)
    ensures
        r.use_mipmap == (is_mipmap_size(width) && is_mipmap_size(height)),
        r.min_filter == if r.use_mipmap {
            LINEAR_MIPMAP_LINEAR
        } else {
            sampler.min_filter
        },
        r.format == if texture_unit == 0 {
            RGBA
        } else {
            RGB
        },
{
    let use_mipmap = is_power_of_2(width) && is_power_of_2(height);
    let min_filter = if use_mipmap {
        LINEAR_MIPMAP_LINEAR
    } else {
        sampler.min_filter
    };
    let format = if texture_unit == 0 {
        RGBA
    } else {
        RGB
    };
    TextureSetup { use_mipmap, min_filter, format }
}

/// How many of the first `k` slots are present.
pub open spec fn present_before(present: Seq<bool>, k: int) -> int
    decreases k,
{
    if k <= 0 {
        0
    } else {
        present_before(present, k - 1) + if present[k - 1] {
            1int
        } else {
            0
        }
    }
}

/// The texture units of a material's textures (diffuse, normal,
/// metallic-roughness, occlusion): the present ones take consecutive units
/// from 0, in that order.
pub fn texture_units(present: [bool; 4]) -> (r: [Option<i32>; 4])
    ensures
        forall|k: int|
            0 <= k < 4 ==> #[trigger] r@[k] == if present@[k] {
                Some(present_before(present@, k) as i32)
            } else {
                None
            },
{
    let mut units: [Option<i32>; 4] = [None, None, None, None];
    let mut next: i32 = 0;
    let mut k: usize = 0;
    while k < 4
        invariant
            k <= 4,
            next == present_before(present@, k as int),
            0 <= next <= k,
            forall|j: int|
                0 <= j < k ==> #[trigger] units@[j] == if present@[j] {
                    Some(present_before(present@, j) as i32)
                } else {
                    None
                },
            forall|j: int| k <= j < 4 ==> #[trigger] units@[j] == None::<i32>,
        decreases 4 - k,
    {
        if present[k] {
            units.set(k, Some(next));
            next = next + 1;
        }
        k = k + 1;
    }
    units
}

} // verus!
