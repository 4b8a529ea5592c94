//! Per-tile transparency statistics of a 16x16 tile atlas, as used for
//! 2d-array textures: for every tile, the percentage of its texels whose
//! alpha channel is not fully transparent.

use vstd::prelude::*;

verus! {

/// Tiles per row and per column of an atlas.
pub const ATLAS_TILES_PER_ROW: usize = 16;

/// Tiles in a whole atlas.
pub const ATLAS_TILE_COUNT: usize = 256;

/// The widest or tallest a single tile may be; an atlas of such tiles still
/// stays within the device's texture limits.
pub const MAX_TILE_EXTENT: usize = 1024;

/// How many of the first `n` texels of the tile starting at byte `base` are
/// not fully transparent. Texels are 4 bytes, alpha last, rows dense.
pub open spec fn opaque_in_prefix(img: Seq<u8>, base: int, n: int) -> int
    decreases n,
{
    if n <= 0 {
        0
    } else {
        opaque_in_prefix(img, base, n - 1) + if img[base + (n - 1) * 4 + 3] > 0 {
            1int
        } else {
            0int
        }
    }
}

/// At most `n` of the first `n` texels are counted.
pub proof fn lemma_opaque_in_prefix_bound(img: Seq<u8>, base: int, n: int)
    requires
        0 <= n,
    ensures
        0 <= opaque_in_prefix(img, base, n) <= n,
    decreases n,
{
    if n > 0 {
        lemma_opaque_in_prefix_bound(img, base, n - 1);
    }
}

/// Per-tile visibility statistics of one 2d-array texture resource: how much
/// of each of the 256 tiles is not fully transparent.
#[derive(Debug, Clone, PartialEq, Eq)]
pub struct EditorResourceTexture2dArray {
    /// For each tile, the percentage (0..=100) of texels with nonzero alpha.
    pub tile_non_fully_transparent_percentage: Vec<u8>,
}

impl EditorResourceTexture2dArray {
    /// Scans a tile-major RGBA atlas of 16x16 tiles, each
    /// `single_width x single_height` texels, and records for every tile the
    /// percentage of its texels that are not fully transparent.
    pub fn new(img: &[u8], single_width: usize, single_height: usize) -> (r:
        EditorResourceTexture2dArray)
        requires
            1 <= single_width <= MAX_TILE_EXTENT,
            1 <= single_height <= MAX_TILE_EXTENT,
            img@.len() >= ATLAS_TILE_COUNT * (single_width * single_height * 4),
        ensures
            r.tile_non_fully_transparent_percentage@.len() == ATLAS_TILE_COUNT,
            forall|i: int|
                0 <= i < ATLAS_TILE_COUNT
                    ==> #[trigger] r.tile_non_fully_transparent_percentage@[i] as int
                    == opaque_in_prefix(
                    img@,
                    i * (single_width * single_height * 4),
                    single_width * single_height,
                ) * 100 / (single_width * single_height) as int,
    {
        proof {
            assert(1 <= single_width * single_height <= 0x100000) by (nonlinear_arith)
                requires
                    1 <= single_width <= MAX_TILE_EXTENT,
                    1 <= single_height <= MAX_TILE_EXTENT,
            ;
        }
        let texels: usize = single_width * single_height;
        let single_size: usize = texels * 4;
        let img_len: usize = img.len();
        let mut tile_non_fully_transparent_percentage: Vec<u8> = Vec::new();
        let mut i: usize = 0;
        while i < ATLAS_TILE_COUNT
            invariant
                1 <= single_width <= MAX_TILE_EXTENT,
                1 <= single_height <= MAX_TILE_EXTENT,
                texels == single_width * single_height,
                1 <= texels <= 0x100000,
                single_size == texels * 4,
                img@.len() >= ATLAS_TILE_COUNT * single_size,
                img@.len() == img_len,
                i <= ATLAS_TILE_COUNT,
                tile_non_fully_transparent_percentage@.len() == i,
                forall|j: int|
                    0 <= j < i ==> #[trigger] tile_non_fully_transparent_percentage@[j] as int
                        == opaque_in_prefix(img@, j * (single_size as int), texels as int) * 100 / (
                    texels as int),
            decreases ATLAS_TILE_COUNT - i,
        {
            proof {
                assert(i * single_size + single_size <= ATLAS_TILE_COUNT * single_size)
                    by (nonlinear_arith)
                    requires
                        i + 1 <= ATLAS_TILE_COUNT,
                        single_size >= 0,
                ;
            }
            let base: usize = i * single_size;
            proof {
                assert(base + single_size <= img@.len());
            }
            let mut t: usize = 0;
            let mut non_transparent_counter: usize = 0;
            while t < texels
                invariant
                    texels == single_width * single_height,
                    1 <= texels <= 0x100000,
                    single_size == texels * 4,
                    base + single_size <= img@.len(),
                    img@.len() == img_len,
                    base == i * single_size,
                    t <= texels,
                    non_transparent_counter == opaque_in_prefix(
                        img@,
                        base as int,
                        t as int,
                    ),
                    non_transparent_counter <= t,
                decreases texels - t,
            {
                proof {
                    assert(t * 4 + 3 < single_size) by (nonlinear_arith)
                        requires
                            t < texels,
                            single_size == texels * 4,
                    ;
                }
                let alpha = img[base + t * 4 + 3];
                if alpha > 0 {
                    non_transparent_counter += 1;
                }
                t += 1;
            }
            let pct: usize = (non_transparent_counter * 100) / texels;
            proof {
                lemma_opaque_in_prefix_bound(img@, base as int, texels as int);
                assert(non_transparent_counter * 100 <= texels * 100) by (nonlinear_arith)
                    requires
                        non_transparent_counter <= texels,
                ;
                assert(pct <= 100) by {
                    vstd::arithmetic::div_mod::lemma_div_is_ordered(
                        (non_transparent_counter * 100) as int,
                        (texels * 100) as int,
                        texels as int,
                    );
                    vstd::arithmetic::div_mod::lemma_div_multiples_vanish(
                        100,
                        texels as int,
                    );
                }
            }
            tile_non_fully_transparent_percentage.push(pct as u8);
            i += 1;
        }
        EditorResourceTexture2dArray { tile_non_fully_transparent_percentage }
    }
}

} // verus!
