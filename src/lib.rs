//! Integer core of a Monte Carlo path tracer: sub-pixel sampling plans,
//! tile partitioning and admission, image assembly, lattice noise tables
//! and texture lookups.

mod admission;
mod perlin;
mod raster;
mod rng;
mod sampling;
mod texture;
mod tiles;

pub use admission::{Admission, Admit};
pub use perlin::{is_permutation_of_range, lattice_slot, Perlin, POINT_COUNT};
pub use raster::{pixel_index, raster_height, raster_pixels, raster_wf, raster_width, rgb_bytes, Raster};
pub use rng::random_i32_ranged;
pub use sampling::{is_ceil_sqrt, stratum_offset, sub_pixel_count};
pub use tiles::{settings_ok, tile_rect_spec, RenderPlan, TileRect};
pub use texture::{bgr_texel, checker_even, is_even_cell, ImageTexture, SolidColor};
pub use raster::{disjoint, lemma_disjoint_tiles_commute, overlay, with_tile};
pub use tiles::lemma_tiles_partition_image;
