//! Texture uploads: the extent of each mip level, the block padding of compressed
//! formats, where each mip level's bytes are in an image's data, and the sampler
//! filters chosen for an image.

use vstd::prelude::*;
use wgpu_types::TextureFormat;
use crate::gl;

verus! {

#[verifier::external_type_specification]
#[verifier::external_body]
pub struct ExTextureFormat(TextureFormat);

/// The block width and height in texels that `TextureFormat::block_dimensions` gives for
/// a format (a fixed table of the format alone).
pub uninterp spec fn format_block_dims(format: TextureFormat) -> (u32, u32);

/// The bytes per block that `TextureFormat::block_copy_size` gives for a format, with no
/// aspect and with `TextureAspect::All` (a fixed table of the format alone).
pub uninterp spec fn format_block_copy_sizes(format: TextureFormat) -> (Option<u32>, Option<u32>);

/// Calls `wgpu_types::TextureFormat::block_dimensions`: the width and height in texels
/// of one block of the format, `(1, 1)` for uncompressed formats. Its source returns
/// values from 1 to 12 for every format.
#[verifier::external_body]
fn texture_block_dimensions(format: &TextureFormat) -> (r: (u32, u32))
    ensures
        r == format_block_dims(*format),
        1 <= r.0 <= 12,
        1 <= r.1 <= 12,
{
    format.block_dimensions()
}

/// Calls `wgpu_types::TextureFormat::block_copy_size` with no aspect and with
/// `TextureAspect::All`: the bytes of one block, `None` for depth-stencil, multi-planar
/// and `Depth24Plus` formats. Its source gives sizes from 1 to 16, and the same answer for
/// both aspects (only the depth, stencil and plane aspects differ).
#[verifier::external_body]
fn texture_block_copy_sizes(format: &TextureFormat) -> (r: (Option<u32>, Option<u32>))
    ensures
        r == format_block_copy_sizes(*format),
        r.0 == r.1,
        r.0 matches Some(s) ==> 1 <= s <= 16,
{
    (format.block_copy_size(None), format.block_copy_size(Some(wgpu_types::TextureAspect::All)))
}

/// What the upload reads of a texture format.
#[derive(PartialEq, Eq, Structural, Clone, Copy, Debug)]
pub struct FormatBlocks {
    /// Texels per block, horizontally.
    pub block_width: u32,
    /// Texels per block, vertically.
    pub block_height: u32,
    /// Bytes per block with no aspect named.
    pub block_size: Option<u32>,
    /// Bytes per block of all aspects.
    pub block_size_all: Option<u32>,
}

impl FormatBlocks {
    pub open spec fn wf(&self) -> bool {
        &&& 1 <= self.block_width <= 12
        &&& 1 <= self.block_height <= 12
        &&& (self.block_size matches Some(s) ==> 1 <= s <= 16)
        &&& (self.block_size_all matches Some(s) ==> 1 <= s <= 16)
        &&& self.block_size == self.block_size_all
    }

    /// The block facts of a texture format.
    pub fn of(format: &TextureFormat) -> (r: FormatBlocks)
        ensures
            r.wf(),
            (r.block_width, r.block_height) == format_block_dims(*format),
            (r.block_size, r.block_size_all) == format_block_copy_sizes(*format),
    {
        let (block_width, block_height) = texture_block_dimensions(format);
        let (block_size, block_size_all) = texture_block_copy_sizes(format);
        FormatBlocks { block_width, block_height, block_size, block_size_all }
    }
}

pub open spec fn spec_max1(x: u32) -> u32 {
    if x > 1 {
        x
    } else {
        1
    }
}

/// The extent of mip level `level` of a texture of dimension `dim` (1, 2 or 3).
pub open spec fn spec_mip_level_size(extent: (u32, u32, u32), level: usize, dim: usize) -> (u32, u32, u32) {
    (
        spec_max1(extent.0 >> level),
        if dim == 1 {
            1
        } else {
            spec_max1(extent.1 >> level)
        },
        if dim == 1 {
            1
        } else if dim == 2 {
            extent.2
        } else if dim == 3 {
            spec_max1(extent.2 >> level)
        } else {
            1
        },
    )
}

/// Calculates the extent at a given mip level.
/// Does *not* account for memory size being a multiple of block size.
pub fn mip_level_size(extent: (u32, u32, u32), level: usize, dim: usize) -> (r: (u32, u32, u32))
    requires
        level < 32,
    ensures
        r == spec_mip_level_size(extent, level, dim),
{
    let w = extent.0 >> level;
    (
        if w > 1 {
            w
        } else {
            1
        },
        match dim {
            1 => 1,
            _ => {
                let h = extent.1 >> level;
                if h > 1 {
                    h
                } else {
                    1
                }
            },
        },
        match dim {
            1 => 1,
            2 => extent.2,
            3 => {
                let d = extent.2 >> level;
                if d > 1 {
                    d
                } else {
                    1
                }
            },
            _ => 1,
        },
    )
}

/// Every mip level is at least one texel in each dimension it has: its width is the
/// base width shifted right by the level, or 1 where that reaches 0 (likewise its height
/// unless the texture is one-dimensional); a 1D texture has height and depth 1, a 2D
/// texture keeps its layer count.
pub proof fn lemma_mip_level_at_least_one(extent: (u32, u32, u32), level: usize, dim: usize)
    requires
        level < 32,
    ensures
        spec_mip_level_size(extent, level, dim).0 >= 1,
        spec_mip_level_size(extent, level, dim).1 >= 1,
        (extent.0 >> level) >= 1 ==> spec_mip_level_size(extent, level, dim).0 == extent.0 >> level,
        (extent.0 >> level) == 0 ==> spec_mip_level_size(extent, level, dim).0 == 1,
        dim != 1 && (extent.1 >> level) >= 1 ==> spec_mip_level_size(extent, level, dim).1
            == extent.1 >> level,
        dim != 1 && (extent.1 >> level) == 0 ==> spec_mip_level_size(extent, level, dim).1 == 1,
        dim == 1 ==> spec_mip_level_size(extent, level, dim).1 == 1 && spec_mip_level_size(
            extent,
            level,
            dim,
        ).2 == 1,
        dim == 2 ==> spec_mip_level_size(extent, level, dim).2 == extent.2,
        dim == 3 ==> spec_mip_level_size(extent, level, dim).2 >= 1,
{
}

/// Each mip level is half as wide as the one before, rounded down, and never narrower
/// than one texel.
pub proof fn lemma_mip_width_halves(extent: (u32, u32, u32), level: usize, dim: usize)
    requires
        level < 31,
    ensures
        spec_mip_level_size(extent, (level + 1) as usize, dim).0 == spec_max1(
            (spec_mip_level_size(extent, level, dim).0 / 2) as u32,
        ),
{
    let x = extent.0;
    let l = level as u32;
    assert((x >> (l + 1)) == (x >> l) / 2) by (bit_vector)
        requires
            l < 31,
    ;
    assert(x >> level == x >> l);
    assert(x >> ((level + 1) as usize) == x >> (l + 1));
}

/// Rounds `x` up to a multiple of `b`.
pub open spec fn spec_round_up(x: u32, b: u32) -> int {
    ((x + b - 1) / (b as int)) * b
}

/// The physical size backing a texture extent: width and height padded to whole blocks.
pub open spec fn spec_physical_size(extent: (u32, u32, u32), block: (u32, u32)) -> (int, int, int) {
    (spec_round_up(extent.0, block.0), spec_round_up(extent.1, block.1), extent.2 as int)
}

/// Calculates the physical size backing a texture of the given extent, whose format has
/// blocks of `block` texels. This includes padding to the block width and height. It is
/// the texture extent at which mipmaps of compressed textures are uploaded.
pub fn physical_size(extent: (u32, u32, u32), block: (u32, u32)) -> (r: (u32, u32, u32))
    requires
        block.0 >= 1,
        block.1 >= 1,
        extent.0 + block.0 <= u32::MAX,
        extent.1 + block.1 <= u32::MAX,
    ensures
        r.0 == spec_physical_size(extent, block).0,
        r.1 == spec_physical_size(extent, block).1,
        r.2 == spec_physical_size(extent, block).2,
        r.0 >= extent.0,
        r.1 >= extent.1,
        r.0 % block.0 == 0,
        r.1 % block.1 == 0,
{
    let (block_width, block_height) = block;
    let qw = (extent.0 + block_width - 1) / block_width;
    let qh = (extent.1 + block_height - 1) / block_height;
    assert(qw * block_width <= extent.0 + block_width - 1) by (nonlinear_arith)
        requires
            qw == (extent.0 + block_width - 1) / (block_width as int),
            block_width >= 1,
    ;
    assert(qh * block_height <= extent.1 + block_height - 1) by (nonlinear_arith)
        requires
            qh == (extent.1 + block_height - 1) / (block_height as int),
            block_height >= 1,
    ;
    assert(qw * block_width >= extent.0 && (qw * block_width) % (block_width as int) == 0)
        by (nonlinear_arith)
        requires
            qw == (extent.0 + block_width - 1) / (block_width as int),
            block_width >= 1,
    ;
    assert(qh * block_height >= extent.1 && (qh * block_height) % (block_height as int) == 0)
        by (nonlinear_arith)
        requires
            qh == (extent.1 + block_height - 1) / (block_height as int),
            block_height >= 1,
    ;
    let width = qw * block_width;
    let height = qh * block_height;
    (width, height, extent.2)
}

/// The facts of an image that decide where its mip levels are in its data.
#[derive(Clone, Copy, Debug)]
pub struct ImageLayout {
    /// Width, height and depth or array layers.
    pub size: (u32, u32, u32),
    /// Texture dimension: 1, 2 or 3.
    pub dim: usize,
    pub mip_level_count: u32,
    pub array_layer_count: u32,
}

/// One mip level to upload from an image's data: its level, logical extent, and the
/// byte range of its first array layer.
#[derive(PartialEq, Eq, Structural, Clone, Copy, Debug)]
pub struct MipUpload {
    pub mip_level: u32,
    pub width: u32,
    pub height: u32,
    pub start: usize,
    pub end: usize,
}

/// Bytes of one array layer of mip level `mip`: whole blocks of the physical size.
pub open spec fn spec_mip_bytes(img: ImageLayout, blocks: FormatBlocks, mip: nat) -> int {
    let ms = spec_mip_level_size(img.size, mip as usize, img.dim);
    let ph = spec_physical_size(ms, (blocks.block_width, blocks.block_height));
    let bs = match blocks.block_size {
        Some(s) => s as int,
        None => 4,
    };
    ((ph.0 / blocks.block_width as int) * bs) * (ph.1 / blocks.block_height as int)
}

/// Bytes per row of one layer of mip level `mip`.
pub open spec fn spec_mip_row_bytes(img: ImageLayout, blocks: FormatBlocks, mip: nat) -> int {
    let ms = spec_mip_level_size(img.size, mip as usize, img.dim);
    let ph = spec_physical_size(ms, (blocks.block_width, blocks.block_height));
    let bs = match blocks.block_size {
        Some(s) => s as int,
        None => 4,
    };
    (ph.0 / blocks.block_width as int) * bs
}

/// Byte offset in the data where mip level `mip` starts: mip levels are stored one after
/// the other, each with all its array layers.
pub open spec fn spec_mip_offset(img: ImageLayout, blocks: FormatBlocks, mip: nat) -> int
    decreases mip,
{
    if mip == 0 {
        0
    } else {
        spec_mip_offset(img, blocks, (mip - 1) as nat) + img.array_layer_count * spec_mip_bytes(
            img,
            blocks,
            (mip - 1) as nat,
        )
    }
}

/// The uploads of the first `mips` mip levels (none when the image has no layer).
pub open spec fn spec_mip_uploads(img: ImageLayout, blocks: FormatBlocks, mips: nat) -> Seq<MipUpload>
    decreases mips,
{
    if mips == 0 {
        Seq::empty()
    } else {
        let prev = spec_mip_uploads(img, blocks, (mips - 1) as nat);
        let m = (mips - 1) as nat;
        let ms = spec_mip_level_size(img.size, m as usize, img.dim);
        if img.array_layer_count > 0 {
            prev.push(
                MipUpload {
                    mip_level: m as u32,
                    width: ms.0,
                    height: ms.1,
                    start: spec_mip_offset(img, blocks, m) as usize,
                    end: (spec_mip_offset(img, blocks, m) + spec_mip_bytes(img, blocks, m)) as usize,
                },
            )
        } else {
            prev
        }
    }
}

/// The inputs on which the upload arithmetic stays in range: block padding, row and layer
/// sizes fit 32 bits, and all mip levels end within the address space.
pub open spec fn spec_upload_fits(img: ImageLayout, blocks: FormatBlocks) -> bool {
    &&& img.mip_level_count <= 32
    &&& forall|m: nat|
        m < img.mip_level_count ==> {
            let ms = #[trigger] spec_mip_level_size(img.size, m as usize, img.dim);
            &&& ms.0 + blocks.block_width <= u32::MAX
            &&& ms.1 + blocks.block_height <= u32::MAX
            &&& spec_mip_row_bytes(img, blocks, m) <= u32::MAX
            &&& spec_mip_bytes(img, blocks, m) <= u32::MAX
        }
    &&& spec_mip_offset(img, blocks, img.mip_level_count as nat) <= usize::MAX
}

proof fn lemma_mip_offset_monotone(img: ImageLayout, blocks: FormatBlocks, a: nat, b: nat)
    requires
        a <= b,
        blocks.wf(),
    ensures
        spec_mip_offset(img, blocks, a) <= spec_mip_offset(img, blocks, b),
    decreases b,
{
    if a < b {
        lemma_mip_offset_monotone(img, blocks, a, (b - 1) as nat);
        let bytes = spec_mip_bytes(img, blocks, (b - 1) as nat);
        let ms = spec_mip_level_size(img.size, (b - 1) as nat as usize, img.dim);
        let ph = spec_physical_size(ms, (blocks.block_width, blocks.block_height));
        assert(ph.0 >= 0 && ph.1 >= 0) by (nonlinear_arith)
            requires
                ph.0 == ((ms.0 + blocks.block_width - 1) / (blocks.block_width as int)) * blocks.block_width,
                ph.1 == ((ms.1 + blocks.block_height - 1) / (blocks.block_height as int)) * blocks.block_height,
                blocks.block_width >= 1,
                blocks.block_height >= 1,
        ;
        let bs = match blocks.block_size {
            Some(s) => s as int,
            None => 4,
        };
        assert(bytes >= 0) by (nonlinear_arith)
            requires
                bytes == ((ph.0 / blocks.block_width as int) * bs) * (ph.1 / blocks.block_height as int),
                ph.0 >= 0,
                ph.1 >= 0,
                bs >= 0,
                blocks.block_width >= 1,
                blocks.block_height >= 1,
        ;
        assert(img.array_layer_count * bytes >= 0) by (nonlinear_arith)
            requires
                bytes >= 0,
        ;
    }
}

proof fn lemma_mip_bytes_nonneg(img: ImageLayout, blocks: FormatBlocks, m: nat)
    requires
        blocks.wf(),
    ensures
        spec_mip_bytes(img, blocks, m) >= 0,
        spec_mip_offset(img, blocks, m + 1) == spec_mip_offset(img, blocks, m) + img.array_layer_count
            * spec_mip_bytes(img, blocks, m),
{
    let ms = spec_mip_level_size(img.size, m as usize, img.dim);
    let ph = spec_physical_size(ms, (blocks.block_width, blocks.block_height));
    assert(ph.0 >= 0 && ph.1 >= 0) by (nonlinear_arith)
        requires
            ph.0 == ((ms.0 + blocks.block_width - 1) / (blocks.block_width as int)) * blocks.block_width,
            ph.1 == ((ms.1 + blocks.block_height - 1) / (blocks.block_height as int)) * blocks.block_height,
            blocks.block_width >= 1,
            blocks.block_height >= 1,
    ;
    let bs = match blocks.block_size {
        Some(s) => s as int,
        None => 4,
    };
    assert(spec_mip_bytes(img, blocks, m) >= 0) by (nonlinear_arith)
        requires
            spec_mip_bytes(img, blocks, m) == ((ph.0 / blocks.block_width as int) * bs) * (ph.1
                / blocks.block_height as int),
            ph.0 >= 0,
            ph.1 >= 0,
            bs >= 0,
            blocks.block_width >= 1,
            blocks.block_height >= 1,
    ;
}

proof fn lemma_mip_uploads_index(img: ImageLayout, blocks: FormatBlocks, n: nat, k: int)
    requires
        img.array_layer_count > 0,
        0 <= k < n,
    ensures
        spec_mip_uploads(img, blocks, n).len() == n,
        spec_mip_uploads(img, blocks, n)[k] == (MipUpload {
            mip_level: (k as nat) as u32,
            width: spec_mip_level_size(img.size, (k as nat) as usize, img.dim).0,
            height: spec_mip_level_size(img.size, (k as nat) as usize, img.dim).1,
            start: spec_mip_offset(img, blocks, k as nat) as usize,
            end: (spec_mip_offset(img, blocks, k as nat) + spec_mip_bytes(img, blocks, k as nat)) as usize,
        }),
    decreases n,
{
    let prev = spec_mip_uploads(img, blocks, (n - 1) as nat);
    let m = (n - 1) as nat;
    if n > 1 {
        lemma_mip_uploads_index(img, blocks, m, 0);
    }
    assert(prev.len() == m);
    if k < n - 1 {
        lemma_mip_uploads_index(img, blocks, m, k);
        assert(spec_mip_uploads(img, blocks, n)[k] == prev[k]);
    } else {
        assert(k as nat == m);
    }
}

/// The uploaded mip levels lie in the image's data one after the other, in mip order,
/// without overlapping, and all end where the data of the last mip level ends.
pub proof fn lemma_mip_uploads_in_order(img: ImageLayout, blocks: FormatBlocks, i: int, j: int)
    requires
        blocks.wf(),
        spec_upload_fits(img, blocks),
        img.array_layer_count > 0,
        0 <= i < j < img.mip_level_count,
    ensures
        ({
            let u = spec_mip_uploads(img, blocks, img.mip_level_count as nat);
            &&& u.len() == img.mip_level_count
            &&& u[i].start <= u[i].end <= u[j].start <= u[j].end
            &&& u[j].end <= spec_mip_offset(img, blocks, img.mip_level_count as nat)
        }),
{
    let n = img.mip_level_count as nat;
    lemma_mip_uploads_index(img, blocks, n, i);
    lemma_mip_uploads_index(img, blocks, n, j);
    lemma_mip_bytes_nonneg(img, blocks, i as nat);
    lemma_mip_bytes_nonneg(img, blocks, j as nat);
    lemma_mip_offset_monotone(img, blocks, (i + 1) as nat, j as nat);
    lemma_mip_offset_monotone(img, blocks, (j + 1) as nat, n);
    lemma_mip_offset_monotone(img, blocks, 0, i as nat);
    let bi = spec_mip_bytes(img, blocks, i as nat);
    let bj = spec_mip_bytes(img, blocks, j as nat);
    assert(bi <= img.array_layer_count * bi) by (nonlinear_arith)
        requires
            bi >= 0,
            img.array_layer_count >= 1,
    ;
    assert(bj <= img.array_layer_count * bj) by (nonlinear_arith)
        requires
            bj >= 0,
            img.array_layer_count >= 1,
    ;
}

/// Whether `plan_mip_uploads` can lay out this image: the block padding, row and layer
/// sizes of every mip level fit 32 bits, there are at most 32 mip levels, and all mip
/// levels end within the address space.
pub fn upload_fits(img: &ImageLayout, blocks: &FormatBlocks) -> (r: bool)
    requires
        blocks.wf(),
    ensures
        r == spec_upload_fits(*img, *blocks),
{
    if img.mip_level_count > 32 {
        return false;
    }
    let bs: u64 = match blocks.block_size {
        Some(s) => s as u64,
        None => 4,
    };
    let bw = blocks.block_width;
    let bh = blocks.block_height;
    let mut offset: u128 = 0;
    let mut m: u32 = 0;
    while m < img.mip_level_count
        invariant
            m <= img.mip_level_count <= 32,
            blocks.wf(),
            bw == blocks.block_width,
            bh == blocks.block_height,
            bs == (match blocks.block_size {
                Some(s) => s as int,
                None => 4,
            }),
            offset == spec_mip_offset(*img, *blocks, m as nat),
            offset <= m * 0x1_0000_0000_0000_0000,
            forall|k: nat|
                k < m ==> {
                    let ms = #[trigger] spec_mip_level_size(img.size, k as usize, img.dim);
                    &&& ms.0 + blocks.block_width <= u32::MAX
                    &&& ms.1 + blocks.block_height <= u32::MAX
                    &&& spec_mip_row_bytes(*img, *blocks, k) <= u32::MAX
                    &&& spec_mip_bytes(*img, *blocks, k) <= u32::MAX
                },
        decreases img.mip_level_count - m,
    {
        let ghost k = m as nat;
        let ms = mip_level_size(img.size, m as usize, img.dim);
        assert(spec_mip_level_size(img.size, k as usize, img.dim) == ms);
        if ms.0 as u64 + bw as u64 > u32::MAX as u64 || ms.1 as u64 + bh as u64 > u32::MAX as u64 {
            return false;
        }
        let ph = physical_size(ms, (bw, bh));
        let wb = ph.0 / bw;
        let hb = ph.1 / bh;
        assert(wb * bs <= 0xFFFF_FFFF * 16) by (nonlinear_arith)
            requires
                wb <= 0xFFFF_FFFF,
                bs <= 16,
        ;
        let row: u64 = wb as u64 * bs;
        assert(spec_mip_row_bytes(*img, *blocks, k) == row);
        if row > u32::MAX as u64 {
            return false;
        }
        assert(row * hb <= 0xFFFF_FFFF * 0xFFFF_FFFF) by (nonlinear_arith)
            requires
                row <= 0xFFFF_FFFF,
                hb <= 0xFFFF_FFFF,
        ;
        let bytes: u64 = row * hb as u64;
        assert(spec_mip_bytes(*img, *blocks, k) == bytes);
        if bytes > u32::MAX as u64 {
            return false;
        }
        assert(img.array_layer_count * bytes <= 0xFFFF_FFFF * 0xFFFF_FFFF) by (nonlinear_arith)
            requires
                img.array_layer_count <= 0xFFFF_FFFF,
                bytes <= 0xFFFF_FFFF,
        ;
        offset = offset + img.array_layer_count as u128 * bytes as u128;
        m = m + 1;
    }
    offset <= usize::MAX as u128
}

/// Where the mip levels of an image are in its data. Mip levels follow each other, each
/// with all its array layers; only the first array layer of each level is uploaded, so
/// one upload per level is returned (none when the image has no array layer). Returns
/// `None` when the format has no block size for all aspects together (depth-stencil,
/// multi-planar and `Depth24Plus` formats) and there is a layer to upload.
pub fn plan_mip_uploads(img: &ImageLayout, blocks: &FormatBlocks) -> (r: Option<Vec<MipUpload>>)
    requires
        blocks.wf(),
        spec_upload_fits(*img, *blocks),
    ensures
        (img.mip_level_count > 0 && img.array_layer_count > 0 && blocks.block_size_all is None)
            <==> r is None,
        r matches Some(v) ==> v@ == spec_mip_uploads(*img, *blocks, img.mip_level_count as nat),
{
    let block_size: u32 = match blocks.block_size {
        Some(s) => s,
        None => 4,
    };
    let block_width = blocks.block_width;
    let block_height = blocks.block_height;
    if img.mip_level_count > 0 && img.array_layer_count > 0 && blocks.block_size_all.is_none() {
        return None;
    }
    let mut uploads: Vec<MipUpload> = Vec::new();
    let mut binary_offset: usize = 0;
    let mut mip_level: u32 = 0;
    while mip_level < img.mip_level_count
        invariant
            mip_level <= img.mip_level_count,
            blocks.wf(),
            spec_upload_fits(*img, *blocks),
            block_width == blocks.block_width,
            block_height == blocks.block_height,
            block_size == (match blocks.block_size {
                Some(s) => s as int,
                None => 4,
            }),
            binary_offset == spec_mip_offset(*img, *blocks, mip_level as nat),
            uploads@ == spec_mip_uploads(*img, *blocks, mip_level as nat),
            !(img.mip_level_count > 0 && img.array_layer_count > 0 && blocks.block_size_all is None),
        decreases img.mip_level_count - mip_level,
    {
        let ghost m = mip_level as nat;
        let mip_size = mip_level_size(img.size, mip_level as usize, img.dim);
        assert(spec_mip_level_size(img.size, m as usize, img.dim) == mip_size);
        let mip_physical = physical_size(mip_size, (block_width, block_height));
        let width_blocks = mip_physical.0 / block_width;
        let height_blocks = mip_physical.1 / block_height;
        assert(spec_mip_row_bytes(*img, *blocks, m) == width_blocks * block_size);
        let bytes_per_row = width_blocks * block_size;
        assert(spec_mip_bytes(*img, *blocks, m) == bytes_per_row * height_blocks);
        let data_size = bytes_per_row * height_blocks;
        proof {
            lemma_mip_offset_monotone(*img, *blocks, m + 1, img.mip_level_count as nat);
        }
        let mut array_layer: u32 = 0;
        let mut layer_offset: usize = binary_offset;
        while array_layer < img.array_layer_count
            invariant
                array_layer <= img.array_layer_count,
                layer_offset == binary_offset + array_layer * data_size,
                binary_offset + img.array_layer_count * data_size <= usize::MAX,
                uploads@ == (if array_layer == 0 {
                    spec_mip_uploads(*img, *blocks, m)
                } else {
                    spec_mip_uploads(*img, *blocks, m + 1)
                }),
                binary_offset == spec_mip_offset(*img, *blocks, m),
                data_size == spec_mip_bytes(*img, *blocks, m),
                mip_size == spec_mip_level_size(img.size, m as usize, img.dim),
                m == mip_level,
                m < img.mip_level_count,
                !(img.array_layer_count > 0 && blocks.block_size_all is None),
            decreases img.array_layer_count - array_layer,
        {
            assert(layer_offset + data_size <= usize::MAX) by (nonlinear_arith)
                requires
                    layer_offset == binary_offset + array_layer * data_size,
                    binary_offset + img.array_layer_count * data_size <= usize::MAX,
                    array_layer < img.array_layer_count,
            ;
            let end_offset = layer_offset + data_size as usize;
            if array_layer == 0 {
                uploads.push(
                    MipUpload {
                        mip_level,
                        width: mip_size.0,
                        height: mip_size.1,
                        start: layer_offset,
                        end: end_offset,
                    },
                );
            }
            layer_offset = end_offset;
            assert(layer_offset == binary_offset + (array_layer + 1) * data_size) by (nonlinear_arith)
                requires
                    layer_offset == binary_offset + array_layer * data_size + data_size,
            ;
            array_layer = array_layer + 1;
        }
        binary_offset = layer_offset;
        mip_level = mip_level + 1;
    }
    Some(uploads)
}

/// How an image's texels are sampled.
#[derive(PartialEq, Eq, Structural, Clone, Copy, Debug)]
pub enum FilterMode {
    Nearest,
    Linear,
}

/// The minification filter: mipmapped when the image has more than one mip level.
pub fn min_filter(filter: FilterMode, mip_level_count: u32) -> (r: u32)
    ensures
        r == (match filter {
            FilterMode::Nearest => if mip_level_count > 1 {
                gl::NEAREST_MIPMAP_NEAREST
            } else {
                gl::NEAREST
            },
            FilterMode::Linear => if mip_level_count > 1 {
                gl::LINEAR_MIPMAP_LINEAR
            } else {
                gl::LINEAR
            },
        }),
{
    match filter {
        FilterMode::Nearest => {
            if mip_level_count > 1 {
                gl::NEAREST_MIPMAP_NEAREST
            } else {
                gl::NEAREST
            }
        },
        FilterMode::Linear => {
            if mip_level_count > 1 {
                gl::LINEAR_MIPMAP_LINEAR
            } else {
                gl::LINEAR
            }
        },
    }
}

/// The magnification filter.
pub fn mag_filter(filter: FilterMode) -> (r: u32)
    ensures
        r == (match filter {
            FilterMode::Nearest => gl::NEAREST,
            FilterMode::Linear => gl::LINEAR,
        }),
{
    match filter {
        FilterMode::Nearest => gl::NEAREST,
        FilterMode::Linear => gl::LINEAR,
    }
}

} // verus!
