//! Texture identities, sampling settings and raster images.

use vstd::prelude::*;
use vstd::arithmetic::div_mod::lemma_fundamental_div_mod_converse;
use crate::color::Color;

verus! {

/// The largest width or height an image may have: what a signed 32-bit size
/// can hold.
pub const MAX_DIMENSION: usize = 0x7fff_ffff;

/// Identity of a logical texture. Only ever compared and used as a key.
#[derive(Clone, Copy, Debug, PartialEq, Eq, Structural)]
pub enum TextureId {
    /// Allocated by the user-interface library.
    Managed(u64),
    /// Allocated by the host application.
    User(u64),
}

/// How the user-interface library asks for texels to be filtered.
#[derive(Clone, Copy, Debug, PartialEq, Eq, Structural)]
pub enum TextureFilter {
    Nearest,
    Linear,
}

/// Filtering wanted for a texture, when magnified and when minified.
#[derive(Clone, Copy, Debug, PartialEq, Eq, Structural)]
pub struct TextureOptions {
    pub magnification: TextureFilter,
    pub minification: TextureFilter,
}

/// The rasterizer's texel filter.
#[derive(Clone, Copy, Debug, PartialEq, Eq, Structural)]
pub enum FilterMode {
    Nearest,
    Linear,
}

/// The rasterizer's choice between mip-map levels.
#[derive(Clone, Copy, Debug, PartialEq, Eq, Structural)]
pub enum MipmapMode {
    Off,
    Nearest,
    Linear,
}

/// What the rasterizer does with coordinates outside an image.
#[derive(Clone, Copy, Debug, PartialEq, Eq, Structural)]
pub enum TileMode {
    /// Repeat the edge texel.
    Clamp,
}

/// The rasterizer's sampling settings for one shader: the texel filter
/// when the image is drawn larger than it is, the texel filter when it is
/// drawn smaller, and the choice between mip-map levels.
#[derive(Clone, Copy, Debug, PartialEq, Eq, Structural)]
pub struct SamplingOptions {
    pub magnification: FilterMode,
    pub minification: FilterMode,
    pub mipmap: MipmapMode,
}

/// The rasterizer filter that stands for a requested filter.
pub open spec fn filter_mode_of(filter: TextureFilter) -> FilterMode {
    match filter {
        TextureFilter::Nearest => FilterMode::Nearest,
        TextureFilter::Linear => FilterMode::Linear,
    }
}

/// The mip-map policy that mirrors a requested minification filter.
pub open spec fn mipmap_mode_of(filter: TextureFilter) -> MipmapMode {
    match filter {
        TextureFilter::Nearest => MipmapMode::Nearest,
        TextureFilter::Linear => MipmapMode::Linear,
    }
}

/// Sampling settings for requested options. Each of the two filters stands
/// for the requested filter of its own direction, whatever the other is and
/// whether or not mip-mapping is on. The mip-map policy mirrors the
/// requested minification filter, unless mip-mapping is switched off
/// altogether.
pub open spec fn sampling_of(options: TextureOptions, mipmaps_off: bool) -> SamplingOptions {
    SamplingOptions {
        magnification: filter_mode_of(options.magnification),
        minification: filter_mode_of(options.minification),
        mipmap: if mipmaps_off {
            MipmapMode::Off
        } else {
            mipmap_mode_of(options.minification)
        },
    }
}

/// The rasterizer filter for a requested filter.
pub fn filter_mode(filter: TextureFilter) -> (mode: FilterMode)
    ensures
        mode == filter_mode_of(filter),
{
    match filter {
        TextureFilter::Nearest => FilterMode::Nearest,
        TextureFilter::Linear => FilterMode::Linear,
    }
}

/// The mip-map policy for a requested minification filter.
pub fn mipmap_mode(filter: TextureFilter) -> (mode: MipmapMode)
    ensures
        mode == mipmap_mode_of(filter),
{
    match filter {
        TextureFilter::Nearest => MipmapMode::Nearest,
        TextureFilter::Linear => MipmapMode::Linear,
    }
}

/// The rasterizer's sampling settings for requested options.
pub fn sampling_options(options: TextureOptions, mipmaps_off: bool) -> (s: SamplingOptions)
    ensures
        s == sampling_of(options, mipmaps_off),
{
    SamplingOptions {
        magnification: filter_mode(options.magnification),
        minification: filter_mode(options.minification),
        mipmap: if mipmaps_off {
            MipmapMode::Off
        } else {
            mipmap_mode(options.minification)
        },
    }
}

/// The requested filters can be read back from the sampling settings, with
/// mip-mapping on or off: settings are equal only where both requested
/// filters are.
pub proof fn lemma_sampling_tells_filters(a: TextureOptions, b: TextureOptions, mipmaps_off: bool)
    ensures
        sampling_of(a, mipmaps_off) == sampling_of(b, mipmaps_off) <==> a == b,
        sampling_of(a, mipmaps_off).magnification == filter_mode_of(a.magnification),
        sampling_of(a, mipmaps_off).minification == filter_mode_of(a.minification),
{
}

/// What an image is: its size and its texels, row by row from the top.
pub struct ImageView {
    pub width: nat,
    pub height: nat,
    pub texels: Seq<Color>,
}

impl ImageView {
    /// Not empty, within the size limit, and holding one texel per position.
    pub open spec fn wf(self) -> bool {
        &&& 0 < self.width <= MAX_DIMENSION
        &&& 0 < self.height <= MAX_DIMENSION
        &&& self.texels.len() == self.width * self.height
    }

    /// The texel in column `x` of row `y`.
    pub open spec fn texel(self, x: int, y: int) -> Color {
        self.texels[y * self.width + x]
    }

    /// Column `x` of row `y` lies in the rectangle that an image of `width`
    /// by `height` covers when its top left corner is put at (`left`, `top`).
    pub open spec fn covers(left: nat, top: nat, width: nat, height: nat, x: int, y: int) -> bool {
        left <= x < left + width && top <= y < top + height
    }

    /// This image with `patch` laid over it, top left corner at
    /// (`left`, `top`). The size stays; what of the patch falls outside the
    /// image is dropped.
    pub open spec fn patched(self, patch: ImageView, left: nat, top: nat) -> ImageView {
        ImageView {
            width: self.width,
            height: self.height,
            texels: Seq::new(
                self.width * self.height,
                |i: int|
                    {
                        let x = i % (self.width as int);
                        let y = i / (self.width as int);
                        if Self::covers(left, top, patch.width, patch.height, x, y) {
                            patch.texel(x - left, y - top)
                        } else {
                            self.texels[i]
                        }
                    },
            ),
        }
    }

    /// The image as bytes: four per texel, in the order red, green, blue,
    /// alpha, so that a row takes four times the width.
    pub open spec fn rgba8(self) -> Seq<u8> {
        Seq::new(
            4 * self.texels.len(),
            |i: int|
                {
                    let c = self.texels[i / 4];
                    if i % 4 == 0 {
                        c.r
                    } else if i % 4 == 1 {
                        c.g
                    } else if i % 4 == 2 {
                        c.b
                    } else {
                        c.a
                    }
                },
        )
    }
}

/// Size and texels make an image: neither side is zero or over the limit,
/// and there is exactly one texel for each position.
pub open spec fn image_well_formed(width: nat, height: nat, texels: Seq<Color>) -> bool {
    (ImageView { width, height, texels }).wf()
}

/// A premultiplied RGBA8 image in memory.
#[derive(Debug, PartialEq, Eq)]
pub struct RasterImage {
    width: usize,
    height: usize,
    texels: Vec<Color>,
}

impl View for RasterImage {
    type V = ImageView;

    closed spec fn view(&self) -> ImageView {
        ImageView { width: self.width as nat, height: self.height as nat, texels: self.texels@ }
    }
}

impl Clone for RasterImage {
    fn clone(&self) -> (copy: RasterImage)
        ensures
            copy@ == self@,
    {
        proof {
            use_type_invariant(self);
        }
        let texels = self.texels.clone();
        assert(texels@ =~= self.texels@);
        RasterImage { width: self.width, height: self.height, texels }
    }
}

impl RasterImage {
    #[verifier::type_invariant]
    spec fn inv(self) -> bool {
        self@.wf()
    }

    /// Builds an image from its size and texels. `None` where they do not
    /// make an image.
    pub fn from_texels(width: usize, height: usize, texels: Vec<Color>) -> (image: Option<RasterImage>)
        ensures
            image is Some <==> image_well_formed(width as nat, height as nat, texels@),
            image matches Some(img) ==> img@ == (ImageView {
                width: width as nat,
                height: height as nat,
                texels: texels@,
            }),
    {
        if width == 0 || height == 0 || width > MAX_DIMENSION || height > MAX_DIMENSION {
            return None;
        }
        assert((width as nat) * (height as nat) == width * height) by (nonlinear_arith);
        assert(texels@.len() == texels.len());
        match width.checked_mul(height) {
            Some(count) => {
                if texels.len() == count {
                    Some(RasterImage { width, height, texels })
                } else {
                    None
                }
            },
            None => None,
        }
    }

    pub fn width(&self) -> (w: usize)
        ensures
            w == self@.width,
            self@.wf(),
    {
        proof {
            use_type_invariant(self);
        }
        self.width
    }

    pub fn height(&self) -> (h: usize)
        ensures
            h == self@.height,
            self@.wf(),
    {
        proof {
            use_type_invariant(self);
        }
        self.height
    }

    /// The texels, row by row from the top.
    pub fn texels(&self) -> (t: &Vec<Color>)
        ensures
            t@ == self@.texels,
            self@.wf(),
    {
        proof {
            use_type_invariant(self);
        }
        &self.texels
    }

    /// The texel in column `x` of row `y`, if the image has one there.
    pub fn texel(&self, x: usize, y: usize) -> (c: Option<Color>)
        ensures
            c is Some <==> x < self@.width && y < self@.height,
            c matches Some(t) ==> t == self@.texel(x as int, y as int),
    {
        proof {
            use_type_invariant(self);
        }
        if x < self.width && y < self.height {
            assert(0 <= y * self.width <= y * self.width + x < self.texels.len()) by (nonlinear_arith)
                requires
                    0 <= x < self.width,
                    0 <= y < self.height,
                    self.texels.len() == self.width * self.height,
            ;
            Some(self.texels[y * self.width + x])
        } else {
            None
        }
    }

    /// This image with `patch` laid over it at (`left`, `top`).
    pub fn patched(&self, patch: &RasterImage, left: usize, top: usize) -> (out: RasterImage)
        ensures
            out@ == self@.patched(patch@, left as nat, top as nat),
    {
        proof {
            use_type_invariant(self);
            use_type_invariant(patch);
        }
        let width = self.width;
        let height = self.height;
        let count = self.texels.len();
        let ghost goal = self@.patched(patch@, left as nat, top as nat);
        let mut texels: Vec<Color> = Vec::with_capacity(count);
        let mut x: usize = 0;
        let mut y: usize = 0;
        let mut i: usize = 0;
        while i < count
            invariant
                self@.wf(),
                patch@.wf(),
                width == self.width,
                height == self.height,
                count == self.texels.len(),
                count == width * height,
                goal == self@.patched(patch@, left as nat, top as nat),
                i <= count,
                x < width,
                i == y * width + x,
                texels@.len() == i,
                forall|k: int| 0 <= k < i ==> texels@[k] == goal.texels[k],
            decreases count - i,
        {
            proof {
                lemma_fundamental_div_mod_converse(i as int, width as int, y as int, x as int);
                assert(y < height) by (nonlinear_arith)
                    requires
                        y * width + x < width * height,
                        0 <= x,
                        0 < width,
                ;
            }
            let inside = x >= left && x - left < patch.width && y >= top && y - top < patch.height;
            let texel = if inside {
                let px = x - left;
                let py = y - top;
                assert(0 <= py * patch.width <= py * patch.width + px < patch.texels.len())
                    by (nonlinear_arith)
                    requires
                        0 <= px < patch.width,
                        0 <= py < patch.height,
                        patch.texels.len() == patch.width * patch.height,
                ;
                patch.texels[py * patch.width + px]
            } else {
                self.texels[i]
            };
            assert(texel == goal.texels[i as int]);
            texels.push(texel);
            i = i + 1;
            if x + 1 == width {
                x = 0;
                y = y + 1;
                assert(i == y * width + x) by (nonlinear_arith)
                    requires
                        i == (y - 1) * width + (width - 1) + 1,
                        x == 0,
                ;
            } else {
                x = x + 1;
            }
        }
        assert(texels@ =~= goal.texels);
        RasterImage { width, height, texels }
    }

    /// The image as premultiplied RGBA8 bytes, rows of four times the width.
    pub fn to_rgba8(&self) -> (bytes: Vec<u8>)
        ensures
            bytes@ == self@.rgba8(),
    {
        let count = self.texels.len();
        let mut bytes: Vec<u8> = Vec::new();
        let mut i: usize = 0;
        while i < count
            invariant
                count == self.texels.len(),
                i <= count,
                bytes@.len() == 4 * i,
                forall|k: int| 0 <= k < 4 * i ==> bytes@[k] == self@.rgba8()[k],
            decreases count - i,
        {
            let c = self.texels[i];
            bytes.push(c.r);
            bytes.push(c.g);
            bytes.push(c.b);
            bytes.push(c.a);
            i = i + 1;
        }
        assert(bytes@ =~= self@.rgba8());
        bytes
    }
}

/// Laying a patch over an image keeps the image's size; every texel under
/// the patch is the patch's texel for that place, every other texel is the
/// image's own.
pub proof fn lemma_patched_texels(base: ImageView, patch: ImageView, left: nat, top: nat, x: int, y: int)
    requires
        base.wf(),
        0 <= x < base.width,
        0 <= y < base.height,
    ensures
        base.patched(patch, left, top).width == base.width,
        base.patched(patch, left, top).height == base.height,
        base.patched(patch, left, top).wf(),
        ImageView::covers(left, top, patch.width, patch.height, x, y) ==> base.patched(
            patch,
            left,
            top,
        ).texel(x, y) == patch.texel(x - left, y - top),
        !ImageView::covers(left, top, patch.width, patch.height, x, y) ==> base.patched(
            patch,
            left,
            top,
        ).texel(x, y) == base.texel(x, y),
{
    let w = base.width as int;
    let i = y * w + x;
    lemma_fundamental_div_mod_converse(i, w, y, x);
    assert(0 <= i < base.width * base.height) by (nonlinear_arith)
        requires
            i == y * w + x,
            w == base.width,
            0 <= x < w,
            0 <= y < base.height,
    ;
}

} // verus!
