//! The texture cache: for each live texture its image and how to sample it.

use vstd::prelude::*;
use egui::epaint::ahash::AHashMap;
use crate::color::Color;
use crate::error::PaintError;
use crate::texture::{
    image_well_formed, sampling_of, sampling_options, ImageView, RasterImage, SamplingOptions,
    TextureId, TextureOptions, TileMode,
};

verus! {

/// What a paint is: an image and the fixed way in which its shader samples
/// it.
pub struct PaintView {
    pub image: ImageView,
    pub sampling: SamplingOptions,
    pub tile: TileMode,
}

/// The paint that is built for an image: clamped at the edges, sampled as
/// the options ask.
pub open spec fn paint_of(image: ImageView, options: TextureOptions, mipmaps_off: bool) -> PaintView {
    PaintView { image, sampling: sampling_of(options, mipmaps_off), tile: TileMode::Clamp }
}

/// A cached paint. The sampling settings belong to the image they were
/// built for: a new image means a new entry.
#[derive(Debug, PartialEq, Eq)]
pub struct PaintEntry {
    image: RasterImage,
    sampling: SamplingOptions,
    tile: TileMode,
}

impl View for PaintEntry {
    type V = PaintView;

    closed spec fn view(&self) -> PaintView {
        PaintView { image: self.image@, sampling: self.sampling, tile: self.tile }
    }
}

impl PaintEntry {
    /// Builds the paint for an image.
    pub fn build(image: RasterImage, options: TextureOptions, mipmaps_off: bool) -> (entry: PaintEntry)
        ensures
            entry@ == paint_of(image@, options, mipmaps_off),
    {
        PaintEntry { image, sampling: sampling_options(options, mipmaps_off), tile: TileMode::Clamp }
    }

    pub fn image(&self) -> (image: &RasterImage)
        ensures
            image@ == self@.image,
            self@.image.wf(),
    {
        let _ = self.image.width();
        &self.image
    }

    pub fn sampling(&self) -> (sampling: SamplingOptions)
        ensures
            sampling == self@.sampling,
    {
        self.sampling
    }

    pub fn tile(&self) -> (tile: TileMode)
        ensures
            tile == self@.tile,
    {
        self.tile
    }
}

impl Clone for PaintEntry {
    fn clone(&self) -> (copy: PaintEntry)
        ensures
            copy@ == self@,
    {
        PaintEntry { image: self.image.clone(), sampling: self.sampling, tile: self.tile }
    }
}

/// New content for one texture: a whole image, or, with `pos`, a patch to
/// lay over the cached image with its top left corner there.
#[derive(Debug, PartialEq, Eq)]
pub struct ImageDelta {
    pub width: usize,
    pub height: usize,
    /// Premultiplied texels, row by row from the top.
    pub texels: Vec<Color>,
    pub options: TextureOptions,
    pub pos: Option<(usize, usize)>,
}

impl ImageDelta {
    /// The image that the delta carries, whether or not it is well formed.
    pub open spec fn image(self) -> ImageView {
        ImageView { width: self.width as nat, height: self.height as nat, texels: self.texels@ }
    }
}

/// `ahash::AHashMap`, the hash map that the cache is kept in. Nothing of
/// its inside is known here; what it holds is told by `map_entries`.
#[verifier::external_type_specification]
#[verifier::external_body]
#[verifier::reject_recursive_types(K)]
#[verifier::reject_recursive_types(V)]
#[verifier::reject_recursive_types(S)]
pub struct ExAHashMap<K, V, S>(AHashMap<K, V, S>);

/// `ahash::RandomState`, the hasher state that such a map has when nothing
/// else is asked for. It is only ever named, as part of the map's type.
#[verifier::external_type_specification]
#[verifier::external_body]
pub struct ExRandomState(egui::epaint::ahash::RandomState);

/// The key under which a texture is kept: 0 or 1 for the kind, then the
/// number. Equality and hashing of such a pair are std's own.
pub type TextureKey = (u8, u64);

/// The key of a texture.
pub open spec fn key_of(id: TextureId) -> TextureKey {
    match id {
        TextureId::Managed(n) => (0u8, n),
        TextureId::User(n) => (1u8, n),
    }
}

/// The key-value pairs that a hash map holds: what its methods are
/// documented to put in, take out and find.
pub uninterp spec fn map_entries(table: AHashMap<TextureKey, PaintEntry>) -> Map<TextureKey, PaintEntry>;

/// `AHashMap::new`: the map it makes holds nothing.
#[verifier::external_body]
fn map_new() -> (table: AHashMap<TextureKey, PaintEntry>)
    ensures
        map_entries(table) == (Map::<TextureKey, PaintEntry>::empty()),
{
    AHashMap::new()
}

/// `AHashMap::insert`: afterwards the key maps to the given value and every
/// other key is as before; the value that the key had, if any, is returned.
#[verifier::external_body]
fn map_insert(table: &mut AHashMap<TextureKey, PaintEntry>, key: TextureKey, value: PaintEntry) -> (previous: Option<PaintEntry>)
    ensures
        map_entries(*final(table)) == map_entries(*old(table)).insert(key, value),
        previous == if map_entries(*old(table)).contains_key(key) {
            Some(map_entries(*old(table))[key])
        } else {
            None
        },
{
    table.insert(key, value)
}

/// `AHashMap::remove`: afterwards the key is absent and every other key is
/// as before; the value that the key had, if any, is returned.
#[verifier::external_body]
fn map_remove(table: &mut AHashMap<TextureKey, PaintEntry>, key: TextureKey) -> (removed: Option<PaintEntry>)
    ensures
        map_entries(*final(table)) == map_entries(*old(table)).remove(key),
        removed == if map_entries(*old(table)).contains_key(key) {
            Some(map_entries(*old(table))[key])
        } else {
            None
        },
{
    table.remove(&key)
}

/// `AHashMap::get`: a reference to the value that the key has, if any.
#[verifier::external_body]
fn map_get(table: &AHashMap<TextureKey, PaintEntry>, key: TextureKey) -> (found: Option<&PaintEntry>)
    ensures
        found == if map_entries(*table).contains_key(key) {
            Some(&map_entries(*table)[key])
        } else {
            None
        },
{
    table.get(&key)
}

/// The cache after one delta for `id`, or why the delta cannot be applied.
///
/// A delta that carries no well-formed image is refused first. A whole image
/// replaces whatever the cache held for `id`. A patch needs a cached image
/// and is laid over it. Either way the paint is built anew.
pub open spec fn applied(
    cache: Map<TextureId, PaintView>,
    id: TextureId,
    delta: ImageDelta,
    mipmaps_off: bool,
) -> Result<Map<TextureId, PaintView>, PaintError> {
    if !image_well_formed(delta.width as nat, delta.height as nat, delta.texels@) {
        Err(PaintError::MalformedImage { id })
    } else {
        match delta.pos {
            None => Ok(cache.insert(id, paint_of(delta.image(), delta.options, mipmaps_off))),
            Some((left, top)) => if cache.contains_key(id) {
                Ok(
                    cache.insert(
                        id,
                        paint_of(
                            cache[id].image.patched(delta.image(), left as nat, top as nat),
                            delta.options,
                            mipmaps_off,
                        ),
                    ),
                )
            } else {
                Err(PaintError::PatchWithoutTexture { id })
            },
        }
    }
}

/// The paints of all live textures, by texture id.
pub struct TextureCache {
    entries: AHashMap<TextureKey, PaintEntry>,
}

impl View for TextureCache {
    type V = Map<TextureId, PaintView>;

    closed spec fn view(&self) -> Map<TextureId, PaintView> {
        Map::new(
            |id: TextureId| map_entries(self.entries).contains_key(key_of(id)),
            |id: TextureId| map_entries(self.entries)[key_of(id)]@,
        )
    }
}

/// Two textures share a key only if they are the same texture.
pub proof fn lemma_key_injective(a: TextureId, b: TextureId)
    ensures
        key_of(a) == key_of(b) <==> a == b,
{
}

impl TextureId {
    /// The key under which the cache keeps this texture.
    pub fn key(&self) -> (k: TextureKey)
        ensures
            k == key_of(*self),
    {
        match self {
            TextureId::Managed(n) => (0u8, *n),
            TextureId::User(n) => (1u8, *n),
        }
    }
}

impl TextureCache {
    /// An empty cache.
    pub fn new() -> (cache: TextureCache)
        ensures
            cache@ == Map::<TextureId, PaintView>::empty(),
    {
        let cache = TextureCache { entries: map_new() };
        assert(cache@ =~= Map::<TextureId, PaintView>::empty());
        cache
    }

    /// Whether the cache holds a paint for `id`.
    pub fn contains(&self, id: TextureId) -> (held: bool)
        ensures
            held == self@.contains_key(id),
    {
        map_get(&self.entries, id.key()).is_some()
    }

    /// The paint cached for `id`, if there is one.
    pub fn get(&self, id: TextureId) -> (found: Option<&PaintEntry>)
        ensures
            found is Some <==> self@.contains_key(id),
            found matches Some(entry) ==> entry@ == self@[id],
    {
        map_get(&self.entries, id.key())
    }

    /// Stores `entry` for `id`, in place of what was there.
    pub fn insert(&mut self, id: TextureId, entry: PaintEntry)
        ensures
            final(self)@ == old(self)@.insert(id, entry@),
    {
        let _ = map_insert(&mut self.entries, id.key(), entry);
        proof {
            assert forall|other: TextureId| key_of(other) == key_of(id) implies other == id by {
                lemma_key_injective(other, id);
            }
            assert(self@ =~= old(self)@.insert(id, entry@));
        }
    }

    /// Takes the paint for `id` out of the cache, if there is one.
    pub fn take(&mut self, id: TextureId) -> (taken: Option<PaintEntry>)
        ensures
            final(self)@ == old(self)@.remove(id),
            taken is Some <==> old(self)@.contains_key(id),
            taken matches Some(entry) ==> entry@ == old(self)@[id],
    {
        let taken = map_remove(&mut self.entries, id.key());
        proof {
            assert forall|other: TextureId| key_of(other) == key_of(id) implies other == id by {
                lemma_key_injective(other, id);
            }
            assert(self@ =~= old(self)@.remove(id));
        }
        taken
    }

    /// Drops the paint for `id`. Nothing happens if there is none.
    pub fn evict(&mut self, id: TextureId)
        ensures
            final(self)@ == old(self)@.remove(id),
            !old(self)@.contains_key(id) ==> final(self)@ == old(self)@,
    {
        let _ = self.take(id);
        proof {
            if !old(self)@.contains_key(id) {
                assert(old(self)@.remove(id) =~= old(self)@);
            }
        }
    }

    /// Replaces whatever is cached for `id` by a new image of the given size
    /// and texels.
    pub fn apply_full(
        &mut self,
        id: TextureId,
        width: usize,
        height: usize,
        texels: Vec<Color>,
        options: TextureOptions,
        mipmaps_off: bool,
    ) -> (result: Result<(), PaintError>)
        ensures
            result == if image_well_formed(width as nat, height as nat, texels@) {
                Ok::<(), PaintError>(())
            } else {
                Err(PaintError::MalformedImage { id })
            },
            result is Ok ==> final(self)@ == old(self)@.insert(
                id,
                paint_of(
                    ImageView { width: width as nat, height: height as nat, texels: texels@ },
                    options,
                    mipmaps_off,
                ),
            ),
            result is Err ==> final(self)@ == old(self)@,
    {
        match RasterImage::from_texels(width, height, texels) {
            Some(image) => {
                self.insert(id, PaintEntry::build(image, options, mipmaps_off));
                Ok(())
            },
            None => Err(PaintError::MalformedImage { id }),
        }
    }

    /// Lays a patch of the given size and texels over the image cached for
    /// `id`, top left corner at (`left`, `top`), and rebuilds the paint.
    pub fn apply_patch(
        &mut self,
        id: TextureId,
        width: usize,
        height: usize,
        texels: Vec<Color>,
        left: usize,
        top: usize,
        options: TextureOptions,
        mipmaps_off: bool,
    ) -> (result: Result<(), PaintError>)
        ensures
            result == if !image_well_formed(width as nat, height as nat, texels@) {
                Err::<(), PaintError>(PaintError::MalformedImage { id })
            } else if !old(self)@.contains_key(id) {
                Err(PaintError::PatchWithoutTexture { id })
            } else {
                Ok(())
            },
            result is Ok ==> final(self)@ == old(self)@.insert(
                id,
                paint_of(
                    old(self)@[id].image.patched(
                        ImageView { width: width as nat, height: height as nat, texels: texels@ },
                        left as nat,
                        top as nat,
                    ),
                    options,
                    mipmaps_off,
                ),
            ),
            result is Err ==> final(self)@ == old(self)@,
    {
        let patch = match RasterImage::from_texels(width, height, texels) {
            Some(patch) => patch,
            None => {
                return Err(PaintError::MalformedImage { id });
            },
        };
        let image = match self.get(id) {
            Some(entry) => entry.image().patched(&patch, left, top),
            None => {
                return Err(PaintError::PatchWithoutTexture { id });
            },
        };
        self.insert(id, PaintEntry::build(image, options, mipmaps_off));
        Ok(())
    }

    /// Applies one delta: a whole image or a patch. The texels are copied.
    pub fn apply(&mut self, id: TextureId, delta: &ImageDelta, mipmaps_off: bool) -> (result: Result<
        (),
        PaintError,
    >)
        ensures
            match applied(old(self)@, id, *delta, mipmaps_off) {
                Ok(cache) => result is Ok && final(self)@ == cache,
                Err(e) => result == Err::<(), PaintError>(e) && final(self)@ == old(self)@,
            },
    {
        let texels = delta.texels.clone();
        assert(texels@ =~= delta.texels@);
        match delta.pos {
            None => self.apply_full(id, delta.width, delta.height, texels, delta.options, mipmaps_off),
            Some((left, top)) => self.apply_patch(
                id,
                delta.width,
                delta.height,
                texels,
                left,
                top,
                delta.options,
                mipmaps_off,
            ),
        }
    }
}

} // verus!
