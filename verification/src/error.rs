//! What can go wrong while a frame is turned into draw commands.

use vstd::prelude::*;
use crate::texture::TextureId;

verus! {

/// Misuse by the caller that ends a frame. None of these is recovered from:
/// the frame's remaining work is not done.
#[derive(Clone, Copy, Debug, PartialEq, Eq, Structural)]
pub enum PaintError {
    /// The size and texels given for this texture do not make an image.
    MalformedImage { id: TextureId },
    /// A patch was given for a texture that the cache does not hold.
    PatchWithoutTexture { id: TextureId },
    /// A mesh samples a texture that the cache does not hold.
    MissingTexture { id: TextureId },
    /// The indices of a mesh do not come in threes, or one of them names no
    /// vertex, or there are more vertices than a 32-bit index can name.
    MalformedMesh,
    /// One triangle of a mesh spans more vertices than 16-bit indices reach.
    TriangleTooWide,
}

} // verus!
