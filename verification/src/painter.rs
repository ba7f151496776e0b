//! The painter: one frame in, an ordered list of draw commands out.
//!
//! A frame has three steps, always in this order. The texture changes are
//! applied to the cache. Every primitive becomes one draw command, which
//! reads its paint from the cache as it stands then. Last, the textures
//! that the frame frees leave the cache. The rasterizer is not called from
//! here: the caller carries the commands out, in order, on its surface.

use vstd::prelude::*;
use crate::cache::{applied, ImageDelta, PaintEntry, PaintView, TextureCache};
use crate::error::PaintError;
use crate::mesh::{
    buffers, narrow, part_vertices, parts_fit, referenced, split_parts, splittable, triangle_list,
    vertices_named, Mesh, Mesh16, Rect, Vertex,
};
use crate::scalar::Scalar;
use crate::texture::TextureId;

verus! {

/// A drawing routine of the host, by the number under which the host keeps
/// it. Only this type can stand in a callback primitive, so a routine that
/// is not the painter's own kind cannot reach it.
#[derive(Clone, Copy, Debug, PartialEq, Eq, Structural)]
pub struct EguiSkiaPaintCallback {
    token: u64,
}

impl EguiSkiaPaintCallback {
    pub closed spec fn spec_token(self) -> u64 {
        self.token
    }

    /// Names the routine that the host keeps under `token`.
    pub fn new(token: u64) -> (callback: EguiSkiaPaintCallback)
        ensures
            callback.spec_token() == token,
    {
        EguiSkiaPaintCallback { token }
    }

    /// The number under which the host keeps the routine.
    #[verifier::when_used_as_spec(spec_token)]
    pub fn token(self) -> (token: u64)
        ensures
            token == self.spec_token(),
    {
        self.token
    }
}

/// A callback primitive: the routine and the rectangle it is to fill, in
/// device-independent units.
#[derive(Clone, Copy, Debug, PartialEq, Eq, Structural)]
pub struct PaintCallback {
    pub rect: Rect,
    pub callback: EguiSkiaPaintCallback,
}

/// What can be drawn.
#[derive(Debug, PartialEq, Eq)]
pub enum Primitive {
    Mesh(Mesh),
    Callback(PaintCallback),
}

/// A primitive and the rectangle, in device-independent units, outside of
/// which nothing of it is visible.
#[derive(Debug, PartialEq, Eq)]
pub struct ClippedPrimitive {
    pub clip_rect: Rect,
    pub primitive: Primitive,
}

/// The texture changes of one frame.
#[derive(Debug, PartialEq, Eq)]
pub struct TexturesDelta {
    /// New or changed textures, applied in order before anything is drawn.
    pub set: Vec<(TextureId, ImageDelta)>,
    /// Textures to drop once everything is drawn.
    pub free: Vec<TextureId>,
}

/// One step for the rasterizer. Each command stands alone: the canvas is
/// saved before it and restored after it.
#[derive(Debug, PartialEq, Eq)]
pub enum DrawCommand {
    /// Set the transform to nothing but a uniform scale by `scale`, clip to
    /// `clip_rect`, and draw each batch as a list of triangles, blending by
    /// modulation against `paint`.
    ///
    /// The command owns a copy of the paint, so it can be carried out after
    /// the frame's textures were freed.
    Mesh {
        scale: Scalar,
        clip_rect: Rect,
        texture_id: TextureId,
        paint: PaintEntry,
        batches: Vec<Vec<Vertex>>,
    },
    /// Let the routine record its drawing for `rect` with every coordinate
    /// multiplied by `scale`; then, under the transform as it stands, clip
    /// to `clip_rect`, move the origin to the top left corner of `rect` as
    /// given, and replay the recording. Scaling its drawing is the
    /// routine's own business.
    Callback { scale: Scalar, clip_rect: Rect, rect: Rect, callback: EguiSkiaPaintCallback },
}

/// What a draw command says.
pub enum CommandView {
    Mesh {
        scale: Scalar,
        clip_rect: Rect,
        texture_id: TextureId,
        paint: PaintView,
        batches: Seq<Seq<Vertex>>,
    },
    Callback { scale: Scalar, clip_rect: Rect, rect: Rect, callback: EguiSkiaPaintCallback },
}

impl View for DrawCommand {
    type V = CommandView;

    open spec fn view(&self) -> CommandView {
        match *self {
            DrawCommand::Mesh { scale, clip_rect, texture_id, paint, batches } => CommandView::Mesh {
                scale,
                clip_rect,
                texture_id,
                paint: paint@,
                batches: batches@.map_values(|b: Vec<Vertex>| b@),
            },
            DrawCommand::Callback { scale, clip_rect, rect, callback } => CommandView::Callback {
                scale,
                clip_rect,
                rect,
                callback,
            },
        }
    }
}

/// What a list of draw commands says.
pub open spec fn command_views(commands: Seq<DrawCommand>) -> Seq<CommandView> {
    commands.map_values(|c: DrawCommand| c@)
}

/// Batches laid end to end.
pub open spec fn joined(batches: Seq<Seq<Vertex>>) -> Seq<Vertex>
    decreases batches.len(),
{
    if batches.len() == 0 {
        Seq::empty()
    } else {
        joined(batches.drop_last()) + batches.last()
    }
}

/// The batches that a mesh is drawn in: one vertex buffer for each piece
/// that the split makes of it.
pub open spec fn batches_of(mesh: Mesh) -> Seq<Seq<Vertex>> {
    split_parts(mesh.vertices@.len() as u32, mesh.indices@).map_values(
        |part: (Seq<u32>, Seq<u16>)|
            triangle_list(part_vertices(mesh.vertices@, part.0), narrow(part.1)),
    )
}

/// The command for a mesh, or why there is none: a mesh with bad indices,
/// a triangle too wide to split, or a texture that the cache does not hold.
pub open spec fn mesh_command_of(
    cache: Map<TextureId, PaintView>,
    scale: Scalar,
    clip_rect: Rect,
    mesh: Mesh,
) -> Result<CommandView, PaintError> {
    if !mesh.well_indexed() {
        Err(PaintError::MalformedMesh)
    } else if !splittable(mesh.vertices@.len(), mesh.indices@) {
        Err(PaintError::TriangleTooWide)
    } else if !cache.contains_key(mesh.texture_id) {
        Err(PaintError::MissingTexture { id: mesh.texture_id })
    } else {
        Ok(
            CommandView::Mesh {
                scale,
                clip_rect,
                texture_id: mesh.texture_id,
                paint: cache[mesh.texture_id],
                batches: batches_of(mesh),
            },
        )
    }
}

/// The command for a primitive, or why there is none.
pub open spec fn command_of(
    cache: Map<TextureId, PaintView>,
    scale: Scalar,
    primitive: ClippedPrimitive,
) -> Result<CommandView, PaintError> {
    match primitive.primitive {
        Primitive::Mesh(mesh) => mesh_command_of(cache, scale, primitive.clip_rect, mesh),
        Primitive::Callback(data) => Ok(
            CommandView::Callback {
                scale,
                clip_rect: primitive.clip_rect,
                rect: data.rect,
                callback: data.callback,
            },
        ),
    }
}

/// The commands for a list of primitives: one for each, in order. The first
/// primitive without a command ends the list with its error.
pub open spec fn commands_of(
    cache: Map<TextureId, PaintView>,
    scale: Scalar,
    primitives: Seq<ClippedPrimitive>,
) -> Result<Seq<CommandView>, PaintError>
    decreases primitives.len(),
{
    if primitives.len() == 0 {
        Ok(Seq::empty())
    } else {
        match commands_of(cache, scale, primitives.drop_last()) {
            Err(e) => Err(e),
            Ok(before) => match command_of(cache, scale, primitives.last()) {
                Err(e) => Err(e),
                Ok(command) => Ok(before.push(command)),
            },
        }
    }
}

/// Where applying a list of deltas ends: the cache reached, and the error
/// that stopped it, if one did. Deltas are applied in order; the first that
/// cannot be applied stops the rest and leaves the cache as it found it.
pub open spec fn after_updates(
    cache: Map<TextureId, PaintView>,
    set: Seq<(TextureId, ImageDelta)>,
    mipmaps_off: bool,
) -> (Map<TextureId, PaintView>, Option<PaintError>)
    decreases set.len(),
{
    if set.len() == 0 {
        (cache, None)
    } else {
        match applied(cache, set[0].0, set[0].1, mipmaps_off) {
            Ok(next) => after_updates(next, set.drop_first(), mipmaps_off),
            Err(e) => (cache, Some(e)),
        }
    }
}

/// The cache without the textures that are freed.
pub open spec fn after_frees(cache: Map<TextureId, PaintView>, free: Seq<TextureId>) -> Map<
    TextureId,
    PaintView,
> {
    cache.remove_keys(free.to_set())
}

/// A whole frame: the cache it leaves and the commands it gives.
///
/// Deltas first; a delta that fails ends the frame there. Then the
/// commands, against the cache with all deltas applied; a primitive that
/// fails ends the frame with nothing freed. Only then the frees.
pub open spec fn frame_of(
    cache: Map<TextureId, PaintView>,
    scale: Scalar,
    primitives: Seq<ClippedPrimitive>,
    set: Seq<(TextureId, ImageDelta)>,
    free: Seq<TextureId>,
    mipmaps_off: bool,
) -> (Map<TextureId, PaintView>, Result<Seq<CommandView>, PaintError>) {
    let (updated, stopped) = after_updates(cache, set, mipmaps_off);
    match stopped {
        Some(e) => (updated, Err(e)),
        None => match commands_of(updated, scale, primitives) {
            Err(e) => (updated, Err(e)),
            Ok(commands) => (after_frees(updated, free), Ok(commands)),
        },
    }
}

/// The batches draw the mesh whole, and in as many draws as it takes.
///
/// Laid end to end, the batches are the vertex buffer of the unsplit mesh.
/// Each batch is the vertex buffer of one piece of the split, and each piece
/// has at most 65535 vertices, with indices that stay within it. A mesh of
/// at most 65535 vertices is drawn in one batch. A mesh whose indices name
/// more than 65535 different vertices is drawn in more than one.
pub open spec fn drawn_whole(mesh: Mesh, batches: Seq<Seq<Vertex>>) -> bool {
    let parts = split_parts(mesh.vertices@.len() as u32, mesh.indices@);
    &&& batches == batches_of(mesh)
    &&& parts_fit(parts, mesh.vertices@.len())
    &&& referenced(parts) == mesh.indices@
    &&& joined(batches) == mesh.buffer()
    &&& mesh.vertices@.len() <= 0xffff ==> batches == seq![mesh.buffer()]
    &&& vertices_named(mesh.indices@) > 0xffff ==> batches.len() > 1
}

/// Every mesh among the primitives is drawn whole by the batches of its
/// command, and every callback has a callback command.
pub open spec fn meshes_drawn_whole(primitives: Seq<ClippedPrimitive>, commands: Seq<CommandView>) -> bool {
    &&& commands.len() == primitives.len()
    &&& forall|i: int|
        0 <= i < primitives.len() ==> match (#[trigger] primitives[i]).primitive {
            Primitive::Mesh(mesh) => commands[i] is Mesh && drawn_whole(mesh, commands[i]->Mesh_batches),
            Primitive::Callback(_) => commands[i] is Callback,
        }
}

/// Turns the frames of a user interface into draw commands, and keeps the
/// paints of the live textures between frames.
pub struct Painter {
    paints: TextureCache,
    mipmaps_off: bool,
}

impl View for Painter {
    type V = Map<TextureId, PaintView>;

    /// The paints of the live textures.
    closed spec fn view(&self) -> Map<TextureId, PaintView> {
        self.paints@
    }
}

impl Painter {
    /// Whether paints are built without mip-mapping whatever minification
    /// filter is asked for.
    pub closed spec fn mipmaps_off(&self) -> bool {
        self.mipmaps_off
    }

    /// A painter with no textures, whose paints mip-map as the minification
    /// filter asks.
    pub fn new() -> (painter: Painter)
        ensures
            painter@ == Map::<TextureId, PaintView>::empty(),
            !painter.mipmaps_off(),
    {
        Painter { paints: TextureCache::new(), mipmaps_off: false }
    }

    /// A painter with no textures, whose paints never mip-map: for
    /// rasterizers that cannot.
    pub fn without_mipmaps() -> (painter: Painter)
        ensures
            painter@ == Map::<TextureId, PaintView>::empty(),
            painter.mipmaps_off(),
    {
        Painter { paints: TextureCache::new(), mipmaps_off: true }
    }

    /// The paint of a live texture.
    pub fn paint(&self, id: TextureId) -> (found: Option<&PaintEntry>)
        ensures
            found is Some <==> self@.contains_key(id),
            found matches Some(entry) ==> entry@ == self@[id],
    {
        self.paints.get(id)
    }

    /// Applies the texture changes of a frame, in order, up to the first
    /// that cannot be applied.
    pub fn update_textures(&mut self, set: &Vec<(TextureId, ImageDelta)>) -> (result: Result<(), PaintError>)
        ensures
            final(self).mipmaps_off() == old(self).mipmaps_off(),
            final(self)@ == after_updates(old(self)@, set@, old(self).mipmaps_off()).0,
            result == match after_updates(old(self)@, set@, old(self).mipmaps_off()).1 {
                None => Ok::<(), PaintError>(()),
                Some(e) => Err(e),
            },
    {
        let mut i: usize = 0;
        assert(set@.skip(0) =~= set@);
        while i < set.len()
            invariant
                i <= set.len(),
                self.mipmaps_off() == old(self).mipmaps_off(),
                after_updates(old(self)@, set@, old(self).mipmaps_off()) == after_updates(
                    self@,
                    set@.skip(i as int),
                    self.mipmaps_off(),
                ),
            decreases set.len() - i,
        {
            let ghost rest = set@.skip(i as int);
            assert(rest[0] == set@[i as int]);
            assert(rest.drop_first() =~= set@.skip(i + 1));
            match self.paints.apply(set[i].0, &set[i].1, self.mipmaps_off) {
                Ok(()) => {},
                Err(e) => {
                    return Err(e);
                },
            }
            i = i + 1;
        }
        assert(set@.skip(i as int).len() == 0);
        Ok(())
    }

    /// Drops the textures that a frame frees. Freeing a texture that is not
    /// live changes nothing.
    pub fn free_textures(&mut self, free: &Vec<TextureId>)
        ensures
            final(self).mipmaps_off() == old(self).mipmaps_off(),
            final(self)@ == after_frees(old(self)@, free@),
    {
        let mut i: usize = 0;
        assert(free@.take(0).to_set() =~= Set::<TextureId>::empty());
        assert(after_frees(self@, free@.take(0)) =~= self@);
        while i < free.len()
            invariant
                i <= free.len(),
                self.mipmaps_off() == old(self).mipmaps_off(),
                self@ == after_frees(old(self)@, free@.take(i as int)),
            decreases free.len() - i,
        {
            self.paints.evict(free[i]);
            proof {
                let before = free@.take(i as int);
                let now = free@.take(i + 1);
                assert(now =~= before.push(free@[i as int]));
                assert forall|id: TextureId| now.to_set().contains(id) <==> (before.to_set().contains(id)
                    || id == free@[i as int]) by {
                    if before.contains(id) {
                        let k = choose|k: int| 0 <= k < before.len() && before[k] == id;
                        assert(now[k] == id);
                    }
                    if id == free@[i as int] {
                        assert(now[i as int] == id);
                    }
                }
                assert(self@ =~= after_frees(old(self)@, now));
            }
            i = i + 1;
        }
        assert(free@.take(i as int) =~= free@);
    }

    /// The draw command for one mesh: its vertex buffers, piece by piece,
    /// and the paint of its texture.
    pub fn mesh_command(&self, scale: Scalar, clip_rect: Rect, mesh: &Mesh) -> (result: Result<
        DrawCommand,
        PaintError,
    >)
        ensures
            match mesh_command_of(self@, scale, clip_rect, *mesh) {
                Ok(command) => result matches Ok(made) && made@ == command,
                Err(e) => result matches Err(error) && error == e,
            },
            result matches Ok(made) ==> made@ is Mesh && drawn_whole(*mesh, made@->Mesh_batches),
    {
        let pieces = match mesh.split_to_u16() {
            Ok(pieces) => pieces,
            Err(e) => {
                return Err(e);
            },
        };
        let paint = match self.paints.get(mesh.texture_id) {
            Some(entry) => entry.clone(),
            None => {
                return Err(PaintError::MissingTexture { id: mesh.texture_id });
            },
        };
        let mut batches: Vec<Vec<Vertex>> = Vec::new();
        let mut p: usize = 0;
        while p < pieces.len()
            invariant
                p <= pieces.len(),
                batches@.len() == p,
                forall|q: int| 0 <= q < pieces@.len() ==> (#[trigger] pieces@[q]).wf(),
                forall|q: int| 0 <= q < p ==> (#[trigger] batches@[q])@ == pieces@[q].buffer(),
            decreases pieces.len() - p,
        {
            assert(pieces@[p as int].wf());
            match pieces[p].vertex_buffer() {
                Ok(buffer) => {
                    batches.push(buffer);
                },
                Err(e) => {
                    assert(false);
                    return Err(e);
                },
            }
            p = p + 1;
        }
        let command = DrawCommand::Mesh {
            scale,
            clip_rect,
            texture_id: mesh.texture_id,
            paint,
            batches,
        };
        proof {
            let views = batches@.map_values(|b: Vec<Vertex>| b@);
            assert(views =~= batches_of(*mesh)) by {
                assert forall|q: int| 0 <= q < views.len() implies views[q] == batches_of(*mesh)[q] by {
                    assert(batches@[q]@ == pieces@[q].buffer());
                }
            }
            lemma_joined_buffers(pieces@, views);
            assert(views.len() == pieces@.len());
            if mesh.vertices@.len() <= 0xffff {
                assert(views[0] == pieces@[0].buffer());
                assert(views =~= seq![mesh.buffer()]);
            }
        }
        Ok(command)
    }

    /// The draw commands for the primitives of a frame, one for each, in
    /// order, against the cache as it stands.
    pub fn draw_commands(&self, scale: Scalar, primitives: &Vec<ClippedPrimitive>) -> (result: Result<
        Vec<DrawCommand>,
        PaintError,
    >)
        ensures
            match commands_of(self@, scale, primitives@) {
                Ok(commands) => result matches Ok(made) && command_views(made@) == commands,
                Err(e) => result matches Err(error) && error == e,
            },
            result matches Ok(made) ==> meshes_drawn_whole(primitives@, command_views(made@)),
    {
        let mut commands: Vec<DrawCommand> = Vec::new();
        let mut i: usize = 0;
        assert(primitives@.take(0) =~= Seq::<ClippedPrimitive>::empty());
        assert(command_views(commands@) =~= Seq::<CommandView>::empty());
        while i < primitives.len()
            invariant
                i <= primitives.len(),
                commands_of(self@, scale, primitives@.take(i as int)) == Ok::<Seq<CommandView>, PaintError>(
                    command_views(commands@),
                ),
                meshes_drawn_whole(primitives@.take(i as int), command_views(commands@)),
            decreases primitives.len() - i,
        {
            let primitive = &primitives[i];
            let ghost before = primitives@.take(i as int);
            let ghost now = primitives@.take(i + 1);
            let ghost views = command_views(commands@);
            proof {
                assert(now.drop_last() =~= before);
                assert(now.last() == *primitive);
            }
            let command = match &primitive.primitive {
                Primitive::Mesh(mesh) => match self.mesh_command(scale, primitive.clip_rect, mesh) {
                    Ok(command) => command,
                    Err(e) => {
                        proof {
                            lemma_commands_stop(self@, scale, primitives@, i as int + 1);
                        }
                        return Err(e);
                    },
                },
                Primitive::Callback(data) => DrawCommand::Callback {
                    scale,
                    clip_rect: primitive.clip_rect,
                    rect: data.rect,
                    callback: data.callback,
                },
            };
            assert(command_of(self@, scale, *primitive) == Ok::<CommandView, PaintError>(command@));
            commands.push(command);
            proof {
                assert(command_views(commands@) =~= views.push(command@));
                assert forall|k: int| 0 <= k < now.len() implies match (#[trigger] now[k]).primitive {
                    Primitive::Mesh(mesh) => command_views(commands@)[k] is Mesh && drawn_whole(
                        mesh,
                        command_views(commands@)[k]->Mesh_batches,
                    ),
                    Primitive::Callback(_) => command_views(commands@)[k] is Callback,
                } by {
                    if k < i {
                        assert(before[k] == now[k]);
                        assert(views[k] == command_views(commands@)[k]);
                    }
                }
            }
            i = i + 1;
        }
        assert(primitives@.take(i as int) =~= primitives@);
        Ok(commands)
    }

    /// One frame: applies the texture changes, gives the draw commands for
    /// the primitives, then drops the freed textures. `dpi` is the number of
    /// device pixels to one unit of the primitives' coordinates.
    pub fn paint_and_update_textures(
        &mut self,
        dpi: Scalar,
        primitives: Vec<ClippedPrimitive>,
        textures_delta: TexturesDelta,
    ) -> (result: Result<Vec<DrawCommand>, PaintError>)
        ensures
            final(self).mipmaps_off() == old(self).mipmaps_off(),
            final(self)@ == frame_of(
                old(self)@,
                dpi,
                primitives@,
                textures_delta.set@,
                textures_delta.free@,
                old(self).mipmaps_off(),
            ).0,
            match frame_of(
                old(self)@,
                dpi,
                primitives@,
                textures_delta.set@,
                textures_delta.free@,
                old(self).mipmaps_off(),
            ).1 {
                Ok(commands) => result matches Ok(made) && command_views(made@) == commands,
                Err(e) => result matches Err(error) && error == e,
            },
            result matches Ok(made) ==> meshes_drawn_whole(primitives@, command_views(made@)),
    {
        match self.update_textures(&textures_delta.set) {
            Ok(()) => {},
            Err(e) => {
                return Err(e);
            },
        }
        let commands = match self.draw_commands(dpi, &primitives) {
            Ok(commands) => commands,
            Err(e) => {
                return Err(e);
            },
        };
        self.free_textures(&textures_delta.free);
        Ok(commands)
    }
}

/// Vertex buffers of pieces, laid end to end, are the buffers of the
/// pieces.
pub proof fn lemma_joined_buffers(pieces: Seq<Mesh16>, batches: Seq<Seq<Vertex>>)
    requires
        batches.len() == pieces.len(),
        forall|q: int| 0 <= q < pieces.len() ==> #[trigger] batches[q] == pieces[q].buffer(),
    ensures
        joined(batches) == buffers(pieces),
    decreases pieces.len(),
{
    if pieces.len() > 0 {
        assert forall|q: int| 0 <= q < pieces.drop_last().len() implies #[trigger] batches.drop_last()[q]
            == pieces.drop_last()[q].buffer() by {
            assert(batches.drop_last()[q] == batches[q]);
            assert(pieces.drop_last()[q] == pieces[q]);
        }
        lemma_joined_buffers(pieces.drop_last(), batches.drop_last());
        assert(batches.last() == batches[batches.len() - 1]);
    }
}

/// Once a primitive has no command, no longer list of primitives has
/// commands: the error of the first `n` primitives is the error of all.
pub proof fn lemma_commands_stop(
    cache: Map<TextureId, PaintView>,
    scale: Scalar,
    primitives: Seq<ClippedPrimitive>,
    n: int,
)
    requires
        0 <= n <= primitives.len(),
        commands_of(cache, scale, primitives.take(n)) is Err,
    ensures
        commands_of(cache, scale, primitives) == commands_of(cache, scale, primitives.take(n)),
    decreases primitives.len(),
{
    if n == primitives.len() {
        assert(primitives.take(n) =~= primitives);
    } else {
        assert(primitives.drop_last().take(n) =~= primitives.take(n));
        lemma_commands_stop(cache, scale, primitives.drop_last(), n);
    }
}

/// The textures that a list of deltas sets.
pub open spec fn set_ids(set: Seq<(TextureId, ImageDelta)>) -> Set<TextureId> {
    Set::new(|id: TextureId| exists|i: int| 0 <= i < set.len() && (#[trigger] set[i]).0 == id)
}

/// Where all deltas of a list can be applied, the live textures afterwards
/// are those that were live before and those that the list sets.
pub proof fn lemma_live_after_updates(
    cache: Map<TextureId, PaintView>,
    set: Seq<(TextureId, ImageDelta)>,
    mipmaps_off: bool,
)
    requires
        after_updates(cache, set, mipmaps_off).1 is None,
    ensures
        after_updates(cache, set, mipmaps_off).0.dom() == cache.dom().union(set_ids(set)),
    decreases set.len(),
{
    if set.len() == 0 {
        assert(set_ids(set) =~= Set::<TextureId>::empty());
        assert(cache.dom().union(set_ids(set)) =~= cache.dom());
    } else {
        let next = applied(cache, set[0].0, set[0].1, mipmaps_off)->Ok_0;
        let rest = set.drop_first();
        lemma_live_after_updates(next, rest, mipmaps_off);
        assert(next.dom() =~= cache.dom().insert(set[0].0));
        assert forall|id: TextureId| set_ids(set).contains(id) <==> (id == set[0].0 || set_ids(
            rest,
        ).contains(id)) by {
            if set_ids(set).contains(id) {
                let i = choose|i: int| 0 <= i < set.len() && (#[trigger] set[i]).0 == id;
                if i > 0 {
                    assert(rest[i - 1].0 == id);
                }
            }
            if set_ids(rest).contains(id) {
                let i = choose|i: int| 0 <= i < rest.len() && (#[trigger] rest[i]).0 == id;
                assert(set[i + 1].0 == id);
            }
            if id == set[0].0 {
                assert(set[0].0 == id);
            }
        }
        assert(next.dom().union(set_ids(rest)) =~= cache.dom().union(set_ids(set)));
    }
}

/// After a frame that gave its commands, the live textures are those that
/// were live before or that the frame set, less those that it freed.
pub proof fn lemma_live_after_frame(
    cache: Map<TextureId, PaintView>,
    scale: Scalar,
    primitives: Seq<ClippedPrimitive>,
    set: Seq<(TextureId, ImageDelta)>,
    free: Seq<TextureId>,
    mipmaps_off: bool,
)
    requires
        frame_of(cache, scale, primitives, set, free, mipmaps_off).1 is Ok,
    ensures
        frame_of(cache, scale, primitives, set, free, mipmaps_off).0.dom() == cache.dom().union(
            set_ids(set),
        ).difference(free.to_set()),
{
    lemma_live_after_updates(cache, set, mipmaps_off);
    let updated = after_updates(cache, set, mipmaps_off).0;
    assert(after_frees(updated, free).dom() =~= updated.dom().difference(free.to_set()));
}

/// The cache after a run of frames, each given as its primitives and its
/// texture changes; `None` once a frame has failed.
pub open spec fn after_frames(
    cache: Map<TextureId, PaintView>,
    scale: Scalar,
    frames: Seq<(Seq<ClippedPrimitive>, TexturesDelta)>,
    mipmaps_off: bool,
) -> Option<Map<TextureId, PaintView>>
    decreases frames.len(),
{
    if frames.len() == 0 {
        Some(cache)
    } else {
        match after_frames(cache, scale, frames.drop_last(), mipmaps_off) {
            None => None,
            Some(before) => {
                let last = frames.last();
                let frame = frame_of(before, scale, last.0, last.1.set@, last.1.free@, mipmaps_off);
                if frame.1 is Ok {
                    Some(frame.0)
                } else {
                    None
                }
            },
        }
    }
}

/// The textures that are live after a run of frames, going by ids alone:
/// frame after frame, what the frame sets is added and then what it frees
/// is taken away.
pub open spec fn live_after(live: Set<TextureId>, frames: Seq<(Seq<ClippedPrimitive>, TexturesDelta)>) -> Set<
    TextureId,
>
    decreases frames.len(),
{
    if frames.len() == 0 {
        live
    } else {
        live_after(live, frames.drop_last()).union(set_ids(frames.last().1.set@)).difference(
            frames.last().1.free@.to_set(),
        )
    }
}

/// After any run of frames that all gave their commands, the cache holds
/// exactly the textures that the ids say are live.
pub proof fn lemma_live_after_frames(
    cache: Map<TextureId, PaintView>,
    scale: Scalar,
    frames: Seq<(Seq<ClippedPrimitive>, TexturesDelta)>,
    mipmaps_off: bool,
)
    requires
        after_frames(cache, scale, frames, mipmaps_off) is Some,
    ensures
        after_frames(cache, scale, frames, mipmaps_off)->Some_0.dom() == live_after(
            cache.dom(),
            frames,
        ),
    decreases frames.len(),
{
    if frames.len() > 0 {
        lemma_live_after_frames(cache, scale, frames.drop_last(), mipmaps_off);
        let before = after_frames(cache, scale, frames.drop_last(), mipmaps_off)->Some_0;
        let last = frames.last();
        lemma_live_after_frame(before, scale, last.0, last.1.set@, last.1.free@, mipmaps_off);
    }
}

/// Freeing textures that are not live changes nothing: the cache stays as
/// it is, and so do the commands that any primitives get.
pub proof fn lemma_free_absent(
    cache: Map<TextureId, PaintView>,
    free: Seq<TextureId>,
    scale: Scalar,
    primitives: Seq<ClippedPrimitive>,
)
    requires
        forall|i: int| 0 <= i < free.len() ==> !cache.contains_key(#[trigger] free[i]),
    ensures
        after_frees(cache, free) == cache,
        commands_of(after_frees(cache, free), scale, primitives) == commands_of(
            cache,
            scale,
            primitives,
        ),
{
    assert(after_frees(cache, free) =~= cache);
}

/// Freeing the same textures a second time changes nothing.
pub proof fn lemma_free_twice(cache: Map<TextureId, PaintView>, free: Seq<TextureId>)
    ensures
        after_frees(after_frees(cache, free), free) == after_frees(cache, free),
{
    assert(after_frees(after_frees(cache, free), free) =~= after_frees(cache, free));
}

} // verus!
