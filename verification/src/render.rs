//! The render-job queue and its replay.
//!
//! Entities describe a frame as a list of [`RenderJob`]s. Replaying the list
//! turns it into the list of [`GpuCommand`]s that a graphics backend has to
//! carry out, in order: the transform that a job sets is attached to every
//! draw that follows it, rectangles are mapped from normalized coordinates to
//! clip space and cut into triangles, and a batch too large for the vertex
//! buffer is reported instead of drawn.

use vstd::prelude::*;
use crate::units::drawing::{RGBA, V3};
use crate::units::fixed::{sat, saturate, ONE};
use crate::units::linear::V2;

verus! {

/// Most particles that one ship keeps alive.
pub const MAX_PARTICLES: usize = 256;

/// Most rectangles that one draw call can carry.
pub const MAX_RECTS: usize = 768;

/// Number of textures for which room is set aside at the start.
pub const MAX_TEXTURES: usize = 128;

/// A rectangle in normalized coordinates: `x` and `y` are its top-left
/// corner, `y` growing downward, `w` and `h` its size, `z` its depth.
#[derive(Copy, Clone, Debug, PartialEq, Eq, Structural)]
pub struct Rect {
    pub x: i64,
    pub y: i64,
    pub z: i64,
    pub w: i64,
    pub h: i64,
}

/// A rectangle together with the texture to draw it with.
#[derive(Copy, Clone, Debug, PartialEq, Eq, Structural)]
pub struct TexRect {
    pub texture_id: usize,
    pub dim: Rect,
}

impl TexRect {
    /// The rectangle at `(x, y)` of size `(w, h)` and depth `z`, textured
    /// with the texture `id`.
    pub fn from(id: usize, x: i64, y: i64, z: i64, w: i64, h: i64) -> (r: TexRect)
        ensures
            r == (TexRect { texture_id: id, dim: Rect { x, y, z, w, h } }),
    {
        TexRect { texture_id: id, dim: Rect { x, y, z, w, h } }
    }
}

/// One instruction of a frame.
#[derive(Debug)]
pub enum RenderJob {
    /// Clear the depth buffer to a depth.
    ClearDepth(i64),
    /// Clear the colour buffer to red, green, blue and opacity.
    ClearScreen(i64, i64, i64, i64),
    /// Shift the texture coordinates of the draws that follow.
    UniformOffset(V2),
    /// Turn the draws that follow by an angle in radians.
    UniformRotate(i64),
    /// Move the draws that follow.
    UniformTranslate(V2),
    /// Undo every transform set so far.
    ResetUniforms,
    /// Draw one textured rectangle.
    Draw(TexRect),
    /// Draw many rectangles with one texture, in one call.
    DrawMany(usize, Vec<Rect>),
}

/// A [`RenderJob`] as a mathematical value.
pub enum Job {
    ClearDepth(i64),
    ClearScreen(i64, i64, i64, i64),
    UniformOffset(V2),
    UniformRotate(i64),
    UniformTranslate(V2),
    ResetUniforms,
    Draw(TexRect),
    DrawMany(usize, Seq<Rect>),
}

impl View for RenderJob {
    type V = Job;

    open spec fn view(&self) -> Job {
        match *self {
            RenderJob::ClearDepth(d) => Job::ClearDepth(d),
            RenderJob::ClearScreen(r, g, b, a) => Job::ClearScreen(r, g, b, a),
            RenderJob::UniformOffset(ofs) => Job::UniformOffset(ofs),
            RenderJob::UniformRotate(rot) => Job::UniformRotate(rot),
            RenderJob::UniformTranslate(trans) => Job::UniformTranslate(trans),
            RenderJob::ResetUniforms => Job::ResetUniforms,
            RenderJob::Draw(quad) => Job::Draw(quad),
            RenderJob::DrawMany(texture_id, rects) => Job::DrawMany(texture_id, rects@),
        }
    }
}

/// A list of jobs as a mathematical value.
pub open spec fn job_views(jobs: Seq<RenderJob>) -> Seq<Job> {
    jobs.map_values(|j: RenderJob| j@)
}

/// A list of commands as a mathematical value.
pub open spec fn command_views(cmds: Seq<GpuCommand>) -> Seq<Command> {
    cmds.map_values(|c: GpuCommand| c@)
}

/// The transform that applies to a draw.
#[derive(Copy, Clone, Debug, PartialEq, Eq, Structural)]
pub struct Uniforms {
    pub ofs: V2,
    pub rot: i64,
    pub trans: V2,
}

/// What the graphics backend is asked to do.
#[derive(Debug)]
pub enum GpuCommand {
    /// Clear the depth buffer.
    ClearDepth(i64),
    /// Clear the colour buffer.
    ClearColor(i64, i64, i64, i64),
    /// Draw the triangles that `indices` picks out of `vertices`.
    DrawIndexed { texture_id: usize, uniforms: Uniforms, vertices: Vec<V3>, indices: Vec<u16> },
    /// Draw `vertices` as a list of triangles, three vertices each.
    DrawTriangles { texture_id: usize, uniforms: Uniforms, vertices: Vec<V3> },
}

/// A [`GpuCommand`] as a mathematical value.
pub enum Command {
    ClearDepth(i64),
    ClearColor(i64, i64, i64, i64),
    DrawIndexed { texture_id: usize, uniforms: Uniforms, vertices: Seq<V3>, indices: Seq<u16> },
    DrawTriangles { texture_id: usize, uniforms: Uniforms, vertices: Seq<V3> },
}

impl View for GpuCommand {
    type V = Command;

    open spec fn view(&self) -> Command {
        match *self {
            GpuCommand::ClearDepth(d) => Command::ClearDepth(d),
            GpuCommand::ClearColor(r, g, b, a) => Command::ClearColor(r, g, b, a),
            GpuCommand::DrawIndexed { texture_id, uniforms, vertices, indices } => {
                Command::DrawIndexed {
                    texture_id,
                    uniforms,
                    vertices: vertices@,
                    indices: indices@,
                }
            },
            GpuCommand::DrawTriangles { texture_id, uniforms, vertices } => {
                Command::DrawTriangles { texture_id, uniforms, vertices: vertices@ }
            },
        }
    }
}

/// Why a frame could not be replayed.
#[derive(Copy, Clone, Debug, PartialEq, Eq, Structural)]
pub enum RenderError {
    /// The job at this place in the list holds more than `MAX_RECTS`
    /// rectangles.
    CapacityExceeded(usize),
}

/// A normalized horizontal coordinate in clip space: `2x - 1`.
pub open spec fn clip_x(x: int) -> int {
    sat(2 * x - ONE)
}

/// A normalized vertical coordinate in clip space: `1 - 2y`, which turns
/// the downward axis upward.
pub open spec fn clip_y(y: int) -> int {
    sat(ONE - 2 * y)
}

/// The clip-space corners of a rectangle: the left and the top edge, then
/// the right and the bottom edge.
pub open spec fn unit_corners(rect: Rect) -> (i64, i64, i64, i64) {
    (
        clip_x(rect.x as int) as i64,
        clip_y(rect.y as int) as i64,
        clip_x(rect.x + rect.w) as i64,
        clip_y(rect.y + rect.h) as i64,
    )
}

/// The four corners of a rectangle as vertices: top-left, bottom-left,
/// top-right, bottom-right.
pub open spec fn quad_vertices(rect: Rect) -> Seq<V3> {
    let (x1, y1, x2, y2) = unit_corners(rect);
    seq![
        V3 { x: x1, y: y1, z: rect.z, u: 0, v: 0 },
        V3 { x: x1, y: y2, z: rect.z, u: 0, v: ONE },
        V3 { x: x2, y: y1, z: rect.z, u: ONE, v: 0 },
        V3 { x: x2, y: y2, z: rect.z, u: ONE, v: ONE },
    ]
}

/// The two triangles that tile a quad, as places in `quad_vertices`.
pub open spec fn quad_indices() -> Seq<u16> {
    seq![0u16, 1u16, 3u16, 0u16, 2u16, 3u16]
}

/// The vertex at place `k` (from 0 to 5) of the two triangles that tile a
/// rectangle, written out without indices.
pub open spec fn triangle_vertex(rect: Rect, k: int) -> V3 {
    let (x1, y1, x2, y2) = unit_corners(rect);
    if k == 0 || k == 3 {
        V3 { x: x1, y: y1, z: rect.z, u: 0, v: 0 }
    } else if k == 1 {
        V3 { x: x2, y: y1, z: rect.z, u: ONE, v: 0 }
    } else if k == 4 {
        V3 { x: x1, y: y2, z: rect.z, u: 0, v: ONE }
    } else {
        V3 { x: x2, y: y2, z: rect.z, u: ONE, v: ONE }
    }
}

/// The vertices of a batch: six for each rectangle, in the order of the
/// rectangles.
pub open spec fn batch_vertices(rects: Seq<Rect>) -> Seq<V3> {
    Seq::new(6 * rects.len(), |i: int| triangle_vertex(rects[i / 6], i % 6))
}

impl Uniforms {
    /// The transform that changes nothing.
    pub open spec fn identity_spec() -> Uniforms {
        Uniforms { ofs: V2 { x: 0, y: 0 }, rot: 0, trans: V2 { x: 0, y: 0 } }
    }

    /// The transform in force after `job`, when `self` was in force before.
    pub open spec fn after(self, job: Job) -> Uniforms {
        match job {
            Job::ResetUniforms => Self::identity_spec(),
            Job::UniformOffset(ofs) => Uniforms { ofs, ..self },
            Job::UniformRotate(rot) => Uniforms { rot, ..self },
            Job::UniformTranslate(trans) => Uniforms { trans, ..self },
            _ => self,
        }
    }

    /// The command that `job` gives rise to under the transform `self`, if
    /// it gives rise to one.
    pub open spec fn command(self, job: Job) -> Option<Command> {
        match job {
            Job::ClearDepth(d) => Some(Command::ClearDepth(d)),
            Job::ClearScreen(r, g, b, a) => Some(Command::ClearColor(r, g, b, a)),
            Job::Draw(quad) => Some(
                Command::DrawIndexed {
                    texture_id: quad.texture_id,
                    uniforms: self,
                    vertices: quad_vertices(quad.dim),
                    indices: quad_indices(),
                },
            ),
            Job::DrawMany(texture_id, rects) => Some(
                Command::DrawTriangles { texture_id, uniforms: self, vertices: batch_vertices(rects) },
            ),
            _ => None,
        }
    }

    /// The transform that changes nothing.
    pub fn identity() -> (u: Uniforms)
        ensures
            u == Self::identity_spec(),
    {
        Uniforms { ofs: V2 { x: 0, y: 0 }, rot: 0, trans: V2 { x: 0, y: 0 } }
    }
}

/// The transform in force after the jobs of `jobs` were replayed in order,
/// starting from the identity.
pub open spec fn uniforms_after(jobs: Seq<Job>) -> Uniforms
    decreases jobs.len(),
{
    if jobs.len() == 0 {
        Uniforms::identity_spec()
    } else {
        uniforms_after(jobs.drop_last()).after(jobs.last())
    }
}

/// The commands that a replay of `jobs` issues, in order.
pub open spec fn commands_of(jobs: Seq<Job>) -> Seq<Command>
    decreases jobs.len(),
{
    if jobs.len() == 0 {
        Seq::empty()
    } else {
        let before = commands_of(jobs.drop_last());
        match uniforms_after(jobs.drop_last()).command(jobs.last()) {
            Some(c) => before.push(c),
            None => before,
        }
    }
}

/// Whether a job is small enough for the vertex buffer.
pub open spec fn fits(job: Job) -> bool {
    job matches Job::DrawMany(_, rects) ==> rects.len() <= MAX_RECTS
}

/// The texture that a job draws with, if it draws.
pub open spec fn texture_of(job: Job) -> Option<usize> {
    match job {
        Job::Draw(quad) => Some(quad.texture_id),
        Job::DrawMany(texture_id, _) => Some(texture_id),
        _ => None,
    }
}

/// Maps a rectangle in normalized coordinates, where the origin is the
/// top-left corner and `y` grows downward, to clip space, where the origin is
/// the centre and `y` grows upward: `x' = 2x - 1` and `y' = 1 - 2y`. Handed
/// back are the left, top, right and bottom edge.
pub fn unit_position(rect: Rect) -> (r: (i64, i64, i64, i64))
    ensures
        r == unit_corners(rect),
{
    let x1 = saturate(2 * (rect.x as i128) - ONE as i128);
    let y1 = saturate(ONE as i128 - 2 * (rect.y as i128));
    let x2 = saturate(2 * (rect.x as i128 + rect.w as i128) - ONE as i128);
    let y2 = saturate(ONE as i128 - 2 * (rect.y as i128 + rect.h as i128));
    (x1, y1, x2, y2)
}

/// The four vertices of one rectangle, for an indexed draw.
fn quad(rect: Rect) -> (v: Vec<V3>)
    ensures
        v@ == quad_vertices(rect),
{
    let (x1, y1, x2, y2) = unit_position(rect);
    let mut v: Vec<V3> = Vec::with_capacity(4);
    v.push(V3 { x: x1, y: y1, z: rect.z, u: 0, v: 0 });
    v.push(V3 { x: x1, y: y2, z: rect.z, u: 0, v: ONE });
    v.push(V3 { x: x2, y: y1, z: rect.z, u: ONE, v: 0 });
    v.push(V3 { x: x2, y: y2, z: rect.z, u: ONE, v: ONE });
    assert(v@ =~= quad_vertices(rect));
    v
}

/// The six places that cut a quad into two triangles.
fn quad_index_list() -> (v: Vec<u16>)
    ensures
        v@ == quad_indices(),
{
    let mut v: Vec<u16> = Vec::with_capacity(6);
    v.push(0);
    v.push(1);
    v.push(3);
    v.push(0);
    v.push(2);
    v.push(3);
    assert(v@ =~= quad_indices());
    v
}

/// The vertices of a whole batch, six to a rectangle.
fn batch(rects: &Vec<Rect>) -> (v: Vec<V3>)
    ensures
        v@ == batch_vertices(rects@),
{
    let mut v: Vec<V3> = Vec::new();
    let mut k: usize = 0;
    while k < rects.len()
        invariant
            k <= rects.len(),
            v@ == batch_vertices(rects@.take(k as int)),
        decreases rects.len() - k,
    {
        let rect = rects[k];
        let (x1, y1, x2, y2) = unit_position(rect);
        let ghost before = v@;
        v.push(V3 { x: x1, y: y1, z: rect.z, u: 0, v: 0 });
        v.push(V3 { x: x2, y: y1, z: rect.z, u: ONE, v: 0 });
        v.push(V3 { x: x2, y: y2, z: rect.z, u: ONE, v: ONE });
        v.push(V3 { x: x1, y: y1, z: rect.z, u: 0, v: 0 });
        v.push(V3 { x: x1, y: y2, z: rect.z, u: 0, v: ONE });
        v.push(V3 { x: x2, y: y2, z: rect.z, u: ONE, v: ONE });
        proof {
            let done = rects@.take(k as int);
            let more = rects@.take(k as int + 1);
            assert(before.len() == 6 * k);
            assert forall|i: int| 0 <= i < 6 * (k + 1) implies v@[i] == triangle_vertex(
                more[i / 6],
                i % 6,
            ) by {
                if i < 6 * k {
                    assert(v@[i] == before[i]);
                    assert(more[i / 6] == done[i / 6]);
                } else {
                    assert(i / 6 == k as int);
                    assert(more[i / 6] == rect);
                }
            }
            assert(v@ =~= batch_vertices(more));
        }
        k = k + 1;
    }
    assert(rects@.take(k as int) =~= rects@);
    v
}

impl Uniforms {
    /// Replays one job: the transform is brought up to date, and the command
    /// that the job gives rise to, if any, is handed back for the backend.
    /// How large a batch is, is not looked at here: `RenderGroup::draw`
    /// does that before it replays a job.
    pub fn apply(&mut self, job: &RenderJob) -> (c: Option<GpuCommand>)
        ensures
            *final(self) == old(self).after(job@),
            match c {
                Some(cmd) => old(self).command(job@) == Some(cmd@),
                None => old(self).command(job@) is None,
            },
    {
        match job {
            RenderJob::ClearDepth(d) => Some(GpuCommand::ClearDepth(*d)),
            RenderJob::ClearScreen(r, g, b, a) => Some(GpuCommand::ClearColor(*r, *g, *b, *a)),
            RenderJob::ResetUniforms => {
                *self = Uniforms::identity();
                None
            },
            RenderJob::UniformOffset(ofs) => {
                self.ofs = *ofs;
                None
            },
            RenderJob::UniformRotate(rot) => {
                self.rot = *rot;
                None
            },
            RenderJob::UniformTranslate(trans) => {
                self.trans = *trans;
                None
            },
            RenderJob::Draw(rect) => Some(
                GpuCommand::DrawIndexed {
                    texture_id: rect.texture_id,
                    uniforms: *self,
                    vertices: quad(rect.dim),
                    indices: quad_index_list(),
                },
            ),
            RenderJob::DrawMany(texture_id, rects) => Some(
                GpuCommand::DrawTriangles {
                    texture_id: *texture_id,
                    uniforms: *self,
                    vertices: batch(rects),
                },
            ),
        }
    }
}

/// The textures of a renderer, each known by the place at which it was
/// stored. `T` is whatever the graphics backend hands out for an uploaded
/// image. Nothing is ever removed or moved, so a handle stays good for as
/// long as the group lives.
pub struct RenderGroup<T> {
    textures: Vec<T>,
}

impl<T> RenderGroup<T> {
    /// The textures stored, in the order in which they came.
    pub closed spec fn textures(&self) -> Seq<T> {
        self.textures@
    }

    /// Whether the texture that `job` draws with, if it draws, is stored.
    pub open spec fn knows(&self, job: Job) -> bool {
        texture_of(job) matches Some(id) ==> id < self.textures().len()
    }

    /// Whether every job of a list draws with a stored texture.
    pub open spec fn knows_all(&self, jobs: Seq<Job>) -> bool {
        forall|i: int| 0 <= i < jobs.len() ==> self.knows(#[trigger] jobs[i])
    }

    /// A group without textures.
    pub fn new() -> (g: Self)
        ensures
            g.textures() == Seq::<T>::empty(),
    {
        RenderGroup { textures: Vec::with_capacity(MAX_TEXTURES) }
    }

    /// Number of textures stored.
    pub fn texture_count(&self) -> (n: usize)
        ensures
            n == self.textures().len(),
    {
        self.textures.len()
    }

    /// Stores a texture behind all that are stored already and hands back
    /// its handle, which is the number of textures stored before it.
    pub fn store_texture(&mut self, texture: T) -> (id: usize)
        ensures
            id == old(self).textures().len(),
            final(self).textures() == old(self).textures().push(texture),
    {
        let next_idx = self.textures.len();
        self.textures.push(texture);
        next_idx
    }

    /// Stores what an upload gave. If the upload went well, its texture is
    /// stored as `store_texture` stores it, and the handle is handed back.
    /// If it failed, the group stays as it is and the failure is handed on
    /// for the caller to deal with.
    pub fn store_uploaded<E>(&mut self, upload: Result<T, E>) -> (r: Result<usize, E>)
        ensures
            match upload {
                Ok(texture) => {
                    &&& r == Ok::<usize, E>(old(self).textures().len() as usize)
                    &&& final(self).textures() == old(self).textures().push(texture)
                },
                Err(e) => r == Err::<usize, E>(e) && final(self).textures() == old(self).textures(),
            },
    {
        match upload {
            Ok(texture) => Ok(self.store_texture(texture)),
            Err(e) => Err(e),
        }
    }

    /// The texture behind a handle. A handle that `store_texture` never gave
    /// out is a mistake of the caller.
    pub fn texture(&self, id: usize) -> (t: &T)
        requires
            id < self.textures().len(),
        ensures
            *t == self.textures()[id as int],
    {
        &self.textures[id]
    }

    /// Whether every job of `draw_list` draws with a stored texture.
    pub fn accepts(&self, draw_list: &[RenderJob]) -> (b: bool)
        ensures
            b == self.knows_all(job_views(draw_list@)),
    {
        let mut i: usize = 0;
        while i < draw_list.len()
            invariant
                i <= draw_list.len(),
                forall|j: int| 0 <= j < i ==> self.knows(#[trigger] job_views(draw_list@)[j]),
            decreases draw_list.len() - i,
        {
            let known = match &draw_list[i] {
                RenderJob::Draw(rect) => rect.texture_id < self.textures.len(),
                RenderJob::DrawMany(texture_id, _) => *texture_id < self.textures.len(),
                _ => true,
            };
            if !known {
                assert(!self.knows(job_views(draw_list@)[i as int]));
                return false;
            }
            i = i + 1;
        }
        true
    }

    /// Replays the jobs of one frame, in order, into the commands for the
    /// graphics backend.
    ///
    /// The transform starts out as the identity. A job that sets part of it
    /// changes what the draws after it carry, never those before it. Each
    /// clear and each draw becomes one command; the vertices of a draw are
    /// in clip space. If a batch holds more rectangles than the vertex buffer
    /// has room for, nothing is handed back but the place of the first such
    /// job.
    ///
    /// Every texture that the list draws with must be stored in this group.
    pub fn draw(&self, draw_list: &[RenderJob]) -> (r: Result<Vec<GpuCommand>, RenderError>)
        requires
            self.knows_all(job_views(draw_list@)),
        ensures
            r is Ok <==> forall|i: int|
                0 <= i < draw_list@.len() ==> fits(#[trigger] job_views(draw_list@)[i]),
            r matches Ok(cmds) ==> command_views(cmds@) == commands_of(job_views(draw_list@)),
            r matches Err(RenderError::CapacityExceeded(at)) ==> {
                &&& at < draw_list@.len()
                &&& !fits(job_views(draw_list@)[at as int])
                &&& forall|i: int| 0 <= i < at ==> fits(#[trigger] job_views(draw_list@)[i])
            },
    {
        let ghost jobs = job_views(draw_list@);
        let mut uniforms = Uniforms::identity();
        let mut cmds: Vec<GpuCommand> = Vec::new();
        let mut i: usize = 0;
        while i < draw_list.len()
            invariant
                i <= draw_list.len(),
                jobs == job_views(draw_list@),
                forall|j: int| 0 <= j < i ==> fits(#[trigger] jobs[j]),
                uniforms == uniforms_after(jobs.take(i as int)),
                command_views(cmds@) == commands_of(jobs.take(i as int)),
            decreases draw_list.len() - i,
        {
            let job = &draw_list[i];
            assert(jobs[i as int] == job@);
            if let RenderJob::DrawMany(_, rects) = job {
                if rects.len() > MAX_RECTS {
                    return Err(RenderError::CapacityExceeded(i));
                }
            }
            let ghost before = cmds@;
            let made = uniforms.apply(job);
            proof {
                let done = jobs.take(i as int);
                let more = jobs.take(i as int + 1);
                assert(more.drop_last() =~= done);
                assert(more.last() == job@);
            }
            match made {
                Some(cmd) => {
                    cmds.push(cmd);
                    assert(command_views(cmds@) =~= command_views(before).push(cmd@));
                },
                None => {},
            }
            i = i + 1;
        }
        assert(jobs.take(i as int) =~= jobs);
        Ok(cmds)
    }
}

/// `ResetUniforms` restores the identity whatever was set before it, and
/// everything after it is replayed exactly as it would be at the start of a
/// frame: a transform never leaks past a reset.
pub proof fn lemma_reset_restores_identity(before: Seq<Job>, after: Seq<Job>)
    ensures
        uniforms_after(before.push(Job::ResetUniforms)) == Uniforms::identity_spec(),
        uniforms_after(before.push(Job::ResetUniforms) + after) == uniforms_after(after),
        commands_of(before.push(Job::ResetUniforms) + after) == commands_of(before) + commands_of(
            after,
        ),
    decreases after.len(),
{
    let reset = before.push(Job::ResetUniforms);
    assert(reset.drop_last() =~= before);
    assert(reset.last() == Job::ResetUniforms);
    if after.len() == 0 {
        assert(reset + after =~= reset);
        assert(commands_of(before) + commands_of(after) =~= commands_of(before));
    } else {
        lemma_reset_restores_identity(before, after.drop_last());
        let all = reset + after;
        assert(all.drop_last() =~= reset + after.drop_last());
        assert(all.last() == after.last());
        assert(commands_of(all) =~= commands_of(before) + commands_of(after));
    }
}

/// Side of the checkered square, in pixels.
pub const CHECKER_SIDE: usize = 256;

/// Side of one field of the checkered square, in pixels.
pub const CHECKER_FIELD: usize = 32;

/// The colour of the pixel in row `row` and column `col` of a square
/// checkered with fields of 32 by 32 pixels: `on` where the field's row and
/// column add up to an even number, `off` elsewhere.
pub open spec fn checker_color(row: int, col: int, on: RGBA, off: RGBA) -> RGBA {
    if (row / 32 + col / 32) % 2 == 0 {
        on
    } else {
        off
    }
}

/// Whether a pixel buffer has at least `rows` rows of at least `cols`
/// pixels each.
pub open spec fn covers(buf: Seq<Vec<RGBA>>, rows: int, cols: int) -> bool {
    &&& buf.len() >= rows
    &&& forall|r: int| 0 <= r < rows ==> (#[trigger] buf[r])@.len() >= cols
}

/// Whether `after` is `before` with its top-left square of 256 by 256 pixels
/// checkered in `on` and `off`, every pixel outside that square kept.
pub open spec fn checkered(
    before: Seq<Vec<RGBA>>,
    after: Seq<Vec<RGBA>>,
    on: RGBA,
    off: RGBA,
) -> bool {
    &&& after.len() == before.len()
    &&& forall|r: int| 0 <= r < after.len() ==> (#[trigger] after[r])@.len() == before[r]@.len()
    &&& forall|r: int, c: int|
        0 <= r < after.len() && 0 <= c < after[r]@.len() ==> #[trigger] after[r]@[c] == if r < 256
            && c < 256 {
            checker_color(r, c, on, off)
        } else {
            before[r]@[c]
        }
}

/// Paints a checkerboard of eight by eight fields over the top-left 256 by
/// 256 pixels of `buf`.
pub fn fill_checkers(buf: &mut Vec<Vec<RGBA>>, on: RGBA, off: RGBA)
    requires
        covers(old(buf)@, 256, 256),
    ensures
        checkered(old(buf)@, final(buf)@, on, off),
{
    let mut row: usize = 0;
    while row < CHECKER_SIDE
        invariant
            row <= 256,
            buf@.len() == old(buf)@.len(),
            forall|r: int| 0 <= r < buf@.len() ==> (#[trigger] buf@[r])@.len() == old(buf)@[r]@.len(),
            covers(old(buf)@, 256, 256),
            forall|r: int, c: int|
                0 <= r < buf@.len() && 0 <= c < buf@[r]@.len() ==> #[trigger] buf@[r]@[c] == if r
                    < row && c < 256 {
                    checker_color(r, c, on, off)
                } else {
                    old(buf)@[r]@[c]
                },
        decreases 256 - row,
    {
        let mut col: usize = 0;
        while col < CHECKER_SIDE
            invariant
                row < 256,
                col <= 256,
                buf@.len() == old(buf)@.len(),
                forall|r: int|
                    0 <= r < buf@.len() ==> (#[trigger] buf@[r])@.len() == old(buf)@[r]@.len(),
                covers(old(buf)@, 256, 256),
                forall|r: int, c: int|
                    0 <= r < buf@.len() && 0 <= c < buf@[r]@.len() ==> #[trigger] buf@[r]@[c]
                        == if (r < row && c < 256) || (r == row && c < col) {
                        checker_color(r, c, on, off)
                    } else {
                        old(buf)@[r]@[c]
                    },
            decreases 256 - col,
        {
            let color = if (row / CHECKER_FIELD + col / CHECKER_FIELD) % 2 == 0 {
                on
            } else {
                off
            };
            let line = &mut buf[row];
            line[col] = color;
            col = col + 1;
        }
        row = row + 1;
    }
}

/// Paints the checkerboard that stands in for a missing texture, magenta
/// and black, over the top-left 256 by 256 pixels of `buf`.
pub fn gen_checkers(buf: &mut Vec<Vec<RGBA>>)
    requires
        covers(old(buf)@, 256, 256),
    ensures
        checkered(old(buf)@, final(buf)@, (255u8, 0u8, 255u8, 255u8), (0u8, 0u8, 0u8, 255u8)),
{
    fill_checkers(buf, (255, 0, 255, 255), (0, 0, 0, 255));
}

/// Whether a pixel buffer is a square of side 256 checkered in `on` and
/// `off`.
pub open spec fn is_checkerboard(buf: Seq<Vec<RGBA>>, on: RGBA, off: RGBA) -> bool {
    &&& buf.len() == 256
    &&& forall|r: int| 0 <= r < 256 ==> (#[trigger] buf[r])@.len() == 256
    &&& forall|r: int, c: int|
        0 <= r < 256 && 0 <= c < 256 ==> #[trigger] buf[r]@[c] == checker_color(r, c, on, off)
}

/// A pixel buffer of `rows` rows of `cols` pixels, each of them `fill`.
pub fn solid_pixels(rows: usize, cols: usize, fill: RGBA) -> (buf: Vec<Vec<RGBA>>)
    ensures
        buf@.len() == rows,
        forall|r: int| 0 <= r < rows ==> (#[trigger] buf@[r])@.len() == cols,
        forall|r: int, c: int| 0 <= r < rows && 0 <= c < cols ==> #[trigger] buf@[r]@[c] == fill,
{
    let mut buf: Vec<Vec<RGBA>> = Vec::with_capacity(rows);
    let mut r: usize = 0;
    while r < rows
        invariant
            r <= rows,
            buf@.len() == r,
            forall|i: int| 0 <= i < r ==> (#[trigger] buf@[i])@.len() == cols,
            forall|i: int, c: int| 0 <= i < r && 0 <= c < cols ==> #[trigger] buf@[i]@[c] == fill,
        decreases rows - r,
    {
        let mut line: Vec<RGBA> = Vec::with_capacity(cols);
        let mut c: usize = 0;
        while c < cols
            invariant
                c <= cols,
                line@.len() == c,
                forall|j: int| 0 <= j < c ==> #[trigger] line@[j] == fill,
            decreases cols - c,
        {
            line.push(fill);
            c = c + 1;
        }
        buf.push(line);
        r = r + 1;
    }
    buf
}

/// The square of side 256 checkered in `on` and `off`.
pub fn checkerboard(on: RGBA, off: RGBA) -> (buf: Vec<Vec<RGBA>>)
    ensures
        is_checkerboard(buf@, on, off),
{
    let mut buf = solid_pixels(CHECKER_SIDE, CHECKER_SIDE, (0, 0, 0, 0));
    fill_checkers(&mut buf, on, off);
    buf
}

/// The texture that is shown wherever one was asked for and is not there:
/// a magenta and black checkerboard.
pub fn fallback_texture() -> (buf: Vec<Vec<RGBA>>)
    ensures
        is_checkerboard(buf@, (255u8, 0u8, 255u8, 255u8), (0u8, 0u8, 0u8, 255u8)),
{
    let mut buf = solid_pixels(CHECKER_SIDE, CHECKER_SIDE, (0, 0, 0, 0));
    gen_checkers(&mut buf);
    buf
}

/// The pixel in column `x` of row `y` of an image `width` pixels wide whose
/// bytes are `raw`: four bytes to a pixel, red first, row after row from the
/// top.
pub open spec fn pixel_at(raw: Seq<u8>, width: int, x: int, y: int) -> RGBA {
    let k = 4 * (y * width + x);
    (raw[k], raw[k + 1], raw[k + 2], raw[k + 3])
}

/// Cuts the bytes of a decoded image into rows of pixels, ready to be
/// stored as a texture. The bytes must be as many as the size asks for:
/// four for each pixel. If they are not, nothing is handed back.
pub fn pixel_rows(width: usize, height: usize, raw: &[u8]) -> (r: Option<Vec<Vec<RGBA>>>)
    ensures
        r is Some <==> raw@.len() == 4 * (width * height),
        r matches Some(rows) ==> {
            &&& rows@.len() == height
            &&& forall|y: int| 0 <= y < height ==> (#[trigger] rows@[y])@.len() == width
            &&& forall|y: int, x: int|
                0 <= y < height && 0 <= x < width ==> #[trigger] rows@[y]@[x] == pixel_at(
                    raw@,
                    width as int,
                    x,
                    y,
                )
        },
{
    assert(width * height >= 0) by (nonlinear_arith)
        requires
            width >= 0,
            height >= 0,
    ;
    let have = raw.len();
    let pixels = match width.checked_mul(height) {
        Some(n) => n,
        None => {
            return None;
        },
    };
    let bytes = match pixels.checked_mul(4) {
        Some(n) => n,
        None => {
            return None;
        },
    };
    if have != bytes {
        return None;
    }
    let mut rows: Vec<Vec<RGBA>> = Vec::with_capacity(height);
    let mut y: usize = 0;
    let mut k: usize = 0;
    while y < height
        invariant
            y <= height,
            raw@.len() == 4 * (width * height),
            k == 4 * (y * width),
            rows@.len() == y,
            forall|j: int| 0 <= j < y ==> (#[trigger] rows@[j])@.len() == width,
            forall|j: int, x: int|
                0 <= j < y && 0 <= x < width ==> #[trigger] rows@[j]@[x] == pixel_at(
                    raw@,
                    width as int,
                    x,
                    j,
                ),
        decreases height - y,
    {
        assert((y + 1) * width <= width * height && (y + 1) * width == y * width + width)
            by (nonlinear_arith)
            requires
                0 <= y < height,
                0 <= width,
        ;
        let mut line: Vec<RGBA> = Vec::with_capacity(width);
        let mut x: usize = 0;
        while x < width
            invariant
                x <= width,
                y < height,
                raw@.len() == 4 * (width * height),
                (y + 1) * width <= width * height,
                (y + 1) * width == y * width + width,
                k == 4 * (y * width + x),
                line@.len() == x,
                forall|i: int|
                    0 <= i < x ==> #[trigger] line@[i] == pixel_at(raw@, width as int, i, y as int),
            decreases width - x,
        {
            line.push((raw[k], raw[k + 1], raw[k + 2], raw[k + 3]));
            k = k + 4;
            x = x + 1;
        }
        rows.push(line);
        y = y + 1;
    }
    Some(rows)
}

} // verus!
