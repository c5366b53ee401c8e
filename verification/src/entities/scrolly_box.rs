//! A box whose texture scrolls under the arrow keys.

use vstd::prelude::*;
use crate::input::{Input, Key};
use crate::render::{job_views, Job, RenderJob, TexRect};
use crate::units::fixed::ONE;
use crate::units::linear::V2;

verus! {

/// Speed of the scrolling: a thousandth of the texture's side each
/// millisecond, which is its whole side each second.
pub const SCROLL_V: i64 = 1_000_000;

/// The four ways to go.
#[derive(Copy, Clone, Debug, PartialEq, Eq, Structural)]
pub enum Direction {
    Up,
    Right,
    Down,
    Left,
}

/// The box: all there is to it is how far its texture has scrolled.
pub struct ScrollyBox {
    ofs: V2,
}

/// The velocity at which the texture scrolls in a direction.
pub open spec fn scroll_velocity(dir: Direction) -> V2 {
    match dir {
        Direction::Up => V2 { x: 0, y: SCROLL_V },
        Direction::Down => V2 { x: 0, y: (-SCROLL_V) as i64 },
        Direction::Left => V2 { x: (-SCROLL_V) as i64, y: 0 },
        Direction::Right => V2 { x: SCROLL_V, y: 0 },
    }
}

/// An offset after `dt` milliseconds of scrolling in a direction, if the
/// direction's key is among those held, and the offset itself if not.
pub open spec fn scrolled(ofs: V2, held: Set<Key>, key: Key, dir: Direction, dt: u64) -> V2 {
    if held.contains(key) {
        ofs.advanced(scroll_velocity(dir), dt)
    } else {
        ofs
    }
}

impl ScrollyBox {
    /// How far the texture has scrolled.
    pub closed spec fn ofs(&self) -> V2 {
        self.ofs
    }

    /// The jobs that draw the box with the texture `texture_id`: the offset,
    /// then the unit square.
    pub open spec fn jobs(&self, texture_id: usize) -> Seq<Job> {
        seq![
            Job::UniformOffset(self.ofs()),
            Job::Draw(TexRect { texture_id, dim: crate::render::Rect { x: 0, y: 0, z: 0, w: ONE, h: ONE } }),
        ]
    }

    /// A box whose texture has not scrolled.
    pub fn new() -> (b: ScrollyBox)
        ensures
            b.ofs() == V2::zero(),
    {
        ScrollyBox { ofs: V2 { x: 0, y: 0 } }
    }

    /// How far the texture has scrolled.
    pub fn offset(&self) -> (o: V2)
        ensures
            o == self.ofs(),
    {
        self.ofs
    }

    /// Scrolls for `dt` milliseconds in each direction whose arrow key is
    /// held: up, right, down and left, in this order.
    pub fn update(&mut self, controller: &Input, dt: u64)
        ensures
            final(self).ofs() == scrolled(
                scrolled(
                    scrolled(
                        scrolled(old(self).ofs(), controller.held(), Key::Up, Direction::Up, dt),
                        controller.held(),
                        Key::Right,
                        Direction::Right,
                        dt,
                    ),
                    controller.held(),
                    Key::Down,
                    Direction::Down,
                    dt,
                ),
                controller.held(),
                Key::Left,
                Direction::Left,
                dt,
            ),
    {
        if controller.is_key_held(Key::Up) {
            self.integrate(dt, Direction::Up)
        }
        if controller.is_key_held(Key::Right) {
            self.integrate(dt, Direction::Right)
        }
        if controller.is_key_held(Key::Down) {
            self.integrate(dt, Direction::Down)
        }
        if controller.is_key_held(Key::Left) {
            self.integrate(dt, Direction::Left)
        }
    }

    /// Scrolls for `dt` milliseconds in one direction.
    pub fn integrate(&mut self, dt: u64, dir: Direction)
        ensures
            final(self).ofs() == old(self).ofs().advanced(scroll_velocity(dir), dt),
    {
        let v = match dir {
            Direction::Up => V2 { x: 0, y: SCROLL_V },
            Direction::Down => V2 { x: 0, y: -SCROLL_V },
            Direction::Left => V2 { x: -SCROLL_V, y: 0 },
            Direction::Right => V2 { x: SCROLL_V, y: 0 },
        };
        self.ofs = self.ofs.advance(v, dt);
    }

    /// Appends the jobs that draw the box to the frame's list.
    pub fn draw(&self, jobs: &mut Vec<RenderJob>, texture_id: usize)
        ensures
            job_views(final(jobs)@) == job_views(old(jobs)@) + self.jobs(texture_id),
    {
        let ghost before = job_views(jobs@);
        jobs.push(RenderJob::UniformOffset(self.ofs));
        jobs.push(RenderJob::Draw(TexRect::from(texture_id, 0, 0, 0, ONE, ONE)));
        assert(job_views(jobs@) =~= before + self.jobs(texture_id));
    }
}

} // verus!
