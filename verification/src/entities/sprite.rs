//! The ship and the particles it fires.
//!
//! The ship is steered in its own frame: thrust is along its nose or across
//! it, and is turned by the ship's heading before it changes the velocity.
//! The heading is kept as an angle. Whoever drives the ship hands in, with
//! each step that needs it, the rotation that belongs to the angle, since
//! cosines and sines are not to be had in exact arithmetic.

use vstd::prelude::*;
use crate::entities::scrolly_box::Direction;
use crate::input::{Input, Key};
use crate::render::{
    job_views, lemma_reset_restores_identity, uniforms_after, Job, Rect, RenderJob, TexRect,
    Uniforms, MAX_PARTICLES,
};
use crate::units::fixed::{div_trunc, minus, mul_add, plus, sat, HALF_PI, ONE, PI, TWO_PI};
use crate::units::linear::{Rotor, V2};

verus! {

/// Thrust of the ship, in units per millisecond per millisecond.
pub const SHIP_ACCEL: i64 = 100;

/// Top speed of the ship along the axis of its thrust, in units per
/// millisecond.
pub const SHIP_VMAX: i64 = 400_000;

/// Turning rate of the ship, in radians per millisecond: half a turn a
/// second.
pub const SHIP_ROT: i64 = 3_141_593;

/// Muzzle speed of a particle, in units per millisecond.
pub const BULLET_VMAX: i64 = 700_000;

/// Where the ship starts out, on both axes: the middle of the screen.
pub const SHIP_START: i64 = 500_000_000;

/// Width and height of the ship.
pub const SHIP_SIZE: i64 = 35_000_000;

/// Width and height of a particle, and half the ship's.
pub const PARTICLE_SIZE: i64 = 17_500_000;

/// Depth at which the hull is drawn.
pub const HULL_DEPTH: i64 = -500_000_000;

/// Depth at which the engine's flame is drawn.
pub const ENGINE_DEPTH: i64 = -540_000_000;

/// Depth at which the thrusters' flames are drawn.
pub const THRUST_DEPTH: i64 = -550_000_000;

/// Depth at which the particles are drawn.
pub const PARTICLE_DEPTH: i64 = -560_000_000;

/// Something small that flies in a straight line until it leaves the field.
#[derive(Copy, Clone, Debug, PartialEq, Eq, Structural)]
pub struct Particle {
    pub pos: V2,
    pub vel: V2,
    pub is_alive: bool,
}

/// Whether a point lies in the field: the square from minus one to one on
/// both axes, its border included.
pub open spec fn in_field(p: V2) -> bool {
    -ONE <= p.x <= ONE && -ONE <= p.y <= ONE
}

impl Particle {
    /// The particle after `dt` milliseconds: it has moved along its
    /// velocity, and lives if and only if it is still in the field.
    pub open spec fn stepped(self, dt: u64) -> Particle {
        Particle {
            pos: self.pos.advanced(self.vel, dt),
            vel: self.vel,
            is_alive: in_field(self.pos.advanced(self.vel, dt)),
        }
    }

    /// A live particle at `(x, y)` that moves at `(vx, vy)`.
    pub fn at_speed(x: i64, y: i64, vx: i64, vy: i64) -> (p: Particle)
        ensures
            p == (Particle { pos: V2 { x, y }, vel: V2 { x: vx, y: vy }, is_alive: true }),
    {
        Particle { pos: V2::at(x, y), vel: V2::at(vx, vy), is_alive: true }
    }

    /// Moves the particle along its velocity for `dt` milliseconds. It is
    /// dead once it is past the border of the field on either axis, and not
    /// before: on the border it still lives.
    pub fn step(&mut self, dt: u64)
        ensures
            *final(self) == old(self).stepped(dt),
    {
        self.pos = self.pos.advance(self.vel, dt);
        let on_x = self.pos.x >= -ONE && self.pos.x <= ONE;
        let on_y = self.pos.y >= -ONE && self.pos.y <= ONE;
        self.is_alive = on_x && on_y;
    }
}

/// The textures of the ship: the particle, the hull at rest, and the flames
/// that go with each of the steering keys.
#[derive(Copy, Clone, Debug, PartialEq, Eq, Structural)]
pub struct SpriteTextures {
    pub tx_crate: usize,
    pub tx_idle: usize,
    pub tx_fly_w: usize,
    pub tx_fly_a: usize,
    pub tx_fly_s: usize,
    pub tx_fly_d: usize,
    pub tx_fly_q: usize,
    pub tx_fly_e: usize,
}

/// The ship as a mathematical value.
pub struct Ship {
    /// Where the ship is.
    pub pos: V2,
    /// How fast it moves.
    pub vel: V2,
    /// The angle of its heading, in radians.
    pub rotation: i64,
    /// The particles in flight, oldest first.
    pub particles: Seq<Particle>,
    /// The autopilot was switched on and its key is still down.
    pub rev_ap_engaged: bool,
    /// The autopilot is still turning the ship.
    pub rev_ap_active: bool,
    /// The bearing, in whole degrees, that the autopilot turns the nose to;
    /// none if the ship was at rest when the autopilot was switched on.
    pub rev_ap_heading: Option<i64>,
    /// The textures.
    pub textures: SpriteTextures,
    /// The engine flame to draw this frame.
    pub engine_tex: Option<usize>,
    /// The thruster flame to draw this frame.
    pub thrust_tex: Option<usize>,
}

/// The thrust in the ship's own frame. Up is along the nose.
pub open spec fn local_accel(dir: Direction) -> V2 {
    match dir {
        Direction::Up => V2 { x: 0, y: SHIP_ACCEL },
        Direction::Down => V2 { x: 0, y: (-SHIP_ACCEL) as i64 },
        Direction::Left => V2 { x: SHIP_ACCEL, y: 0 },
        Direction::Right => V2 { x: (-SHIP_ACCEL) as i64, y: 0 },
    }
}

/// What a thrust of `dt` milliseconds adds to the velocity, in the ship's
/// own frame: the thrust taken `dt` times.
pub open spec fn local_push(dir: Direction, dt: u64) -> V2 {
    V2 {
        x: sat(local_accel(dir).x * dt) as i64,
        y: sat(local_accel(dir).y * dt) as i64,
    }
}

/// The top velocity in the ship's own frame: as the thrust, but with the top
/// speed for its length.
pub open spec fn local_cap(dir: Direction) -> V2 {
    match dir {
        Direction::Up => V2 { x: 0, y: SHIP_VMAX },
        Direction::Down => V2 { x: 0, y: (-SHIP_VMAX) as i64 },
        Direction::Left => V2 { x: SHIP_VMAX, y: 0 },
        Direction::Right => V2 { x: (-SHIP_VMAX) as i64, y: 0 },
    }
}

/// One component `v` of a velocity, held back by the cap `cap` on the side
/// to which the acceleration `acc` points: not above the cap while speeding
/// up, not below it while slowing down, and let be where nothing
/// accelerates.
pub open spec fn capped(v: i64, acc: i64, cap: i64) -> i64 {
    if acc > 0 {
        if v < cap {
            v
        } else {
            cap
        }
    } else if acc < 0 {
        if v > cap {
            v
        } else {
            cap
        }
    } else {
        v
    }
}

/// The rate of turning in a direction, in radians per millisecond. Only
/// left and right are turns.
pub open spec fn turn_rate(dir: Direction) -> int {
    match dir {
        Direction::Left => -SHIP_ROT,
        Direction::Right => SHIP_ROT as int,
        _ => 0,
    }
}

/// An angle brought into the half-open turn from `-PI`, not included, to
/// `PI`.
pub open spec fn wrap_angle(a: int) -> int {
    let r = a % (TWO_PI as int);
    if r > PI {
        r - TWO_PI
    } else {
        r
    }
}

/// The bearing of the ship's nose, in whole degrees from -180 to 180, for
/// the heading angle `rotation`. At no rotation the nose points along the
/// second axis, at 90 degrees.
pub open spec fn nose_deg(rotation: i64) -> int {
    div_trunc(wrap_angle(rotation + HALF_PI) * 180, PI as int)
}

/// Whether two bearings in whole degrees are at most one degree apart.
pub open spec fn aligned(a: int, b: int) -> bool {
    -1 <= a - b <= 1
}

/// The rectangle with which a particle is drawn.
pub open spec fn particle_rect(p: Particle) -> Rect {
    Rect { x: p.pos.x, y: p.pos.y, z: PARTICLE_DEPTH, w: PARTICLE_SIZE, h: PARTICLE_SIZE }
}

/// The particles of `particles` that are alive after `dt` milliseconds, each
/// where it then is.
pub open spec fn step_all(particles: Seq<Particle>, dt: u64) -> Seq<Particle> {
    particles.map_values(|p: Particle| p.stepped(dt)).filter(|p: Particle| p.is_alive)
}

/// Stepping a list of particles with one more at its end steps the list and
/// then the one, which is kept if it lives.
pub proof fn lemma_step_all_push(particles: Seq<Particle>, p: Particle, dt: u64)
    ensures
        step_all(particles.push(p), dt) == if p.stepped(dt).is_alive {
            step_all(particles, dt).push(p.stepped(dt))
        } else {
            step_all(particles, dt)
        },
{
    let f = |p: Particle| p.stepped(dt);
    let alive = |p: Particle| p.is_alive;
    let moved = particles.map_values(f);
    let more = particles.push(p).map_values(f);
    assert(more =~= moved.push(p.stepped(dt)));
    assert(more.drop_last() =~= moved);
    reveal(Seq::filter);
}

/// Every particle that `step_all` keeps is alive, and it keeps no more than
/// it was given.
pub proof fn lemma_step_all_alive(particles: Seq<Particle>, dt: u64)
    ensures
        step_all(particles, dt).len() <= particles.len(),
        forall|i: int| 0 <= i < step_all(particles, dt).len() ==> (#[trigger] step_all(particles, dt)[i]).is_alive,
{
    let f = |p: Particle| p.stepped(dt);
    let alive = |p: Particle| p.is_alive;
    let moved = particles.map_values(f);
    moved.lemma_filter_len(alive);
    assert forall|i: int| 0 <= i < step_all(particles, dt).len() implies (#[trigger] step_all(
        particles,
        dt,
    )[i]).is_alive by {
        moved.lemma_filter_pred(alive, i);
    }
}

/// Whether a velocity is within the ship's top speed along each axis, in
/// either sense.
pub open spec fn within_top_speed(v: V2) -> bool {
    -SHIP_VMAX <= v.x <= SHIP_VMAX && -SHIP_VMAX <= v.y <= SHIP_VMAX
}

impl Ship {
    /// No more particles are in flight than the cap allows, each of them is
    /// alive, and the ship is no faster than its top speed along either
    /// axis.
    pub open spec fn wf(self) -> bool {
        &&& self.particles.len() <= MAX_PARTICLES
        &&& forall|i: int| 0 <= i < self.particles.len() ==> (#[trigger] self.particles[i]).is_alive
        &&& within_top_speed(self.vel)
    }

    /// The ship as it is made: at rest in the middle of the screen, nose
    /// along the second axis, no particle in flight, autopilot off.
    pub open spec fn initial(textures: SpriteTextures) -> Ship {
        Ship {
            pos: V2 { x: SHIP_START, y: SHIP_START },
            vel: V2 { x: 0, y: 0 },
            rotation: 0,
            particles: Seq::empty(),
            rev_ap_engaged: false,
            rev_ap_active: false,
            rev_ap_heading: Some(90i64),
            textures,
            engine_tex: None,
            thrust_tex: None,
        }
    }

    /// The ship after its particles flew for `dt` milliseconds.
    pub open spec fn step_particles(self, dt: u64) -> Ship {
        Ship { particles: step_all(self.particles, dt), ..self }
    }

    /// The ship after `dt` milliseconds of thrust in the direction `dir` of
    /// its own frame, while it heads along `heading`. What the thrust adds
    /// up to over the time is turned by the heading and added to the
    /// velocity; then each component of the velocity is held back by the top
    /// velocity, turned likewise.
    pub open spec fn integrate(self, dt: u64, dir: Direction, heading: Rotor) -> Ship {
        let push = local_push(dir, dt).rotated(heading);
        let cap = local_cap(dir).rotated(heading);
        let v = self.vel.plus(push);
        Ship { vel: V2 { x: capped(v.x, push.x, cap.x), y: capped(v.y, push.y, cap.y) }, ..self }
    }

    /// The ship after `dt` milliseconds of turning in the direction `dir`.
    pub open spec fn rotate(self, dt: u64, dir: Direction) -> Ship {
        Ship { rotation: sat(self.rotation + turn_rate(dir) * dt) as i64, ..self }
    }

    /// The particle that the ship fires while it heads along `heading`: it
    /// starts where the ship is and flies at muzzle speed against the
    /// second axis of the ship's frame.
    pub open spec fn shot(self, heading: Rotor) -> Particle {
        Particle {
            pos: self.pos,
            vel: (V2 { x: 0, y: (-BULLET_VMAX) as i64 }).rotated(heading),
            is_alive: true,
        }
    }

    /// The ship after it was told to fire: one particle more, unless as
    /// many as the cap allows are in flight already.
    pub open spec fn fire(self, heading: Rotor) -> Ship {
        if self.particles.len() >= MAX_PARTICLES {
            self
        } else {
            Ship { particles: self.particles.push(self.shot(heading)), ..self }
        }
    }

    /// The ship after `dt` milliseconds of the autopilot, which turns it
    /// left until its nose is within a degree of the bearing it was set to,
    /// and is done at once when it was set to none.
    pub open spec fn autopilot_reverse(self, dt: u64) -> Ship {
        match self.rev_ap_heading {
            None => Ship { rev_ap_active: false, ..self },
            Some(dest) => {
                let turned = self.rotate(dt, Direction::Left);
                if aligned(nose_deg(turned.rotation), dest as int) {
                    Ship { rev_ap_active: false, ..turned }
                } else {
                    turned
                }
            },
        }
    }

    /// The ship at the point of a frame where the autopilot is looked at:
    /// flames out, particles stepped, the autopilot let go if its key is up
    /// and switched on if its key just went down.
    pub open spec fn primed(
        self,
        held: Set<Key>,
        pressed: Set<Key>,
        dt: u64,
        retrograde_deg: i64,
    ) -> Ship {
        let s = Ship { engine_tex: None, thrust_tex: None, ..self }.step_particles(dt);
        let engaged = s.rev_ap_engaged && held.contains(Key::S);
        if pressed.contains(Key::S) && !engaged {
            Ship {
                rev_ap_engaged: true,
                rev_ap_active: true,
                rev_ap_heading: if s.vel == V2::zero() {
                    None
                } else {
                    Some(retrograde_deg)
                },
                ..s
            }
        } else {
            Ship { rev_ap_engaged: engaged, ..s }
        }
    }

    /// Whether the autopilot has the ship in this frame.
    pub open spec fn autopiloted(
        self,
        held: Set<Key>,
        pressed: Set<Key>,
        dt: u64,
        retrograde_deg: i64,
    ) -> bool {
        let s = self.primed(held, pressed, dt, retrograde_deg);
        s.rev_ap_active && s.rev_ap_engaged
    }

    /// The ship after the thrust of a frame: along the nose under `W`, to
    /// the side under `A` or `D`, the first of these that is held.
    pub open spec fn thrusted(self, held: Set<Key>, dt: u64, heading: Rotor) -> Ship {
        if held.contains(Key::W) {
            Ship { engine_tex: Some(self.textures.tx_fly_w), ..self }.integrate(
                dt,
                Direction::Up,
                heading,
            )
        } else if held.contains(Key::A) {
            Ship { engine_tex: Some(self.textures.tx_fly_a), ..self }.integrate(
                dt,
                Direction::Left,
                heading,
            )
        } else if held.contains(Key::D) {
            Ship { engine_tex: Some(self.textures.tx_fly_d), ..self }.integrate(
                dt,
                Direction::Right,
                heading,
            )
        } else {
            self
        }
    }

    /// The ship after the turning of a frame: left under `Q`, right under
    /// `E`, the first of these that is held.
    pub open spec fn turned(self, held: Set<Key>, dt: u64) -> Ship {
        if held.contains(Key::Q) {
            Ship { thrust_tex: Some(self.textures.tx_fly_q), ..self }.rotate(dt, Direction::Left)
        } else if held.contains(Key::E) {
            Ship { thrust_tex: Some(self.textures.tx_fly_e), ..self }.rotate(dt, Direction::Right)
        } else {
            self
        }
    }

    /// The ship after a frame of `dt` milliseconds, all but the firing.
    pub open spec fn update(
        self,
        held: Set<Key>,
        pressed: Set<Key>,
        dt: u64,
        heading: Rotor,
        retrograde_deg: i64,
    ) -> Ship {
        let s = self.primed(held, pressed, dt, retrograde_deg);
        if s.rev_ap_active && s.rev_ap_engaged {
            s.autopilot_reverse(dt)
        } else {
            s.thrusted(held, dt, heading).turned(held, dt)
        }
    }

    /// Whether the ship is to fire at the end of a frame: the space bar went
    /// down, and the autopilot does not have the ship.
    pub open spec fn fires(
        self,
        held: Set<Key>,
        pressed: Set<Key>,
        dt: u64,
        retrograde_deg: i64,
    ) -> bool {
        !self.autopiloted(held, pressed, dt, retrograde_deg) && pressed.contains(Key::Space)
    }

    /// The rectangle of the hull and its flames, at depth `z`: the ship's
    /// size, centred on its position.
    pub open spec fn hull(self, texture_id: usize, z: i64) -> TexRect {
        TexRect {
            texture_id,
            dim: Rect {
                x: sat(self.pos.x - PARTICLE_SIZE) as i64,
                y: sat(self.pos.y - PARTICLE_SIZE) as i64,
                z,
                w: SHIP_SIZE,
                h: SHIP_SIZE,
            },
        }
    }

    /// The jobs that draw the ship: the hull and whatever flames burn, all
    /// turned by the heading; a reset; then the particles in one batch, if
    /// there are any.
    pub open spec fn jobs(self) -> Seq<Job> {
        seq![
            Job::UniformRotate(self.rotation),
            Job::Draw(self.hull(self.textures.tx_idle, HULL_DEPTH)),
        ] + (match self.engine_tex {
            Some(tx) => seq![Job::Draw(self.hull(tx, ENGINE_DEPTH))],
            None => Seq::empty(),
        }) + (match self.thrust_tex {
            Some(tx) => seq![Job::Draw(self.hull(tx, THRUST_DEPTH))],
            None => Seq::empty(),
        }) + seq![Job::ResetUniforms] + (if self.particles.len() == 0 {
            Seq::empty()
        } else {
            seq![
                Job::DrawMany(
                    self.textures.tx_crate,
                    self.particles.map_values(|p: Particle| particle_rect(p)),
                ),
            ]
        })
    }
}

/// An angle brought into the half-open turn from `-PI`, not included, to
/// `PI`.
pub fn wrap_turn(a: i128) -> (w: i64)
    ensures
        w == wrap_angle(a as int),
        -PI < w <= PI,
{
    let m: i128 = a % (TWO_PI as i128);
    let r: i128 = if m < 0 {
        m + TWO_PI as i128
    } else {
        m
    };
    assert(r == a as int % (TWO_PI as int));
    if r > PI as i128 {
        (r - TWO_PI as i128) as i64
    } else {
        r as i64
    }
}

/// The bearing of the ship's nose, in whole degrees, for the heading angle
/// `rotation`.
pub fn nose_bearing(rotation: i64) -> (deg: i64)
    ensures
        deg == nose_deg(rotation),
        -180 <= deg <= 180,
{
    let w = wrap_turn(rotation as i128 + HALF_PI as i128);
    (w as i128 * 180 / (PI as i128)) as i64
}

/// The ship: where it is, how it moves and turns, what it has fired, and
/// what its autopilot is up to.
pub struct Sprite {
    pos: V2,
    vel: V2,
    rotation: i64,
    particles: Vec<Particle>,
    rev_ap_engaged: bool,
    rev_ap_active: bool,
    rev_ap_heading: Option<i64>,
    textures: SpriteTextures,
    engine_tex: Option<usize>,
    thrust_tex: Option<usize>,
}

impl View for Sprite {
    type V = Ship;

    closed spec fn view(&self) -> Ship {
        Ship {
            pos: self.pos,
            vel: self.vel,
            rotation: self.rotation,
            particles: self.particles@,
            rev_ap_engaged: self.rev_ap_engaged,
            rev_ap_active: self.rev_ap_active,
            rev_ap_heading: self.rev_ap_heading,
            textures: self.textures,
            engine_tex: self.engine_tex,
            thrust_tex: self.thrust_tex,
        }
    }
}

impl Sprite {
    /// At no time are more particles in flight than the cap allows, each of
    /// them is alive, and the ship is no faster than its top speed.
    #[verifier::type_invariant]
    pub closed spec fn wf(&self) -> bool {
        self@.wf()
    }

    /// A ship at rest in the middle of the screen, drawn with `textures`.
    pub fn new(textures: SpriteTextures) -> (s: Sprite)
        ensures
            s@ == Ship::initial(textures),
            s@.wf(),
    {
        Sprite {
            pos: V2::at(SHIP_START, SHIP_START),
            vel: V2::at(0, 0),
            rotation: 0,
            particles: Vec::with_capacity(MAX_PARTICLES),
            rev_ap_engaged: false,
            rev_ap_active: false,
            rev_ap_heading: Some(90),
            textures,
            engine_tex: None,
            thrust_tex: None,
        }
    }

    /// Runs the ship for a frame of `dt` milliseconds, all but the firing,
    /// and says whether it is to fire.
    ///
    /// The particles fly on and those that left the field are dropped. The
    /// autopilot is let go when `S` is up, and set to the bearing
    /// `retrograde_deg` when `S` went down; while it has the ship, it turns
    /// the ship and nothing else happens. Otherwise the ship is thrust along
    /// `heading` as `W`, `A` and `D` say, and turned as `Q` and `E` say.
    ///
    /// `heading` is the rotation that belongs to the ship's heading angle as
    /// the frame begins, and `retrograde_deg` the bearing, in whole degrees,
    /// against which the ship moves. If the answer is `true`, the caller
    /// hands the rotation for the heading angle as it is now to `pewpew`.
    pub fn update(
        &mut self,
        controller: &Input,
        dt: u64,
        heading: Rotor,
        retrograde_deg: i64,
    ) -> (fire: bool)
        ensures
            final(self)@ == old(self)@.update(
                controller.held(),
                controller.pressed(),
                dt,
                heading,
                retrograde_deg,
            ),
            fire == old(self)@.fires(controller.held(), controller.pressed(), dt, retrograde_deg),
            final(self)@.wf(),
    {
        proof {
            use_type_invariant(&*self);
        }
        self.engine_tex = None;
        self.thrust_tex = None;
        self.step_particles(dt);

        if !controller.is_key_held(Key::S) {
            self.rev_ap_engaged = false;
        }
        if controller.was_key_pressed(Key::S) && !self.rev_ap_engaged {
            self.rev_ap_engaged = true;
            self.rev_ap_active = true;
            self.rev_ap_heading = if self.vel.x == 0 && self.vel.y == 0 {
                None
            } else {
                Some(retrograde_deg)
            };
        }
        assert(self@ == old(self)@.primed(
            controller.held(),
            controller.pressed(),
            dt,
            retrograde_deg,
        ));

        if self.rev_ap_active && self.rev_ap_engaged {
            self.autopilot_reverse(dt);
            proof {
                use_type_invariant(&*self);
            }
            return false;
        }
        if controller.is_key_held(Key::W) {
            self.engine_tex = Some(self.textures.tx_fly_w);
            self.integrate(dt, Direction::Up, heading)
        } else if controller.is_key_held(Key::A) {
            self.engine_tex = Some(self.textures.tx_fly_a);
            self.integrate(dt, Direction::Left, heading)
        } else if controller.is_key_held(Key::D) {
            self.engine_tex = Some(self.textures.tx_fly_d);
            self.integrate(dt, Direction::Right, heading)
        }
        if controller.is_key_held(Key::Q) {
            self.thrust_tex = Some(self.textures.tx_fly_q);
            self.rotate(dt, Direction::Left)
        } else if controller.is_key_held(Key::E) {
            self.thrust_tex = Some(self.textures.tx_fly_e);
            self.rotate(dt, Direction::Right)
        }
        proof {
            use_type_invariant(&*self);
        }
        controller.was_key_pressed(Key::Space)
    }

    /// Lets every particle fly for `dt` milliseconds, then drops those that
    /// left the field. The others keep their order.
    pub fn step_particles(&mut self, dt: u64)
        ensures
            final(self)@ == old(self)@.step_particles(dt),
            final(self)@.wf(),
    {
        proof {
            use_type_invariant(&*self);
        }
        let mut kept: Vec<Particle> = Vec::with_capacity(MAX_PARTICLES);
        let mut i: usize = 0;
        while i < self.particles.len()
            invariant
                i <= self.particles.len(),
                self.particles.len() <= MAX_PARTICLES,
                kept@ == step_all(self.particles@.take(i as int), dt),
            decreases self.particles.len() - i,
        {
            let mut particle = self.particles[i];
            particle.step(dt);
            proof {
                lemma_step_all_push(self.particles@.take(i as int), self.particles@[i as int], dt);
                assert(self.particles@.take(i as int + 1) =~= self.particles@.take(i as int).push(
                    self.particles@[i as int],
                ));
            }
            if particle.is_alive {
                kept.push(particle);
            }
            i = i + 1;
        }
        proof {
            assert(self.particles@.take(i as int) =~= self.particles@);
            lemma_step_all_alive(self.particles@, dt);
        }
        self.particles = kept;
    }

    /// Fires a particle from where the ship is, at muzzle speed along
    /// `heading`, the rotation that belongs to the ship's heading angle.
    /// When as many particles are in flight as the cap allows, nothing
    /// happens.
    pub fn pewpew(&mut self, heading: Rotor)
        ensures
            final(self)@ == old(self)@.fire(heading),
            old(self)@.particles.len() == MAX_PARTICLES ==> final(self)@ == old(self)@,
            final(self)@.particles.len() <= MAX_PARTICLES,
            final(self)@.wf(),
    {
        proof {
            use_type_invariant(&*self);
        }
        if self.particles.len() >= MAX_PARTICLES {
            return ;
        }
        let v = V2::at(0, -BULLET_VMAX).rot(heading);
        let mut flying: Vec<Particle> = Vec::new();
        core::mem::swap(&mut self.particles, &mut flying);
        flying.push(Particle::at_speed(self.pos.x, self.pos.y, v.x, v.y));
        self.particles = flying;
    }

    /// Thrusts for `dt` milliseconds in the direction `dir` of the ship's own
    /// frame, while the ship heads along `heading`.
    pub fn integrate(&mut self, dt: u64, dir: Direction, heading: Rotor)
        ensures
            final(self)@ == old(self)@.integrate(dt, dir, heading),
            final(self)@.wf(),
    {
        proof {
            use_type_invariant(&*self);
        }
        let gain = mul_add(0, SHIP_ACCEL, dt);
        let loss = mul_add(0, -SHIP_ACCEL, dt);
        let (local_gain, local_top) = match dir {
            Direction::Up => (V2::at(0, gain), V2::at(0, SHIP_VMAX)),
            Direction::Down => (V2::at(0, loss), V2::at(0, -SHIP_VMAX)),
            Direction::Left => (V2::at(gain, 0), V2::at(SHIP_VMAX, 0)),
            Direction::Right => (V2::at(loss, 0), V2::at(-SHIP_VMAX, 0)),
        };
        proof {
            assert(0 * dt == 0) by (nonlinear_arith);
            assert(local_gain == local_push(dir, dt));
        }
        let push = local_gain.rot(heading);
        let cap = local_top.rot(heading);
        let v = V2 { x: plus(self.vel.x, push.x), y: plus(self.vel.y, push.y) };
        proof {
            use_type_invariant(&heading);
            lemma_integrate_capped(self@, dt, dir, heading);
        }
        self.vel = V2 { x: hold_back(v.x, push.x, cap.x), y: hold_back(v.y, push.y, cap.y) };
    }

    /// Turns for `dt` milliseconds to the left or to the right. There is no
    /// turning up or down.
    pub fn rotate(&mut self, dt: u64, dir: Direction)
        requires
            dir == Direction::Left || dir == Direction::Right,
        ensures
            final(self)@ == old(self)@.rotate(dt, dir),
            final(self)@.wf(),
    {
        proof {
            use_type_invariant(&*self);
        }
        let vr = match dir {
            Direction::Left => -SHIP_ROT,
            _ => SHIP_ROT,
        };
        self.rotation = mul_add(self.rotation, vr, dt);
    }

    /// Lets the autopilot turn the ship for `dt` milliseconds.
    pub fn autopilot_reverse(&mut self, dt: u64)
        ensures
            final(self)@ == old(self)@.autopilot_reverse(dt),
            final(self)@.wf(),
    {
        proof {
            use_type_invariant(&*self);
        }
        match self.rev_ap_heading {
            None => {
                self.rev_ap_active = false;
            },
            Some(dest) => {
                self.rotate(dt, Direction::Left);
                let src = nose_bearing(self.rotation);
                let diff = src as i128 - dest as i128;
                if -1 <= diff && diff <= 1 {
                    self.rev_ap_active = false;
                }
                proof {
                    use_type_invariant(&*self);
                }
            },
        }
    }

    /// Appends the jobs that draw the ship and its particles to the frame's
    /// list.
    pub fn draw(&self, jobs: &mut Vec<RenderJob>)
        ensures
            job_views(final(jobs)@) == job_views(old(jobs)@) + self@.jobs(),
    {
        let cx = minus(self.pos.x, PARTICLE_SIZE);
        let cy = minus(self.pos.y, PARTICLE_SIZE);
        let ghost before = job_views(jobs@);

        jobs.push(RenderJob::UniformRotate(self.rotation));
        jobs.push(
            RenderJob::Draw(
                TexRect::from(self.textures.tx_idle, cx, cy, HULL_DEPTH, SHIP_SIZE, SHIP_SIZE),
            ),
        );
        if let Some(tx) = self.engine_tex {
            jobs.push(
                RenderJob::Draw(TexRect::from(tx, cx, cy, ENGINE_DEPTH, SHIP_SIZE, SHIP_SIZE)),
            );
        }
        if let Some(tx) = self.thrust_tex {
            jobs.push(
                RenderJob::Draw(TexRect::from(tx, cx, cy, THRUST_DEPTH, SHIP_SIZE, SHIP_SIZE)),
            );
        }
        jobs.push(RenderJob::ResetUniforms);

        let mut rects: Vec<Rect> = Vec::with_capacity(self.particles.len());
        let mut i: usize = 0;
        while i < self.particles.len()
            invariant
                i <= self.particles.len(),
                rects@ == self.particles@.take(i as int).map_values(|p: Particle| particle_rect(p)),
            decreases self.particles.len() - i,
        {
            let p = self.particles[i];
            rects.push(
                Rect { x: p.pos.x, y: p.pos.y, z: PARTICLE_DEPTH, w: PARTICLE_SIZE, h: PARTICLE_SIZE },
            );
            assert(rects@ =~= self.particles@.take(i as int + 1).map_values(
                |p: Particle| particle_rect(p),
            ));
            i = i + 1;
        }
        assert(self.particles@.take(i as int) =~= self.particles@);
        if rects.len() == 0 {
            assert(job_views(jobs@) =~= before + self@.jobs());
            return ;
        }
        jobs.push(RenderJob::DrawMany(self.textures.tx_crate, rects));
        assert(job_views(jobs@) =~= before + self@.jobs());
    }

    /// The velocity of the ship, first and second component. Neither is
    /// ever beyond the top speed.
    pub fn velocity(&self) -> (v: (i64, i64))
        ensures
            v == (self@.vel.x, self@.vel.y),
            -SHIP_VMAX <= v.0 <= SHIP_VMAX,
            -SHIP_VMAX <= v.1 <= SHIP_VMAX,
    {
        proof {
            use_type_invariant(self);
        }
        (self.vel.x, self.vel.y)
    }

    /// Where the ship is.
    pub fn position(&self) -> (p: V2)
        ensures
            p == self@.pos,
    {
        self.pos
    }

    /// The heading angle of the ship, in radians.
    pub fn rotation(&self) -> (r: i64)
        ensures
            r == self@.rotation,
    {
        self.rotation
    }

    /// Number of particles in flight. It never exceeds the cap.
    pub fn particle_count(&self) -> (n: usize)
        ensures
            n == self@.particles.len(),
            n <= MAX_PARTICLES,
    {
        proof {
            use_type_invariant(self);
        }
        self.particles.len()
    }

    /// The particles in flight, oldest first.
    pub fn particles(&self) -> (p: &Vec<Particle>)
        ensures
            p@ == self@.particles,
    {
        &self.particles
    }

    /// Whether the autopilot is still turning the ship.
    pub fn autopilot_active(&self) -> (b: bool)
        ensures
            b == (self@.rev_ap_active && self@.rev_ap_engaged),
    {
        self.rev_ap_active && self.rev_ap_engaged
    }
}

/// One component of a velocity, held back by a cap on the side to which the
/// acceleration points.
pub fn hold_back(v: i64, acc: i64, cap: i64) -> (r: i64)
    ensures
        r == capped(v, acc, cap),
{
    if acc > 0 {
        if v < cap {
            v
        } else {
            cap
        }
    } else if acc < 0 {
        if v > cap {
            v
        } else {
            cap
        }
    } else {
        v
    }
}

/// One component of the velocity under thrust: `v` is the component before,
/// `push` what the thrust adds along the axis and `top` the top velocity
/// along it, which points to the same side as the thrust.
proof fn lemma_axis_capped(v: i64, push: i64, top: i64)
    requires
        -SHIP_VMAX <= top <= SHIP_VMAX,
        push > 0 ==> top >= 0,
        push < 0 ==> top <= 0,
    ensures
        ({
            let w = capped(sat(v + push) as i64, push, top);
            &&& push > 0 ==> w <= top
            &&& push < 0 ==> w >= top
            &&& push == 0 ==> w == v
            &&& push > 0 && v + push >= top ==> w == top
            &&& push < 0 && v + push <= top ==> w == top
            &&& -SHIP_VMAX <= v <= SHIP_VMAX ==> -SHIP_VMAX <= w <= SHIP_VMAX
        }),
{
}

/// What the thrust adds and the top velocity along one axis, `m * k` and
/// `m * SHIP_VMAX` for the same `m` of at most one in magnitude, where `k`
/// is what the thrust adds up to in the ship's own frame: the top velocity
/// is within the top speed and points where the thrust points.
proof fn lemma_thrust_and_top(m: int, k: int, push: i64, top: i64)
    requires
        -ONE <= m <= ONE,
        k >= 0,
        push == sat(div_trunc(m * k, ONE as int)),
        top == sat(div_trunc(m * SHIP_VMAX, ONE as int)),
    ensures
        -SHIP_VMAX <= top <= SHIP_VMAX,
        push > 0 ==> top >= 0,
        push < 0 ==> top <= 0,
{
    assert(m * SHIP_VMAX == m * 400_000) by (nonlinear_arith)
        requires
            SHIP_VMAX == 400_000,
    ;
    assert((m > 0 ==> m * k >= 0) && (m < 0 ==> m * k <= 0) && (m == 0 ==> m * k == 0))
        by (nonlinear_arith)
        requires
            k >= 0,
    ;
}

/// What a rotation does to a vector along an axis: the products that make
/// up the turned vector, with the zeros taken out.
proof fn lemma_axis_products(c: int, n: int, k: int)
    by (nonlinear_arith)
    ensures
        c * 0 - n * k == (-n) * k,
        n * 0 + c * k == c * k,
        c * 0 - n * (-k) == n * k,
        n * 0 + c * (-k) == (-c) * k,
        c * k - n * 0 == c * k,
        n * k + c * 0 == n * k,
        c * (-k) - n * 0 == (-c) * k,
        n * (-k) + c * 0 == (-n) * k,
{
}

/// Thrust never takes the ship past its top speed. Along each axis, the
/// velocity after thrust is not beyond the top velocity on the side to which
/// the thrust points, whatever it was before; it is the top velocity once
/// the thrust has had time to reach it; it is unchanged where the thrust has
/// no part along the axis; and a ship that was within its top speed in both
/// senses still is.
pub proof fn lemma_integrate_capped(s: Ship, dt: u64, dir: Direction, heading: Rotor)
    requires
        heading.wf(),
    ensures
        ({
            let push = local_push(dir, dt).rotated(heading);
            let top = local_cap(dir).rotated(heading);
            let t = s.integrate(dt, dir, heading);
            &&& within_top_speed(top)
            &&& push.x > 0 ==> t.vel.x <= top.x
            &&& push.x < 0 ==> t.vel.x >= top.x
            &&& push.x == 0 ==> t.vel.x == s.vel.x
            &&& push.y > 0 ==> t.vel.y <= top.y
            &&& push.y < 0 ==> t.vel.y >= top.y
            &&& push.y == 0 ==> t.vel.y == s.vel.y
            &&& push.x > 0 && s.vel.x + push.x >= top.x ==> t.vel.x == top.x
            &&& push.x < 0 && s.vel.x + push.x <= top.x ==> t.vel.x == top.x
            &&& push.y > 0 && s.vel.y + push.y >= top.y ==> t.vel.y == top.y
            &&& push.y < 0 && s.vel.y + push.y <= top.y ==> t.vel.y == top.y
            &&& within_top_speed(s.vel) ==> within_top_speed(t.vel)
            &&& s.wf() ==> t.wf()
        }),
{
    heading.lemma_bounds();
    let c = heading.cos();
    let n = heading.sin();
    let push = local_push(dir, dt).rotated(heading);
    let top = local_cap(dir).rotated(heading);
    let gain = sat(SHIP_ACCEL * dt);
    let loss = sat(-SHIP_ACCEL * dt);
    assert(SHIP_ACCEL * dt >= 0 && -SHIP_ACCEL * dt == -(SHIP_ACCEL * dt) && 0 * dt == 0)
        by (nonlinear_arith)
        requires
            SHIP_ACCEL == 100,
            dt >= 0,
    ;
    // what is lost in one direction is what is gained in the other, but at
    // the far end of the range, where one more is lost
    let k = -loss;
    assert(k >= 0 && gain >= 0);
    lemma_axis_products(c, n, gain);
    lemma_axis_products(c, n, k);
    lemma_axis_products(c, n, SHIP_VMAX as int);
    match dir {
        Direction::Up => {
            lemma_thrust_and_top(-n, gain, push.x, top.x);
            lemma_thrust_and_top(c, gain, push.y, top.y);
        },
        Direction::Down => {
            lemma_thrust_and_top(n, k, push.x, top.x);
            lemma_thrust_and_top(-c, k, push.y, top.y);
        },
        Direction::Left => {
            lemma_thrust_and_top(c, gain, push.x, top.x);
            lemma_thrust_and_top(n, gain, push.y, top.y);
        },
        Direction::Right => {
            lemma_thrust_and_top(-c, k, push.x, top.x);
            lemma_thrust_and_top(-n, k, push.y, top.y);
        },
    }
    lemma_axis_capped(s.vel.x, push.x, top.x);
    lemma_axis_capped(s.vel.y, push.y, top.y);
}

/// Firing never takes the number of particles in flight past the cap: at
/// the cap it changes nothing, below the cap it adds one.
pub proof fn lemma_fire_keeps_cap(s: Ship, heading: Rotor)
    requires
        s.wf(),
    ensures
        s.fire(heading).wf(),
        s.fire(heading).particles.len() <= MAX_PARTICLES,
        s.particles.len() == MAX_PARTICLES ==> s.fire(heading) == s,
        s.particles.len() < MAX_PARTICLES ==> s.fire(heading).particles.len() == s.particles.len()
            + 1,
{
}

/// A frame keeps the ship well-formed: no more particles in flight than the
/// cap allows, and no more speed than the top speed.
pub proof fn lemma_update_keeps_wf(
    s: Ship,
    held: Set<Key>,
    pressed: Set<Key>,
    dt: u64,
    heading: Rotor,
    retrograde_deg: i64,
)
    requires
        s.wf(),
        heading.wf(),
    ensures
        s.update(held, pressed, dt, heading, retrograde_deg).wf(),
{
    lemma_step_all_alive(s.particles, dt);
    let p = s.primed(held, pressed, dt, retrograde_deg);
    assert(p.wf());
    if p.rev_ap_active && p.rev_ap_engaged {
    } else {
        if held.contains(Key::W) {
            lemma_integrate_capped(
                Ship { engine_tex: Some(p.textures.tx_fly_w), ..p },
                dt,
                Direction::Up,
                heading,
            );
        } else if held.contains(Key::A) {
            lemma_integrate_capped(
                Ship { engine_tex: Some(p.textures.tx_fly_a), ..p },
                dt,
                Direction::Left,
                heading,
            );
        } else if held.contains(Key::D) {
            lemma_integrate_capped(
                Ship { engine_tex: Some(p.textures.tx_fly_d), ..p },
                dt,
                Direction::Right,
                heading,
            );
        }
    }
}

/// The ship after it was told to fire once for each rotation of `headings`,
/// in order.
pub open spec fn fire_all(s: Ship, headings: Seq<Rotor>) -> Ship
    decreases headings.len(),
{
    if headings.len() == 0 {
        s
    } else {
        fire_all(s, headings.drop_last()).fire(headings.last())
    }
}

/// However often the ship is told to fire, no more particles are in flight
/// than the cap allows.
pub proof fn lemma_fire_all_keeps_cap(s: Ship, headings: Seq<Rotor>)
    requires
        s.wf(),
    ensures
        fire_all(s, headings).wf(),
        fire_all(s, headings).particles.len() <= MAX_PARTICLES,
    decreases headings.len(),
{
    if headings.len() > 0 {
        lemma_fire_all_keeps_cap(s, headings.drop_last());
        lemma_fire_keeps_cap(fire_all(s, headings.drop_last()), headings.last());
    }
}

/// The ship cleans up after itself: whatever transform was in force before
/// its jobs, the identity is in force after them.
pub proof fn lemma_ship_jobs_reset(before: Seq<Job>, s: Ship)
    ensures
        uniforms_after(before + s.jobs()) == Uniforms::identity_spec(),
{
    let head = seq![
        Job::UniformRotate(s.rotation),
        Job::Draw(s.hull(s.textures.tx_idle, HULL_DEPTH)),
    ] + (match s.engine_tex {
        Some(tx) => seq![Job::Draw(s.hull(tx, ENGINE_DEPTH))],
        None => Seq::empty(),
    }) + (match s.thrust_tex {
        Some(tx) => seq![Job::Draw(s.hull(tx, THRUST_DEPTH))],
        None => Seq::empty(),
    });
    let tail: Seq<Job> = if s.particles.len() == 0 {
        Seq::empty()
    } else {
        seq![
            Job::DrawMany(
                s.textures.tx_crate,
                s.particles.map_values(|p: Particle| particle_rect(p)),
            ),
        ]
    };
    assert(before + s.jobs() =~= (before + head).push(Job::ResetUniforms) + tail);
    lemma_reset_restores_identity(before + head, tail);
    if tail.len() > 0 {
        assert(tail.drop_last() =~= Seq::<Job>::empty());
    }
}

} // verus!
