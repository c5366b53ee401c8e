use megumin::entities::scrolly_box::Direction;
use megumin::entities::sprite::{
    hold_back, nose_bearing, Particle, Sprite, SpriteTextures, BULLET_VMAX, ENGINE_DEPTH,
    HULL_DEPTH, PARTICLE_DEPTH, PARTICLE_SIZE, SHIP_ACCEL, SHIP_ROT, SHIP_SIZE, SHIP_START,
    SHIP_VMAX, THRUST_DEPTH,
};
use megumin::input::{Input, Key};
use megumin::render::{Rect, RenderJob, TexRect, MAX_PARTICLES};
use megumin::units::fixed::{HALF_PI, ONE, PI, TWO_PI};
use megumin::units::linear::{Rotor, V2};

fn textures() -> SpriteTextures {
    SpriteTextures {
        tx_crate: 0,
        tx_idle: 1,
        tx_fly_w: 2,
        tx_fly_a: 3,
        tx_fly_s: 4,
        tx_fly_d: 5,
        tx_fly_q: 6,
        tx_fly_e: 7,
    }
}

fn ahead() -> Rotor {
    Rotor::identity()
}

fn holding(keys: &[Key]) -> Input {
    let mut input = Input::new();
    for key in keys {
        input.key_down_event(*key);
    }
    input.begin_new_frame();
    input
}

fn pressing(keys: &[Key]) -> Input {
    let mut input = Input::new();
    for key in keys {
        input.key_down_event(*key);
    }
    input
}

#[test]
fn constants_are_the_configured_values() {
    assert_eq!(SHIP_ACCEL, 100);
    assert_eq!(SHIP_VMAX, 400_000);
    assert_eq!(SHIP_ROT, 3_141_593);
    assert_eq!(BULLET_VMAX, 700_000);
    assert_eq!(SHIP_SIZE, 35_000_000);
    assert_eq!(PARTICLE_SIZE * 2, SHIP_SIZE);
    assert_eq!(PI, 3_141_592_654);
    assert_eq!(TWO_PI, 2 * PI);
    assert_eq!(HALF_PI * 2, PI);
}

#[test]
fn particle_lives_on_the_border_and_dies_past_it() {
    let mut p = Particle::at_speed(0, 0, 0, ONE);
    assert!(p.is_alive);
    assert_eq!(p.pos, V2::at(0, 0));
    assert_eq!(p.vel, V2::at(0, ONE));
    p.step(0);
    assert!(p.is_alive);
    p.step(1);
    assert_eq!(p.pos, V2::at(0, ONE));
    assert!(p.is_alive);
    p.step(1);
    assert_eq!(p.pos, V2::at(0, 2 * ONE));
    assert!(!p.is_alive);
}

#[test]
fn particle_dies_one_step_past_each_border() {
    for (vx, vy) in [(1, 0), (-1, 0), (0, 1), (0, -1)] {
        let mut p = Particle::at_speed(0, 0, vx, vy);
        p.step(ONE as u64);
        assert!(p.is_alive, "on the border with velocity ({}, {})", vx, vy);
        p.step(1);
        assert!(!p.is_alive, "past the border with velocity ({}, {})", vx, vy);
    }
}

#[test]
fn particle_that_comes_back_lives_again() {
    let mut p = Particle::at_speed(2 * ONE, 0, -ONE, 0);
    p.step(0);
    assert!(!p.is_alive);
    p.step(1);
    assert!(p.is_alive);
}

#[test]
fn new_ship_rests_in_the_middle() {
    let ship = Sprite::new(textures());
    assert_eq!(ship.position(), V2::at(SHIP_START, SHIP_START));
    assert_eq!(SHIP_START, ONE / 2);
    assert_eq!(ship.velocity(), (0, 0));
    assert_eq!(ship.rotation(), 0);
    assert_eq!(ship.particle_count(), 0);
    assert!(!ship.autopilot_active());
}

#[test]
fn thrust_along_the_nose() {
    let mut ship = Sprite::new(textures());
    ship.integrate(8, Direction::Up, ahead());
    assert_eq!(ship.velocity(), (0, 800));
    ship.integrate(8, Direction::Down, ahead());
    assert_eq!(ship.velocity(), (0, 0));
    ship.integrate(10, Direction::Left, ahead());
    assert_eq!(ship.velocity(), (1000, 0));
    ship.integrate(20, Direction::Right, ahead());
    assert_eq!(ship.velocity(), (-1000, 0));
}

#[test]
fn thrust_is_turned_by_the_heading() {
    let quarter = Rotor::new(0, ONE).unwrap();
    let mut ship = Sprite::new(textures());
    ship.integrate(8, Direction::Up, quarter);
    assert_eq!(ship.velocity(), (-800, 0));
    let mut ship = Sprite::new(textures());
    let tilted = Rotor::new(600_000_000, 800_000_000).unwrap();
    ship.integrate(10, Direction::Up, tilted);
    assert_eq!(ship.velocity(), (-800, 600));
}

#[test]
fn speed_never_passes_the_top_speed() {
    for dir in [Direction::Up, Direction::Down, Direction::Left, Direction::Right] {
        let mut ship = Sprite::new(textures());
        for _ in 0..1000 {
            ship.integrate(16, dir, ahead());
            let (vx, vy) = ship.velocity();
            assert!(vx.abs() <= SHIP_VMAX && vy.abs() <= SHIP_VMAX);
        }
        let want = match dir {
            Direction::Up => (0, SHIP_VMAX),
            Direction::Down => (0, -SHIP_VMAX),
            Direction::Left => (SHIP_VMAX, 0),
            Direction::Right => (-SHIP_VMAX, 0),
        };
        assert_eq!(ship.velocity(), want);
        ship.integrate(u64::MAX, dir, ahead());
        assert_eq!(ship.velocity(), want);
    }
}

#[test]
fn top_speed_holds_under_a_tilted_heading() {
    let tilted = Rotor::new(600_000_000, -800_000_000).unwrap();
    let mut ship = Sprite::new(textures());
    for _ in 0..2000 {
        ship.integrate(16, Direction::Up, tilted);
    }
    assert_eq!(ship.velocity(), (320_000, 240_000));
    for _ in 0..2000 {
        ship.integrate(16, Direction::Down, tilted);
    }
    assert_eq!(ship.velocity(), (-320_000, -240_000));
}

#[test]
fn hold_back_picks_the_side_of_the_acceleration() {
    assert_eq!(hold_back(5, 1, 3), 3);
    assert_eq!(hold_back(2, 1, 3), 2);
    assert_eq!(hold_back(-5, -1, -3), -3);
    assert_eq!(hold_back(-2, -1, -3), -2);
    assert_eq!(hold_back(5, -1, -3), 5);
    assert_eq!(hold_back(-5, 1, 3), -5);
    assert_eq!(hold_back(99, 0, 3), 99);
    assert_eq!(hold_back(-99, 0, 3), -99);
}

#[test]
fn turning_integrates_the_rate() {
    let mut ship = Sprite::new(textures());
    ship.rotate(8, Direction::Right);
    assert_eq!(ship.rotation(), 8 * SHIP_ROT);
    ship.rotate(16, Direction::Left);
    assert_eq!(ship.rotation(), -8 * SHIP_ROT);
    ship.rotate(u64::MAX, Direction::Left);
    assert_eq!(ship.rotation(), i64::MIN);
}

#[test]
fn firing_spawns_at_the_ship() {
    let mut ship = Sprite::new(textures());
    ship.pewpew(ahead());
    assert_eq!(ship.particle_count(), 1);
    let p = ship.particles()[0];
    assert_eq!(p.pos, V2::at(SHIP_START, SHIP_START));
    assert_eq!(p.vel, V2::at(0, -BULLET_VMAX));
    assert!(p.is_alive);
    let quarter = Rotor::new(0, ONE).unwrap();
    ship.pewpew(quarter);
    assert_eq!(ship.particles()[1].vel, V2::at(BULLET_VMAX, 0));
}

#[test]
fn firing_at_the_cap_does_nothing() {
    let mut ship = Sprite::new(textures());
    for i in 0..MAX_PARTICLES {
        assert_eq!(ship.particle_count(), i);
        ship.pewpew(ahead());
    }
    assert_eq!(ship.particle_count(), MAX_PARTICLES);
    let before = ship.particles().clone();
    for _ in 0..100 {
        ship.pewpew(Rotor::new(0, ONE).unwrap());
        assert_eq!(ship.particle_count(), MAX_PARTICLES);
    }
    assert_eq!(*ship.particles(), before);
}

#[test]
fn particles_fly_and_leave() {
    let mut ship = Sprite::new(textures());
    ship.pewpew(ahead());
    ship.step_particles(1000);
    assert_eq!(ship.particle_count(), 1);
    assert_eq!(ship.particles()[0].pos, V2::at(SHIP_START, SHIP_START - 1000 * BULLET_VMAX));
    ship.pewpew(ahead());
    ship.step_particles(1200);
    // the first is at 0.5 - 1.54 = -1.04 and gone, the second at -0.34
    assert_eq!(ship.particle_count(), 1);
    assert_eq!(ship.particles()[0].pos, V2::at(SHIP_START, SHIP_START - 1200 * BULLET_VMAX));
    ship.step_particles(1_000_000);
    assert_eq!(ship.particle_count(), 0);
}

#[test]
fn cap_frees_up_when_particles_leave() {
    let mut ship = Sprite::new(textures());
    for _ in 0..MAX_PARTICLES + 10 {
        ship.pewpew(ahead());
    }
    assert_eq!(ship.particle_count(), MAX_PARTICLES);
    ship.step_particles(10_000);
    assert_eq!(ship.particle_count(), 0);
    ship.pewpew(ahead());
    assert_eq!(ship.particle_count(), 1);
}

#[test]
fn update_thrusts_under_w() {
    let mut ship = Sprite::new(textures());
    let fire = ship.update(&holding(&[Key::W]), 8, ahead(), 0);
    assert!(!fire);
    assert_eq!(ship.velocity(), (0, 800));
    assert_eq!(ship.rotation(), 0);
}

#[test]
fn update_prefers_w_over_a_over_d() {
    let mut ship = Sprite::new(textures());
    ship.update(&holding(&[Key::W, Key::A, Key::D]), 8, ahead(), 0);
    assert_eq!(ship.velocity(), (0, 800));
    let mut ship = Sprite::new(textures());
    ship.update(&holding(&[Key::A, Key::D]), 8, ahead(), 0);
    assert_eq!(ship.velocity(), (800, 0));
    let mut ship = Sprite::new(textures());
    ship.update(&holding(&[Key::D]), 8, ahead(), 0);
    assert_eq!(ship.velocity(), (-800, 0));
}

#[test]
fn update_turns_under_q_and_e() {
    let mut ship = Sprite::new(textures());
    ship.update(&holding(&[Key::Q]), 8, ahead(), 0);
    assert_eq!(ship.rotation(), -8 * SHIP_ROT);
    ship.update(&holding(&[Key::E]), 8, ahead(), 0);
    assert_eq!(ship.rotation(), 0);
    ship.update(&holding(&[Key::Q, Key::E]), 8, ahead(), 0);
    assert_eq!(ship.rotation(), -8 * SHIP_ROT);
    ship.update(&holding(&[Key::W, Key::E]), 8, ahead(), 0);
    assert_eq!(ship.rotation(), 0);
    assert_eq!(ship.velocity(), (0, 800));
}

#[test]
fn update_asks_for_fire_when_space_goes_down() {
    let mut ship = Sprite::new(textures());
    assert!(ship.update(&pressing(&[Key::Space]), 8, ahead(), 0));
    assert_eq!(ship.particle_count(), 0);
    assert!(!ship.update(&holding(&[Key::Space]), 8, ahead(), 0));
    assert!(!ship.update(&Input::new(), 8, ahead(), 0));
}

#[test]
fn update_steps_particles_first() {
    let mut ship = Sprite::new(textures());
    ship.pewpew(ahead());
    ship.update(&Input::new(), 10, ahead(), 0);
    assert_eq!(ship.particles()[0].pos, V2::at(SHIP_START, SHIP_START - 10 * BULLET_VMAX));
}

#[test]
fn autopilot_at_rest_lets_go_at_once() {
    let mut ship = Sprite::new(textures());
    let fire = ship.update(&pressing(&[Key::S, Key::Space]), 8, ahead(), 45);
    assert!(!fire);
    assert!(!ship.autopilot_active());
    assert_eq!(ship.rotation(), 0);
    // the key is still down: the autopilot stays engaged but idle, and the
    // ship answers to its keys again
    let mut input = holding(&[Key::S, Key::W]);
    input.key_down_event(Key::Space);
    assert!(ship.update(&input, 8, ahead(), 45));
    assert_eq!(ship.velocity(), (0, 800));
}

#[test]
fn autopilot_turns_left_until_aligned() {
    let mut ship = Sprite::new(textures());
    ship.update(&holding(&[Key::W]), 8, ahead(), 0);
    assert_eq!(ship.velocity(), (0, 800));
    // moving along the nose at bearing 90, so the way back is at -90
    let fire = ship.update(&pressing(&[Key::S, Key::Space, Key::W]), 100, ahead(), -90);
    assert!(!fire);
    assert!(ship.autopilot_active());
    assert_eq!(ship.rotation(), -100 * SHIP_ROT);
    assert_eq!(ship.velocity(), (0, 800));
    let mut frames = 1;
    while ship.autopilot_active() {
        ship.update(&holding(&[Key::S]), 100, ahead(), 0);
        frames += 1;
        assert!(frames < 100);
    }
    // half a turn at half a turn a second, a tenth of a second a frame
    assert_eq!(frames, 10);
    assert_eq!(ship.rotation(), -1000 * SHIP_ROT);
    assert!((nose_bearing(ship.rotation()) - -90).abs() <= 1);
}

#[test]
fn autopilot_lets_go_when_the_key_comes_up() {
    let mut ship = Sprite::new(textures());
    ship.update(&holding(&[Key::W]), 8, ahead(), 0);
    ship.update(&pressing(&[Key::S]), 8, ahead(), -90);
    assert!(ship.autopilot_active());
    ship.update(&holding(&[Key::Q]), 8, ahead(), 0);
    assert!(!ship.autopilot_active());
    assert_eq!(ship.rotation(), -16 * SHIP_ROT);
}

#[test]
fn nose_bearing_wraps_into_half_turns() {
    assert_eq!(nose_bearing(0), 90);
    assert_eq!(nose_bearing(HALF_PI), 180);
    assert_eq!(nose_bearing(-HALF_PI), 0);
    assert_eq!(nose_bearing(-PI), -90);
    assert_eq!(nose_bearing(PI), -90);
    assert_eq!(nose_bearing(TWO_PI), 90);
    assert_eq!(nose_bearing(-TWO_PI), 90);
    assert_eq!(nose_bearing(HALF_PI + 1), -179);
    let d = nose_bearing(i64::MAX);
    assert!((-180..=180).contains(&d));
    let d = nose_bearing(i64::MIN);
    assert!((-180..=180).contains(&d));
}

fn same_quad(job: &RenderJob, want: TexRect) -> bool {
    match job {
        RenderJob::Draw(quad) => *quad == want,
        _ => false,
    }
}

#[test]
fn draw_of_a_resting_ship() {
    let ship = Sprite::new(textures());
    let mut jobs = vec![RenderJob::ClearDepth(ONE)];
    ship.draw(&mut jobs);
    assert_eq!(jobs.len(), 4);
    assert!(matches!(jobs[0], RenderJob::ClearDepth(ONE)));
    assert!(matches!(jobs[1], RenderJob::UniformRotate(0)));
    let corner = SHIP_START - PARTICLE_SIZE;
    assert_eq!(corner, 482_500_000);
    assert!(same_quad(
        &jobs[2],
        TexRect::from(1, corner, corner, HULL_DEPTH, SHIP_SIZE, SHIP_SIZE)
    ));
    assert!(matches!(jobs[3], RenderJob::ResetUniforms));
}

#[test]
fn draw_of_a_busy_ship() {
    let mut ship = Sprite::new(textures());
    ship.pewpew(ahead());
    ship.pewpew(ahead());
    ship.update(&holding(&[Key::A, Key::E]), 8, ahead(), 0);
    let mut jobs = Vec::new();
    ship.draw(&mut jobs);
    assert_eq!(jobs.len(), 6);
    assert!(matches!(jobs[0], RenderJob::UniformRotate(r) if r == 8 * SHIP_ROT));
    let corner = SHIP_START - PARTICLE_SIZE;
    assert!(same_quad(
        &jobs[1],
        TexRect::from(1, corner, corner, HULL_DEPTH, SHIP_SIZE, SHIP_SIZE)
    ));
    assert!(same_quad(
        &jobs[2],
        TexRect::from(3, corner, corner, ENGINE_DEPTH, SHIP_SIZE, SHIP_SIZE)
    ));
    assert!(same_quad(
        &jobs[3],
        TexRect::from(7, corner, corner, THRUST_DEPTH, SHIP_SIZE, SHIP_SIZE)
    ));
    assert!(matches!(jobs[4], RenderJob::ResetUniforms));
    match &jobs[5] {
        RenderJob::DrawMany(texture_id, rects) => {
            assert_eq!(*texture_id, 0);
            let at = SHIP_START - 8 * BULLET_VMAX;
            let want = Rect {
                x: SHIP_START,
                y: at,
                z: PARTICLE_DEPTH,
                w: PARTICLE_SIZE,
                h: PARTICLE_SIZE,
            };
            assert_eq!(*rects, vec![want, want]);
        }
        other => panic!("not a batch: {:?}", other),
    }
}

#[test]
fn flames_go_out_with_the_next_frame() {
    let mut ship = Sprite::new(textures());
    ship.update(&holding(&[Key::W, Key::Q]), 8, ahead(), 0);
    let mut jobs = Vec::new();
    ship.draw(&mut jobs);
    assert_eq!(jobs.len(), 5);
    ship.update(&Input::new(), 8, ahead(), 0);
    let mut jobs = Vec::new();
    ship.draw(&mut jobs);
    assert_eq!(jobs.len(), 3);
}

#[test]
fn depths_are_layered() {
    assert_eq!(HULL_DEPTH, -500_000_000);
    assert_eq!(ENGINE_DEPTH, -540_000_000);
    assert_eq!(THRUST_DEPTH, -550_000_000);
    assert_eq!(PARTICLE_DEPTH, -560_000_000);
}

#[test]
fn thrust_across_a_shallow_heading_is_not_rounded_away() {
    // the nose half a hundredth of a radian off the first axis
    let shallow = Rotor::new(5_000_000, 999_987_500).unwrap();
    let mut ship = Sprite::new(textures());
    ship.integrate(8, Direction::Up, shallow);
    // 800 billionths are added along the nose: (-sin, cos) of them
    assert_eq!(ship.velocity(), (-799, 4));
}

