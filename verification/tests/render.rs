use megumin::render::{
    checkerboard, fallback_texture, fill_checkers, gen_checkers, pixel_rows, solid_pixels,
    unit_position, GpuCommand, Rect, RenderError, RenderGroup, RenderJob, TexRect, Uniforms,
    MAX_PARTICLES, MAX_RECTS, MAX_TEXTURES,
};
use megumin::units::drawing::V3;
use megumin::units::fixed::ONE;
use megumin::units::linear::V2;

fn vertex(x: i64, y: i64, z: i64, u: i64, v: i64) -> V3 {
    V3 { x, y, z, u, v }
}

fn group_with(n: usize) -> RenderGroup<u32> {
    let mut group = RenderGroup::new();
    for i in 0..n {
        group.store_texture(i as u32 * 10);
    }
    group
}

#[test]
fn limits_are_as_configured() {
    assert_eq!(MAX_PARTICLES, 256);
    assert_eq!(MAX_RECTS, 768);
    assert_eq!(MAX_TEXTURES, 128);
}

#[test]
fn unit_position_of_top_left_quarter() {
    let rect = Rect { x: 0, y: 0, z: 0, w: ONE / 2, h: ONE / 2 };
    let (x1, y1, x2, y2) = unit_position(rect);
    assert_eq!((x1, y1), (-ONE, ONE));
    assert_eq!((x2, y2), (0, 0));
}

#[test]
fn unit_position_of_whole_screen() {
    let rect = Rect { x: 0, y: 0, z: 0, w: ONE, h: ONE };
    assert_eq!(unit_position(rect), (-ONE, ONE, ONE, -ONE));
}

#[test]
fn unit_position_flips_the_vertical_axis() {
    let rect = Rect { x: ONE / 4, y: ONE / 4 * 3, z: 0, w: ONE / 4, h: ONE / 8 };
    assert_eq!(
        unit_position(rect),
        (-ONE / 2, -ONE / 2, 0, -ONE / 4 * 3)
    );
}

#[test]
fn unit_position_saturates() {
    let rect = Rect { x: i64::MAX, y: i64::MAX, z: 0, w: i64::MAX, h: i64::MAX };
    assert_eq!(unit_position(rect), (i64::MAX, i64::MIN, i64::MAX, i64::MIN));
    let rect = Rect { x: i64::MIN, y: i64::MIN, z: 0, w: 0, h: 0 };
    assert_eq!(unit_position(rect), (i64::MIN, i64::MAX, i64::MIN, i64::MAX));
}

#[test]
fn tex_rect_from_fills_every_field() {
    let r = TexRect::from(3, 1, 2, 3, 4, 5);
    assert_eq!(r.texture_id, 3);
    assert_eq!(r.dim, Rect { x: 1, y: 2, z: 3, w: 4, h: 5 });
}

#[test]
fn store_texture_hands_out_consecutive_handles() {
    let mut group: RenderGroup<&str> = RenderGroup::new();
    assert_eq!(group.texture_count(), 0);
    assert_eq!(group.store_texture("a"), 0);
    assert_eq!(group.store_texture("b"), 1);
    assert_eq!(group.store_texture("c"), 2);
    assert_eq!(group.texture_count(), 3);
    assert_eq!(*group.texture(0), "a");
    assert_eq!(*group.texture(1), "b");
    assert_eq!(*group.texture(2), "c");
}

#[test]
fn handles_stay_good_after_more_textures_come() {
    let mut group = group_with(2);
    let first = *group.texture(0);
    let second = *group.texture(1);
    for i in 0..200u32 {
        group.store_texture(1000 + i);
    }
    assert_eq!(*group.texture(0), first);
    assert_eq!(*group.texture(1), second);
    assert_eq!(*group.texture(201), 1199);
}

#[test]
fn accepts_only_known_textures() {
    let group = group_with(2);
    let good = vec![
        RenderJob::ClearDepth(ONE),
        RenderJob::Draw(TexRect::from(1, 0, 0, 0, ONE, ONE)),
        RenderJob::DrawMany(0, vec![]),
    ];
    assert!(group.accepts(&good));
    let bad = vec![RenderJob::Draw(TexRect::from(2, 0, 0, 0, ONE, ONE))];
    assert!(!group.accepts(&bad));
    let bad = vec![RenderJob::ResetUniforms, RenderJob::DrawMany(7, vec![])];
    assert!(!group.accepts(&bad));
    assert!(group.accepts(&[]));
}

#[test]
fn empty_frame_gives_no_commands() {
    let group = group_with(0);
    let cmds = group.draw(&[]).unwrap();
    assert!(cmds.is_empty());
}

#[test]
fn clears_come_through_in_order() {
    let group = group_with(0);
    let jobs = vec![RenderJob::ClearScreen(0, 0, 0, ONE), RenderJob::ClearDepth(ONE)];
    let cmds = group.draw(&jobs).unwrap();
    assert_eq!(cmds.len(), 2);
    assert!(matches!(cmds[0], GpuCommand::ClearColor(0, 0, 0, ONE)));
    assert!(matches!(cmds[1], GpuCommand::ClearDepth(ONE)));
}

#[test]
fn draw_builds_an_indexed_quad() {
    let group = group_with(1);
    let depth = -ONE / 2;
    let jobs = vec![RenderJob::Draw(TexRect::from(0, 0, 0, depth, ONE / 2, ONE / 2))];
    let cmds = group.draw(&jobs).unwrap();
    assert_eq!(cmds.len(), 1);
    match &cmds[0] {
        GpuCommand::DrawIndexed { texture_id, uniforms, vertices, indices } => {
            assert_eq!(*texture_id, 0);
            assert_eq!(*uniforms, Uniforms::identity());
            assert_eq!(
                *vertices,
                vec![
                    vertex(-ONE, ONE, depth, 0, 0),
                    vertex(-ONE, 0, depth, 0, ONE),
                    vertex(0, ONE, depth, ONE, 0),
                    vertex(0, 0, depth, ONE, ONE),
                ]
            );
            assert_eq!(*indices, vec![0, 1, 3, 0, 2, 3]);
        }
        other => panic!("not an indexed draw: {:?}", other),
    }
}

#[test]
fn draw_many_builds_six_vertices_a_rectangle() {
    let group = group_with(3);
    let rects = vec![
        Rect { x: 0, y: 0, z: 7, w: ONE / 2, h: ONE / 2 },
        Rect { x: ONE / 2, y: ONE / 2, z: 9, w: ONE / 2, h: ONE / 2 },
    ];
    let jobs = vec![RenderJob::DrawMany(2, rects)];
    let cmds = group.draw(&jobs).unwrap();
    assert_eq!(cmds.len(), 1);
    match &cmds[0] {
        GpuCommand::DrawTriangles { texture_id, uniforms, vertices } => {
            assert_eq!(*texture_id, 2);
            assert_eq!(*uniforms, Uniforms::identity());
            assert_eq!(
                *vertices,
                vec![
                    vertex(-ONE, ONE, 7, 0, 0),
                    vertex(0, ONE, 7, ONE, 0),
                    vertex(0, 0, 7, ONE, ONE),
                    vertex(-ONE, ONE, 7, 0, 0),
                    vertex(-ONE, 0, 7, 0, ONE),
                    vertex(0, 0, 7, ONE, ONE),
                    vertex(0, 0, 9, 0, 0),
                    vertex(ONE, 0, 9, ONE, 0),
                    vertex(ONE, -ONE, 9, ONE, ONE),
                    vertex(0, 0, 9, 0, 0),
                    vertex(0, -ONE, 9, 0, ONE),
                    vertex(ONE, -ONE, 9, ONE, ONE),
                ]
            );
        }
        other => panic!("not a batch: {:?}", other),
    }
}

#[test]
fn empty_batch_is_still_a_command() {
    let group = group_with(1);
    let cmds = group.draw(&[RenderJob::DrawMany(0, vec![])]).unwrap();
    assert_eq!(cmds.len(), 1);
    match &cmds[0] {
        GpuCommand::DrawTriangles { vertices, .. } => assert!(vertices.is_empty()),
        other => panic!("not a batch: {:?}", other),
    }
}

fn uniforms_of(cmd: &GpuCommand) -> Uniforms {
    match cmd {
        GpuCommand::DrawIndexed { uniforms, .. } => *uniforms,
        GpuCommand::DrawTriangles { uniforms, .. } => *uniforms,
        other => panic!("not a draw: {:?}", other),
    }
}

#[test]
fn uniforms_reach_only_the_draws_after_them() {
    let group = group_with(1);
    let quad = TexRect::from(0, 0, 0, 0, ONE, ONE);
    let jobs = vec![
        RenderJob::Draw(quad),
        RenderJob::UniformOffset(V2::at(1, 2)),
        RenderJob::Draw(quad),
        RenderJob::UniformRotate(3),
        RenderJob::UniformTranslate(V2::at(4, 5)),
        RenderJob::DrawMany(0, vec![quad.dim]),
        RenderJob::UniformOffset(V2::at(6, 7)),
        RenderJob::Draw(quad),
    ];
    let cmds = group.draw(&jobs).unwrap();
    assert_eq!(cmds.len(), 4);
    let zero = V2::at(0, 0);
    assert_eq!(uniforms_of(&cmds[0]), Uniforms { ofs: zero, rot: 0, trans: zero });
    assert_eq!(uniforms_of(&cmds[1]), Uniforms { ofs: V2::at(1, 2), rot: 0, trans: zero });
    assert_eq!(
        uniforms_of(&cmds[2]),
        Uniforms { ofs: V2::at(1, 2), rot: 3, trans: V2::at(4, 5) }
    );
    assert_eq!(
        uniforms_of(&cmds[3]),
        Uniforms { ofs: V2::at(6, 7), rot: 3, trans: V2::at(4, 5) }
    );
}

#[test]
fn reset_restores_the_identity() {
    let group = group_with(1);
    let quad = TexRect::from(0, 0, 0, 0, ONE, ONE);
    let jobs = vec![
        RenderJob::UniformOffset(V2::at(ONE, ONE)),
        RenderJob::UniformRotate(ONE),
        RenderJob::UniformTranslate(V2::at(-ONE, ONE)),
        RenderJob::Draw(quad),
        RenderJob::ResetUniforms,
        RenderJob::Draw(quad),
        RenderJob::DrawMany(0, vec![quad.dim]),
    ];
    let cmds = group.draw(&jobs).unwrap();
    assert_eq!(cmds.len(), 3);
    assert_eq!(
        uniforms_of(&cmds[0]),
        Uniforms { ofs: V2::at(ONE, ONE), rot: ONE, trans: V2::at(-ONE, ONE) }
    );
    assert_eq!(uniforms_of(&cmds[1]), Uniforms::identity());
    assert_eq!(uniforms_of(&cmds[2]), Uniforms::identity());
    assert_eq!(Uniforms::identity().ofs, V2::at(0, 0));
    assert_eq!(Uniforms::identity().rot, 0);
    assert_eq!(Uniforms::identity().trans, V2::at(0, 0));
}

#[test]
fn each_replay_starts_from_the_identity() {
    let group = group_with(1);
    let quad = TexRect::from(0, 0, 0, 0, ONE, ONE);
    let first = vec![RenderJob::UniformRotate(5), RenderJob::Draw(quad)];
    let cmds = group.draw(&first).unwrap();
    assert_eq!(uniforms_of(&cmds[0]).rot, 5);
    let second = vec![RenderJob::Draw(quad)];
    let cmds = group.draw(&second).unwrap();
    assert_eq!(uniforms_of(&cmds[0]), Uniforms::identity());
}

#[test]
fn apply_steps_one_job() {
    let mut u = Uniforms::identity();
    assert!(u.apply(&RenderJob::UniformRotate(9)).is_none());
    assert_eq!(u.rot, 9);
    assert!(u.apply(&RenderJob::UniformOffset(V2::at(1, 1))).is_none());
    assert!(u.apply(&RenderJob::UniformTranslate(V2::at(2, 2))).is_none());
    assert_eq!(u, Uniforms { ofs: V2::at(1, 1), rot: 9, trans: V2::at(2, 2) });
    let cmd = u.apply(&RenderJob::ClearDepth(4)).unwrap();
    assert!(matches!(cmd, GpuCommand::ClearDepth(4)));
    assert_eq!(u.rot, 9);
    assert!(u.apply(&RenderJob::ResetUniforms).is_none());
    assert_eq!(u, Uniforms::identity());
}

#[test]
fn a_full_batch_fits() {
    let group = group_with(1);
    let rect = Rect { x: 0, y: 0, z: 0, w: 1, h: 1 };
    let jobs = vec![RenderJob::DrawMany(0, vec![rect; MAX_RECTS])];
    let cmds = group.draw(&jobs).unwrap();
    match &cmds[0] {
        GpuCommand::DrawTriangles { vertices, .. } => assert_eq!(vertices.len(), 6 * MAX_RECTS),
        other => panic!("not a batch: {:?}", other),
    }
}

#[test]
fn an_overfull_batch_is_reported() {
    let group = group_with(1);
    let rect = Rect { x: 0, y: 0, z: 0, w: 1, h: 1 };
    let jobs = vec![
        RenderJob::ClearDepth(ONE),
        RenderJob::DrawMany(0, vec![rect; MAX_RECTS]),
        RenderJob::DrawMany(0, vec![rect; MAX_RECTS + 1]),
        RenderJob::DrawMany(0, vec![rect; MAX_RECTS + 2]),
    ];
    match group.draw(&jobs) {
        Err(e) => assert_eq!(e, RenderError::CapacityExceeded(2)),
        Ok(_) => panic!("an overfull batch was drawn"),
    }
}

#[test]
fn gen_checkers_paints_magenta_and_black() {
    let mut buf = solid_pixels(256, 256, (0, 0, 0, 0));
    gen_checkers(&mut buf);
    let magenta = (255, 0, 255, 255);
    let black = (0, 0, 0, 255);
    assert_eq!(buf[0][0], magenta);
    assert_eq!(buf[31][31], magenta);
    assert_eq!(buf[0][32], black);
    assert_eq!(buf[32][0], black);
    assert_eq!(buf[32][32], magenta);
    assert_eq!(buf[255][255], magenta);
    assert_eq!(buf[255][0], black);
    for row in 0..256 {
        for col in 0..256 {
            let want = if (row / 32 + col / 32) % 2 == 0 { magenta } else { black };
            assert_eq!(buf[row][col], want);
        }
    }
}

#[test]
fn fill_checkers_leaves_the_rest_alone() {
    let mut buf = solid_pixels(300, 260, (9, 9, 9, 9));
    fill_checkers(&mut buf, (1, 1, 1, 1), (2, 2, 2, 2));
    assert_eq!(buf.len(), 300);
    assert_eq!(buf[0].len(), 260);
    assert_eq!(buf[0][0], (1, 1, 1, 1));
    assert_eq!(buf[0][255], (2, 2, 2, 2));
    assert_eq!(buf[0][256], (9, 9, 9, 9));
    assert_eq!(buf[256][0], (9, 9, 9, 9));
    assert_eq!(buf[299][259], (9, 9, 9, 9));
}

#[test]
fn fallback_texture_is_the_checkerboard() {
    let buf = fallback_texture();
    assert_eq!(buf.len(), 256);
    assert!(buf.iter().all(|row| row.len() == 256));
    assert_eq!(buf, checkerboard((255, 0, 255, 255), (0, 0, 0, 255)));
    assert_eq!(buf[64][64], (255, 0, 255, 255));
    assert_eq!(buf[64][96], (0, 0, 0, 255));
}

#[test]
fn solid_pixels_has_the_size_asked_for() {
    let buf = solid_pixels(2, 3, (1, 2, 3, 4));
    assert_eq!(buf, vec![vec![(1, 2, 3, 4); 3]; 2]);
    assert!(solid_pixels(0, 5, (0, 0, 0, 0)).is_empty());
}

#[test]
fn pixel_rows_cuts_row_by_row() {
    let raw: Vec<u8> = (0..24).collect();
    let rows = pixel_rows(3, 2, &raw).unwrap();
    assert_eq!(
        rows,
        vec![
            vec![(0, 1, 2, 3), (4, 5, 6, 7), (8, 9, 10, 11)],
            vec![(12, 13, 14, 15), (16, 17, 18, 19), (20, 21, 22, 23)],
        ]
    );
}

#[test]
fn pixel_rows_wants_four_bytes_a_pixel() {
    let raw: Vec<u8> = (0..24).collect();
    assert!(pixel_rows(3, 3, &raw).is_none());
    assert!(pixel_rows(2, 2, &raw).is_none());
    assert!(pixel_rows(usize::MAX, 2, &raw).is_none());
    assert!(pixel_rows(usize::MAX / 4, 2, &raw).is_none());
    assert_eq!(pixel_rows(0, 0, &[]).unwrap(), Vec::<Vec<(u8, u8, u8, u8)>>::new());
    assert_eq!(pixel_rows(0, 2, &[]).unwrap(), vec![vec![], vec![]]);
    assert_eq!(pixel_rows(6, 1, &raw).unwrap().len(), 1);
}

#[test]
fn a_failed_upload_leaves_the_store_alone() {
    let mut group: RenderGroup<&str> = RenderGroup::new();
    assert_eq!(group.store_uploaded::<String>(Ok("a")), Ok(0));
    assert_eq!(group.store_uploaded(Err("out of memory".to_string())), Err("out of memory".to_string()));
    assert_eq!(group.texture_count(), 1);
    assert_eq!(group.store_uploaded::<String>(Ok("b")), Ok(1));
    assert_eq!(group.texture_count(), 2);
    assert_eq!(*group.texture(0), "a");
    assert_eq!(*group.texture(1), "b");
}

