use sprite_engine::{Rect, Renderer, Rotate, Texture};
use sprite_engine::renderer::Frac;

fn frac(num: i64, den: i64) -> Frac {
    Frac { num, den }
}

#[test]
fn draw_maps_destination_to_normalized_device_coordinates() {
    // Full-screen view of 100 x 200.
    let mut renderer = Renderer::new(100, 200, vec![(1, 1)]);
    renderer.draw(Texture { index: 0 }, Rect { x: 10, y: 20, w: 30, h: 40 });
    let instances = renderer.instances();
    assert_eq!(instances.len(), 1);
    let inst = &instances[0];
    // ndc_x = (10 - 0) / 100 * 2 - 1 = -80/100
    assert_eq!(inst.pos_x, frac(-80, 100));
    // ndc_y = (20 - 0) / 200 * 2 - 1 = -160/200
    assert_eq!(inst.pos_y, frac(-160, 200));
    assert_eq!(inst.size_w, frac(60, 100));
    assert_eq!(inst.size_h, frac(80, 200));
    // Default: whole texture, no rotation, opaque white tint.
    assert_eq!(inst.uv_origin_x, frac(0, 1));
    assert_eq!(inst.uv_origin_y, frac(0, 1));
    assert_eq!(inst.uv_x_x, frac(1, 1));
    assert_eq!(inst.uv_x_y, frac(0, 1));
    assert_eq!(inst.uv_y_x, frac(0, 1));
    assert_eq!(inst.uv_y_y, frac(1, 1));
    assert_eq!((inst.tint_r, inst.tint_g, inst.tint_b), (255, 255, 255));
}

#[test]
fn set_view_affects_only_later_draws() {
    let mut renderer = Renderer::new(100, 100, vec![(1, 1)]);
    renderer.draw(Texture { index: 0 }, Rect { x: 0, y: 0, w: 50, h: 50 });
    renderer.set_view(Rect { x: 50, y: 0, w: 200, h: 100 });
    renderer.draw(Texture { index: 0 }, Rect { x: 0, y: 0, w: 50, h: 50 });
    let instances = renderer.instances();
    assert_eq!(instances[0].pos_x, frac(-100, 100));
    assert_eq!(instances[0].size_w, frac(100, 100));
    assert_eq!(instances[1].pos_x, frac(2 * (0 - 50) - 200, 200));
    assert_eq!(instances[1].size_w, frac(100, 200));
}

#[test]
fn rotation_90_permutes_the_uv_basis_exactly() {
    // One 64 x 128 texture at index 1.
    let mut renderer = Renderer::new(100, 100, vec![(1, 1), (64, 128)]);
    let builder = renderer.draw(Texture { index: 1 }, Rect { x: 0, y: 0, w: 10, h: 20 });
    let builder = builder.src(Rect { x: 0, y: 0, w: 10, h: 20 }).rotate(Rotate::R90);
    renderer.finish(builder);
    let inst = &renderer.instances()[0];
    // origin (x, y + h) = (0, 20), x-basis (0, -h), y-basis (w, 0),
    // x components over the width, y components over the height.
    assert_eq!(inst.uv_origin_x, frac(0, 64));
    assert_eq!(inst.uv_origin_y, frac(20, 128));
    assert_eq!(inst.uv_x_x, frac(0, 64));
    assert_eq!(inst.uv_x_y, frac(-20, 128));
    assert_eq!(inst.uv_y_x, frac(10, 64));
    assert_eq!(inst.uv_y_y, frac(0, 128));
}

#[test]
fn all_four_rotations_follow_the_corner_table() {
    let src = Rect { x: 4, y: 6, w: 10, h: 20 };
    let cases = [
        (Rotate::R0, (4, 6), (10, 0), (0, 20)),
        (Rotate::R90, (4, 26), (0, -20), (10, 0)),
        (Rotate::R180, (14, 26), (-10, 0), (0, -20)),
        (Rotate::R270, (14, 6), (0, 20), (-10, 0)),
    ];
    for (rot, origin, basis_x, basis_y) in cases {
        let mut renderer = Renderer::new(100, 100, vec![(32, 16)]);
        let builder = renderer.draw(Texture { index: 0 }, Rect { x: 0, y: 0, w: 1, h: 1 });
        renderer.finish(builder.src(src).rotate(rot));
        let inst = &renderer.instances()[0];
        assert_eq!((inst.uv_origin_x.num, inst.uv_origin_y.num), origin);
        assert_eq!((inst.uv_x_x.num, inst.uv_x_y.num), basis_x);
        assert_eq!((inst.uv_y_x.num, inst.uv_y_y.num), basis_y);
        assert_eq!(inst.uv_origin_x.den, 32);
        assert_eq!(inst.uv_origin_y.den, 16);
    }
}

#[test]
fn color_sets_the_tint_at_finish() {
    let mut renderer = Renderer::new(100, 100, vec![(1, 1)]);
    let builder = renderer.draw(Texture { index: 0 }, Rect { x: 0, y: 0, w: 1, h: 1 });
    renderer.finish(builder.color(10, 20, 30));
    let inst = &renderer.instances()[0];
    assert_eq!((inst.tint_r, inst.tint_g, inst.tint_b), (10, 20, 30));
}

#[test]
fn batching_groups_textures_into_three_runs_keeping_push_order() {
    let mut renderer = Renderer::new(100, 100, vec![(1, 1), (2, 2), (4, 4)]);
    // Texture indices in push order: [2, 0, 2, 1, 0]; each draw gets its own
    // x offset so the instances stay distinguishable after sorting.
    let pushes = [2usize, 0, 2, 1, 0];
    for (i, tex) in pushes.iter().enumerate() {
        renderer.draw(Texture { index: *tex }, Rect { x: i as i32, y: 0, w: 1, h: 1 });
    }
    let plan = renderer.draw_plan();
    // Total instance count is preserved.
    assert_eq!(plan.instances.len(), 5);
    // Exactly 3 distinct-texture runs.
    assert_eq!(plan.runs.len(), 3);
    assert_eq!((plan.runs[0].texture.index, plan.runs[0].start, plan.runs[0].count), (0, 0, 2));
    assert_eq!((plan.runs[1].texture.index, plan.runs[1].start, plan.runs[1].count), (1, 2, 1));
    assert_eq!((plan.runs[2].texture.index, plan.runs[2].start, plan.runs[2].count), (2, 3, 2));
    // Within each run the push order is preserved: the x offsets
    // recover each instance's position in the push sequence.
    let order: Vec<i64> = plan.instances.iter().map(|inst| (inst.pos_x.num + 100) / 2).collect();
    assert_eq!(order, vec![1, 4, 3, 0, 2]);
}

#[test]
fn an_empty_frame_yields_no_runs() {
    let renderer = Renderer::new(100, 100, vec![(1, 1)]);
    let plan = renderer.draw_plan();
    assert!(plan.instances.is_empty());
    assert!(plan.runs.is_empty());
}
