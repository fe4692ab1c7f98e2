use ballpit::frame::{frame_step, surface_size, FrameStep, SurfaceStatus, MAX_SURFACE_DIM};
use ballpit::layout::{format_size, instance_raw_layout, StepMode, VertexFormat};
use ballpit::mesh::{model_format, sequential_indices, triangles, ModelFormat};
use ballpit::pattern::{all_patterns, pick_pattern, Pattern};
use rand::rngs::StdRng;
use rand::SeedableRng;

#[test]
fn pattern_codes() {
    let codes: Vec<u32> = all_patterns().into_iter().map(|p| p.code()).collect();
    assert_eq!(codes, vec![0, 1, 2, 3, 4]);
    assert_eq!(Pattern::Bubble.code(), 4);
}

#[test]
fn pick_pattern_picks_from_the_list() {
    let mut rng = StdRng::seed_from_u64(1);
    let all = all_patterns();
    for _ in 0..50 {
        assert!(all.contains(&pick_pattern(&mut rng, &all)));
    }
    let only = vec![Pattern::Stripe2];
    assert_eq!(pick_pattern(&mut rng, &only), Pattern::Stripe2);
}

#[test]
fn instance_layout_matches_record() {
    let l = instance_raw_layout();
    assert_eq!(l.array_stride, 136);
    assert_eq!(l.step_mode, StepMode::Instance);
    let offsets: Vec<u64> = l.attributes.iter().map(|a| a.offset).collect();
    assert_eq!(offsets, vec![0, 16, 32, 48, 64, 76, 88, 100, 116, 132]);
    let locations: Vec<u32> = l.attributes.iter().map(|a| a.shader_location).collect();
    assert_eq!(locations, (5..15).collect::<Vec<u32>>());
    assert_eq!(l.attributes[4].format, VertexFormat::Float32x3);
    assert_eq!(l.attributes[9].format, VertexFormat::Uint32);
    let last = l.attributes[9];
    assert_eq!(last.offset + format_size(last.format), l.array_stride);
}

#[test]
fn surface_size_caps_and_rejects_empty() {
    assert_eq!(surface_size(0, 100), None);
    assert_eq!(surface_size(100, 0), None);
    assert_eq!(surface_size(800, 600), Some((800, 600)));
    assert_eq!(surface_size(4000, 2048), Some((MAX_SURFACE_DIM, 2048)));
    assert_eq!(surface_size(2049, 3000), Some((2048, 2048)));
}

#[test]
fn frame_steps() {
    assert_eq!(frame_step(SurfaceStatus::Success), FrameStep::Draw);
    assert_eq!(frame_step(SurfaceStatus::Suboptimal), FrameStep::Draw);
    assert_eq!(frame_step(SurfaceStatus::Timeout), FrameStep::Retry);
    assert_eq!(frame_step(SurfaceStatus::Occluded), FrameStep::Retry);
    assert_eq!(frame_step(SurfaceStatus::Validation), FrameStep::Retry);
    assert_eq!(frame_step(SurfaceStatus::Outdated), FrameStep::Reconfigure);
    assert_eq!(frame_step(SurfaceStatus::Lost), FrameStep::Fail);
}

#[test]
fn model_format_by_name() {
    assert_eq!(model_format("ball.glb"), ModelFormat::Gltf);
    assert_eq!(model_format("Hole.GLB"), ModelFormat::Gltf);
    assert_eq!(model_format("scene.GlTf"), ModelFormat::Gltf);
    assert_eq!(model_format("cube.obj"), ModelFormat::Obj);
    assert_eq!(model_format("glb"), ModelFormat::Obj);
    assert_eq!(model_format("ball.glb.obj"), ModelFormat::Obj);
    assert_eq!(model_format("émoji.glb"), ModelFormat::Gltf);
    assert_eq!(model_format(""), ModelFormat::Obj);
}

#[test]
fn triangles_group_by_three() {
    assert_eq!(triangles(&[0, 1, 2, 2, 1, 3]), vec![[0, 1, 2], [2, 1, 3]]);
    assert_eq!(triangles(&[4, 5, 6, 7, 8]), vec![[4, 5, 6]]);
    assert!(triangles(&[1, 2]).is_empty());
}

#[test]
fn sequential_indices_count_up() {
    assert_eq!(sequential_indices(4), vec![0, 1, 2, 3]);
    assert!(sequential_indices(0).is_empty());
}
