use cyma_core::{
    CymaQuality, CymaRenderOptions, CymaVisualization, MAX_MODAL_COMPONENTS, MAX_PARTICLES,
    FramePlan, decode_timestamps, gpu_frame_ticks, max_modes, particle_count, plan_frame,
    quality_index,
    scaled_dimension, surface_mesh_indices, surface_mesh_size, target_matches,
};

const QUERY_BUFFER_SIZE: usize = 32;

#[test]
fn quality_presets_bound_resolution_and_modes() {
    assert_eq!(scaled_dimension(1_000, CymaQuality::Low), 400);
    assert_eq!(scaled_dimension(1_000, CymaQuality::Medium), 650);
    assert_eq!(scaled_dimension(1_000, CymaQuality::High), 1_000);
    assert_eq!(max_modes(CymaQuality::Low), 4);
    assert_eq!(max_modes(CymaQuality::Medium), 8);
    assert_eq!(max_modes(CymaQuality::High), MAX_MODAL_COMPONENTS);
}

#[test]
fn scaled_dimensions_round_up_and_never_vanish() {
    assert_eq!(scaled_dimension(0, CymaQuality::Low), 1);
    assert_eq!(scaled_dimension(1, CymaQuality::Low), 1);
    assert_eq!(scaled_dimension(3, CymaQuality::Low), 2);
    assert_eq!(scaled_dimension(7, CymaQuality::Medium), 5);
    assert_eq!(scaled_dimension(u32::MAX, CymaQuality::High), u32::MAX);
    assert_eq!(scaled_dimension(u32::MAX, CymaQuality::Medium), 2_791_728_742);
}

#[test]
fn particle_and_mesh_presets() {
    assert_eq!(particle_count(CymaQuality::Low), 128);
    assert_eq!(particle_count(CymaQuality::Medium), 384);
    assert_eq!(particle_count(CymaQuality::High), MAX_PARTICLES);
    assert_eq!(quality_index(CymaQuality::Low), 0);
    assert_eq!(quality_index(CymaQuality::Medium), 1);
    assert_eq!(quality_index(CymaQuality::High), 2);
    let options = CymaRenderOptions::default();
    assert_eq!(options.visualization, CymaVisualization::Field2d);
    assert_eq!(options.quality, CymaQuality::Medium);
    assert!(!options.particles_enabled);
}

#[test]
fn high_quality_mesh_stays_within_u16_indices() {
    let vertices = 96_u32 * 64;
    assert!(vertices <= u32::from(u16::MAX));
    let indices = surface_mesh_indices(96, 64);
    assert_eq!(indices.len(), 6 * 95 * 63);
    assert!(indices.iter().all(|index| u32::from(*index) < vertices));
}

#[test]
fn mesh_cells_are_two_triangles_in_row_major_order() {
    assert_eq!(
        surface_mesh_indices(3, 2),
        vec![0, 3, 1, 1, 3, 4, 1, 4, 2, 2, 4, 5]
    );
    assert!(surface_mesh_indices(1, 5).is_empty());
}

#[test]
fn timestamp_decode_is_fixed_size_and_deterministic() {
    let expected = [1_u64, 2, 5, 9];
    let mut bytes = [0_u8; QUERY_BUFFER_SIZE];
    for (index, value) in expected.iter().enumerate() {
        let start = index * std::mem::size_of::<u64>();
        let end = start + std::mem::size_of::<u64>();
        bytes[start..end].copy_from_slice(&value.to_ne_bytes());
    }

    assert_eq!(decode_timestamps(&bytes), Some(expected));
    assert_eq!(decode_timestamps(&bytes[..bytes.len() - 1]), None);
}

#[test]
fn frame_ticks_sum_both_passes_across_wraparound() {
    assert_eq!(gpu_frame_ticks([1, 2, 5, 9]), Some(5));
    assert_eq!(gpu_frame_ticks([u64::MAX, 1, 10, 10]), Some(2));
    assert_eq!(gpu_frame_ticks([0, u64::MAX, 0, 1]), None);
}

#[test]
fn frames_are_planned_only_for_a_visible_field() {
    let options = CymaRenderOptions {
        visualization: CymaVisualization::Surface3d,
        quality: CymaQuality::Low,
        particles_enabled: true,
    };
    assert_eq!(plan_frame(false, 800, 600, options, true, true), None);
    assert_eq!(plan_frame(true, 0, 600, options, true, true), None);
    assert_eq!(plan_frame(true, 800, 0, options, true, true), None);
    assert_eq!(
        plan_frame(true, 800, 600, options, true, true),
        Some(FramePlan {
            target_width: 320,
            target_height: 240,
            needs_depth: true,
            mode_limit: 4,
            draw_particles: true,
        })
    );
    assert_eq!(
        plan_frame(true, 1000, 1000, CymaRenderOptions::default(), true, true),
        Some(FramePlan {
            target_width: 650,
            target_height: 650,
            needs_depth: false,
            mode_limit: 8,
            draw_particles: false,
        })
    );
    let fallback = plan_frame(true, 800, 600, options, false, false).unwrap();
    assert!(!fallback.needs_depth);
    assert!(!fallback.draw_particles);
}

#[test]
fn targets_are_rebuilt_when_size_or_depth_change() {
    let plan = FramePlan {
        target_width: 320,
        target_height: 240,
        needs_depth: true,
        mode_limit: 4,
        draw_particles: false,
    };
    assert!(!target_matches(None, plan));
    assert!(target_matches(Some((320, 240, true)), plan));
    assert!(!target_matches(Some((320, 240, false)), plan));
    assert!(!target_matches(Some((321, 240, true)), plan));
    assert!(!target_matches(Some((320, 241, true)), plan));
}

#[test]
fn surface_mesh_density_follows_the_quality() {
    assert_eq!(surface_mesh_size(CymaQuality::Low), (32, 24));
    assert_eq!(surface_mesh_size(CymaQuality::Medium), (64, 40));
    assert_eq!(surface_mesh_size(CymaQuality::High), (96, 64));
    let (columns, rows) = surface_mesh_size(CymaQuality::High);
    assert_eq!(surface_mesh_indices(columns, rows).len(), 6 * 95 * 63);
}
