use cyma_core::{
    CymaConfig, CymaQuality, CymaVisualization, DEFAULT_RESPONSE_TIME_MS, MAX_RESPONSE_TIME_MS,
    RESPONSE_TIME_STEP_MS,
};

#[test]
fn defaults_are_backwards_compatible() {
    let config = CymaConfig::default();
    assert!(!config.enabled);
    assert_eq!(config.response_time_ms, DEFAULT_RESPONSE_TIME_MS);
}

#[test]
fn defaults_draw_the_flat_field_without_extras() {
    let config = CymaConfig::default();
    assert_eq!(config.visualization, CymaVisualization::Field2d);
    assert_eq!(config.quality, CymaQuality::Medium);
    assert!(!config.particles_enabled);
    assert!(!config.hud_enabled);
}

#[test]
fn presets_and_labels() {
    assert_eq!(CymaVisualization::default(), CymaVisualization::Field2d);
    assert_eq!(CymaQuality::default(), CymaQuality::Medium);
    assert_eq!(CymaVisualization::Field2d.label(), "2D Field");
    assert_eq!(CymaVisualization::Surface3d.label(), "3D Surface");
    assert_eq!(CymaQuality::Low.label(), "Low");
    assert_eq!(CymaQuality::Medium.label(), "Medium");
    assert_eq!(CymaQuality::High.label(), "High");
    assert_eq!(DEFAULT_RESPONSE_TIME_MS, 160);
    assert_eq!(MAX_RESPONSE_TIME_MS % RESPONSE_TIME_STEP_MS, 0);
}
