use cyma_core::{
    BudgetState, Chord, CymaRendererCapabilities, CymaVisualization, RendererAvailability,
    chord_line, mode_line, pitch_class_list, recognize_midi_notes, renderer_status, CymaQuality,
};

#[test]
fn hud_lists_the_sounding_pitch_classes() {
    assert_eq!(pitch_class_list(0b1001_0001), "Pitch classes: C · E · G");
    assert_eq!(pitch_class_list(0), "Pitch classes: none");
    assert_eq!(pitch_class_list(1 << 11), "Pitch classes: B");
    // Bits above B name no pitch class.
    assert_eq!(pitch_class_list(0b1111_0000_0000_0000), "Pitch classes: none");
}

#[test]
fn hud_chord_line_names_the_chord_only_while_notes_sound() {
    assert_eq!(chord_line(3, &recognize_midi_notes(&[60, 64, 67])), "CM");
    assert_eq!(chord_line(0, &Chord::Empty), "No active chord");
    assert_eq!(chord_line(1, &Chord::Empty), "No notes");
}

#[test]
fn budget_labels() {
    assert_eq!(BudgetState::Measuring.label(), "MEASURING");
    assert_eq!(BudgetState::Within60Fps.label(), "60 FPS OK");
    assert_eq!(BudgetState::OverBudget.label(), "OVER BUDGET");
}

#[test]
fn renderer_status_reports_fallbacks() {
    let all = CymaRendererCapabilities {
        surface_3d: true,
        particles: true,
        gpu_timing: true,
    };
    let flat_only = CymaRendererCapabilities {
        surface_3d: false,
        particles: false,
        gpu_timing: false,
    };
    assert_eq!(
        renderer_status(false, RendererAvailability::Ready(all), CymaVisualization::Field2d, false),
        "Disabled"
    );
    assert_eq!(
        renderer_status(true, RendererAvailability::Uninitialized, CymaVisualization::Field2d, false),
        "Not initialized"
    );
    assert_eq!(
        renderer_status(true, RendererAvailability::Unavailable, CymaVisualization::Field2d, false),
        "GPU unavailable"
    );
    assert_eq!(
        renderer_status(true, RendererAvailability::Ready(all), CymaVisualization::Surface3d, true),
        "Active"
    );
    assert_eq!(
        renderer_status(
            true,
            RendererAvailability::Ready(flat_only),
            CymaVisualization::Surface3d,
            true
        ),
        "2D fallback (3D unavailable)"
    );
    assert_eq!(
        renderer_status(
            true,
            RendererAvailability::Ready(flat_only),
            CymaVisualization::Field2d,
            true
        ),
        "Active (particles unavailable)"
    );
}

#[test]
fn hud_mode_line_joins_visualization_quality_and_status() {
    assert_eq!(
        mode_line(CymaVisualization::Surface3d, CymaQuality::Medium, "Active"),
        "3D Surface · Medium · Active"
    );
    assert_eq!(
        mode_line(CymaVisualization::Field2d, CymaQuality::Low, "GPU unavailable"),
        "2D Field · Low · GPU unavailable"
    );
}
