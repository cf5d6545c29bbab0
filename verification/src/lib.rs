//! Musical analysis for the Cyma harmonic visualizer: pitch classes, chord
//! recognition from MIDI notes, the MIDI note state that feeds it, the
//! user/file source split, the renderer's presets and per-frame decisions,
//! and the text of the educational HUD.

mod analysis;
mod bits;
mod chord;
mod config;
mod hud;
mod midi;
mod pitch;
mod render;
mod sources;

pub use chord::{
    Chord, ChordQuality, deduce_chord_name, recognize_midi_notes, recognize_pitch_class_mask,
};
pub use config::{
    CymaConfig, CymaQuality, CymaVisualization, DEFAULT_RESPONSE_TIME_MS, MAX_RESPONSE_TIME_MS,
    RESPONSE_TIME_STEP_MS,
};
pub use hud::{
    BudgetState, RendererAvailability, chord_line, mode_line, pitch_class_list, renderer_status,
};
pub use midi::{MidiEvent, MidiInputError, MidiModel, MidiState, NoteState};
pub use pitch::{PITCH_CLASS_COUNT, PitchClass};
pub use render::{
    CymaRenderOptions, CymaRendererCapabilities, FramePlan, MAX_MODAL_COMPONENTS, MAX_PARTICLES,
    decode_timestamps, gpu_frame_ticks, max_modes, particle_count, plan_frame, quality_index,
    scaled_dimension, surface_mesh_indices, surface_mesh_size, target_matches,
};
pub use sources::{ChannelMessage, CymaMidiSource, CymaSources, to_cyma_midi_event};
