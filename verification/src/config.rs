use vstd::prelude::*;

verus! {

/// Response time of the harmonic smoothing when nothing else is configured, in milliseconds.
pub const DEFAULT_RESPONSE_TIME_MS: u16 = 160;

/// Largest response time the settings offer, in milliseconds.
pub const MAX_RESPONSE_TIME_MS: u16 = 2000;

/// Step of the response time in the settings, in milliseconds.
pub const RESPONSE_TIME_STEP_MS: u16 = 20;

/// The persisted Cyma settings.
#[derive(Debug, Clone, Copy, PartialEq, Eq, Structural)]
pub struct CymaConfig {
    pub enabled: bool,
    pub response_time_ms: u16,
    pub visualization: CymaVisualization,
    pub quality: CymaQuality,
    pub particles_enabled: bool,
    pub hud_enabled: bool,
}

impl Default for CymaConfig {
    /// Cyma off, with the default response time, the flat field at medium
    /// quality, no particles and no HUD.
    fn default() -> (config: Self)
        ensures
            !config.enabled,
            config.response_time_ms == DEFAULT_RESPONSE_TIME_MS,
            config.visualization == CymaVisualization::Field2d,
            config.quality == CymaQuality::Medium,
            !config.particles_enabled,
            !config.hud_enabled,
    {
        CymaConfig {
            enabled: false,
            response_time_ms: DEFAULT_RESPONSE_TIME_MS,
            visualization: CymaVisualization::Field2d,
            quality: CymaQuality::Medium,
            particles_enabled: false,
            hud_enabled: false,
        }
    }
}

/// How the modal field is drawn.
#[derive(Debug, Clone, Copy, PartialEq, Eq, Structural)]
pub enum CymaVisualization {
    Field2d,
    Surface3d,
}

/// The rendering quality preset.
#[derive(Debug, Clone, Copy, PartialEq, Eq, Structural)]
pub enum CymaQuality {
    Low,
    Medium,
    High,
}

impl Default for CymaVisualization {
    /// The flat field.
    fn default() -> (visualization: Self)
        ensures
            visualization == CymaVisualization::Field2d,
    {
        CymaVisualization::Field2d
    }
}

impl Default for CymaQuality {
    /// The medium preset.
    fn default() -> (quality: Self)
        ensures
            quality == CymaQuality::Medium,
    {
        CymaQuality::Medium
    }
}

/// The label of a visualization in the settings and the HUD.
pub open spec fn visualization_label(visualization: CymaVisualization) -> Seq<char> {
    match visualization {
        CymaVisualization::Field2d => "2D Field"@,
        CymaVisualization::Surface3d => "3D Surface"@,
    }
}

/// The label of a quality preset in the settings and the HUD.
pub open spec fn quality_label(quality: CymaQuality) -> Seq<char> {
    match quality {
        CymaQuality::Low => "Low"@,
        CymaQuality::Medium => "Medium"@,
        CymaQuality::High => "High"@,
    }
}

impl CymaVisualization {
    /// "2D Field" or "3D Surface".
    pub fn label(self) -> (label: &'static str)
        ensures
            label@ == visualization_label(self),
    {
        match self {
            CymaVisualization::Field2d => "2D Field",
            CymaVisualization::Surface3d => "3D Surface",
        }
    }
}

impl CymaQuality {
    /// "Low", "Medium" or "High".
    pub fn label(self) -> (label: &'static str)
        ensures
            label@ == quality_label(self),
    {
        match self {
            CymaQuality::Low => "Low",
            CymaQuality::Medium => "Medium",
            CymaQuality::High => "High",
        }
    }
}

} // verus!
