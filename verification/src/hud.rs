use vstd::prelude::*;

use crate::bits::has_bit;
use crate::chord::{Chord, chord_name};
use crate::config::{CymaQuality, CymaVisualization, quality_label, visualization_label};
use crate::pitch::{PITCH_CLASS_COUNT, PitchClass, pitch_class_name};
use crate::render::CymaRendererCapabilities;

verus! {

/// The names of the pitch classes below `upto` whose bit is set in the mask, from C up.
pub open spec fn sounding_class_names(mask: u16, upto: nat) -> Seq<Seq<char>>
    decreases upto,
{
    if upto == 0 {
        Seq::empty()
    } else if has_bit(mask, (upto - 1) as nat) {
        sounding_class_names(mask, (upto - 1) as nat).push(pitch_class_name((upto - 1) as nat))
    } else {
        sounding_class_names(mask, (upto - 1) as nat)
    }
}

/// The parts written one after another with `separator` between each two.
pub open spec fn join(parts: Seq<Seq<char>>, separator: Seq<char>) -> Seq<char>
    decreases parts.len(),
{
    if parts.len() == 0 {
        Seq::empty()
    } else if parts.len() == 1 {
        parts[0]
    } else {
        join(parts.drop_last(), separator) + separator + parts.last()
    }
}

/// Number of set bits of the mask below `upto`.
pub open spec fn set_bits_below(mask: u16, upto: nat) -> nat
    decreases upto,
{
    if upto == 0 {
        0
    } else {
        set_bits_below(mask, (upto - 1) as nat) + if has_bit(mask, (upto - 1) as nat) {
            1nat
        } else {
            0nat
        }
    }
}

/// `positions` are increasing set bits of the mask below `upto`, and
/// `names` are their pitch-class names, one for one.
pub open spec fn names_of_positions(
    mask: u16,
    upto: nat,
    names: Seq<Seq<char>>,
    positions: Seq<nat>,
) -> bool {
    &&& positions.len() == names.len()
    &&& forall|j: int|
        0 <= j < names.len() ==> #[trigger] positions[j] < upto && has_bit(mask, positions[j])
            && names[j] == pitch_class_name(positions[j])
    &&& forall|a: int, b: int| 0 <= a < b < positions.len() ==> positions[a] < positions[b]
}

/// The names listed for a mask are those of its set pitch-class bits, in
/// increasing order: each set bit's name is listed, the listed names are
/// the names of increasing set bits, and there is one name per set bit.
pub proof fn law_listed_names_are_the_set_pitch_classes(mask: u16, upto: nat)
    requires
        upto <= 12,
    ensures
        ({
            let names = sounding_class_names(mask, upto);
            &&& names.len() == set_bits_below(mask, upto)
            &&& forall|k: nat|
                k < upto && has_bit(mask, k) ==> exists|j: int|
                    0 <= j < names.len() && #[trigger] names[j] == pitch_class_name(k)
            &&& exists|positions: Seq<nat>| #[trigger]
                names_of_positions(mask, upto, names, positions)
        }),
    decreases upto,
{
    if upto == 0 {
        assert(names_of_positions(mask, 0, Seq::empty(), Seq::empty()));
    } else {
        let below = (upto - 1) as nat;
        law_listed_names_are_the_set_pitch_classes(mask, below);
        let previous = sounding_class_names(mask, below);
        let names = sounding_class_names(mask, upto);
        let old_positions = choose|positions: Seq<nat>|
            #[trigger] names_of_positions(mask, below, previous, positions);
        if has_bit(mask, below) {
            let positions = old_positions.push(below);
            assert(names == previous.push(pitch_class_name(below)));
            assert forall|j: int|
                0 <= j < names.len() implies #[trigger] positions[j] < upto && has_bit(
                    mask,
                    positions[j],
                ) && names[j] == pitch_class_name(positions[j]) by {
                if j < previous.len() {
                    assert(positions[j] == old_positions[j]);
                    assert(names[j] == previous[j]);
                }
            }
            assert forall|k: nat| k < upto && has_bit(mask, k) implies exists|j: int|
                0 <= j < names.len() && #[trigger] names[j] == pitch_class_name(k) by {
                if k < below {
                    let j = choose|j: int|
                        0 <= j < previous.len() && #[trigger] previous[j] == pitch_class_name(k);
                    assert(names[j] == previous[j]);
                } else {
                    assert(names[names.len() - 1] == pitch_class_name(k));
                }
            }
            assert forall|a: int, b: int| 0 <= a < b < positions.len() implies positions[a]
                < positions[b] by {
                assert(positions[a] == old_positions[a]);
                if b < old_positions.len() {
                    assert(positions[b] == old_positions[b]);
                }
            }
            assert(names_of_positions(mask, upto, names, positions));
        } else {
            assert forall|k: nat| k < upto && has_bit(mask, k) implies exists|j: int|
                0 <= j < names.len() && #[trigger] names[j] == pitch_class_name(k) by {
                let j = choose|j: int|
                    0 <= j < previous.len() && #[trigger] previous[j] == pitch_class_name(k);
            }
            assert(names_of_positions(mask, upto, names, old_positions));
        }
    }
}

/// The HUD line that lists the sounding pitch classes of a mask, or "none".
pub open spec fn pitch_class_line(mask: u16) -> Seq<char> {
    let names = sounding_class_names(mask, 12);
    "Pitch classes: "@ + if names.len() == 0 {
        "none"@
    } else {
        join(names, " · "@)
    }
}

/// The HUD line that lists the sounding pitch classes, such as
/// "Pitch classes: C · E · G", or "Pitch classes: none".
pub fn pitch_class_list(active_pitch_classes: u16) -> (line: String)
    ensures
        line@ == pitch_class_line(active_pitch_classes),
{
    let mut line = String::from_str("Pitch classes: ");
    let mut first = true;
    let mut index: usize = 0;
    while index < PITCH_CLASS_COUNT
        invariant
            index <= 12,
            line@ == "Pitch classes: "@ + join(
                sounding_class_names(active_pitch_classes, index as nat),
                " · "@,
            ),
            first == (sounding_class_names(active_pitch_classes, index as nat).len() == 0),
        decreases 12 - index,
    {
        let ghost names = sounding_class_names(active_pitch_classes, index as nat);
        if active_pitch_classes & (1u16 << (index as u16)) != 0 {
            let pitch_class = match PitchClass::from_index(index as u8) {
                Some(pitch_class) => pitch_class,
                None => PitchClass::C(),
            };
            let ghost next = names.push(pitch_class_name(index as nat));
            assert(next.drop_last() =~= names);
            if !first {
                line.append(" · ");
            }
            line.append(pitch_class.name());
            first = false;
            assert(line@ =~= "Pitch classes: "@ + join(next, " · "@));
        }
        index += 1;
    }
    if first {
        line.append("none");
    }
    line
}

/// The HUD's mode line: visualization, quality and renderer status.
pub open spec fn mode_line_text(
    visualization: CymaVisualization,
    quality: CymaQuality,
    renderer_status: Seq<char>,
) -> Seq<char> {
    visualization_label(visualization) + " · "@ + quality_label(quality) + " · "@
        + renderer_status
}

/// The HUD's mode line, such as "3D Surface · Medium · Active".
pub fn mode_line(
    visualization: CymaVisualization,
    quality: CymaQuality,
    renderer_status: &str,
) -> (line: String)
    ensures
        line@ == mode_line_text(visualization, quality, renderer_status@),
{
    let mut line = String::from_str(visualization.label());
    line.append(" · ");
    line.append(quality.label());
    line.append(" · ");
    line.append(renderer_status);
    line
}

/// The HUD's chord line: the chord's name, or "No active chord" when no note sounds.
pub open spec fn chord_line_text(active_note_count: nat, chord: Chord) -> Seq<char> {
    if active_note_count == 0 {
        "No active chord"@
    } else {
        chord_name(chord)
    }
}

/// The HUD's chord line.
pub fn chord_line(active_note_count: usize, chord: &Chord) -> (line: String)
    ensures
        line@ == chord_line_text(active_note_count as nat, *chord),
{
    if active_note_count == 0 {
        String::from_str("No active chord")
    } else {
        chord.to_string()
    }
}

/// Where the slower of the CPU and GPU paths stands against a 60 FPS frame.
#[derive(Debug, Clone, Copy, PartialEq, Eq, Structural)]
pub enum BudgetState {
    Measuring,
    Within60Fps,
    OverBudget,
}

/// The label the HUD shows for a budget state.
pub open spec fn budget_label(state: BudgetState) -> Seq<char> {
    match state {
        BudgetState::Measuring => "MEASURING"@,
        BudgetState::Within60Fps => "60 FPS OK"@,
        BudgetState::OverBudget => "OVER BUDGET"@,
    }
}

impl BudgetState {
    /// "MEASURING", "60 FPS OK" or "OVER BUDGET".
    pub fn label(self) -> (label: &'static str)
        ensures
            label@ == budget_label(self),
    {
        match self {
            BudgetState::Measuring => "MEASURING",
            BudgetState::Within60Fps => "60 FPS OK",
            BudgetState::OverBudget => "OVER BUDGET",
        }
    }
}

/// Whether the renderer was created, and with which optional parts.
#[derive(Debug, Clone, Copy, PartialEq, Eq, Structural)]
pub enum RendererAvailability {
    Uninitialized,
    Ready(CymaRendererCapabilities),
    Unavailable,
}

/// The renderer status the settings and the HUD show.
pub open spec fn renderer_status_text(
    enabled: bool,
    renderer: RendererAvailability,
    visualization: CymaVisualization,
    particles_enabled: bool,
) -> Seq<char> {
    if !enabled {
        "Disabled"@
    } else {
        match renderer {
            RendererAvailability::Uninitialized => "Not initialized"@,
            RendererAvailability::Ready(capabilities) => if visualization
                == CymaVisualization::Surface3d && !capabilities.surface_3d {
                "2D fallback (3D unavailable)"@
            } else if particles_enabled && !capabilities.particles {
                "Active (particles unavailable)"@
            } else {
                "Active"@
            },
            RendererAvailability::Unavailable => "GPU unavailable"@,
        }
    }
}

/// The renderer status: disabled, not yet created, unavailable, active,
/// or active with a missing part that was asked for.
pub fn renderer_status(
    enabled: bool,
    renderer: RendererAvailability,
    visualization: CymaVisualization,
    particles_enabled: bool,
) -> (status: &'static str)
    ensures
        status@ == renderer_status_text(enabled, renderer, visualization, particles_enabled),
{
    if !enabled {
        return "Disabled";
    }
    match renderer {
        RendererAvailability::Uninitialized => "Not initialized",
        RendererAvailability::Ready(capabilities) => {
            if visualization == CymaVisualization::Surface3d && !capabilities.surface_3d {
                "2D fallback (3D unavailable)"
            } else if particles_enabled && !capabilities.particles {
                "Active (particles unavailable)"
            } else {
                "Active"
            }
        },
        RendererAvailability::Unavailable => "GPU unavailable",
    }
}

} // verus!
