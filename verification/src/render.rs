use vstd::prelude::*;

use vstd::bytes::spec_u64_from_le_bytes;
use vstd::endian::{Endian, endianness};

use crate::config::{CymaQuality, CymaVisualization};

verus! {

/// Most modal components a field holds.
pub const MAX_MODAL_COMPONENTS: usize = 12;

/// Most nodal particles simulated at once.
pub const MAX_PARTICLES: usize = 768;

/// Timestamps written per frame: start and end of the off-screen pass, then of the composite pass.
pub const QUERY_COUNT: usize = 4;

/// Bytes of the timestamp readback buffer.
pub const QUERY_BUFFER_SIZE: usize = 32;

/// What the renderer is asked to draw.
#[derive(Debug, Clone, Copy, PartialEq, Eq, Structural)]
pub struct CymaRenderOptions {
    pub visualization: CymaVisualization,
    pub quality: CymaQuality,
    pub particles_enabled: bool,
}

impl Default for CymaRenderOptions {
    /// The flat field at medium quality, without particles.
    fn default() -> (options: Self)
        ensures
            options.visualization == CymaVisualization::Field2d,
            options.quality == CymaQuality::Medium,
            !options.particles_enabled,
    {
        CymaRenderOptions {
            visualization: CymaVisualization::Field2d,
            quality: CymaQuality::Medium,
            particles_enabled: false,
        }
    }
}

/// The optional parts of the renderer that the GPU could create.
#[derive(Debug, Clone, Copy, PartialEq, Eq, Structural)]
pub struct CymaRendererCapabilities {
    pub surface_3d: bool,
    pub particles: bool,
    pub gpu_timing: bool,
}

/// Modal components drawn at each quality: 4, 8, or all 12.
pub open spec fn preset_max_modes(quality: CymaQuality) -> nat {
    match quality {
        CymaQuality::Low => 4,
        CymaQuality::Medium => 8,
        CymaQuality::High => 12,
    }
}

/// The off-screen target's scale at each quality, as numerator and
/// denominator: 40%, 65% and 100%.
pub open spec fn preset_scale(quality: CymaQuality) -> (nat, nat) {
    match quality {
        CymaQuality::Low => (2, 5),
        CymaQuality::Medium => (13, 20),
        CymaQuality::High => (1, 1),
    }
}

/// Particles simulated at each quality: 128, 384 or 768.
pub open spec fn preset_particle_count(quality: CymaQuality) -> nat {
    match quality {
        CymaQuality::Low => 128,
        CymaQuality::Medium => 384,
        CymaQuality::High => 768,
    }
}

/// The position of each quality among the presets, from low to high.
pub open spec fn preset_index(quality: CymaQuality) -> nat {
    match quality {
        CymaQuality::Low => 0,
        CymaQuality::Medium => 1,
        CymaQuality::High => 2,
    }
}

/// A window dimension scaled for the off-screen target: rounded up, and at least 1.
pub open spec fn scaled(dimension: nat, quality: CymaQuality) -> nat {
    let (numerator, denominator) = preset_scale(quality);
    let rounded_up = (dimension * numerator + denominator - 1) / denominator as int;
    if rounded_up < 1 {
        1
    } else if rounded_up > u32::MAX {
        u32::MAX as nat
    } else {
        rounded_up as nat
    }
}

/// Modal components drawn at the quality.
pub fn max_modes(quality: CymaQuality) -> (modes: usize)
    ensures
        modes == preset_max_modes(quality),
{
    match quality {
        CymaQuality::Low => 4,
        CymaQuality::Medium => 8,
        CymaQuality::High => MAX_MODAL_COMPONENTS,
    }
}

/// The size of the off-screen target along one window dimension.
pub fn scaled_dimension(dimension: u32, quality: CymaQuality) -> (scaled_size: u32)
    ensures
        scaled_size == scaled(dimension as nat, quality),
        scaled_size >= 1,
        dimension >= 1 ==> scaled_size <= dimension,
{
    let (numerator, denominator) = match quality {
        CymaQuality::Low => (2u64, 5u64),
        CymaQuality::Medium => (13u64, 20u64),
        CymaQuality::High => (1u64, 1u64),
    };
    assert(dimension as u64 * numerator <= 0xffff_ffffu64 * 13) by (nonlinear_arith)
        requires
            numerator <= 13,
            dimension <= 0xffff_ffffu32,
    ;
    let product = dimension as u64 * numerator;
    let scaled = (product + denominator - 1) / denominator;
    assert(scaled <= dimension as u64 || dimension == 0) by (nonlinear_arith)
        requires
            product == dimension as u64 * numerator,
            scaled == (product + denominator - 1) / (denominator as int),
            (numerator == 2 && denominator == 5) || (numerator == 13 && denominator == 20) || (
            numerator == 1 && denominator == 1),
    ;
    if scaled < 1 {
        1
    } else if scaled > u32::MAX as u64 {
        u32::MAX
    } else {
        scaled as u32
    }
}

/// Particles simulated at the quality.
pub fn particle_count(quality: CymaQuality) -> (count: usize)
    ensures
        count == preset_particle_count(quality),
        count <= MAX_PARTICLES,
{
    match quality {
        CymaQuality::Low => 128,
        CymaQuality::Medium => 384,
        CymaQuality::High => MAX_PARTICLES,
    }
}

/// The position of the quality among the presets: 0, 1 or 2.
pub fn quality_index(quality: CymaQuality) -> (index: usize)
    ensures
        index == preset_index(quality),
{
    match quality {
        CymaQuality::Low => 0,
        CymaQuality::Medium => 1,
        CymaQuality::High => 2,
    }
}

/// A native-endian eight-byte value: the little-endian reading of the
/// bytes on a little-endian machine, the big-endian reading (the
/// little-endian reading of the reversed bytes) on a big-endian one.
pub open spec fn native_endian_reading(value: u64, bytes: Seq<u8>) -> bool {
    value == match endianness() {
        Endian::Little => spec_u64_from_le_bytes(bytes),
        Endian::Big => spec_u64_from_le_bytes(bytes.reverse()),
    }
}

/// Reads eight bytes in the machine's byte order with `u64::from_ne_bytes`:
/// the value is the reading of the bytes in the byte order of the machine
/// (`endianness()`, the same for every call); which order that is is not stated.
#[verifier::external_body]
fn u64_from_ne_bytes(bytes: [u8; 8]) -> (value: u64)
    ensures
        native_endian_reading(value, bytes@),
{
    u64::from_ne_bytes(bytes)
}

/// The four GPU timestamps of a readback buffer, each eight bytes in the
/// machine's byte order; `None` when the buffer is shorter than 32 bytes.
pub fn decode_timestamps(bytes: &[u8]) -> (timestamps: Option<[u64; 4]>)
    ensures
        timestamps is Some <==> bytes@.len() >= 32,
        timestamps matches Some(values) ==> forall|k: int|
            0 <= k < 4 ==> #[trigger] native_endian_reading(
                values@[k],
                bytes@.subrange(8 * k, 8 * k + 8),
            ),
{
    if bytes.len() < QUERY_BUFFER_SIZE {
        return None;
    }
    let mut timestamps = [0u64; 4];
    let mut index: usize = 0;
    while index < QUERY_COUNT
        invariant
            index <= 4,
            bytes@.len() >= 32,
            forall|k: int|
                0 <= k < index ==> #[trigger] native_endian_reading(
                    timestamps@[k],
                    bytes@.subrange(8 * k, 8 * k + 8),
                ),
        decreases 4 - index,
    {
        let start = index * 8;
        let mut encoded = [0u8; 8];
        let mut offset: usize = 0;
        while offset < 8
            invariant
                offset <= 8,
                start == index * 8,
                index < 4,
                bytes@.len() >= 32,
                forall|j: int| 0 <= j < offset ==> encoded@[j] == bytes@[start + j],
            decreases 8 - offset,
        {
            encoded[offset] = bytes[start + offset];
            offset += 1;
        }
        assert(encoded@ =~= bytes@.subrange(8 * index as int, 8 * index as int + 8));
        timestamps[index] = u64_from_ne_bytes(encoded);
        index += 1;
    }
    Some(timestamps)
}

/// Ticks from `start` to `end` on a counter that wraps around at 2^64.
pub open spec fn elapsed_ticks(start: u64, end: u64) -> nat {
    if end >= start {
        (end - start) as nat
    } else {
        (end + 0x1_0000_0000_0000_0000int - start) as nat
    }
}

/// The GPU time of one frame in ticks: the off-screen pass plus the
/// composite pass, each measured on the wrapping counter; `None` when the
/// sum does not fit in 64 bits.
pub fn gpu_frame_ticks(timestamps: [u64; 4]) -> (ticks: Option<u64>)
    ensures
        ({
            let total = elapsed_ticks(timestamps@[0], timestamps@[1]) + elapsed_ticks(
                timestamps@[2],
                timestamps@[3],
            );
            &&& ticks is Some <==> total <= u64::MAX
            &&& ticks matches Some(t) ==> t == total
        }),
{
    let offscreen_ticks = timestamps[1].wrapping_sub(timestamps[0]);
    let composite_ticks = timestamps[3].wrapping_sub(timestamps[2]);
    offscreen_ticks.checked_add(composite_ticks)
}

/// What the renderer prepares for a frame in which the field is visible:
/// the off-screen target's size, whether it needs a depth buffer, how many
/// modal components the shader draws, and whether the particles run.
#[derive(Debug, Clone, Copy, PartialEq, Eq, Structural)]
pub struct FramePlan {
    pub target_width: u32,
    pub target_height: u32,
    pub needs_depth: bool,
    pub mode_limit: usize,
    pub draw_particles: bool,
}

/// The renderer's per-frame decisions: nothing is drawn unless the field
/// is active and the window has an area; otherwise the target is scaled by
/// the quality preset, a depth buffer is used for the 3D surface when the
/// GPU could create it (else the 2D field is the fallback), and the
/// particles run when they are enabled and the GPU could create them.
pub fn plan_frame(
    field_active: bool,
    width: u32,
    height: u32,
    options: CymaRenderOptions,
    surface_available: bool,
    particles_available: bool,
) -> (plan: Option<FramePlan>)
    ensures
        plan is Some <==> (field_active && width > 0 && height > 0),
        plan matches Some(frame) ==> {
            &&& frame.target_width == scaled(width as nat, options.quality)
            &&& frame.target_height == scaled(height as nat, options.quality)
            &&& frame.needs_depth == (options.visualization == CymaVisualization::Surface3d
                && surface_available)
            &&& frame.mode_limit == preset_max_modes(options.quality)
            &&& frame.draw_particles == (options.particles_enabled && particles_available)
        },
{
    if !(field_active && width > 0 && height > 0) {
        return None;
    }
    Some(
        FramePlan {
            target_width: scaled_dimension(width, options.quality),
            target_height: scaled_dimension(height, options.quality),
            needs_depth: options.visualization == CymaVisualization::Surface3d
                && surface_available,
            mode_limit: max_modes(options.quality),
            draw_particles: options.particles_enabled && particles_available,
        },
    )
}

/// A target dimension as it is allocated: never below 1.
pub open spec fn allocated_dimension(dimension: u32) -> u32 {
    if dimension < 1 {
        1
    } else {
        dimension
    }
}

/// Whether the current off-screen target, given as its width, height and
/// whether it has a depth buffer, can serve the planned frame; when it
/// cannot, or when there is none yet, the target is rebuilt.
pub fn target_matches(current: Option<(u32, u32, bool)>, plan: FramePlan) -> (matches: bool)
    ensures
        matches == (current matches Some((width, height, has_depth)) && width
            == allocated_dimension(plan.target_width) && height == allocated_dimension(
            plan.target_height,
        ) && has_depth == plan.needs_depth),
{
    match current {
        None => false,
        Some((width, height, has_depth)) => {
            let target_width = if plan.target_width < 1 {
                1
            } else {
                plan.target_width
            };
            let target_height = if plan.target_height < 1 {
                1
            } else {
                plan.target_height
            };
            width == target_width && height == target_height && has_depth == plan.needs_depth
        },
    }
}

/// The 3D surface mesh's size in vertices, columns by rows, at each
/// quality: 32 by 24, 64 by 40, 96 by 64.
pub open spec fn preset_mesh_size(quality: CymaQuality) -> (nat, nat) {
    match quality {
        CymaQuality::Low => (32, 24),
        CymaQuality::Medium => (64, 40),
        CymaQuality::High => (96, 64),
    }
}

/// The 3D surface mesh's size at the quality, as columns and rows of
/// vertices; its vertices always fit 16-bit indices.
pub fn surface_mesh_size(quality: CymaQuality) -> (size: (u16, u16))
    ensures
        (size.0 as nat, size.1 as nat) == preset_mesh_size(quality),
        size.0 >= 1 && size.1 >= 1 && size.0 * size.1 <= 0x1_0000,
{
    match quality {
        CymaQuality::Low => (32, 24),
        CymaQuality::Medium => (64, 40),
        CymaQuality::High => (96, 64),
    }
}

/// The vertex index of one corner of the two triangles that cover the grid
/// cell at `row`, `column`, in a grid `columns` vertices wide: corners 0 to
/// 2 are top-left, bottom-left, top-right; corners 3 to 5 are top-right,
/// bottom-left, bottom-right.
pub open spec fn cell_corner(columns: int, row: int, column: int, corner: int) -> int {
    let top_left = row * columns + column;
    if corner == 0 {
        top_left
    } else if corner == 1 {
        top_left + columns
    } else if corner == 2 {
        top_left + 1
    } else if corner == 3 {
        top_left + 1
    } else if corner == 4 {
        top_left + columns
    } else {
        top_left + columns + 1
    }
}

/// The triangle indices of a surface mesh of `columns` by `rows` vertices
/// laid out row after row: six indices per grid cell, cells in row-major
/// order, so that cell `q` is at row `q / (columns - 1)` and column
/// `q % (columns - 1)`.
pub fn surface_mesh_indices(columns: u16, rows: u16) -> (indices: Vec<u16>)
    requires
        columns >= 1,
        rows >= 1,
        columns * rows <= 0x1_0000,
    ensures
        indices@.len() == 6 * ((columns - 1) * (rows - 1)),
        forall|cell: int, corner: int|
            0 <= cell < (columns - 1) * (rows - 1) && 0 <= corner < 6 ==> #[trigger] indices@[6 * cell
                + corner] == cell_corner(
                columns as int,
                cell / (columns - 1) as int,
                cell % (columns - 1) as int,
                corner,
            ),
{
    let mut indices: Vec<u16> = Vec::new();
    let mut row: u16 = 0;
    while row < rows - 1
        invariant
            columns >= 1,
            rows >= 1,
            columns * rows <= 0x1_0000,
            row <= rows - 1,
            indices@.len() == 6 * (row * (columns - 1)),
            forall|cell: int, corner: int|
                0 <= cell < row * (columns - 1) && 0 <= corner < 6 ==> #[trigger] indices@[6 * cell + corner]
                    == cell_corner(
                    columns as int,
                    cell / (columns - 1) as int,
                    cell % (columns - 1) as int,
                    corner,
                ),
        decreases rows - 1 - row,
    {
        let mut column: u16 = 0;
        while column < columns - 1
            invariant
                columns >= 1,
                rows >= 1,
                columns * rows <= 0x1_0000,
                row < rows - 1,
                column <= columns - 1,
                indices@.len() == 6 * (row * (columns - 1) + column),
                forall|cell: int, corner: int|
                    0 <= cell < row * (columns - 1) + column && 0 <= corner < 6 ==> #[trigger] indices@[6
                        * cell + corner] == cell_corner(
                        columns as int,
                        cell / (columns - 1) as int,
                        cell % (columns - 1) as int,
                        corner,
                    ),
            decreases columns - 1 - column,
        {
            assert(row * columns + column + columns + 1 <= columns * rows - 1) by (nonlinear_arith)
                requires
                    row + 1 <= rows - 1,
                    column + 1 <= columns - 1,
            ;
            let top_left = row * columns + column;
            let top_right = top_left + 1;
            let bottom_left = top_left + columns;
            let bottom_right = bottom_left + 1;
            let ghost cell = row * (columns - 1) + column;
            let ghost before = indices@;
            proof {
                vstd::arithmetic::div_mod::lemma_fundamental_div_mod_converse(
                    cell as int,
                    (columns - 1) as int,
                    row as int,
                    column as int,
                );
                assert(row * (columns - 1) + column == row * (columns - 1) + column);
            }
            indices.extend_from_slice(
                &[top_left, bottom_left, top_right, top_right, bottom_left, bottom_right],
            );
            assert forall|c: int, corner: int|
                0 <= c < row * (columns - 1) + column + 1 && 0 <= corner < 6 implies #[trigger] indices@[6 * c
                + corner] == cell_corner(
                columns as int,
                c / (columns - 1) as int,
                c % (columns - 1) as int,
                corner,
            ) by {
                if c < cell {
                    assert(indices@[6 * c + corner] == before[6 * c + corner]);
                } else {
                    assert(c == cell);
                    assert(row * columns + column == row * columns + column);
                }
            }
            column += 1;
        }
        assert((row + 1) * (columns - 1) == row * (columns - 1) + (columns - 1)) by (nonlinear_arith);
        row += 1;
    }
    assert(row * (columns - 1) == (columns - 1) * (rows - 1)) by (nonlinear_arith)
        requires
            row == rows - 1,
    ;
    indices
}

} // verus!
