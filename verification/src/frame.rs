use vstd::prelude::*;
use crate::camera::{CameraState, camera_z_f32_bits};

verus! {

// The device resource plan and the per-frame upload payloads. The
// synchronizer around the library allocates fixed-capacity device buffers
// once, from `BufferPlan`, and uploads every frame exactly the small
// vectors built here, so the size and layout of each buffer have a single
// home on the host side (the kernel fixes the same layout on its side).

/// Fixed capacity of the device volume payload buffer, in bytes. It is
/// allocated once, zeroed at startup, and overwritten wholesale on each
/// volume change — never resized.
pub const INPUT_DATA_BUFFER_SIZE_BYTES: u32 = 1024 * 1024 * 1024;

/// Element counts of the five device buffers.
pub struct BufferPlan {
    /// Output color floats: three per pixel.
    pub output_len: u32,
    /// Volume payload floats: the fixed byte capacity, four bytes each.
    pub input_len: u32,
    /// Screen dimension ints: width and height.
    pub screen_dimensions_len: u32,
    /// Per-frame scalar floats: eye depth and the auxiliary cutoff.
    pub general_parameters_len: u32,
    /// Camera axis floats: three basis vectors of three components.
    pub axes_len: u32,
}

impl BufferPlan {
    pub fn new(width: u32, height: u32) -> (r: BufferPlan)
        requires
            (width * height) * 3 <= u32::MAX,
        ensures
            r.output_len == (width * height) * 3,
            r.input_len == INPUT_DATA_BUFFER_SIZE_BYTES / 4,
            r.screen_dimensions_len == 2,
            r.general_parameters_len == 2,
            r.axes_len == 9,
    {
        BufferPlan {
            output_len: (width * height) * 3,
            input_len: INPUT_DATA_BUFFER_SIZE_BYTES / 4,
            screen_dimensions_len: 2,
            general_parameters_len: 2,
            axes_len: 9,
        }
    }
}

/// One work item per pixel.
pub fn work_size(width: u32, height: u32) -> (r: u32)
    requires
        width * height <= u32::MAX,
    ensures
        r == width * height,
{
    width * height
}

/// The screen dimensions buffer: `[width, height]`.
pub fn screen_dimensions_payload(width: u32, height: u32) -> (r: Vec<i32>)
    requires
        width <= i32::MAX,
        height <= i32::MAX,
    ensures
        r@ == seq![width as i32, height as i32],
{
    let mut out: Vec<i32> = Vec::new();
    out.push(width as i32);
    out.push(height as i32);
    proof {
        assert(out@ =~= seq![width as i32, height as i32]);
    }
    out
}

/// The camera axes buffer: right, up, forward, three components each, in
/// that order.
pub fn axes_payload(camera: &CameraState) -> (r: Vec<u32>)
    ensures
        r@ == seq![
            camera.right.x,
            camera.right.y,
            camera.right.z,
            camera.up.x,
            camera.up.y,
            camera.up.z,
            camera.forward.x,
            camera.forward.y,
            camera.forward.z,
        ],
{
    let mut out: Vec<u32> = Vec::new();
    out.push(camera.right.x);
    out.push(camera.right.y);
    out.push(camera.right.z);
    out.push(camera.up.x);
    out.push(camera.up.y);
    out.push(camera.up.z);
    out.push(camera.forward.x);
    out.push(camera.forward.y);
    out.push(camera.forward.z);
    proof {
        assert(out@ =~= seq![
            camera.right.x,
            camera.right.y,
            camera.right.z,
            camera.up.x,
            camera.up.y,
            camera.up.z,
            camera.forward.x,
            camera.forward.y,
            camera.forward.z,
        ]);
    }
    out
}

/// The per-frame scalar buffer: the eye depth, then the auxiliary cutoff.
/// The cutoff is owned by the application (the kernel uploads it every
/// frame without reading it) and passes through as a bit pattern.
pub fn general_parameters_payload(camera: &CameraState, low_cutoff_bits: u32) -> (r: Vec<u32>)
    requires
        camera.wf(),
    ensures
        r@ == seq![
            camera_z_f32_bits(camera.camera_z_quarters as int) as u32,
            low_cutoff_bits,
        ],
{
    let mut out: Vec<u32> = Vec::new();
    out.push(camera.camera_z_bits());
    out.push(low_cutoff_bits);
    proof {
        assert(out@ =~= seq![
            camera_z_f32_bits(camera.camera_z_quarters as int) as u32,
            low_cutoff_bits,
        ]);
    }
    out
}

} // verus!
