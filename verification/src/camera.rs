use vstd::prelude::*;
use crate::float_bits::{
    F32_ZERO_BITS,
    F32_ONE_BITS,
    f32_bits_of_uint,
    u24_to_f32_bits,
    lemma_f32_bits_uint_roundtrip,
};
use crate::volume::Vec3Bits;

verus! {

// The orbit camera: an orthonormal basis (right/up/forward, world space)
// plus a signed eye depth along world Z, driven by two gestures. A drag
// replaces the whole basis by a rotation of the basis snapshotted at drag
// start (never of the live basis, so a long drag cannot accumulate
// drift); the wheel moves the depth by a fixed step inside a clamped
// range. The rotation itself is floating-point work done outside the
// library; everything decided here — the gesture state machine, what the
// rotation must be applied to, and the depth arithmetic — is exact.

/// The wheel moves the eye by 0.25 world units per notch. Keeping the
/// depth in integer quarter units makes every reachable depth an exact
/// multiple of 0.25, which single-precision arithmetic also represents
/// exactly, so the integer model is bit-faithful.
pub const MIN_CAMERA_Z_QUARTERS: i32 = -40;

pub const MAX_CAMERA_Z_QUARTERS: i32 = -3;

pub const DEFAULT_CAMERA_Z_QUARTERS: i32 = -8;

/// Largest screen coordinate magnitude the gesture functions accept;
/// keeps cumulative drag deltas inside `i32`.
pub const MAX_SCREEN_COORD: i32 = 0x3FFF_FFFF;

/// Snapshot taken when a right-button drag begins: the gesture origin and
/// the camera basis at that moment.
pub struct DragState {
    pub dragging: bool,
    pub init_x: i32,
    pub init_y: i32,
    pub init_right: Vec3Bits,
    pub init_up: Vec3Bits,
    pub init_forward: Vec3Bits,
}

/// The world identity basis the camera starts from.
pub open spec fn identity_right() -> Vec3Bits {
    Vec3Bits { x: F32_ONE_BITS, y: F32_ZERO_BITS, z: F32_ZERO_BITS }
}

pub open spec fn identity_up() -> Vec3Bits {
    Vec3Bits { x: F32_ZERO_BITS, y: F32_ONE_BITS, z: F32_ZERO_BITS }
}

pub open spec fn identity_forward() -> Vec3Bits {
    Vec3Bits { x: F32_ZERO_BITS, y: F32_ZERO_BITS, z: F32_ONE_BITS }
}

impl DragState {
    pub fn new() -> (r: DragState)
        ensures
            !r.dragging,
            r.init_x == 0,
            r.init_y == 0,
            r.init_right == identity_right(),
            r.init_up == identity_up(),
            r.init_forward == identity_forward(),
    {
        DragState {
            dragging: false,
            init_x: 0,
            init_y: 0,
            init_right: Vec3Bits { x: F32_ONE_BITS, y: F32_ZERO_BITS, z: F32_ZERO_BITS },
            init_up: Vec3Bits { x: F32_ZERO_BITS, y: F32_ONE_BITS, z: F32_ZERO_BITS },
            init_forward: Vec3Bits { x: F32_ZERO_BITS, y: F32_ZERO_BITS, z: F32_ONE_BITS },
        }
    }
}

/// What a mouse move asks for while a drag is active: the cumulative
/// screen delta since the drag began, and the snapshotted basis the
/// rotation is to be applied to.
#[derive(Clone, Copy, PartialEq, Eq, Structural, Debug)]
pub struct DragRotationInput {
    pub dx: i32,
    pub dy: i32,
    pub base_right: Vec3Bits,
    pub base_up: Vec3Bits,
    pub base_forward: Vec3Bits,
}

/// The camera: live basis, eye depth in quarter units, and the drag
/// gesture state.
pub struct CameraState {
    pub right: Vec3Bits,
    pub up: Vec3Bits,
    pub forward: Vec3Bits,
    pub camera_z_quarters: i32,
    pub drag_state: DragState,
}

/// One wheel notch: the depth moves one quarter unit toward the sign of
/// `delta`, then is clamped to the configured range.
pub open spec fn spec_wheel(z: int, delta: int) -> int {
    let step: int = if delta > 0 {
        1
    } else if delta < 0 {
        -1
    } else {
        0
    };
    let moved = z + step;
    if moved < MIN_CAMERA_Z_QUARTERS {
        MIN_CAMERA_Z_QUARTERS as int
    } else if moved > MAX_CAMERA_Z_QUARTERS {
        MAX_CAMERA_Z_QUARTERS as int
    } else {
        moved
    }
}

/// The depth reached after a whole sequence of wheel notches.
pub open spec fn spec_apply_scrolls(z: int, deltas: Seq<int>) -> int
    decreases deltas.len(),
{
    if deltas.len() == 0 {
        z
    } else {
        spec_apply_scrolls(spec_wheel(z, deltas[0]), deltas.subrange(1, deltas.len() as int))
    }
}

/// No sequence of scroll gestures can drive the depth out of the
/// configured range: scrolling in never goes below the minimum depth and
/// scrolling out never exceeds the maximum.
pub proof fn lemma_scrolls_stay_clamped(z: int, deltas: Seq<int>)
    requires
        MIN_CAMERA_Z_QUARTERS <= z <= MAX_CAMERA_Z_QUARTERS,
    ensures
        MIN_CAMERA_Z_QUARTERS <= spec_apply_scrolls(z, deltas) <= MAX_CAMERA_Z_QUARTERS,
    decreases deltas.len(),
{
    if deltas.len() > 0 {
        lemma_scrolls_stay_clamped(
            spec_wheel(z, deltas[0]),
            deltas.subrange(1, deltas.len() as int),
        );
    }
}

/// The single-precision bit pattern of `q * 0.25` for negative `q`:
/// magnitude `-q` encoded as an integer-valued float, its biased exponent
/// field lowered by two (a scale by 1/4 shifts the exponent and leaves
/// the mantissa untouched), and the sign bit set.
pub open spec fn camera_z_f32_bits(q: int) -> int {
    0x8000_0000 + f32_bits_of_uint(-q) - 0x100_0000
}

impl CameraState {
    /// Screen coordinates recorded in the drag snapshot stay small enough
    /// that cumulative deltas fit in `i32`, and the depth stays inside
    /// its clamped range.
    pub open spec fn wf(self) -> bool {
        &&& MIN_CAMERA_Z_QUARTERS <= self.camera_z_quarters <= MAX_CAMERA_Z_QUARTERS
        &&& -MAX_SCREEN_COORD <= self.drag_state.init_x <= MAX_SCREEN_COORD
        &&& -MAX_SCREEN_COORD <= self.drag_state.init_y <= MAX_SCREEN_COORD
    }

    /// The identity basis at the default depth, not dragging.
    pub fn new() -> (r: CameraState)
        ensures
            r.wf(),
            r.right == identity_right(),
            r.up == identity_up(),
            r.forward == identity_forward(),
            r.camera_z_quarters == DEFAULT_CAMERA_Z_QUARTERS,
            !r.drag_state.dragging,
    {
        CameraState {
            right: Vec3Bits { x: F32_ONE_BITS, y: F32_ZERO_BITS, z: F32_ZERO_BITS },
            up: Vec3Bits { x: F32_ZERO_BITS, y: F32_ONE_BITS, z: F32_ZERO_BITS },
            forward: Vec3Bits { x: F32_ZERO_BITS, y: F32_ZERO_BITS, z: F32_ONE_BITS },
            camera_z_quarters: DEFAULT_CAMERA_Z_QUARTERS,
            drag_state: DragState::new(),
        }
    }

    /// Right button pressed: enter Dragging, snapshotting the gesture
    /// origin and the live basis. The live camera itself is untouched.
    pub fn rmb_down(&mut self, x: i32, y: i32)
        requires
            old(self).wf(),
            -MAX_SCREEN_COORD <= x <= MAX_SCREEN_COORD,
            -MAX_SCREEN_COORD <= y <= MAX_SCREEN_COORD,
        ensures
            final(self).wf(),
            final(self).drag_state.dragging,
            final(self).drag_state.init_x == x,
            final(self).drag_state.init_y == y,
            final(self).drag_state.init_right == old(self).right,
            final(self).drag_state.init_up == old(self).up,
            final(self).drag_state.init_forward == old(self).forward,
            final(self).right == old(self).right,
            final(self).up == old(self).up,
            final(self).forward == old(self).forward,
            final(self).camera_z_quarters == old(self).camera_z_quarters,
    {
        self.drag_state.init_x = x;
        self.drag_state.init_y = y;
        self.drag_state.init_right = self.right;
        self.drag_state.init_up = self.up;
        self.drag_state.init_forward = self.forward;
        self.drag_state.dragging = true;
    }

    /// Right button released: back to Idle. Nothing else changes; in
    /// particular the basis keeps whatever the last move installed.
    pub fn rmb_up(&mut self)
        requires
            old(self).wf(),
        ensures
            final(self).wf(),
            !final(self).drag_state.dragging,
            final(self).drag_state.init_x == old(self).drag_state.init_x,
            final(self).drag_state.init_y == old(self).drag_state.init_y,
            final(self).drag_state.init_right == old(self).drag_state.init_right,
            final(self).drag_state.init_up == old(self).drag_state.init_up,
            final(self).drag_state.init_forward == old(self).drag_state.init_forward,
            final(self).right == old(self).right,
            final(self).up == old(self).up,
            final(self).forward == old(self).forward,
            final(self).camera_z_quarters == old(self).camera_z_quarters,
    {
        self.drag_state.dragging = false;
    }

    /// What a mouse move at `(x, y)` asks of the rotation step: `Some`
    /// exactly while a drag is active, carrying the cumulative delta from
    /// the gesture origin and the snapshotted basis the rotation must
    /// start from. `None` means the move must leave the camera untouched.
    pub fn drag_rotation_input(&self, x: i32, y: i32) -> (r: Option<DragRotationInput>)
        requires
            self.wf(),
            -MAX_SCREEN_COORD <= x <= MAX_SCREEN_COORD,
            -MAX_SCREEN_COORD <= y <= MAX_SCREEN_COORD,
        ensures
            r is Some <==> self.drag_state.dragging,
            r is Some ==> r.unwrap() == (DragRotationInput {
                dx: (x - self.drag_state.init_x) as i32,
                dy: (y - self.drag_state.init_y) as i32,
                base_right: self.drag_state.init_right,
                base_up: self.drag_state.init_up,
                base_forward: self.drag_state.init_forward,
            }),
    {
        if self.drag_state.dragging {
            Some(
                DragRotationInput {
                    dx: x - self.drag_state.init_x,
                    dy: y - self.drag_state.init_y,
                    base_right: self.drag_state.init_right,
                    base_up: self.drag_state.init_up,
                    base_forward: self.drag_state.init_forward,
                },
            )
        } else {
            None
        }
    }

    /// Installs the rotated basis a drag move computed from
    /// `drag_rotation_input`. Only the live basis changes: the snapshot
    /// stays as taken at drag start, so the next move still rotates from
    /// the same base.
    pub fn set_basis(&mut self, right: Vec3Bits, up: Vec3Bits, forward: Vec3Bits)
        requires
            old(self).wf(),
        ensures
            final(self).wf(),
            final(self).right == right,
            final(self).up == up,
            final(self).forward == forward,
            final(self).camera_z_quarters == old(self).camera_z_quarters,
            final(self).drag_state == old(self).drag_state,
    {
        self.right = right;
        self.up = up;
        self.forward = forward;
    }

    /// One wheel notch: moves the depth a quarter unit toward the sign of
    /// `delta` and clamps it to the configured range. Scrolling in one
    /// direction changes the depth monotonically, and the clamped range
    /// is never left.
    pub fn wheel(&mut self, delta: i32)
        requires
            old(self).wf(),
        ensures
            final(self).wf(),
            final(self).camera_z_quarters == spec_wheel(
                old(self).camera_z_quarters as int,
                delta as int,
            ),
            MIN_CAMERA_Z_QUARTERS <= final(self).camera_z_quarters <= MAX_CAMERA_Z_QUARTERS,
            delta > 0 ==> final(self).camera_z_quarters >= old(self).camera_z_quarters,
            delta < 0 ==> final(self).camera_z_quarters <= old(self).camera_z_quarters,
            delta == 0 ==> final(self).camera_z_quarters == old(self).camera_z_quarters,
            final(self).right == old(self).right,
            final(self).up == old(self).up,
            final(self).forward == old(self).forward,
            final(self).drag_state == old(self).drag_state,
    {
        let step: i32 = if delta > 0 {
            1
        } else if delta < 0 {
            -1
        } else {
            0
        };
        let mut moved: i32 = self.camera_z_quarters + step;
        if moved < MIN_CAMERA_Z_QUARTERS {
            moved = MIN_CAMERA_Z_QUARTERS;
        }
        if moved > MAX_CAMERA_Z_QUARTERS {
            moved = MAX_CAMERA_Z_QUARTERS;
        }
        self.camera_z_quarters = moved;
    }

    /// The eye depth as the single-precision bit pattern the per-frame
    /// scalar upload carries (`camera_z_quarters * 0.25`, exactly).
    pub fn camera_z_bits(&self) -> (r: u32)
        requires
            self.wf(),
        ensures
            r == camera_z_f32_bits(self.camera_z_quarters as int),
    {
        let mag: u32 = (-self.camera_z_quarters) as u32;
        proof {
            lemma_f32_bits_uint_roundtrip(mag as int);
        }
        let b: u32 = u24_to_f32_bits(mag);
        0x8000_0000 + (b - 0x100_0000)
    }
}

} // verus!
