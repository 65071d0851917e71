use ct3d::camera::{
    CameraState, DragState, DEFAULT_CAMERA_Z_QUARTERS, MAX_CAMERA_Z_QUARTERS,
    MIN_CAMERA_Z_QUARTERS,
};
use ct3d::frame::{
    axes_payload, general_parameters_payload, screen_dimensions_payload, work_size, BufferPlan,
    INPUT_DATA_BUFFER_SIZE_BYTES,
};
use ct3d::volume::Vec3Bits;

#[test]
fn camera_starts_as_world_identity() {
    let c = CameraState::new();
    assert_eq!(c.right, Vec3Bits { x: 1.0f32.to_bits(), y: 0, z: 0 });
    assert_eq!(c.up, Vec3Bits { x: 0, y: 1.0f32.to_bits(), z: 0 });
    assert_eq!(c.forward, Vec3Bits { x: 0, y: 0, z: 1.0f32.to_bits() });
    assert_eq!(c.camera_z_quarters, DEFAULT_CAMERA_Z_QUARTERS);
    assert!(!c.drag_state.dragging);
    let d = DragState::new();
    assert!(!d.dragging);
    assert_eq!(d.init_right, c.right);
}

#[test]
fn drag_snapshots_basis_and_origin() {
    let mut c = CameraState::new();
    assert_eq!(c.drag_rotation_input(10, 10), None);

    c.rmb_down(100, 120);
    assert!(c.drag_state.dragging);
    assert_eq!(c.drag_state.init_x, 100);
    assert_eq!(c.drag_state.init_y, 120);
    assert_eq!(c.drag_state.init_right, c.right);

    let input = c.drag_rotation_input(130, 100).expect("dragging");
    assert_eq!(input.dx, 30);
    assert_eq!(input.dy, -20);
    assert_eq!(input.base_right, c.right);
    assert_eq!(input.base_up, c.up);
    assert_eq!(input.base_forward, c.forward);

    // Installing a rotated basis changes only the live basis; the
    // snapshot stays, so the next move rotates from the same base.
    let rotated = Vec3Bits { x: 0, y: 0, z: (-1.0f32).to_bits() };
    c.set_basis(rotated, c.up, c.forward);
    assert_eq!(c.right, rotated);
    assert_eq!(c.drag_state.init_right, Vec3Bits { x: 1.0f32.to_bits(), y: 0, z: 0 });
    let input2 = c.drag_rotation_input(131, 99).expect("still dragging");
    assert_eq!(input2.base_right, Vec3Bits { x: 1.0f32.to_bits(), y: 0, z: 0 });

    c.rmb_up();
    assert!(!c.drag_state.dragging);
    assert_eq!(c.drag_rotation_input(131, 99), None);
    // The basis keeps whatever the last move installed.
    assert_eq!(c.right, rotated);
}

#[test]
fn wheel_moves_by_quarter_and_clamps() {
    let mut c = CameraState::new();
    let start = c.camera_z_quarters;
    c.wheel(5);
    assert_eq!(c.camera_z_quarters, start + 1);
    c.wheel(-3);
    assert_eq!(c.camera_z_quarters, start);
    c.wheel(0);
    assert_eq!(c.camera_z_quarters, start);

    // Scrolling in forever never passes the near bound.
    for _ in 0..100 {
        c.wheel(1);
    }
    assert_eq!(c.camera_z_quarters, MAX_CAMERA_Z_QUARTERS);
    // Scrolling out forever never passes the far bound.
    for _ in 0..200 {
        c.wheel(-1);
    }
    assert_eq!(c.camera_z_quarters, MIN_CAMERA_Z_QUARTERS);
}

#[test]
fn camera_depth_bits_match_float_arithmetic() {
    let mut c = CameraState::new();
    assert_eq!(
        c.camera_z_bits(),
        (DEFAULT_CAMERA_Z_QUARTERS as f32 * 0.25).to_bits()
    );
    for _ in 0..100 {
        c.wheel(1);
    }
    assert_eq!(c.camera_z_bits(), (-0.75f32).to_bits());
    for _ in 0..200 {
        c.wheel(-1);
    }
    assert_eq!(c.camera_z_bits(), (-10.0f32).to_bits());
}

#[test]
fn buffer_plan_sizes_follow_screen() {
    let p = BufferPlan::new(640, 640);
    assert_eq!(p.output_len, 640 * 640 * 3);
    assert_eq!(p.input_len, INPUT_DATA_BUFFER_SIZE_BYTES / 4);
    assert_eq!(p.screen_dimensions_len, 2);
    assert_eq!(p.general_parameters_len, 2);
    assert_eq!(p.axes_len, 9);
    // Resizing the screen resizes only the output plan, to exactly
    // width * height * 3 samples.
    let q = BufferPlan::new(320, 480);
    assert_eq!(q.output_len, 320 * 480 * 3);
    assert_eq!(work_size(320, 480), 320 * 480);
    // The volume payload capacity is one gigabyte of floats, regardless
    // of screen size.
    assert_eq!(q.input_len, 1024 * 1024 * 1024 / 4);
}

#[test]
fn per_frame_payload_layouts() {
    let mut c = CameraState::new();
    c.wheel(1);
    let dims = screen_dimensions_payload(640, 480);
    assert_eq!(dims, vec![640, 480]);

    let axes = axes_payload(&c);
    assert_eq!(
        axes,
        vec![
            c.right.x, c.right.y, c.right.z, c.up.x, c.up.y, c.up.z, c.forward.x, c.forward.y,
            c.forward.z
        ]
    );

    let cutoff_bits = 0.25f32.to_bits();
    let params = general_parameters_payload(&c, cutoff_bits);
    assert_eq!(params.len(), 2);
    assert_eq!(params[0], c.camera_z_bits());
    assert_eq!(params[1], cutoff_bits);
}
