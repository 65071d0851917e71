//! Core of a volumetric CT renderer: the volume data model and its device
//! wire encoding, the persistent volume format, the orbit-camera state
//! machine, the per-frame device buffer layout, and the host-side image
//! buffer. Device dispatch, windowing and floating-point numerics live in
//! the surrounding application; everything here is verified.

pub mod error;
pub mod float_bits;
pub mod image;
pub mod volume;
pub mod codec;
pub mod textio;
pub mod camera;
pub mod device_select;
pub mod frame;
