//! A frame-paced hue animation engine: fixed-point HSV arithmetic, validated
//! extraction of RGBA pixel buffers, mosaic tiling of sampled images and the
//! state machine of a fixed-rate render loop.
//!
//! Colors are held in fixed point: hue in microdegrees, saturation, value and
//! alpha in millionths. The floating-point conversions to and from RGB, and
//! all drawing, belong to the host program.

pub mod chars;
pub mod color;
pub mod expr;
pub mod frame;
pub mod mosaic;
pub mod pixels;
