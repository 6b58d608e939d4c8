//! A circular hue/saturation colour wheel: fixed-point colour conversion and
//! the drag interaction that selects a colour.
//!
//! All quantities are integers. Hues are millidegrees, saturation and value
//! are parts per million, and positions are ten-thousandths of a pixel.

pub mod hex;
pub mod hsv;
pub mod picker;
pub mod wheel;
