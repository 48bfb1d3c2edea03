//! Frame-buffer logic for a 16 x 16 RGB LED panel (Pimoroni Unicorn HD style)
//! and the two network clients that drive it: a pixel-streaming "mirror"
//! protocol and a JSON "sign" protocol that selects canned animations.
//!
//! Hardware access (SPI), font rasterisation, sockets and sleeping are done by
//! the caller; this crate computes the frames and the decisions.

pub mod frame;
pub mod glyph;
pub mod mirror;
pub mod text;
pub mod animation;
pub mod message;
