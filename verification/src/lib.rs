//! Interactive compositing engine for a borderless single-image overlay.
//!
//! The crate holds the pointer-driven manipulation state machine (drag,
//! resize-edge detection, double-click, context menu), the adaptive image
//! rendering pipeline (mipmap pyramid, quality and fast scaling paths,
//! opacity compositing, a single-slot render cache), and the decision logic
//! for choosing between a hardware and a software rendering backend.
//! The display-server protocol, image decoding, text rasterisation and the
//! hardware backend itself are outside collaborators: they are driven by a
//! thin unverified shell that feeds plain values into these functions.

pub mod formats;
pub mod geometry;
pub mod pyramid;
pub mod scale;
pub mod menu;
pub mod state;
pub mod pipeline;
