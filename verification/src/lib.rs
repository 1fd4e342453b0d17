//! Real-time 3D orientation feed: a wire codec for fixed-size orientation
//! packets, a four-slot cell holding the latest orientation as raw `f32` bit
//! patterns, and the receiver step that feeds the cell from incoming
//! datagrams.

pub mod cell;
pub mod codec;
pub mod quat;
pub mod receiver;
