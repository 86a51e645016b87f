//! A terminal countdown timer library.
//!
//! The crate holds the verified core of a countdown timer: parsing a
//! duration or clock-time target, fixing the session deadline, and the
//! per-tick computations of the render loop (remaining/elapsed time,
//! formatted lines, and the ASCII clock face).

pub mod clock_face;
pub mod clock_time;
pub mod digits;
pub mod duration;
pub mod render;
pub mod session;
