//! Gravitational basins: which fixed point attractor captures a test particle
//! released at each coordinate of a two-dimensional domain.
//!
//! The crate holds the decisions of that computation over integers: the scene
//! and its capacity, the capture test along a trajectory, the assembly and
//! caching of the colour field, and its resampling to a viewport. Every real
//! quantity is carried as the bit pattern of a single precision number, so the
//! numerical stepping itself is left to the caller.

pub mod capture;
pub mod compositor;
pub mod computer;
pub mod field;
pub mod graviton;
pub mod layout;
pub mod trajectory;
