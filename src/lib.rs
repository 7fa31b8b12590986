//! Host-side rules of a double-buffered cellular automaton on the GPU: the
//! parity that gives each cell buffer its role, the sizes of the update
//! dispatch and of the drawn geometry, the row layout of captured frames,
//! and the per-tick decisions of the driver loop with its frame list.
pub mod capture;
pub mod driver;
pub mod grid;
pub mod pingpong;
