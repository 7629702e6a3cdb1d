//! A FLIP/PIC fluid solver on a small staggered grid, in fixed-point integers.
//!
//! Lengths are thousandths of a cell. One frame runs five stages in order:
//! tilt forces, particle-to-grid transfer, incompressibility relaxation,
//! grid-to-particle transfer, and advection with collisions; a last pass marks
//! the occupied cells for display.
pub mod fixed;
pub mod grid;
pub mod particle;
pub mod transfer;
pub mod projection;
pub mod sim;
