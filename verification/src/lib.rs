//! Serial-manipulator kinematics: a link/joint tree with joint limits,
//! forward kinematics for arbitrary joint configurations, and an iterative
//! damped-Jacobian inverse-kinematics solver.
//!
//! All real-valued quantities (lengths, angles, matrix entries) are carried as
//! fixed-point numbers: an `i64` holding the value scaled by `2^32`. Every
//! executable numeric step has a specification-level mirror, so the contracts
//! pin results down exactly.

pub mod fx;
pub mod geom;
pub mod trig;
pub mod model;
pub mod kin;
pub mod ik;
