//! Verified marshaling for LAPACK bindings: storage layouts, the arguments
//! of the routines, workspace sizing and status codes.
//!
//! The drivers read the arguments of a routine off the matrices of the
//! caller, bring row-major matrices into the column-major storage that the
//! routines work on, size the scratch space by asking the routine, and turn
//! the status that it reports into a result. The routines themselves are not
//! part of this crate: an element type provides them.

pub mod eigenvalues;
pub mod error;
pub mod least_squares;
pub mod linear_equations;
pub mod matrix;
pub mod scalar;
pub mod svd;
pub mod types;
pub mod util;
pub mod vector;

pub use eigenvalues::Geev;
pub use error::Error;
pub use least_squares::Gels;
pub use linear_equations::{Gbsv, Gesv, Gtsv, Hesv, Hpsv, Pbsv, Posv, Ppsv, Ptsv, Spsv, Sysv};
pub use matrix::Matrix;
pub use svd::Gesvd;
pub use types::{Compute, Order, Symmetry, Transpose};
pub use vector::Vector;
