//! Matrix exponential of a dense square matrix over a real or complex
//! scalar field, computed by a scaled Padé approximation with automatic
//! degree and scaling selection.
//!
//! The scalar field is abstract: callers supply a type implementing
//! [`ScalarField`], whose arithmetic the contracts of this crate model by
//! per-implementation specification functions.

pub mod scalar;
pub mod matrix;
pub mod norm;
pub mod pade;
pub mod expm;

pub use scalar::ScalarField;
pub use matrix::ExpError;
pub use matrix::MatrixN;
pub use norm::ell;
pub use norm::factorial;
pub use norm::one_norm;
pub use norm::onenorm_matrix_power_nonm;
pub use pade::ExpmPadeHelper;
pub use expm::solve_p_q;
