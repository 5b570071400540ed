//! A type checker for dependent type theory with cubical equality, at run time: terms are built
//! with [`ctypes::Term::ctn`], which brings them to normal form, and proofs such as the
//! symmetry of addition are terms whose types state the theorem.
//!
//! Every operation on terms is stated over a name-free model of terms (`model`), through
//! the functions of `semantics`; `kernel` holds the executable operations and proves them
//! against that model.
pub mod model;
pub mod semantics;
pub mod unique;
pub mod ctypes;
pub mod kernel;
pub mod equals;
pub mod impossible;
pub mod numbers;
pub mod bool;
pub mod display;
pub mod parse;
pub mod rigid;
pub mod laws;
