//! Constant-time sampling from a fixed discrete distribution by the alias method.
//!
//! A table is built once from `n` weighted elements in time linear in `n`. Each draw then costs
//! one roll of an `n`-sided die, which names a bucket, and one flip of a coin, which decides
//! between the bucket's own element and its alias.
//!
//! Probabilities are fixed-point numbers: a weight counts parts of [`UNIT`], and `UNIT` parts
//! make certainty. All arithmetic is on integers and is exact, so what the table promises is
//! proved rather than measured: a table built from weights that sum to `UNIT` draws every
//! element with exactly its weight as probability, given a fair die and a fair coin, and
//! one built from weights that miss `UNIT` by no more than the tolerance misses every
//! weight by no more than that.
//!
//! ```text
//! let table = VoseAlias::new(vec!["a", "b", "c"], vec![500_000_000, 300_000_000, 200_000_000])?;
//! let mut rng = StdRng::seed_from_u64(7);
//! let element = table.sample(&mut rng)?;
//! ```
//!
//! The modules: [`weights`] judges the input; [`model`] states the construction on
//! mathematical integers, [`sound`] and [`mass`] prove what its states satisfy, and
//! [`table`] builds the table to match; [`sampling`] draws from a table through [`random`];
//! [`equality`] and [`render`] compare and show tables; [`laws`] states what holds of the
//! whole.

pub mod equality;
pub mod laws;
pub mod mass;
pub mod model;
pub mod random;
pub mod render;
pub mod sampling;
pub mod sound;
pub mod table;
pub mod weights;
mod worksheet;

pub use crate::sampling::SamplingError;
pub use crate::table::{ConstructionError, VoseAlias};
pub use crate::weights::{DEFAULT_TOLERANCE, UNIT};
