//! Arithmetic drill library.
//!
//! Each [`Problem`] holds one arithmetic fact together with how the user has
//! done on it. The selector draws the next problem with a probability in
//! proportion to its score, which grows with the number of wrong answers and
//! with the time the last correct answer took.

pub mod catalog;
pub mod problem;
pub mod render;
pub mod select;

pub use catalog::{add_addition, add_mult, add_subtraction, init_problems};
pub use problem::{MathOp, Problem, ProblemError, ProblemModel, SolveTime};
pub use select::{pick_index, select_problem, sum_scores, SelectError};
