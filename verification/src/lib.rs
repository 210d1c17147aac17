//! A mental-math drill library: randomized arithmetic exercises over small
//! signed integers, exact evaluation, answer checking, rendering, and the
//! decision logic of an interactive answering session.

pub mod eval;
pub mod exercise;
pub mod render;
mod rng;
pub mod session;

pub use eval::check;
pub use eval::solve_math_operation;
pub use exercise::generate;
pub use exercise::Exercise;
pub use exercise::MathNumber;
pub use exercise::MathNumberDistribution;
pub use exercise::MathOperation;
pub use exercise::MathOperationDistribution;
pub use render::render_exercise;
pub use render::render_number;
pub use render::symbol_str;
pub use session::parse_answer;
pub use session::respond;
pub use session::Reply;
