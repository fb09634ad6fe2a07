//! Lines and planes in N-dimensional space, as parameterized tuples.
pub mod line;
pub mod plane;

pub use line::Line;
pub use plane::Plane;
