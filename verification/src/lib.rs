//! Linear algebra over abstract fields.
//!
//! A scalar type implements [`Field`]; the containers ([`Tuple`], [`Matrix`],
//! [`Polynom`], [`Funct`], [`Zero`]) are vector spaces over any such scalar,
//! and [`Line`] and [`Plane`] are built of tuples. Every contract is stated
//! over the mathematical value of a scalar, which the field names through
//! [`Field::value`].
pub mod field;
pub mod geometry;
pub mod text;
pub mod vector_space;

pub use field::ExactField;
pub use field::Field;
pub use field::Int;
pub use field::IntMod2;
pub use field::Rational;
pub use geometry::Line;
pub use geometry::Plane;
pub use vector_space::Funct;
pub use vector_space::Mapping;
pub use vector_space::Matrix;
pub use vector_space::Polynom;
pub use vector_space::Sequence;
pub use vector_space::Tuple;
pub use vector_space::VectorSpace;
pub use vector_space::Zero;
