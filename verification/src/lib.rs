//! Source-level transformation that makes annotated functions mutually
//! exclusive: it splices a statement in front of a function's body that
//! evaluates a caller-supplied expression (typically a lock acquisition) and
//! holds its value alive until the body's scope ends.

pub mod syntax;
pub mod transform;

pub use transform::nonparallel;
pub use transform::splice_first;
pub use transform::TransformError;
