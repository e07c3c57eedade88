//! An interpreter for a small tape language: eight-bit cells on a tape that
//! grows to the right, one movable pointer, and loops that run by moving the
//! source cursor back to where they began.
//!
//! Every executable function carries a contract over a mathematical model of
//! the machine, and the laws of the language are proved over that model.

pub mod laws;
pub mod machine;
pub mod program;
pub mod stream;
pub mod tape;
