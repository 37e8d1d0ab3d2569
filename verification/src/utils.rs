//! Helpers of the processor: hashing of solutions, the named precondition
//! checks, and the operations that move value.

pub mod accounts;
pub mod asserts;
pub mod mint;
pub mod solutions;

pub use self::solutions::{hash_solution_challenger_sends, hash_solutions};
