//! A verified simulator of the Mano Basic Computer: a sixteen-bit
//! accumulator machine with 4096 words of memory, a two-pass
//! assembler for its symbolic programs, and a cycle-accurate
//! processor that advances one micro-operation per tick.
//!
//! Every executable function carries a contract proved by Verus: the
//! assembler's two passes equal specification functions over the
//! source lines, and each processor tick equals a specification-level
//! state transition.

pub mod assembler;
pub mod cpu;
pub mod machine;
pub mod message;
pub mod registers;
pub mod storage;
pub mod symbols;
pub mod text;
