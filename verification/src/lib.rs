//! A miniature concurrent runtime: a stack-machine bytecode interpreter with
//! cooperatively scheduled coroutines, a shared variable store, and one-slot
//! rendezvous channels.
//!
//! The instruction semantics are stated once, as a specification-level step
//! function over mathematical state (`semantics`), and the executable
//! interpreter, coroutine, and scheduler are proved to follow it exactly.

pub mod byte_code;
pub mod coroutine;
pub mod semantics;
pub mod store;
pub mod virtual_machine;
