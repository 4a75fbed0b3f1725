//! Fixed-capacity, stack-resident sequence containers.
//!
//! The crate offers two containers built around the same idea: a list that
//! looks and feels like a growable vector but holds at most `N` elements,
//! where `N` is fixed at the type level and never renegotiated.
//!
//! * [`array::Array`] is the compact container: push, pop, insert, remove
//!   and friends, each with a full functional contract.
//! * [`ArrayBuf`] implements the [`Array`] trait, the shared interface of
//!   sequence containers; `Vec<T>` implements it too, as the growable
//!   backend.
//! * [`Drain`] carries the elements removed from a sub-range out of an
//!   [`ArrayBuf`] and hands them over one at a time, from either end.

pub mod array;
pub mod buf;
pub mod drain;
pub mod errors;
pub mod interface;
pub mod laws;
pub mod model;
pub mod render;
pub mod retain_mut;
pub mod vector;
pub mod write;

pub use buf::ArrayBuf;
pub use drain::Drain;
pub use errors::Error;
pub use retain_mut::retain_mut;
pub use interface::Array;
