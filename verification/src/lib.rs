//! An algebraic effects runtime.
//!
//! A computation declares the effect kinds it may suspend on and, when it
//! needs one of their operations carried out, pauses and hands out a tagged
//! carrier that names the operation and holds its arguments. A handler answers
//! the carrier: with an injection, and the computation resumes with it, or
//! with a final result, and the drive ends there.
//!
//! - [`decl`]: effect kinds, invocations and injections;
//! - [`carrier`], [`embed`]: tagged carriers over a list of kinds, widening
//!   and narrowing between lists;
//! - [`computation`], [`perform`]: effectful computations and the protocol
//!   that guards them;
//! - [`compose`]: one computation as a step of another;
//! - [`handler`], [`drive`]: handlers and the drive loop.

pub mod carrier;
pub mod compose;
pub mod computation;
pub mod decl;
pub mod drive;
pub mod embed;
pub mod handler;
pub mod names;
pub mod perform;
pub mod value;

pub use crate::computation::effectful;
pub use crate::decl::effects;
pub use crate::handler::handler;
