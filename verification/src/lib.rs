//! Monowiki: a typed, staged document language with hygienic scope sets,
//! a content tree with show/set rules, and the runtime state of live cells.

pub mod ids;
pub mod mrl;
pub mod render;
pub mod runtime;
pub mod util;
