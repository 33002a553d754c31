pub mod copy;
pub mod strmap;
pub mod text;
pub mod ieee;
pub mod utf8;
