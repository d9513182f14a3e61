//! Verified building blocks for a family of compile-time code generators:
//! what each of them decides, apart from the handling of tokens.

pub mod bitfield;
pub mod builder;
pub mod debug;
pub mod seq;
pub mod sorted;
pub mod syntax;
pub mod text;
pub mod tokens;
