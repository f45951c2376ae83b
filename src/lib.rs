//! An ahead-of-time compiler from the eight-instruction tape language to
//! 32-bit ARM assembly text: filter, parse, flatten, fold constants, expand
//! to register / memory instructions, remove redundant loads, render.

pub mod emit;
pub mod filter;
pub mod ir;
pub mod lower;
pub mod nesting;
pub mod parse;
pub mod peephole;
pub mod pipeline;
pub mod window;
