//! Reflection of SPIR-V shader modules: entry points, descriptor bindings,
//! push constants and specialization constants, with the memory layout of
//! every data block.

pub mod components;
pub mod decode;
pub mod error;
pub mod frame;
pub mod module;
pub mod naming;
pub mod reflection;
pub mod text;
pub mod types;
pub mod utilities;

pub use reflection::{Error, Spirv};
