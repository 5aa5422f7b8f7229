//! Lookups over the sections of a decoded module.

pub mod debug;
pub mod decorations;
pub mod execution_model;
pub mod id;
pub mod sort;

pub use debug::{find_member_name, find_name_for_id};
pub use decorations::{find_decoration, find_member_offset, has_decoration};
pub use execution_model::{
    execution_model_to_flag, execution_model_to_string, variable_execution_models,
};
pub use id::{find_duplicate_id, find_instruction_with_id};
