//! The parts of a module's interface that reflection reports.

pub mod descriptors;
pub mod entry_points;
pub mod push_constants;
pub mod specialization_constants;

pub use descriptors::descriptor_binding::DescriptorBinding;
pub use descriptors::DescriptorSets;
pub use entry_points::dispatch::Dispatch;
pub use entry_points::entry_point::EntryPoint;
pub use entry_points::vertex_inputs::vertex_input::VertexInput;
pub use entry_points::vertex_inputs::vertex_input_group::{InputRate, VertexInputGroup};
pub use entry_points::vertex_inputs::VertexInputs;
pub use entry_points::EntryPoints;
pub use push_constants::push_constant::PushConstant;
pub use push_constants::PushConstants;
pub use specialization_constants::specialization_constant::SpecializationConstant;
pub use specialization_constants::{SpecializationConstants, SpecializationMapEntry};
