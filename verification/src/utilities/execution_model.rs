//! The shader stages that use a variable.

use crate::module::{ExecutionModel, SpvInstruction, InstructionView, SpvModule, ModuleView, Op, OperandView};
use vstd::prelude::*;

verus! {

/// The stage of `entry_point`, where its interface list names `variable`.
pub open spec fn stage_using(entry_point: InstructionView, variable: u32) -> Option<ExecutionModel> {
    if entry_point.opcode == Op::EntryPoint && entry_point.refers_to(variable, 3) {
        match entry_point.operand(0) {
            Some(OperandView::ExecutionModel(model)) => Some(model),
            _ => None,
        }
    } else {
        None
    }
}

/// The stages of the first `count` entry points that use `variable`, each once,
/// in the order in which they first occur.
pub open spec fn stages_among(entry_points: Seq<InstructionView>, variable: u32, count: int) -> Seq<
    ExecutionModel,
>
    decreases count,
{
    if count <= 0 || count > entry_points.len() {
        Seq::empty()
    } else {
        let earlier = stages_among(entry_points, variable, count - 1);
        match stage_using(entry_points[count - 1], variable) {
            Some(model) => if earlier.contains(model) {
                earlier
            } else {
                earlier.push(model)
            },
            None => earlier,
        }
    }
}

/// The stages of the module that use `variable`.
pub open spec fn stages_of(module: ModuleView, variable: u32) -> Seq<ExecutionModel> {
    stages_among(module.entry_points, variable, module.entry_points.len() as int)
}

/// Tells whether `stages` holds `model`.
pub fn holds_stage(stages: &Vec<ExecutionModel>, model: ExecutionModel) -> (found: bool)
    ensures
        found == stages@.contains(model),
{
    let mut index: usize = 0;
    while index < stages.len()
        invariant
            index <= stages.len(),
            forall|k: int| 0 <= k < index ==> stages@[k] != model,
        decreases stages.len() - index,
    {
        if stages[index] == model {
            return true;
        }
        index = index + 1;
    }
    false
}

fn read_stage(entry_point: &SpvInstruction, variable: u32) -> (stage: Option<ExecutionModel>)
    ensures
        stage == stage_using(entry_point@, variable),
{
    match entry_point.opcode {
        Op::EntryPoint => {},
        _ => {
            return None;
        },
    }
    if entry_point.refers_to(variable, 3) {
        entry_point.execution_model_at(0)
    } else {
        None
    }
}

/// Collects the stages whose entry points name `variable_id` in their interface
/// list, each stage once.
pub fn variable_execution_models(variable_id: u32, module: &SpvModule) -> (stages: Vec<ExecutionModel>)
    ensures
        stages@ == stages_of(module@, variable_id),
{
    let mut stages: Vec<ExecutionModel> = Vec::new();
    let mut index: usize = 0;
    while index < module.entry_points.len()
        invariant
            index <= module.entry_points.len(),
            stages@ == stages_among(module@.entry_points, variable_id, index as int),
        decreases module.entry_points.len() - index,
    {
        let entry_point = &module.entry_points[index];
        assert(module@.entry_points[index as int] == entry_point@);
        match read_stage(entry_point, variable_id) {
            Some(model) => {
                if !holds_stage(&stages, model) {
                    stages.push(model);
                }
            },
            None => {},
        }
        index = index + 1;
    }
    stages
}

/// A stage is among the stages of a variable exactly if an entry point of that
/// stage names the variable, and no stage is listed twice.
pub proof fn lemma_stages_of(module: ModuleView, variable: u32)
    ensures
        stages_of(module, variable).no_duplicates(),
        forall|model: ExecutionModel|
            stages_of(module, variable).contains(model) <==> exists|k: int|
                0 <= k < module.entry_points.len() && stage_using(
                    #[trigger] module.entry_points[k],
                    variable,
                ) == Some(model),
{
    lemma_stages_among(module.entry_points, variable, module.entry_points.len() as int);
}

proof fn lemma_stages_among(entry_points: Seq<InstructionView>, variable: u32, count: int)
    requires
        0 <= count <= entry_points.len(),
    ensures
        stages_among(entry_points, variable, count).no_duplicates(),
        forall|model: ExecutionModel|
            stages_among(entry_points, variable, count).contains(model) <==> exists|k: int|
                0 <= k < count && stage_using(#[trigger] entry_points[k], variable) == Some(model),
    decreases count,
{
    if count > 0 {
        lemma_stages_among(entry_points, variable, count - 1);
        let earlier = stages_among(entry_points, variable, count - 1);
        let now = stages_among(entry_points, variable, count);
        let last = stage_using(entry_points[count - 1], variable);
        assert forall|model: ExecutionModel| now.contains(model) implies exists|k: int|
            0 <= k < count && stage_using(#[trigger] entry_points[k], variable) == Some(model) by {
            if earlier.contains(model) {
                let k = choose|k: int|
                    0 <= k < count - 1 && stage_using(#[trigger] entry_points[k], variable) == Some(
                        model,
                    );
                assert(0 <= k < count);
            } else {
                let position = choose|i: int| 0 <= i < now.len() && now[i] == model;
                assert(last == Some(model));
                assert(stage_using(entry_points[count - 1], variable) == Some(model));
            }
        }
        assert forall|model: ExecutionModel|
            (exists|k: int|
                0 <= k < count && stage_using(#[trigger] entry_points[k], variable) == Some(
                    model,
                )) implies now.contains(model) by {
            let k = choose|k: int|
                0 <= k < count && stage_using(#[trigger] entry_points[k], variable) == Some(model);
            if k < count - 1 {
                assert(earlier.contains(model));
                let position = choose|i: int| 0 <= i < earlier.len() && earlier[i] == model;
                assert(now[position] == model);
            } else {
                if earlier.contains(model) {
                } else {
                    assert(now[now.len() - 1] == model);
                }
            }
        }
    }
}

/// The name of the Vulkan shader stage flag of a stage; the `Kernel` stage has none.
pub open spec fn stage_flag(model: ExecutionModel) -> Option<Seq<char>> {
    match model {
        ExecutionModel::Vertex => Some("VERTEX"@),
        ExecutionModel::TessellationControl => Some("TESSELLATION_CONTROL"@),
        ExecutionModel::TessellationEvaluation => Some("TESSELLATION_EVALUATION"@),
        ExecutionModel::Geometry => Some("GEOMETRY"@),
        ExecutionModel::Fragment => Some("FRAGMENT"@),
        ExecutionModel::GLCompute => Some("COMPUTE"@),
        ExecutionModel::Kernel => None,
        ExecutionModel::TaskNV => Some("TASK_NV"@),
        ExecutionModel::MeshNV => Some("MESH_NV"@),
        ExecutionModel::RayGenerationNV => Some("RAYGEN_NV"@),
        ExecutionModel::IntersectionNV => Some("INTERSECTION_NV"@),
        ExecutionModel::AnyHitNV => Some("ANY_HIT_NV"@),
        ExecutionModel::ClosestHitNV => Some("CLOSEST_HIT_NV"@),
        ExecutionModel::MissNV => Some("MISS_NV"@),
        ExecutionModel::CallableNV => Some("CALLABLE_NV"@),
        ExecutionModel::TaskEXT => Some("TASK_EXT"@),
        ExecutionModel::MeshEXT => Some("MESH_EXT"@),
    }
}

/// Names the Vulkan shader stage flag of a stage.
pub fn execution_model_to_flag(execution_model: &ExecutionModel) -> (name: Option<&'static str>)
    ensures
        match stage_flag(*execution_model) {
            Some(value) => name is Some && name->0@ == value,
            None => name is None,
        },
{
    match execution_model {
        ExecutionModel::Vertex => Some("VERTEX"),
        ExecutionModel::TessellationControl => Some("TESSELLATION_CONTROL"),
        ExecutionModel::TessellationEvaluation => Some("TESSELLATION_EVALUATION"),
        ExecutionModel::Geometry => Some("GEOMETRY"),
        ExecutionModel::Fragment => Some("FRAGMENT"),
        ExecutionModel::GLCompute => Some("COMPUTE"),
        ExecutionModel::Kernel => None,
        ExecutionModel::TaskNV => Some("TASK_NV"),
        ExecutionModel::MeshNV => Some("MESH_NV"),
        ExecutionModel::RayGenerationNV => Some("RAYGEN_NV"),
        ExecutionModel::IntersectionNV => Some("INTERSECTION_NV"),
        ExecutionModel::AnyHitNV => Some("ANY_HIT_NV"),
        ExecutionModel::ClosestHitNV => Some("CLOSEST_HIT_NV"),
        ExecutionModel::MissNV => Some("MISS_NV"),
        ExecutionModel::CallableNV => Some("CALLABLE_NV"),
        ExecutionModel::TaskEXT => Some("TASK_EXT"),
        ExecutionModel::MeshEXT => Some("MESH_EXT"),
    }
}

/// The lower-case name of a stage.
pub open spec fn stage_name(model: ExecutionModel) -> Seq<char> {
    match model {
        ExecutionModel::Vertex => "vertex"@,
        ExecutionModel::TessellationControl => "tessellation_control"@,
        ExecutionModel::TessellationEvaluation => "tessellation_evaluation"@,
        ExecutionModel::Geometry => "geometry"@,
        ExecutionModel::Fragment => "fragment"@,
        ExecutionModel::GLCompute => "compute"@,
        ExecutionModel::Kernel => "kernel"@,
        ExecutionModel::TaskNV => "task_nv"@,
        ExecutionModel::MeshNV => "mesh_nv"@,
        ExecutionModel::RayGenerationNV => "ray_generation_nv"@,
        ExecutionModel::IntersectionNV => "intersection_nv"@,
        ExecutionModel::AnyHitNV => "any_hit_nv"@,
        ExecutionModel::ClosestHitNV => "closest_hit_nv"@,
        ExecutionModel::MissNV => "miss_nv"@,
        ExecutionModel::CallableNV => "callable_nv"@,
        ExecutionModel::TaskEXT => "task_ext"@,
        ExecutionModel::MeshEXT => "mesh_ext"@,
    }
}

/// Names a stage in lower case.
pub fn execution_model_to_string(execution_model: &ExecutionModel) -> (name: &'static str)
    ensures
        name@ == stage_name(*execution_model),
{
    match execution_model {
        ExecutionModel::Vertex => "vertex",
        ExecutionModel::TessellationControl => "tessellation_control",
        ExecutionModel::TessellationEvaluation => "tessellation_evaluation",
        ExecutionModel::Geometry => "geometry",
        ExecutionModel::Fragment => "fragment",
        ExecutionModel::GLCompute => "compute",
        ExecutionModel::Kernel => "kernel",
        ExecutionModel::TaskNV => "task_nv",
        ExecutionModel::MeshNV => "mesh_nv",
        ExecutionModel::RayGenerationNV => "ray_generation_nv",
        ExecutionModel::IntersectionNV => "intersection_nv",
        ExecutionModel::AnyHitNV => "any_hit_nv",
        ExecutionModel::ClosestHitNV => "closest_hit_nv",
        ExecutionModel::MissNV => "miss_nv",
        ExecutionModel::CallableNV => "callable_nv",
        ExecutionModel::TaskEXT => "task_ext",
        ExecutionModel::MeshEXT => "mesh_ext",
    }
}

} // verus!
