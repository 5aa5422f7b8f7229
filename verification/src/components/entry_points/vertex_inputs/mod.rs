//! The inputs of a vertex shader, split into those read per vertex and those
//! read per instance.

pub mod laws;
pub mod vertex_input;
pub mod vertex_input_group;

use crate::error::ReflectError;
use crate::module::{ExecutionModel, SpvInstruction, InstructionView, SpvModule, ModuleView, Op, SpvOperand, OperandView};
use crate::utilities::find_instruction_with_id;
use crate::utilities::id::definition;
use crate::utilities::sort::{
    lemma_sorted_prefix, lemma_sorted_with_values, sort_by_key, stable_sorted, with_values,
};
use vertex_input::{vertex_input_of, VertexInput, VertexInputView};
use vertex_input_group::{group_of, input_views, InputRate, VertexInputGroup, VertexInputGroupView};
use vstd::prelude::*;

verus! {

/// The inputs of a vertex shader: the group read per vertex and the group read
/// per instance, where there are such inputs.
#[derive(Debug, PartialEq, Eq)]
pub struct VertexInputs {
    pub vertex_inputs: Option<VertexInputGroup>,
    pub instance_inputs: Option<VertexInputGroup>,
}

/// What a [`VertexInputs`] holds.
pub struct VertexInputsView {
    pub vertex_inputs: Option<VertexInputGroupView>,
    pub instance_inputs: Option<VertexInputGroupView>,
}

/// The view of a group that may be absent.
pub open spec fn group_view(group: Option<VertexInputGroup>) -> Option<VertexInputGroupView> {
    match group {
        Some(present) => Some(present@),
        None => None,
    }
}

impl View for VertexInputs {
    type V = VertexInputsView;

    open spec fn view(&self) -> VertexInputsView {
        VertexInputsView {
            vertex_inputs: group_view(self.vertex_inputs),
            instance_inputs: group_view(self.instance_inputs),
        }
    }
}

/// The function that takes an input to its view.
pub open spec fn viewing() -> spec_fn(VertexInput) -> VertexInputView {
    |input: VertexInput| input@
}

/// The vertex input that the interface operand `operand` of an entry point names.
pub open spec fn named_input(module: ModuleView, operand: OperandView) -> Result<
    Option<VertexInputView>,
    ReflectError,
> {
    match operand {
        OperandView::IdRef(id) => match definition(module, id) {
            Some(declaration) => vertex_input_of(module, declaration),
            None => Ok(None),
        },
        _ => Ok(None),
    }
}

/// The vertex inputs that the first `count` operands of `entry_point` name, each
/// with its location as key, in the order of the operands. The interface of an
/// entry point starts at its fourth operand.
pub open spec fn interface_inputs(module: ModuleView, entry_point: InstructionView, count: int) -> Result<
    Seq<(u32, VertexInputView)>,
    ReflectError,
>
    decreases count,
{
    if count <= 3 || count > entry_point.operands.len() {
        Ok(Seq::empty())
    } else {
        match interface_inputs(module, entry_point, count - 1) {
            Ok(earlier) => match named_input(module, entry_point.operands[count - 1]) {
                Ok(Some(input)) => Ok(earlier.push((input.location, input))),
                Ok(None) => Ok(earlier),
                Err(error) => Err(error),
            },
            Err(error) => Err(error),
        }
    }
}

/// Where the inputs are split: at `split`, or after the last of them where
/// `split` lies beyond or is absent.
pub open spec fn split_point(split: Option<usize>, count: nat) -> int {
    match split {
        Some(index) => if index <= count {
            index as int
        } else {
            count as int
        },
        None => count as int,
    }
}

/// The inputs of `items` from position `from` up to position `to`, without their keys.
pub open spec fn inputs_between(items: Seq<(u32, VertexInputView)>, from: int, to: int) -> Seq<
    VertexInputView,
> {
    Seq::new((to - from) as nat, |i: int| items[from + i].1)
}

/// The groups that the inputs `sorted`, in ascending order of location, make
/// when split at `at`: those before `at` are read per vertex, the others per
/// instance. A group without inputs is absent; the groups that are present are
/// bound at 0, 1, in this order.
pub open spec fn groups_of(sorted: Seq<(u32, VertexInputView)>, at: int) -> Result<
    VertexInputsView,
    ReflectError,
> {
    let vertex = inputs_between(sorted, 0, at);
    let instance = inputs_between(sorted, at, sorted.len() as int);
    let vertex_group = if vertex.len() > 0 {
        match group_of(vertex, "Vertex"@, InputRate::Vertex, 0) {
            Ok(group) => Ok(Some(group)),
            Err(error) => Err(ReflectError::SyntheticLayout { error }),
        }
    } else {
        Ok(None)
    };
    let instance_group = if instance.len() > 0 {
        match group_of(
            instance,
            "Instance"@,
            InputRate::Instance,
            if vertex.len() > 0 {
                1
            } else {
                0
            },
        ) {
            Ok(group) => Ok(Some(group)),
            Err(error) => Err(ReflectError::SyntheticLayout { error }),
        }
    } else {
        Ok(None)
    };
    match (vertex_group, instance_group) {
        (Ok(vertex_inputs), Ok(instance_inputs)) => Ok(
            VertexInputsView { vertex_inputs, instance_inputs },
        ),
        (Err(error), _) => Err(error),
        (_, Err(error)) => Err(error),
    }
}

/// The vertex inputs of the entry point that `entry_point` declares.
///
/// Only an entry point of a vertex shader has any. Its inputs are the variables
/// of its interface that are vertex inputs, in ascending order of location,
/// split at `split` into those read per vertex and those read per instance.
pub open spec fn vertex_inputs_of(
    module: ModuleView,
    entry_point: InstructionView,
    split: Option<usize>,
) -> Result<Option<VertexInputsView>, ReflectError> {
    match (entry_point.opcode, entry_point.operand(0)) {
        (Op::EntryPoint, Some(OperandView::ExecutionModel(ExecutionModel::Vertex))) => {
            match interface_inputs(module, entry_point, entry_point.operands.len() as int) {
                Ok(found) => {
                    if found.len() == 0 {
                        Ok(None)
                    } else {
                        match groups_of(stable_sorted(found), split_point(split, found.len())) {
                            Ok(groups) => Ok(Some(groups)),
                            Err(error) => Err(error),
                        }
                    }
                },
                Err(error) => Err(error),
            }
        },
        _ => Ok(None),
    }
}

fn read_named_input(operand: &SpvOperand, module: &SpvModule) -> (outcome: Result<
    Option<VertexInput>,
    ReflectError,
>)
    ensures
        crate::types::resolve::agrees(outcome, named_input(module@, operand@)),
{
    match operand {
        SpvOperand::IdRef(id) => match find_instruction_with_id(*id, module) {
            Some(declaration) => VertexInput::from_instruction(declaration, module),
            None => Ok(None),
        },
        _ => Ok(None),
    }
}

fn read_interface(entry_point: &SpvInstruction, module: &SpvModule) -> (outcome: Result<
    Vec<(u32, VertexInput)>,
    ReflectError,
>)
    ensures
        match interface_inputs(module@, entry_point@, entry_point@.operands.len() as int) {
            Ok(found) => outcome matches Ok(inputs) && with_values(inputs@, viewing()) == found,
            Err(error) => outcome matches Err(failure) && failure == error,
        },
{
    let mut inputs: Vec<(u32, VertexInput)> = Vec::new();
    let count: usize = entry_point.operands.len();
    assert(with_values(inputs@, viewing()) =~= Seq::<(u32, VertexInputView)>::empty());
    if count <= 3 {
        return Ok(inputs);
    }
    let mut index: usize = 3;
    while index < count
        invariant
            3 <= index <= count,
            count == entry_point.operands.len(),
            count == entry_point@.operands.len(),
            interface_inputs(module@, entry_point@, index as int) == Ok::<
                Seq<(u32, VertexInputView)>,
                ReflectError,
            >(with_values(inputs@, viewing())),
        decreases count - index,
    {
        let ghost earlier = with_values(inputs@, viewing());
        assert(entry_point@.operands[index as int] == entry_point.operands[index as int]@);
        match read_named_input(&entry_point.operands[index], module) {
            Ok(Some(input)) => {
                let ghost view = input@;
                inputs.push((input.location, input));
                assert(with_values(inputs@, viewing()) =~= earlier.push((view.location, view)));
            },
            Ok(None) => {},
            Err(error) => {
                proof {
                    lemma_interface_fails(module@, entry_point@, index + 1, count as int);
                }
                return Err(error);
            },
        }
        index = index + 1;
    }
    Ok(inputs)
}

/// Once an interface operand fails, the failure stays whatever follows.
proof fn lemma_interface_fails(module: ModuleView, entry_point: InstructionView, count: int, later: int)
    requires
        3 < count <= later <= entry_point.operands.len(),
        interface_inputs(module, entry_point, count) is Err,
    ensures
        interface_inputs(module, entry_point, later) == interface_inputs(module, entry_point, count),
    decreases later - count,
{
    if count < later {
        lemma_interface_fails(module, entry_point, count, later - 1);
    }
}

fn make_group(inputs: Vec<VertexInput>, name: &str, input_rate: InputRate, binding: u32) -> (outcome:
    Result<Option<VertexInputGroup>, ReflectError>)
    ensures
        match (if inputs@.len() > 0 {
            match group_of(input_views(inputs@), name@, input_rate, binding) {
                Ok(group) => Ok::<Option<VertexInputGroupView>, ReflectError>(Some(group)),
                Err(error) => Err(ReflectError::SyntheticLayout { error }),
            }
        } else {
            Ok(None)
        }) {
            Ok(group) => outcome matches Ok(made) && group_view(made) == group,
            Err(error) => outcome matches Err(failure) && failure == error,
        },
{
    if inputs.len() == 0 {
        return Ok(None);
    }
    match VertexInputGroup::from_inputs(inputs, String::from_str(name), input_rate, binding) {
        Ok(group) => Ok(Some(group)),
        Err(error) => Err(ReflectError::SyntheticLayout { error }),
    }
}

impl VertexInputs {
    /// Reflects the vertex inputs of the entry point that `instruction` declares,
    /// split at `split_index` into those read per vertex and those read per
    /// instance; without a split index all are read per vertex.
    pub fn from_instruction(instruction: &SpvInstruction, module: &SpvModule, split_index: Option<usize>) -> (outcome:
        Result<Option<VertexInputs>, ReflectError>)
        ensures
            crate::types::resolve::agrees(
                outcome,
                vertex_inputs_of(module@, instruction@, split_index),
            ),
    {
        match instruction.opcode {
            Op::EntryPoint => {},
            _ => {
                return Ok(None);
            },
        }
        match instruction.execution_model_at(0) {
            Some(ExecutionModel::Vertex) => {},
            _ => {
                return Ok(None);
            },
        }
        let found = match read_interface(instruction, module) {
            Ok(inputs) => inputs,
            Err(error) => {
                return Err(error);
            },
        };
        let total: usize = found.len();
        if total == 0 {
            return Ok(None);
        }
        let at: usize = match split_index {
            Some(index) => if index <= total {
                index
            } else {
                total
            },
            None => total,
        };
        let ghost unsorted = found@;
        let sorted = sort_by_key(found);
        let ghost keyed = with_values(sorted@, viewing());
        proof {
            lemma_sorted_with_values(unsorted, viewing(), unsorted.len() as int);
            lemma_sorted_prefix(unsorted, unsorted.len() as int);
            assert(keyed == stable_sorted(with_values(unsorted, viewing())));
        }
        let mut vertex: Vec<VertexInput> = Vec::new();
        let mut instance: Vec<VertexInput> = Vec::new();
        let ghost all = sorted@;
        let mut position: usize = 0;
        for item in iter: sorted
            invariant
                iter.seq() == all,
                position == iter.index(),
                all.len() == total,
                at <= total,
                keyed == with_values(all, viewing()),
                position <= at ==> vertex@.len() == position && instance@.len() == 0,
                position > at ==> vertex@.len() == at && instance@.len() == position - at,
                forall|i: int| 0 <= i < vertex@.len() ==> (#[trigger] vertex@[i])@ == keyed[i].1,
                forall|i: int|
                    0 <= i < instance@.len() ==> (#[trigger] instance@[i])@ == keyed[at + i].1,
        {
            let (_, input) = item;
            assert(keyed[position as int].1 == input@);
            if position < at {
                vertex.push(input);
            } else {
                instance.push(input);
            }
            position = position + 1;
        }
        assert(input_views(vertex@) =~= inputs_between(keyed, 0, at as int));
        assert(input_views(instance@) =~= inputs_between(keyed, at as int, keyed.len() as int));
        let has_vertex: bool = vertex.len() > 0;
        let vertex_inputs = match make_group(vertex, "Vertex", InputRate::Vertex, 0) {
            Ok(group) => group,
            Err(error) => {
                return Err(error);
            },
        };
        let binding: u32 = if has_vertex {
            1
        } else {
            0
        };
        let instance_inputs = match make_group(instance, "Instance", InputRate::Instance, binding) {
            Ok(group) => group,
            Err(error) => {
                return Err(error);
            },
        };
        Ok(Some(VertexInputs { vertex_inputs, instance_inputs }))
    }
}

} // verus!
