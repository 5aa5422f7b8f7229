//! Decoding of SPIR-V binaries into modules.
//!
//! The words are decoded by the `rspirv` crate. What it returns is opaque to the
//! verifier: the few functions below that touch it are believed, not proved, and
//! each says which outside function it stands for. Everything that turns the
//! decoder's values into a [`SpvModule`] is verified.

use crate::module::{
    Decoration, Dim, ExecutionMode, ExecutionModel, InstructionView, ModuleView, Op, OperandView,
    StorageClass,
};
use crate::frame::{check_frame, frame_fault, framed, FrameFault};
use rspirv::binary::ParseState;
use vstd::prelude::*;

verus! {

/// The module type of the `rspirv` crate: the sections of a decoded binary.
#[verifier::external_type_specification]
#[verifier::external_body]
pub struct ExLoadedModule(rspirv::dr::Module);

/// The instruction type of the `rspirv` crate.
#[verifier::external_type_specification]
#[verifier::external_body]
pub struct ExLoadedInstruction(rspirv::dr::Instruction);

/// The operand type of the `rspirv` crate.
#[verifier::external_type_specification]
#[verifier::external_body]
pub struct ExLoadedOperand(rspirv::dr::Operand);

/// The state in which the parser of the `rspirv` crate stops when it fails.
#[verifier::external_type_specification]
#[verifier::external_body]
pub struct ExParseState(rspirv::binary::ParseState);

/// Why a binary could not be decoded.
#[derive(Clone, Copy, Debug, PartialEq, Eq, Structural)]
pub enum DecodeError {
    /// The consumer of the instructions stopped or rejected the module.
    Rejected,
    HeaderIncomplete,
    HeaderIncorrect,
    EndiannessUnsupported,
    WordCountZero,
    OpcodeUnknown,
    OperandExpected,
    OperandExceeded,
    OperandError,
    TypeUnsupported,
    SpecConstantOpIntegerIncorrect,
    /// The binary is not framed: the decoder is not run on it.
    Unframed(FrameFault),
}

/// An operand as the decoder gives it: enumerants by their SPIR-V numbers.
#[derive(Debug)]
pub enum RawOperand {
    IdRef(u32),
    LiteralBit32(u32),
    LiteralString(String),
    ExecutionModel(u32),
    ExecutionMode(u32),
    StorageClass(u32),
    Decoration(u32),
    Dim(u32),
    Other,
}

/// What a [`RawOperand`] holds.
pub enum RawOperandView {
    IdRef(u32),
    LiteralBit32(u32),
    LiteralString(Seq<char>),
    ExecutionModel(u32),
    ExecutionMode(u32),
    StorageClass(u32),
    Decoration(u32),
    Dim(u32),
    Other,
}

impl View for RawOperand {
    type V = RawOperandView;

    open spec fn view(&self) -> RawOperandView {
        match self {
            RawOperand::IdRef(id) => RawOperandView::IdRef(*id),
            RawOperand::LiteralBit32(value) => RawOperandView::LiteralBit32(*value),
            RawOperand::LiteralString(text) => RawOperandView::LiteralString(text@),
            RawOperand::ExecutionModel(word) => RawOperandView::ExecutionModel(*word),
            RawOperand::ExecutionMode(word) => RawOperandView::ExecutionMode(*word),
            RawOperand::StorageClass(word) => RawOperandView::StorageClass(*word),
            RawOperand::Decoration(word) => RawOperandView::Decoration(*word),
            RawOperand::Dim(word) => RawOperandView::Dim(*word),
            RawOperand::Other => RawOperandView::Other,
        }
    }
}

/// An instruction as the decoder gives it: its opcode by its SPIR-V number.
pub struct RawInstruction {
    pub opcode: u32,
    pub result_type: Option<u32>,
    pub result_id: Option<u32>,
    pub operands: Seq<RawOperandView>,
}

/// A module as the decoder gives it.
pub struct RawModule {
    pub types_global_values: Seq<RawInstruction>,
    pub annotations: Seq<RawInstruction>,
    pub entry_points: Seq<RawInstruction>,
    pub execution_modes: Seq<RawInstruction>,
    pub debug_names: Seq<RawInstruction>,
}

/// What the parser of the `rspirv` crate makes of `bytes`, loaded into its data
/// representation: the sections that reflection reads, or the failure.
pub uninterp spec fn parsed(bytes: Seq<u8>) -> Result<RawModule, DecodeError>;

/// What a module of the `rspirv` crate holds in the sections that reflection reads.
pub uninterp spec fn module_content(module: rspirv::dr::Module) -> RawModule;

/// What an instruction of the `rspirv` crate holds.
pub uninterp spec fn instruction_content(instruction: rspirv::dr::Instruction) -> RawInstruction;

/// What an operand of the `rspirv` crate holds.
pub uninterp spec fn operand_content(operand: rspirv::dr::Operand) -> RawOperandView;

/// The failure that a parser state of the `rspirv` crate stands for.
pub uninterp spec fn failure_content(state: rspirv::binary::ParseState) -> DecodeError;

/// What a list of instructions of the `rspirv` crate holds, in order.
pub open spec fn instruction_contents(instructions: Seq<rspirv::dr::Instruction>) -> Seq<
    RawInstruction,
> {
    Seq::new(instructions.len(), |i: int| instruction_content(instructions[i]))
}

/// What a list of operands of the `rspirv` crate holds, in order.
pub open spec fn operand_contents(operands: Seq<rspirv::dr::Operand>) -> Seq<RawOperandView> {
    Seq::new(operands.len(), |i: int| operand_content(operands[i]))
}

/// Runs `rspirv::binary::Parser::parse` on `bytes` with a fresh
/// `rspirv::dr::Loader` as consumer and hands out the loader's module.
///
/// The contract only names the outcome: it is what `parsed` stands for. The
/// parser panics where it decodes a string in an instruction that runs over
/// the end of the binary, and on an `OpSpecConstantOp` that names `OpConstant`,
/// `OpSpecConstant`, `OpSpecConstantOp` or `OpSwitch`; it is called on framed
/// binaries only, which hold neither. Every other input that it rejects it
/// reports as a state.
#[verifier::external_body]
fn parse_module(bytes: &[u8]) -> (outcome: Result<rspirv::dr::Module, rspirv::binary::ParseState>)
    requires
        framed(bytes@),
    ensures
        match outcome {
            Ok(module) => parsed(bytes@) == Ok::<RawModule, DecodeError>(module_content(module)),
            Err(state) => parsed(bytes@) == Err::<RawModule, DecodeError>(failure_content(state)),
        },
{
    let mut loader = rspirv::dr::Loader::new();
    match rspirv::binary::Parser::new(bytes, &mut loader).parse() {
        Ok(()) => Ok(loader.module()),
        Err(state) => Err(state),
    }
}

/// Tells the variants of `rspirv::binary::ParseState` apart.
///
/// The contract only names the result: it is what `failure_content` stands for.
#[verifier::external_body]
fn failure(state: &rspirv::binary::ParseState) -> (error: DecodeError)
    ensures
        error == failure_content(*state),
{
    match state {
        ParseState::Complete => DecodeError::Rejected,
        ParseState::ConsumerStopRequested => DecodeError::Rejected,
        ParseState::ConsumerError(_) => DecodeError::Rejected,
        ParseState::HeaderIncomplete(_) => DecodeError::HeaderIncomplete,
        ParseState::HeaderIncorrect => DecodeError::HeaderIncorrect,
        ParseState::EndiannessUnsupported => DecodeError::EndiannessUnsupported,
        ParseState::WordCountZero(..) => DecodeError::WordCountZero,
        ParseState::OpcodeUnknown(..) => DecodeError::OpcodeUnknown,
        ParseState::OperandExpected(..) => DecodeError::OperandExpected,
        ParseState::OperandExceeded(..) => DecodeError::OperandExceeded,
        ParseState::OperandError(_) => DecodeError::OperandError,
        ParseState::TypeUnsupported(..) => DecodeError::TypeUnsupported,
        ParseState::SpecConstantOpIntegerIncorrect(..) => DecodeError::SpecConstantOpIntegerIncorrect,
    }
}

/// The five sections of a loaded module, as lists of instructions.
pub struct Sections {
    pub types_global_values: Vec<rspirv::dr::Instruction>,
    pub annotations: Vec<rspirv::dr::Instruction>,
    pub entry_points: Vec<rspirv::dr::Instruction>,
    pub execution_modes: Vec<rspirv::dr::Instruction>,
    pub debug_names: Vec<rspirv::dr::Instruction>,
}

/// Takes the fields `types_global_values`, `annotations`, `entry_points`,
/// `execution_modes` and `debug_names` out of an `rspirv::dr::Module`.
///
/// The contract says that these lists hold what `module_content` names.
#[verifier::external_body]
fn sections(module: rspirv::dr::Module) -> (parts: Sections)
    ensures
        instruction_contents(parts.types_global_values@) == module_content(
            module,
        ).types_global_values,
        instruction_contents(parts.annotations@) == module_content(module).annotations,
        instruction_contents(parts.entry_points@) == module_content(module).entry_points,
        instruction_contents(parts.execution_modes@) == module_content(module).execution_modes,
        instruction_contents(parts.debug_names@) == module_content(module).debug_names,
{
    Sections {
        types_global_values: module.types_global_values,
        annotations: module.annotations,
        entry_points: module.entry_points,
        execution_modes: module.execution_modes,
        debug_names: module.debug_names,
    }
}

/// The parts of a loaded instruction: the number of its opcode, its result type,
/// its result id and its operands.
pub struct Parts {
    pub opcode: u32,
    pub result_type: Option<u32>,
    pub result_id: Option<u32>,
    pub operands: Vec<rspirv::dr::Operand>,
}

/// Takes an `rspirv::dr::Instruction` apart: the number of `class.opcode`, and
/// the fields `result_type`, `result_id` and `operands`.
///
/// The contract says that these parts are what `instruction_content` names.
#[verifier::external_body]
fn instruction_parts(instruction: rspirv::dr::Instruction) -> (parts: Parts)
    ensures
        instruction_content(instruction) == (RawInstruction {
            opcode: parts.opcode,
            result_type: parts.result_type,
            result_id: parts.result_id,
            operands: operand_contents(parts.operands@),
        }),
{
    Parts {
        opcode: instruction.class.opcode as u32,
        result_type: instruction.result_type,
        result_id: instruction.result_id,
        operands: instruction.operands,
    }
}

/// Tells the variants of `rspirv::dr::Operand` apart, with every enumerant
/// turned into its SPIR-V number. The variants that reflection never reads
/// become `Other`.
///
/// The contract only names the result: it is what `operand_content` stands for.
#[verifier::external_body]
fn operand_parts(operand: rspirv::dr::Operand) -> (raw: RawOperand)
    ensures
        raw@ == operand_content(operand),
{
    match operand {
        rspirv::dr::Operand::IdRef(id) => RawOperand::IdRef(id),
        rspirv::dr::Operand::LiteralBit32(value) => RawOperand::LiteralBit32(value),
        rspirv::dr::Operand::LiteralString(text) => RawOperand::LiteralString(text),
        rspirv::dr::Operand::ExecutionModel(model) => RawOperand::ExecutionModel(model as u32),
        rspirv::dr::Operand::ExecutionMode(mode) => RawOperand::ExecutionMode(mode as u32),
        rspirv::dr::Operand::StorageClass(class) => RawOperand::StorageClass(class as u32),
        rspirv::dr::Operand::Decoration(decoration) => RawOperand::Decoration(decoration as u32),
        rspirv::dr::Operand::Dim(dim) => RawOperand::Dim(dim as u32),
        _ => RawOperand::Other,
    }
}

/// The operand that a raw operand stands for: enumerants are read from their
/// numbers, and an execution model with an unknown number becomes `Other`.
pub open spec fn typed_operand(raw: RawOperandView) -> OperandView {
    match raw {
        RawOperandView::IdRef(id) => OperandView::IdRef(id),
        RawOperandView::LiteralBit32(value) => OperandView::LiteralBit32(value),
        RawOperandView::LiteralString(text) => OperandView::LiteralString(text),
        RawOperandView::ExecutionModel(word) => match ExecutionModel::of_word(word) {
            Some(model) => OperandView::ExecutionModel(model),
            None => OperandView::Other,
        },
        RawOperandView::ExecutionMode(word) => OperandView::ExecutionMode(
            ExecutionMode::of_word(word),
        ),
        RawOperandView::StorageClass(word) => OperandView::StorageClass(StorageClass::of_word(word)),
        RawOperandView::Decoration(word) => OperandView::Decoration(Decoration::of_word(word)),
        RawOperandView::Dim(word) => OperandView::Dim(Dim::of_word(word)),
        RawOperandView::Other => OperandView::Other,
    }
}

/// The instruction that a raw instruction stands for.
pub open spec fn typed_instruction(raw: RawInstruction) -> InstructionView {
    InstructionView {
        opcode: Op::of_word(raw.opcode),
        result_type: raw.result_type,
        result_id: raw.result_id,
        operands: Seq::new(raw.operands.len(), |i: int| typed_operand(raw.operands[i])),
    }
}

/// The instructions that a list of raw instructions stands for, in order.
pub open spec fn typed_instructions(raw: Seq<RawInstruction>) -> Seq<InstructionView> {
    Seq::new(raw.len(), |i: int| typed_instruction(raw[i]))
}

/// The module that a raw module stands for.
pub open spec fn typed_module(raw: RawModule) -> ModuleView {
    ModuleView {
        types_global_values: typed_instructions(raw.types_global_values),
        annotations: typed_instructions(raw.annotations),
        entry_points: typed_instructions(raw.entry_points),
        execution_modes: typed_instructions(raw.execution_modes),
        debug_names: typed_instructions(raw.debug_names),
    }
}

/// The module that `bytes` decode to, or the failure. A binary that is not
/// framed fails with the first fault of its framing; any other binary gives
/// what the decoder makes of it.
pub open spec fn decoded(bytes: Seq<u8>) -> Result<ModuleView, DecodeError> {
    match frame_fault(bytes) {
        Some(fault) => Err(DecodeError::Unframed(fault)),
        None => match parsed(bytes) {
            Ok(raw) => Ok(typed_module(raw)),
            Err(error) => Err(error),
        },
    }
}

/// Reads the enumerants of a raw operand from their numbers.
pub fn convert_operand(raw: RawOperand) -> (operand: crate::module::SpvOperand)
    ensures
        operand@ == typed_operand(raw@),
{
    match raw {
        RawOperand::IdRef(id) => crate::module::SpvOperand::IdRef(id),
        RawOperand::LiteralBit32(value) => crate::module::SpvOperand::LiteralBit32(value),
        RawOperand::LiteralString(text) => crate::module::SpvOperand::LiteralString(text),
        RawOperand::ExecutionModel(word) => match ExecutionModel::from_word(word) {
            Some(model) => crate::module::SpvOperand::ExecutionModel(model),
            None => crate::module::SpvOperand::Other,
        },
        RawOperand::ExecutionMode(word) => crate::module::SpvOperand::ExecutionMode(ExecutionMode::from_word(word)),
        RawOperand::StorageClass(word) => crate::module::SpvOperand::StorageClass(StorageClass::from_word(word)),
        RawOperand::Decoration(word) => crate::module::SpvOperand::Decoration(Decoration::from_word(word)),
        RawOperand::Dim(word) => crate::module::SpvOperand::Dim(Dim::from_word(word)),
        RawOperand::Other => crate::module::SpvOperand::Other,
    }
}

fn convert_instruction(loaded: rspirv::dr::Instruction) -> (instruction: crate::module::SpvInstruction)
    ensures
        instruction@ == typed_instruction(instruction_content(loaded)),
{
    let parts = instruction_parts(loaded);
    let Parts { opcode, result_type, result_id, operands: loaded_operands } = parts;
    let ghost given = loaded_operands@;
    let mut operands: Vec<crate::module::SpvOperand> = Vec::new();
    for operand in iter: loaded_operands
        invariant
            iter.seq() == given,
            operands@.len() == iter.index(),
            forall|i: int|
                0 <= i < operands@.len() ==> (#[trigger] operands@[i])@ == typed_operand(
                    operand_content(given[i]),
                ),
    {
        operands.push(convert_operand(operand_parts(operand)));
    }
    let instruction = crate::module::SpvInstruction { opcode: Op::from_word(opcode), result_type, result_id, operands };
    assert(instruction@.operands =~= typed_instruction(instruction_content(loaded)).operands);
    instruction
}

fn convert_instructions(loaded: Vec<rspirv::dr::Instruction>) -> (instructions: Vec<crate::module::SpvInstruction>)
    ensures
        crate::module::instruction_views(instructions@) == typed_instructions(
            instruction_contents(loaded@),
        ),
{
    let ghost given = loaded@;
    let mut instructions: Vec<crate::module::SpvInstruction> = Vec::new();
    for instruction in iter: loaded
        invariant
            iter.seq() == given,
            instructions@.len() == iter.index(),
            forall|i: int|
                0 <= i < instructions@.len() ==> (#[trigger] instructions@[i])@
                    == typed_instruction(instruction_content(given[i])),
    {
        instructions.push(convert_instruction(instruction));
    }
    assert(crate::module::instruction_views(instructions@) =~= typed_instructions(
        instruction_contents(given),
    ));
    instructions
}

/// Decodes a SPIR-V binary into a module.
pub fn decode(bytes: &[u8]) -> (result: Result<crate::module::SpvModule, DecodeError>)
    ensures
        match decoded(bytes@) {
            Ok(view) => result matches Ok(module) && module@ == view,
            Err(error) => result matches Err(failure) && failure == error,
        },
{
    match check_frame(bytes) {
        Some(fault) => {
            return Err(DecodeError::Unframed(fault));
        },
        None => {},
    }
    match parse_module(bytes) {
        Ok(loaded) => {
            let parts = sections(loaded);
            let Sections { types_global_values, annotations, entry_points, execution_modes, debug_names } =
                parts;
            Ok(
                crate::module::SpvModule {
                    types_global_values: convert_instructions(types_global_values),
                    annotations: convert_instructions(annotations),
                    entry_points: convert_instructions(entry_points),
                    execution_modes: convert_instructions(execution_modes),
                    debug_names: convert_instructions(debug_names),
                },
            )
        },
        Err(state) => Err(failure(&state)),
    }
}

} // verus!
