//! The bytecode container: instructions, constants, targets, static
//! parameters and functions of one program.

use crate::context::Function;
use crate::text::decimal;
use crate::text::decimal_text;
use crate::text::padded;
use crate::text::padded_text;
use crate::value::views_of_seq;
use crate::value::Value;
use crate::value::ValueView;
use crate::variable::Variable;
use crate::variable::VariableView;
use vstd::prelude::*;

verus! {

/// What the machine can be told to do.
#[derive(Copy, Clone, Debug, PartialEq, Eq, Structural)]
pub enum OpCode {
    Abort,
    Return,
    Constant,
    Negate,
    Add,
    Subtract,
    Multiply,
    Divide,
    Rem,
    Merge,
    Not,
    Greater,
    GreaterEqual,
    Less,
    LessEqual,
    NotEqual,
    Equal,
    Pop,
    ClearError,
    JumpIfFalse,
    JumpIfTrue,
    JumpIfNotErr,
    Jump,
    SetPathInfallible,
    SetPath,
    GetPath,
    Call,
    CreateArray,
    CreateObject,
    EmptyParameter,
    MoveParameter,
    MoveStatic,
}

/// One slot of the instruction stream: an opcode, or a number that an opcode
/// takes as its operand.
#[derive(Debug, Copy, Clone, PartialEq, Eq, Structural)]
pub enum Instruction {
    OpCode(OpCode),
    Primitive(usize),
}

/// The name of an opcode.
pub open spec fn opcode_text(code: OpCode) -> Seq<char> {
    match code {
        OpCode::Abort => "Abort"@,
        OpCode::Return => "Return"@,
        OpCode::Constant => "Constant"@,
        OpCode::Negate => "Negate"@,
        OpCode::Add => "Add"@,
        OpCode::Subtract => "Subtract"@,
        OpCode::Multiply => "Multiply"@,
        OpCode::Divide => "Divide"@,
        OpCode::Rem => "Rem"@,
        OpCode::Merge => "Merge"@,
        OpCode::Not => "Not"@,
        OpCode::Greater => "Greater"@,
        OpCode::GreaterEqual => "GreaterEqual"@,
        OpCode::Less => "Less"@,
        OpCode::LessEqual => "LessEqual"@,
        OpCode::NotEqual => "NotEqual"@,
        OpCode::Equal => "Equal"@,
        OpCode::Pop => "Pop"@,
        OpCode::ClearError => "ClearError"@,
        OpCode::JumpIfFalse => "JumpIfFalse"@,
        OpCode::JumpIfTrue => "JumpIfTrue"@,
        OpCode::JumpIfNotErr => "JumpIfNotErr"@,
        OpCode::Jump => "Jump"@,
        OpCode::SetPathInfallible => "SetPathInfallible"@,
        OpCode::SetPath => "SetPath"@,
        OpCode::GetPath => "GetPath"@,
        OpCode::Call => "Call"@,
        OpCode::CreateArray => "CreateArray"@,
        OpCode::CreateObject => "CreateObject"@,
        OpCode::EmptyParameter => "EmptyParameter"@,
        OpCode::MoveParameter => "MoveParameter"@,
        OpCode::MoveStatic => "MoveStatic"@,
    }
}

/// The line that shows the instruction at position `index`: the position, at
/// least four digits wide, a colon and a blank, and then the opcode's name or
/// the primitive in decimal.
pub open spec fn line_text(index: nat, instruction: Instruction) -> Seq<char> {
    padded_text(index) + ": "@ + match instruction {
        Instruction::OpCode(code) => opcode_text(code),
        Instruction::Primitive(primitive) => decimal_text(primitive as nat),
    }
}

/// The name of an opcode.
pub fn opcode_name(code: OpCode) -> (name: &'static str)
    ensures
        name@ == opcode_text(code),
{
    match code {
        OpCode::Abort => "Abort",
        OpCode::Return => "Return",
        OpCode::Constant => "Constant",
        OpCode::Negate => "Negate",
        OpCode::Add => "Add",
        OpCode::Subtract => "Subtract",
        OpCode::Multiply => "Multiply",
        OpCode::Divide => "Divide",
        OpCode::Rem => "Rem",
        OpCode::Merge => "Merge",
        OpCode::Not => "Not",
        OpCode::Greater => "Greater",
        OpCode::GreaterEqual => "GreaterEqual",
        OpCode::Less => "Less",
        OpCode::LessEqual => "LessEqual",
        OpCode::NotEqual => "NotEqual",
        OpCode::Equal => "Equal",
        OpCode::Pop => "Pop",
        OpCode::ClearError => "ClearError",
        OpCode::JumpIfFalse => "JumpIfFalse",
        OpCode::JumpIfTrue => "JumpIfTrue",
        OpCode::JumpIfNotErr => "JumpIfNotErr",
        OpCode::Jump => "Jump",
        OpCode::SetPathInfallible => "SetPathInfallible",
        OpCode::SetPath => "SetPath",
        OpCode::GetPath => "GetPath",
        OpCode::Call => "Call",
        OpCode::CreateArray => "CreateArray",
        OpCode::CreateObject => "CreateObject",
        OpCode::EmptyParameter => "EmptyParameter",
        OpCode::MoveParameter => "MoveParameter",
        OpCode::MoveStatic => "MoveStatic",
    }
}

/// What a [`Vm`] stands for: its tables as sequences.
#[verifier::reject_recursive_types(S)]
pub struct Program<S> {
    /// The instruction stream.
    pub code: Seq<Instruction>,
    /// The constant pool.
    pub constants: Seq<ValueView>,
    /// The target table.
    pub targets: Seq<VariableView>,
    /// The static-parameter table.
    pub statics: Seq<S>,
    /// The functions that the program may call, by their numbers.
    pub functions: Seq<Box<dyn Function<S>>>,
}

/// The targets that a sequence of descriptors stands for.
pub open spec fn targets_of(targets: Seq<Variable>) -> Seq<VariableView> {
    Seq::new(targets.len(), |i: int| targets[i]@)
}

/// The bytecode of one program, with the tables that it indexes.
///
/// Instructions are appended, and overwritten in place when a jump is
/// patched. Constants, targets and static parameters are only ever appended:
/// a slot, once handed out, keeps its entry.
#[verifier::reject_recursive_types(S)]
pub struct Vm<S> {
    pub(crate) fns: Vec<Box<dyn Function<S>>>,
    pub(crate) instructions: Vec<Instruction>,
    pub(crate) values: Vec<Value>,
    pub(crate) targets: Vec<Variable>,
    pub(crate) static_params: Vec<S>,
}

impl<S> View for Vm<S> {
    type V = Program<S>;

    closed spec fn view(&self) -> Program<S> {
        Program {
            code: self.instructions@,
            constants: views_of_seq(self.values@),
            targets: targets_of(self.targets@),
            statics: self.static_params@,
            functions: self.fns@,
        }
    }
}

impl<S> Vm<S> {
    /// An empty program that may call `fns`.
    pub fn new(fns: Vec<Box<dyn Function<S>>>) -> (vm: Self)
        ensures
            vm@ == (Program::<S> {
                code: Seq::empty(),
                constants: Seq::empty(),
                targets: Seq::empty(),
                statics: Seq::empty(),
                functions: fns@,
            }),
    {
        let vm = Vm {
            fns,
            instructions: Vec::new(),
            values: Vec::new(),
            targets: Vec::new(),
            static_params: Vec::new(),
        };
        assert(vm@.constants =~= Seq::empty());
        assert(vm@.targets =~= Seq::empty());
        vm
    }

    /// Appends `object` to the constant pool and returns its slot.
    pub fn add_constant(&mut self, object: Value) -> (slot: usize)
        ensures
            slot == old(self)@.constants.len(),
            final(self)@ == (Program { constants: old(self)@.constants.push(object@), ..old(self)@ }),
    {
        self.values.push(object);
        assert(self@.constants =~= old(self)@.constants.push(object@));
        self.values.len() - 1
    }

    /// Appends an opcode to the instruction stream.
    pub fn write_chunk(&mut self, code: OpCode)
        ensures
            final(self)@ == (Program {
                code: old(self)@.code.push(Instruction::OpCode(code)),
                ..old(self)@
            }),
    {
        self.instructions.push(Instruction::OpCode(code));
    }

    /// Overwrites the instruction at `pos` with an opcode.
    pub fn write_chunk_at(&mut self, pos: usize, code: OpCode)
        requires
            pos < old(self)@.code.len(),
        ensures
            final(self)@ == (Program {
                code: old(self)@.code.update(pos as int, Instruction::OpCode(code)),
                ..old(self)@
            }),
    {
        self.instructions.set(pos, Instruction::OpCode(code));
    }

    /// The instruction stream.
    pub fn instructions(&self) -> (instructions: &Vec<Instruction>)
        ensures
            instructions@ == self@.code,
    {
        &self.instructions
    }

    /// Appends a primitive to the instruction stream.
    pub fn write_primitive(&mut self, code: usize)
        ensures
            final(self)@ == (Program {
                code: old(self)@.code.push(Instruction::Primitive(code)),
                ..old(self)@
            }),
    {
        self.instructions.push(Instruction::Primitive(code));
    }

    /// Overwrites the instruction at `pos` with a primitive.
    pub fn write_primitive_at(&mut self, pos: usize, code: usize)
        requires
            pos < old(self)@.code.len(),
        ensures
            final(self)@ == (Program {
                code: old(self)@.code.update(pos as int, Instruction::Primitive(code)),
                ..old(self)@
            }),
    {
        self.instructions.set(pos, Instruction::Primitive(code));
    }

    /// The function that is registered under the number `function_id`, if
    /// there is one.
    pub fn function(&self, function_id: usize) -> (function: Option<&Box<dyn Function<S>>>)
        ensures
            match function {
                Some(found) => function_id < self@.functions.len() && *found
                    == self@.functions[function_id as int],
                None => function_id >= self@.functions.len(),
            },
    {
        if function_id < self.fns.len() {
            Some(&self.fns[function_id])
        } else {
            None
        }
    }

    /// The constant in `slot`, if there is one.
    pub fn constant(&self, slot: usize) -> (constant: Option<&Value>)
        ensures
            match constant {
                Some(value) => slot < self@.constants.len() && value@ == self@.constants[slot as int],
                None => slot >= self@.constants.len(),
            },
    {
        if slot < self.values.len() {
            Some(&self.values[slot])
        } else {
            None
        }
    }

    /// The target in `slot`, if there is one.
    pub fn target(&self, slot: usize) -> (target: Option<&Variable>)
        ensures
            match target {
                Some(variable) => slot < self@.targets.len() && variable@ == self@.targets[slot as int],
                None => slot >= self@.targets.len(),
            },
    {
        if slot < self.targets.len() {
            Some(&self.targets[slot])
        } else {
            None
        }
    }

    /// The static parameter in `slot`, if there is one.
    pub fn static_param(&self, slot: usize) -> (param: Option<&S>)
        ensures
            match param {
                Some(param) => slot < self@.statics.len() && *param == self@.statics[slot as int],
                None => slot >= self@.statics.len(),
            },
    {
        if slot < self.static_params.len() {
            Some(&self.static_params[slot])
        } else {
            None
        }
    }

    /// The slot of `target` in the target table. Where the table holds the
    /// target already, that is its first slot, and the table stays as it is.
    /// Otherwise the target is appended.
    pub fn get_target(&mut self, target: &Variable) -> (slot: usize)
        ensures
            slot <= old(self)@.targets.len(),
            forall|j: int| 0 <= j < slot ==> old(self)@.targets[j] != target@,
            slot < old(self)@.targets.len() ==> old(self)@.targets[slot as int] == target@
                && final(self)@ == old(self)@,
            slot == old(self)@.targets.len() ==> final(self)@ == (Program {
                targets: old(self)@.targets.push(target@),
                ..old(self)@
            }),
    {
        let mut i: usize = 0;
        while i < self.targets.len()
            invariant
                i <= self.targets@.len(),
                *self == *old(self),
                forall|j: int| 0 <= j < i ==> self@.targets[j] != target@,
            decreases self.targets@.len() - i,
        {
            if self.targets[i].equals(target) {
                return i;
            }
            i += 1;
        }
        self.targets.push(target.clone());
        assert(self@.targets =~= old(self)@.targets.push(target@));
        self.targets.len() - 1
    }

    /// Appends `stat` to the static-parameter table and returns its slot.
    pub fn add_static(&mut self, stat: S) -> (slot: usize)
        ensures
            slot == old(self)@.statics.len(),
            final(self)@ == (Program { statics: old(self)@.statics.push(stat), ..old(self)@ }),
    {
        self.static_params.push(stat);
        self.static_params.len() - 1
    }

    /// The instruction stream as text, one line for each instruction.
    pub fn disassemble(&self) -> (lines: Vec<String>)
        ensures
            lines@.len() == self@.code.len(),
            forall|i: int|
                0 <= i < lines@.len() ==> (#[trigger] lines@[i])@ == line_text(
                    i as nat,
                    self@.code[i],
                ),
    {
        let mut lines: Vec<String> = Vec::new();
        let mut idx: usize = 0;
        while idx < self.instructions.len()
            invariant
                idx <= self.instructions@.len(),
                lines@.len() == idx,
                forall|i: int|
                    0 <= i < idx ==> (#[trigger] lines@[i])@ == line_text(
                        i as nat,
                        self.instructions@[i],
                    ),
            decreases self.instructions@.len() - idx,
        {
            let mut line = padded(idx);
            line.append(": ");
            match self.instructions[idx] {
                Instruction::OpCode(opcode) => {
                    line.append(opcode_name(opcode));
                },
                Instruction::Primitive(primitive) => {
                    let digits = decimal(primitive);
                    line.append(digits.as_str());
                },
            }
            lines.push(line);
            idx += 1;
        }
        lines
    }

    /// Writes the jump `instruction` with a placeholder for its offset, and
    /// returns the position of the placeholder.
    pub fn emit_jump(&mut self, instruction: OpCode) -> (slot: usize)
        ensures
            slot == old(self)@.code.len() + 1,
            final(self)@ == (Program {
                code: old(self)@.code.push(Instruction::OpCode(instruction)).push(
                    Instruction::Primitive(usize::MAX),
                ),
                ..old(self)@
            }),
    {
        self.write_chunk(instruction);
        self.write_primitive(usize::MAX);
        self.instructions.len() - 1
    }

    /// Overwrites the placeholder at `offset` with the distance from the
    /// instruction after it to the end of the stream, so that the jump lands
    /// on the next instruction that is written. Nothing else in the program
    /// changes.
    pub fn patch_jump(&mut self, offset: usize)
        requires
            offset < old(self)@.code.len(),
        ensures
            final(self)@.code[offset as int] matches Instruction::Primitive(jump) && offset + 1
                + jump == old(self)@.code.len(),
            final(self)@ == (Program {
                code: old(self)@.code.update(offset as int, final(self)@.code[offset as int]),
                ..old(self)@
            }),
    {
        let jump = self.instructions.len() - offset - 1;
        self.write_primitive_at(offset, jump);
    }
}

} // verus!
