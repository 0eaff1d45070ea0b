//! SPIR-V instructions as the IR embeds them: an opcode, the raw
//! immediate words, and the operands in printable form.
use vstd::prelude::*;

verus! {

/// An instruction's opcode: its number and its name in the SPIR-V grammar.
#[derive(Debug)]
pub struct Opcode {
    pub number: u16,
    pub name: String,
}

/// The number of `OpString`.
pub const OP_STRING: u16 = 7;

/// The number of `OpExtInstImport`.
pub const OP_EXT_INST_IMPORT: u16 = 11;

/// The number of `OpExtInst`.
pub const OP_EXT_INST: u16 = 12;

/// The number of `OpEntryPoint`.
pub const OP_ENTRY_POINT: u16 = 15;

/// The number of `OpTypeBool`.
pub const OP_TYPE_BOOL: u16 = 20;

/// The number of `OpTypeInt`.
pub const OP_TYPE_INT: u16 = 21;

/// The number of `OpTypeFloat`.
pub const OP_TYPE_FLOAT: u16 = 22;

/// The number of `OpTypeVector`.
pub const OP_TYPE_VECTOR: u16 = 23;

/// The number of `OpTypePointer`.
pub const OP_TYPE_POINTER: u16 = 32;

/// The number of `OpConstantTrue`.
pub const OP_CONSTANT_TRUE: u16 = 41;

/// The number of `OpConstantFalse`.
pub const OP_CONSTANT_FALSE: u16 = 42;

/// The number of `OpConstant`.
pub const OP_CONSTANT: u16 = 43;

/// One word of an immediate operand, tagged with the operand kind it
/// belongs to. An operand longer than one word is a `LongStart` followed
/// by `LongCont`s.
#[derive(Clone, Copy, PartialEq, Eq, Structural, Debug)]
pub enum Imm {
    Short(u16, u32),
    LongStart(u16, u32),
    LongCont(u16, u32),
}

/// One piece of an operand's printable form.
#[derive(Debug)]
pub enum Token {
    /// Something that could not be decoded.
    Error(String),
    Punctuation(String),
    /// The operand kind that the following enumerand name belongs to.
    OperandKindNamespacePrefix(String),
    EnumerandName(String),
    NumericLiteral(String),
    StringLiteral(String),
    /// The place of an ID operand; the IDs themselves are supplied by the
    /// instruction's user, in order.
    Id,
}

/// One operand in printable form.
#[derive(Debug)]
pub struct Operand {
    pub tokens: Vec<Token>,
}

impl Operand {
    /// Whether the operand is nothing but the place of one ID.
    pub open spec fn is_id(&self) -> bool {
        self.tokens@.len() == 1 && self.tokens@[0] is Id
    }

    /// Whether the operand has no place for an ID.
    pub open spec fn is_plain(&self) -> bool {
        forall|i: int| 0 <= i < self.tokens@.len() ==> !((#[trigger] self.tokens@[i]) is Id)
    }

    /// Decides [`Operand::is_plain`].
    pub fn check_is_plain(&self) -> (r: bool)
        ensures
            r == self.is_plain(),
    {
        let mut i: usize = 0;
        while i < self.tokens.len()
            invariant
                0 <= i <= self.tokens.len(),
                forall|j: int| 0 <= j < i ==> !((#[trigger] self.tokens@[j]) is Id),
            decreases self.tokens.len() - i,
        {
            if matches!(self.tokens[i], Token::Id) {
                return false;
            }
            i += 1;
        }
        true
    }

    /// Decides [`Operand::is_id`].
    pub fn check_is_id(&self) -> (r: bool)
        ensures
            r == self.is_id(),
    {
        self.tokens.len() == 1 && matches!(self.tokens[0], Token::Id)
    }
}

/// An instruction without its IDs: those are kept by whatever holds the
/// instruction.
#[derive(Debug)]
pub struct Inst {
    pub opcode: Opcode,
    /// The immediate operands as raw words.
    pub imms: Vec<Imm>,
    /// The operands in the order of the grammar, in printable form.
    pub operands: Vec<Operand>,
}

impl Inst {
    /// The value of the only immediate, if the immediates are one short
    /// word.
    pub open spec fn single_short(&self) -> Option<u32> {
        if self.imms@.len() == 1 {
            match self.imms@[0] {
                Imm::Short(_, x) => Some(x),
                _ => None,
            }
        } else {
            None
        }
    }

    /// The values of the two immediates, if the immediates are two short
    /// words.
    pub open spec fn two_shorts(&self) -> Option<(u32, u32)> {
        if self.imms@.len() == 2 {
            match (self.imms@[0], self.imms@[1]) {
                (Imm::Short(_, x), Imm::Short(_, y)) => Some((x, y)),
                _ => None,
            }
        } else {
            None
        }
    }

    /// The 64-bit value of the immediates, if they are one short word or
    /// one long operand of two words (low word first).
    pub open spec fn raw_bits(&self) -> Option<u64> {
        if self.imms@.len() == 1 {
            match self.imms@[0] {
                Imm::Short(_, x) => Some(x as u64),
                _ => None,
            }
        } else if self.imms@.len() == 2 {
            match (self.imms@[0], self.imms@[1]) {
                (Imm::LongStart(_, lo), Imm::LongCont(_, hi)) => Some(
                    (lo as u64 + hi as u64 * 0x1_0000_0000) as u64,
                ),
                _ => None,
            }
        } else {
            None
        }
    }

    /// Computes [`Inst::single_short`].
    pub fn get_single_short(&self) -> (r: Option<u32>)
        ensures
            r == self.single_short(),
    {
        if self.imms.len() == 1 {
            match self.imms[0] {
                Imm::Short(_, x) => Some(x),
                _ => None,
            }
        } else {
            None
        }
    }

    /// Computes [`Inst::two_shorts`].
    pub fn get_two_shorts(&self) -> (r: Option<(u32, u32)>)
        ensures
            r == self.two_shorts(),
    {
        if self.imms.len() == 2 {
            match (self.imms[0], self.imms[1]) {
                (Imm::Short(_, x), Imm::Short(_, y)) => Some((x, y)),
                _ => None,
            }
        } else {
            None
        }
    }

    /// Computes [`Inst::raw_bits`].
    pub fn get_raw_bits(&self) -> (r: Option<u64>)
        ensures
            r == self.raw_bits(),
    {
        if self.imms.len() == 1 {
            match self.imms[0] {
                Imm::Short(_, x) => Some(x as u64),
                _ => None,
            }
        } else if self.imms.len() == 2 {
            match (self.imms[0], self.imms[1]) {
                (Imm::LongStart(_, lo), Imm::LongCont(_, hi)) => Some(
                    lo as u64 + hi as u64 * 0x1_0000_0000,
                ),
                _ => None,
            }
        } else {
            None
        }
    }
}

/// A source language and its version.
#[derive(Debug)]
pub struct SourceLang {
    /// The language, as a decoded enumerand.
    pub lang: Operand,
    pub version: u32,
}

/// The source files of one language: file name and contents.
#[derive(Debug)]
pub struct DebugSources {
    pub file_contents: Vec<(crate::ir::InternedStr, String)>,
}

/// The module-wide settings of a SPIR-V module.
#[derive(Debug)]
pub struct Dialect {
    pub version_major: u8,
    pub version_minor: u8,
    /// The capabilities, as decoded enumerands.
    pub capabilities: Vec<Operand>,
    pub extensions: Vec<String>,
    /// The addressing model, as a decoded enumerand.
    pub addressing_model: Operand,
    /// The memory model, as a decoded enumerand.
    pub memory_model: Operand,
}

impl Dialect {
    /// Whether the enumerands of the dialect have no place for an ID.
    pub open spec fn wf(&self) -> bool {
        &&& forall|i: int|
            0 <= i < self.capabilities@.len() ==> (#[trigger] self.capabilities@[i]).is_plain()
        &&& self.addressing_model.is_plain()
        &&& self.memory_model.is_plain()
    }

    /// Decides [`Dialect::wf`].
    pub fn check(&self) -> (r: bool)
        ensures
            r == self.wf(),
    {
        if !(self.addressing_model.check_is_plain() && self.memory_model.check_is_plain()) {
            return false;
        }
        let mut i: usize = 0;
        while i < self.capabilities.len()
            invariant
                0 <= i <= self.capabilities.len(),
                forall|j: int| 0 <= j < i ==> (#[trigger] self.capabilities@[j]).is_plain(),
            decreases self.capabilities.len() - i,
        {
            if !self.capabilities[i].check_is_plain() {
                return false;
            }
            i += 1;
        }
        true
    }
}

/// The module-wide debug information of a SPIR-V module.
#[derive(Debug)]
pub struct ModuleDebugInfo {
    pub original_generator_magic: Option<u32>,
    pub source_languages: Vec<(SourceLang, DebugSources)>,
    pub source_extensions: Vec<String>,
    pub module_processes: Vec<String>,
}

} // verus!
