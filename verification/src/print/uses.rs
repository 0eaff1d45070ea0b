//! What a plan keeps track of: top-level nodes, interned definitions, and
//! the uses of both and of the values and labels inside functions.
use vstd::prelude::*;
use crate::ir::{AttrSet, Const, ControlNode, ControlRegion, DataInst, Func, GlobalVar, Type, Value};

verus! {

/// A top-level entry of a plan.
#[derive(Clone, Copy, PartialEq, Eq, Structural, Hash, Debug)]
pub enum Node {
    /// What the plan was made for: a whole module, or another root.
    Root,
    /// The definitions of all interned entities that need one, together.
    AllCxInterned,
    ModuleDialect,
    ModuleDebugInfo,
    GlobalVar(GlobalVar),
    Func(Func),
}

impl Node {
    /// The word for the node's kind: `Ok` where names of that kind are
    /// printed, `Err` where the word only serves in messages.
    pub open spec fn category_text(self) -> Result<Seq<char>, Seq<char>> {
        match self {
            Node::Root => Err("Node::Root"@),
            Node::AllCxInterned => Err("Node::AllCxInterned"@),
            Node::ModuleDialect => Ok("module.dialect"@),
            Node::ModuleDebugInfo => Ok("module.debug_info"@),
            Node::GlobalVar(_) => Ok("global_var"@),
            Node::Func(_) => Ok("func"@),
        }
    }

    /// The word for the node's kind, whichever way it is given.
    pub open spec fn category_word(self) -> Seq<char> {
        match self.category_text() {
            Ok(s) => s,
            Err(s) => s,
        }
    }

    /// Computes [`Node::category_text`].
    pub fn category(self) -> (r: Result<&'static str, &'static str>)
        ensures
            r is Ok == self.category_text() is Ok,
            r matches Ok(s) ==> s@ == self.category_text()->Ok_0,
            r matches Err(s) ==> s@ == self.category_text()->Err_0,
    {
        match self {
            Node::Root => Err("Node::Root"),
            Node::AllCxInterned => Err("Node::AllCxInterned"),
            Node::ModuleDialect => Ok("module.dialect"),
            Node::ModuleDebugInfo => Ok("module.debug_info"),
            Node::GlobalVar(_) => Ok("global_var"),
            Node::Func(_) => Ok("func"),
        }
    }

    /// The number that identifies the node among the nodes of a version.
    pub open spec fn key(self) -> u64 {
        match self {
            Node::Root => 0,
            Node::AllCxInterned => 1,
            Node::ModuleDialect => 2,
            Node::ModuleDebugInfo => 3,
            Node::GlobalVar(gv) => (4 + 2 * gv.0) as u64,
            Node::Func(func) => (5 + 2 * func.0) as u64,
        }
    }

    /// Computes [`Node::key`].
    pub fn get_key(self) -> (r: u64)
        ensures
            r == self.key(),
    {
        match self {
            Node::Root => 0,
            Node::AllCxInterned => 1,
            Node::ModuleDialect => 2,
            Node::ModuleDebugInfo => 3,
            Node::GlobalVar(gv) => 4 + 2 * (gv.0 as u64),
            Node::Func(func) => 5 + 2 * (func.0 as u64),
        }
    }

    /// Different nodes have different keys.
    pub proof fn lemma_key_injective(a: Node, b: Node)
        requires
            a.key() == b.key(),
        ensures
            a == b,
    {
    }

    /// Different nodes have different keys.
    pub proof fn lemma_key_differs(a: Node, b: Node)
        requires
            a != b,
        ensures
            a.key() != b.key(),
    {
    }
}

/// Anything interned in the context, which is printed once and referred
/// to many times.
#[derive(Clone, Copy, PartialEq, Eq, Structural, Hash, Debug)]
pub enum CxInterned {
    AttrSet(AttrSet),
    Type(Type),
    Const(Const),
}

impl CxInterned {
    /// The word that names of this kind begin with.
    pub open spec fn category_text(self) -> Seq<char> {
        match self {
            CxInterned::AttrSet(_) => "attrs"@,
            CxInterned::Type(_) => "type"@,
            CxInterned::Const(_) => "const"@,
        }
    }

    /// Computes [`CxInterned::category_text`].
    pub fn category(self) -> (r: &'static str)
        ensures
            r@ == self.category_text(),
    {
        match self {
            CxInterned::AttrSet(_) => "attrs",
            CxInterned::Type(_) => "type",
            CxInterned::Const(_) => "const",
        }
    }

    /// The index of the definition in the context.
    pub open spec fn index(self) -> u32 {
        match self {
            CxInterned::AttrSet(a) => a.0,
            CxInterned::Type(t) => t.0,
            CxInterned::Const(c) => c.0,
        }
    }

    /// Computes [`CxInterned::index`].
    pub fn get_index(self) -> (r: u32)
        ensures
            r == self.index(),
    {
        match self {
            CxInterned::AttrSet(a) => a.0,
            CxInterned::Type(t) => t.0,
            CxInterned::Const(c) => c.0,
        }
    }
}

/// Anything that can be referred to.
#[derive(Clone, Copy, PartialEq, Eq, Structural, Hash, Debug)]
pub enum Use {
    Node(Node),
    CxInterned(CxInterned),
    ControlRegionLabel(ControlRegion),
    ControlRegionInput { region: ControlRegion, input_idx: u32 },
    ControlNodeOutput { control_node: ControlNode, output_idx: u32 },
    DataInstOutput(DataInst),
}

impl From<Value> for Use {
    fn from(value: Value) -> (r: Use) {
        Use::from_value(value)
    }
}

impl vstd::std_specs::convert::FromSpecImpl<Value> for Use {
    open spec fn obeys_from_spec() -> bool {
        true
    }

    open spec fn from_spec(value: Value) -> Use {
        Use::of_value(value)
    }
}

impl Use {
    /// The use that a value stands for.
    pub open spec fn of_value(value: Value) -> Use {
        match value {
            Value::Const(ct) => Use::CxInterned(CxInterned::Const(ct)),
            Value::ControlRegionInput { region, input_idx } => Use::ControlRegionInput {
                region,
                input_idx,
            },
            Value::ControlNodeOutput { control_node, output_idx } => Use::ControlNodeOutput {
                control_node,
                output_idx,
            },
            Value::DataInstOutput(inst) => Use::DataInstOutput(inst),
        }
    }

    /// Computes [`Use::of_value`].
    pub fn from_value(value: Value) -> (r: Use)
        ensures
            r == Use::of_value(value),
    {
        match value {
            Value::Const(ct) => Use::CxInterned(CxInterned::Const(ct)),
            Value::ControlRegionInput { region, input_idx } => Use::ControlRegionInput {
                region,
                input_idx,
            },
            Value::ControlNodeOutput { control_node, output_idx } => Use::ControlNodeOutput {
                control_node,
                output_idx,
            },
            Value::DataInstOutput(inst) => Use::DataInstOutput(inst),
        }
    }

    /// Whether names are printed for uses of this kind: all but the root
    /// and the group of interned definitions.
    pub open spec fn has_category(self) -> bool {
        !(self matches Use::Node(node) && node.category_text() is Err)
    }

    /// The word that names of this kind begin with.
    pub open spec fn category_text(self) -> Seq<char> {
        match self {
            Use::Node(node) => node.category_word(),
            Use::CxInterned(interned) => interned.category_text(),
            Use::ControlRegionLabel(_) => "label"@,
            Use::ControlRegionInput { .. }
            | Use::ControlNodeOutput { .. }
            | Use::DataInstOutput(_) => "v"@,
        }
    }

    /// Computes [`Use::category_text`].
    pub fn category(self) -> (r: &'static str)
        requires
            self.has_category(),
        ensures
            r@ == self.category_text(),
    {
        match self {
            Use::Node(node) => node.category().unwrap(),
            Use::CxInterned(interned) => interned.category(),
            Use::ControlRegionLabel(_) => "label",
            Use::ControlRegionInput { .. }
            | Use::ControlNodeOutput { .. }
            | Use::DataInstOutput(_) => "v",
        }
    }

    /// A number that identifies the use: a number for its kind in the
    /// bits from the 64th up, and below them the one or two numbers that
    /// the use holds, the first from the 32nd bit up.
    pub open spec fn code(self) -> u128 {
        match self {
            Use::Node(Node::Root) => 0,
            Use::Node(Node::AllCxInterned) => 1,
            Use::Node(Node::ModuleDialect) => 2,
            Use::Node(Node::ModuleDebugInfo) => 3,
            Use::Node(Node::GlobalVar(gv)) => Use::pack(1, gv.0, 0),
            Use::Node(Node::Func(func)) => Use::pack(2, func.0, 0),
            Use::CxInterned(CxInterned::AttrSet(attrs)) => Use::pack(3, attrs.0, 0),
            Use::CxInterned(CxInterned::Type(ty)) => Use::pack(4, ty.0, 0),
            Use::CxInterned(CxInterned::Const(ct)) => Use::pack(5, ct.0, 0),
            Use::ControlRegionLabel(region) => Use::pack(6, region.0, 0),
            Use::ControlRegionInput { region, input_idx } => Use::pack(7, region.0, input_idx),
            Use::ControlNodeOutput { control_node, output_idx } => Use::pack(
                8,
                control_node.0,
                output_idx,
            ),
            Use::DataInstOutput(inst) => Use::pack(9, inst.0, 0),
        }
    }

    /// A kind and two numbers as one number.
    pub open spec fn pack(kind: u8, a: u32, b: u32) -> u128 {
        (kind as u128 * 0x1_0000_0000_0000_0000 + a as u128 * 0x1_0000_0000 + b as u128) as u128
    }

    /// Computes [`Use::code`].
    pub fn get_code(self) -> (r: u128)
        ensures
            r == self.code(),
    {
        match self {
            Use::Node(Node::Root) => 0,
            Use::Node(Node::AllCxInterned) => 1,
            Use::Node(Node::ModuleDialect) => 2,
            Use::Node(Node::ModuleDebugInfo) => 3,
            Use::Node(Node::GlobalVar(gv)) => pack(1, gv.0, 0),
            Use::Node(Node::Func(func)) => pack(2, func.0, 0),
            Use::CxInterned(CxInterned::AttrSet(attrs)) => pack(3, attrs.0, 0),
            Use::CxInterned(CxInterned::Type(ty)) => pack(4, ty.0, 0),
            Use::CxInterned(CxInterned::Const(ct)) => pack(5, ct.0, 0),
            Use::ControlRegionLabel(region) => pack(6, region.0, 0),
            Use::ControlRegionInput { region, input_idx } => pack(7, region.0, input_idx),
            Use::ControlNodeOutput { control_node, output_idx } => pack(
                8,
                control_node.0,
                output_idx,
            ),
            Use::DataInstOutput(inst) => pack(9, inst.0, 0),
        }
    }

    /// Different uses have different codes.
    pub proof fn lemma_code_injective(a: Use, b: Use)
        requires
            a.code() == b.code(),
        ensures
            a == b,
    {
    }

}

/// Computes [`Use::pack`].
fn pack(kind: u8, a: u32, b: u32) -> (r: u128)
    requires
        kind < 16,
    ensures
        r == Use::pack(kind, a, b),
{
    (kind as u128) * 0x1_0000_0000_0000_0000 + (a as u128) * 0x1_0000_0000 + (b as u128)
}

/// How a use of a definition is printed.
#[derive(Clone, Copy, PartialEq, Eq, Structural, Debug)]
pub enum UseStyle {
    /// By the definition's category and an index, such as `type123`.
    /// For labels and values, `parent_func` is the function they are in.
    Anon { parent_func: Option<Func>, idx: usize },
    /// By printing the definition where it is used.
    Inline,
}

} // verus!
