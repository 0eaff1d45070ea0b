//! The program representation that gets printed: interned definitions
//! held by a [`Context`], and the modules, global variables and functions
//! that refer to them by handle.
use vstd::prelude::*;
use crate::spv;

verus! {

/// Handle of an interned string.
#[derive(Clone, Copy, PartialEq, Eq, Structural, Hash, Debug)]
pub struct InternedStr(pub u32);

/// Handle of an interned attribute set.
#[derive(Clone, Copy, PartialEq, Eq, Structural, Hash, Debug)]
pub struct AttrSet(pub u32);

/// Handle of an interned type.
#[derive(Clone, Copy, PartialEq, Eq, Structural, Hash, Debug)]
pub struct Type(pub u32);

/// Handle of an interned constant.
#[derive(Clone, Copy, PartialEq, Eq, Structural, Hash, Debug)]
pub struct Const(pub u32);

/// Handle of a global variable: its index in [`Module::global_vars`].
#[derive(Clone, Copy, PartialEq, Eq, Structural, Hash, Debug)]
pub struct GlobalVar(pub u32);

/// Handle of a function: its index in [`Module::funcs`].
#[derive(Clone, Copy, PartialEq, Eq, Structural, Hash, Debug)]
pub struct Func(pub u32);

/// Identity of a control region within its function.
#[derive(Clone, Copy, PartialEq, Eq, Structural, Hash, Debug)]
pub struct ControlRegion(pub u32);

/// Identity of a control node within its function.
#[derive(Clone, Copy, PartialEq, Eq, Structural, Hash, Debug)]
pub struct ControlNode(pub u32);

/// Identity of a data instruction within its function.
#[derive(Clone, Copy, PartialEq, Eq, Structural, Hash, Debug)]
pub struct DataInst(pub u32);

/// The handle of the empty attribute set, which every context holds.
pub open spec fn no_attrs() -> AttrSet {
    AttrSet(0)
}

impl AttrSet {
    /// The handle of the empty attribute set.
    pub fn empty() -> (r: AttrSet)
        ensures
            r == no_attrs(),
    {
        AttrSet(0)
    }
}

/// One attribute of a definition.
#[derive(Debug)]
pub enum Attr {
    /// A decoration-like instruction whose target is what carries the
    /// attribute.
    SpvAnnotation(spv::Inst),
    /// A source position.
    SpvDebugLine { file_path: InternedStr, line: u32, col: u32 },
    /// A bit-flags operand kept as an attribute.
    SpvBitflagsOperand(spv::Operand),
}

/// The definition of an attribute set: its attributes, in order.
#[derive(Debug)]
pub struct AttrSetDef {
    pub attrs: Vec<Attr>,
}

/// What builds a type.
#[derive(Debug)]
pub enum TypeCtor {
    SpvInst(spv::Inst),
    SpvStringLiteralForExtInst,
}

/// An argument of what builds a type.
#[derive(Clone, Copy, PartialEq, Eq, Structural, Debug)]
pub enum TypeCtorArg {
    Type(Type),
    Const(Const),
}

/// The definition of a type.
#[derive(Debug)]
pub struct TypeDef {
    pub attrs: AttrSet,
    pub ctor: TypeCtor,
    pub ctor_args: Vec<TypeCtorArg>,
}

/// What builds a constant.
#[derive(Debug)]
pub enum ConstCtor {
    PtrToGlobalVar(GlobalVar),
    SpvInst(spv::Inst),
    SpvStringLiteralForExtInst(InternedStr),
}

/// The definition of a constant.
#[derive(Debug)]
pub struct ConstDef {
    pub attrs: AttrSet,
    pub ty: Type,
    pub ctor: ConstCtor,
    pub ctor_args: Vec<Const>,
}

/// One interned definition.
#[derive(Debug)]
pub enum Interned {
    AttrSet(AttrSetDef),
    Type(TypeDef),
    Const(ConstDef),
}

/// The store of interned strings and definitions.
///
/// Attribute sets, types and constants share one sequence of definitions,
/// and a handle is an index into it. A definition refers only to
/// definitions before it, so the references between them cannot form a
/// cycle.
#[derive(Debug)]
pub struct Context {
    pub strings: Vec<String>,
    pub interned: Vec<Interned>,
}

/// Something that an instruction or a region can take as input: a constant,
/// or what a region, a control node or a data instruction of the same
/// function provides.
#[derive(Clone, Copy, PartialEq, Eq, Structural, Debug)]
pub enum Value {
    Const(Const),
    ControlRegionInput { region: ControlRegion, input_idx: u32 },
    ControlNodeOutput { control_node: ControlNode, output_idx: u32 },
    DataInstOutput(DataInst),
}

/// How something that is declared here and defined elsewhere is found.
#[derive(Clone, Copy, PartialEq, Eq, Structural, Debug)]
pub enum Import {
    LinkName(InternedStr),
}

/// A declaration: imported, or present with its definition.
#[derive(Debug)]
pub enum DeclDef<D> {
    Imported(Import),
    Present(D),
}

/// Where a global variable lives.
#[derive(Debug)]
pub enum AddrSpace {
    /// A storage class, as a decoded enumerand.
    SpvStorageClass(spv::Operand),
}

/// The definition of a global variable.
#[derive(Debug)]
pub struct GlobalVarDefBody {
    pub initializer: Option<Const>,
}

/// The declaration of a global variable.
#[derive(Debug)]
pub struct GlobalVarDecl {
    pub attrs: AttrSet,
    pub type_of_ptr_to: Type,
    pub addr_space: AddrSpace,
    pub def: DeclDef<GlobalVarDefBody>,
}

/// A parameter of a function.
#[derive(Clone, Copy, PartialEq, Eq, Structural, Debug)]
pub struct FuncParam {
    pub attrs: AttrSet,
    pub ty: Type,
}

/// An input of a control region.
#[derive(Clone, Copy, PartialEq, Eq, Structural, Debug)]
pub struct ControlRegionInputDecl {
    pub attrs: AttrSet,
    pub ty: Type,
}

/// An output of a control node.
#[derive(Clone, Copy, PartialEq, Eq, Structural, Debug)]
pub struct ControlNodeOutputDecl {
    pub attrs: AttrSet,
    pub ty: Type,
}

/// What a data instruction does.
#[derive(Debug)]
pub enum DataInstKind {
    FuncCall(Func),
    SpvInst(spv::Inst),
    SpvExtInst { ext_set: InternedStr, inst: u32 },
}

/// An instruction that takes values and gives at most one.
#[derive(Debug)]
pub struct DataInstDef {
    pub id: DataInst,
    pub attrs: AttrSet,
    pub kind: DataInstKind,
    pub output_type: Option<Type>,
    pub inputs: Vec<Value>,
}

/// How one of several cases is selected.
#[derive(Debug)]
pub enum SelectionKind {
    /// Two cases: the scrutinee is true, the scrutinee is false.
    BoolCond,
    SpvInst(spv::Inst),
}

/// What a control node is: a block of instructions, a selection between
/// regions, or a loop around a region.
#[derive(Debug)]
pub enum ControlNodeKind {
    Block { insts: Vec<DataInstDef> },
    Select { kind: SelectionKind, scrutinee: Value, cases: Vec<ControlRegionDef> },
    Loop { initial_inputs: Vec<Value>, body: Box<ControlRegionDef>, repeat_condition: Value },
}

/// A control node together with everything nested in it.
#[derive(Debug)]
pub struct ControlNodeDef {
    pub id: ControlNode,
    pub kind: ControlNodeKind,
    pub outputs: Vec<ControlNodeOutputDecl>,
}

/// A control region together with everything nested in it.
#[derive(Debug)]
pub struct ControlRegionDef {
    pub id: ControlRegion,
    pub inputs: Vec<ControlRegionInputDecl>,
    pub children: Vec<ControlNodeDef>,
    pub outputs: Vec<Value>,
}

/// How an invocation is ended.
#[derive(Debug)]
pub enum ExitInvocationKind {
    SpvInst(spv::Inst),
}

/// How control leaves a region of a control-flow graph.
#[derive(Debug)]
pub enum ControlInstKind {
    Unreachable,
    Return,
    ExitInvocation(ExitInvocationKind),
    Branch,
    SelectBranch(SelectionKind),
}

/// The instruction that leaves a region of an unstructured control-flow
/// graph.
#[derive(Debug)]
pub struct ControlInst {
    pub attrs: AttrSet,
    pub kind: ControlInstKind,
    pub inputs: Vec<Value>,
    pub targets: Vec<ControlRegion>,
    /// For each target that is passed values: the target and the values.
    pub target_inputs: Vec<(ControlRegion, Vec<Value>)>,
}

/// A region of an unstructured control-flow graph and the instruction
/// that leaves it.
#[derive(Debug)]
pub struct CfgRegion {
    pub def: ControlRegionDef,
    pub exit: ControlInst,
}

/// The part of a function body that is not (yet) structured: how control
/// leaves the body region, and the other regions that can be reached from
/// it, in reverse post-order.
#[derive(Debug)]
pub struct ControlFlowGraph {
    pub body_exit: ControlInst,
    pub rest: Vec<CfgRegion>,
}

/// The body of a function: a region, which is the whole body if the
/// function is structured, and otherwise the entry of a control-flow
/// graph.
#[derive(Debug)]
pub struct FuncDefBody {
    pub body: ControlRegionDef,
    pub unstructured_cfg: Option<ControlFlowGraph>,
}

/// The declaration of a function.
#[derive(Debug)]
pub struct FuncDecl {
    pub attrs: AttrSet,
    pub ret_type: Type,
    pub params: Vec<FuncParam>,
    pub def: DeclDef<FuncDefBody>,
}

/// What an export is known by.
#[derive(Debug)]
pub enum ExportKey {
    LinkName(InternedStr),
    SpvEntryPoint {
        /// The `OpEntryPoint` instruction of the entry point.
        inst: spv::Inst,
        interface_global_vars: Vec<GlobalVar>,
    },
}

/// What an export exports.
#[derive(Clone, Copy, PartialEq, Eq, Structural, Debug)]
pub enum Exportee {
    GlobalVar(GlobalVar),
    Func(Func),
}

/// The dialect of a module: the settings that hold for all of it.
#[derive(Debug)]
pub enum ModuleDialect {
    Spv(spv::Dialect),
}

/// The debug information of a module as a whole.
#[derive(Debug)]
pub enum ModuleDebugInfo {
    Spv(spv::ModuleDebugInfo),
}

/// A module: global variables and functions, of which those that are
/// exported, and what they refer to, get printed.
#[derive(Debug)]
pub struct Module {
    pub dialect: ModuleDialect,
    pub debug_info: ModuleDebugInfo,
    pub global_vars: Vec<GlobalVarDecl>,
    pub funcs: Vec<FuncDecl>,
    pub exports: Vec<(ExportKey, Exportee)>,
}

impl Context {
    /// Whether `a` is the handle of an attribute set of this context.
    pub open spec fn is_attr_set(&self, a: AttrSet) -> bool {
        a.0 < self.interned@.len() && self.interned@[a.0 as int] is AttrSet
    }

    /// Whether `t` is the handle of a type of this context.
    pub open spec fn is_type(&self, t: Type) -> bool {
        t.0 < self.interned@.len() && self.interned@[t.0 as int] is Type
    }

    /// Whether `c` is the handle of a constant of this context.
    pub open spec fn is_const(&self, c: Const) -> bool {
        c.0 < self.interned@.len() && self.interned@[c.0 as int] is Const
    }

    /// Whether `s` is the handle of a string of this context.
    pub open spec fn is_str(&self, s: InternedStr) -> bool {
        s.0 < self.strings@.len()
    }

    /// The definition of an attribute set.
    pub open spec fn attr_set_def(&self, a: AttrSet) -> AttrSetDef
        recommends
            self.is_attr_set(a),
    {
        self.interned@[a.0 as int]->AttrSet_0
    }

    /// The definition of a type.
    pub open spec fn type_def(&self, t: Type) -> TypeDef
        recommends
            self.is_type(t),
    {
        self.interned@[t.0 as int]->Type_0
    }

    /// The definition of a constant.
    pub open spec fn const_def(&self, c: Const) -> ConstDef
        recommends
            self.is_const(c),
    {
        self.interned@[c.0 as int]->Const_0
    }

    /// The text of a string.
    pub open spec fn str_text(&self, s: InternedStr) -> Seq<char>
        recommends
            self.is_str(s),
    {
        self.strings@[s.0 as int]@
    }

    /// Whether a value, where it is a constant, is one of this context.
    pub open spec fn value_ok(&self, v: Value) -> bool {
        match v {
            Value::Const(c) => self.is_const(c),
            _ => true,
        }
    }

    /// Whether every value is fine by [`Context::value_ok`].
    pub open spec fn values_ok(&self, vs: Seq<Value>) -> bool {
        forall|i: int| 0 <= i < vs.len() ==> self.value_ok(#[trigger] vs[i])
    }

    /// Whether an attribute refers only to strings of this context, and
    /// as a bit-flags operand has no place for an ID.
    pub open spec fn attr_ok(&self, attr: Attr) -> bool {
        match attr {
            Attr::SpvDebugLine { file_path, .. } => self.is_str(file_path),
            Attr::SpvBitflagsOperand(operand) => operand.is_plain(),
            _ => true,
        }
    }

    /// Whether a type constructor argument is defined before entry `i`.
    pub open spec fn type_arg_before(&self, arg: TypeCtorArg, i: int) -> bool {
        match arg {
            TypeCtorArg::Type(t) => t.0 < i && self.is_type(t),
            TypeCtorArg::Const(c) => c.0 < i && self.is_const(c),
        }
    }

    /// Whether entry `i` refers only to strings of this context and to
    /// definitions before it, and has the operands that its kind of
    /// instruction must have.
    pub open spec fn entry_wf(&self, i: int) -> bool
        recommends
            0 <= i < self.interned@.len(),
    {
        match self.interned@[i] {
            Interned::AttrSet(def) => self.attr_set_def_wf(def),
            Interned::Type(def) => self.type_def_wf(def, i),
            Interned::Const(def) => self.const_def_wf(def, i),
        }
    }

    /// Whether the attributes of a set are all fine by
    /// [`Context::attr_ok`].
    pub open spec fn attr_set_def_wf(&self, def: AttrSetDef) -> bool {
        forall|k: int| 0 <= k < def.attrs@.len() ==> self.attr_ok(#[trigger] def.attrs@[k])
    }

    /// Whether a type's definition refers only to definitions before
    /// entry `i`, and has the operands that its instruction must have.
    pub open spec fn type_def_wf(&self, def: TypeDef, i: int) -> bool {
        &&& def.attrs.0 < i && self.is_attr_set(def.attrs)
        &&& forall|k: int|
            0 <= k < def.ctor_args@.len() ==> self.type_arg_before(
                #[trigger] def.ctor_args@[k],
                i,
            )
        &&& type_shape_ok(def)
    }

    /// Whether a constant's definition refers only to strings of this
    /// context and to definitions before entry `i`.
    pub open spec fn const_def_wf(&self, def: ConstDef, i: int) -> bool {
        &&& def.attrs.0 < i && self.is_attr_set(def.attrs)
        &&& def.ty.0 < i && self.is_type(def.ty)
        &&& forall|k: int|
            0 <= k < def.ctor_args@.len() ==> (#[trigger] def.ctor_args@[k]).0 < i
                && self.is_const(def.ctor_args@[k])
        &&& match def.ctor {
            ConstCtor::SpvStringLiteralForExtInst(s) => self.is_str(s),
            _ => true,
        }
    }

    /// Whether the context is well formed: it holds the empty attribute
    /// set at index 0, its handles fit 32 bits, and every definition is
    /// well formed where it stands.
    pub open spec fn wf(&self) -> bool {
        &&& 0 < self.interned@.len() <= u32::MAX
        &&& self.interned@[0] is AttrSet
        &&& self.interned@[0]->AttrSet_0.attrs@.len() == 0
        &&& forall|i: int| 0 <= i < self.interned@.len() ==> #[trigger] self.entry_wf(i)
    }
}

impl Context {
    /// A context that holds the empty attribute set and nothing else.
    pub fn new() -> (r: Context)
        ensures
            r.wf(),
            r.strings@.len() == 0,
            r.interned@.len() == 1,
    {
        let mut interned: Vec<Interned> = Vec::new();
        interned.push(Interned::AttrSet(AttrSetDef { attrs: Vec::new() }));
        let r = Context { strings: Vec::new(), interned };
        assert(r.entry_wf(0));
        r
    }

    /// The definition of an attribute set, if `a` is one of this context.
    pub fn lookup_attr_set(&self, a: AttrSet) -> (r: Option<&AttrSetDef>)
        ensures
            r is Some == self.is_attr_set(a),
            r is Some ==> *r.unwrap() == self.attr_set_def(a),
    {
        if (a.0 as usize) < self.interned.len() {
            match &self.interned[a.0 as usize] {
                Interned::AttrSet(def) => Some(def),
                _ => None,
            }
        } else {
            None
        }
    }

    /// The definition of a type, if `t` is one of this context.
    pub fn lookup_type(&self, t: Type) -> (r: Option<&TypeDef>)
        ensures
            r is Some == self.is_type(t),
            r is Some ==> *r.unwrap() == self.type_def(t),
    {
        if (t.0 as usize) < self.interned.len() {
            match &self.interned[t.0 as usize] {
                Interned::Type(def) => Some(def),
                _ => None,
            }
        } else {
            None
        }
    }

    /// The definition of a constant, if `c` is one of this context.
    pub fn lookup_const(&self, c: Const) -> (r: Option<&ConstDef>)
        ensures
            r is Some == self.is_const(c),
            r is Some ==> *r.unwrap() == self.const_def(c),
    {
        if (c.0 as usize) < self.interned.len() {
            match &self.interned[c.0 as usize] {
                Interned::Const(def) => Some(def),
                _ => None,
            }
        } else {
            None
        }
    }

    /// The text of a string, if `s` is one of this context.
    pub fn lookup_str(&self, s: InternedStr) -> (r: Option<&String>)
        ensures
            r is Some == self.is_str(s),
            r is Some ==> r.unwrap()@ == self.str_text(s),
    {
        if (s.0 as usize) < self.strings.len() {
            Some(&self.strings[s.0 as usize])
        } else {
            None
        }
    }

    /// Decides [`Context::is_attr_set`].
    pub fn has_attr_set(&self, a: AttrSet) -> (r: bool)
        ensures
            r == self.is_attr_set(a),
    {
        self.lookup_attr_set(a).is_some()
    }

    /// Decides [`Context::is_type`].
    pub fn has_type(&self, t: Type) -> (r: bool)
        ensures
            r == self.is_type(t),
    {
        self.lookup_type(t).is_some()
    }

    /// Decides [`Context::is_const`].
    pub fn has_const(&self, c: Const) -> (r: bool)
        ensures
            r == self.is_const(c),
    {
        self.lookup_const(c).is_some()
    }

    /// Decides [`Context::is_str`].
    pub fn has_str(&self, s: InternedStr) -> (r: bool)
        ensures
            r == self.is_str(s),
    {
        (s.0 as usize) < self.strings.len()
    }

    /// Decides [`Context::value_ok`].
    pub fn check_value(&self, v: &Value) -> (r: bool)
        ensures
            r == self.value_ok(*v),
    {
        match v {
            Value::Const(c) => self.has_const(*c),
            _ => true,
        }
    }

    /// Decides [`Context::values_ok`].
    pub fn check_values(&self, vs: &Vec<Value>) -> (r: bool)
        ensures
            r == self.values_ok(vs@),
    {
        let mut i: usize = 0;
        while i < vs.len()
            invariant
                0 <= i <= vs.len(),
                forall|j: int| 0 <= j < i ==> self.value_ok(#[trigger] vs@[j]),
            decreases vs.len() - i,
        {
            if !self.check_value(&vs[i]) {
                return false;
            }
            i += 1;
        }
        true
    }

    fn check_attrs(&self, def: &AttrSetDef) -> (r: bool)
        ensures
            r == (forall|k: int|
                0 <= k < def.attrs@.len() ==> self.attr_ok(#[trigger] def.attrs@[k])),
    {
        let mut k: usize = 0;
        while k < def.attrs.len()
            invariant
                0 <= k <= def.attrs.len(),
                forall|j: int| 0 <= j < k ==> self.attr_ok(#[trigger] def.attrs@[j]),
            decreases def.attrs.len() - k,
        {
            let ok = match &def.attrs[k] {
                Attr::SpvDebugLine { file_path, .. } => self.has_str(*file_path),
                Attr::SpvBitflagsOperand(operand) => operand.check_is_plain(),
                _ => true,
            };
            if !ok {
                return false;
            }
            k += 1;
        }
        true
    }

    fn check_type_args(&self, def: &TypeDef, i: usize) -> (r: bool)
        ensures
            r == (forall|k: int|
                0 <= k < def.ctor_args@.len() ==> self.type_arg_before(
                    #[trigger] def.ctor_args@[k],
                    i as int,
                )),
    {
        let mut k: usize = 0;
        while k < def.ctor_args.len()
            invariant
                0 <= k <= def.ctor_args.len(),
                forall|j: int|
                    0 <= j < k ==> self.type_arg_before(#[trigger] def.ctor_args@[j], i as int),
            decreases def.ctor_args.len() - k,
        {
            let ok = match def.ctor_args[k] {
                TypeCtorArg::Type(t) => (t.0 as usize) < i && self.has_type(t),
                TypeCtorArg::Const(c) => (c.0 as usize) < i && self.has_const(c),
            };
            if !ok {
                return false;
            }
            k += 1;
        }
        true
    }

    fn check_const_args(&self, def: &ConstDef, i: usize) -> (r: bool)
        ensures
            r == (forall|k: int|
                0 <= k < def.ctor_args@.len() ==> (#[trigger] def.ctor_args@[k]).0 < i
                    && self.is_const(def.ctor_args@[k])),
    {
        let mut k: usize = 0;
        while k < def.ctor_args.len()
            invariant
                0 <= k <= def.ctor_args.len(),
                forall|j: int|
                    0 <= j < k ==> (#[trigger] def.ctor_args@[j]).0 < i && self.is_const(
                        def.ctor_args@[j],
                    ),
            decreases def.ctor_args.len() - k,
        {
            let c = def.ctor_args[k];
            if !((c.0 as usize) < i && self.has_const(c)) {
                return false;
            }
            k += 1;
        }
        true
    }

    fn check_entry(&self, i: usize) -> (r: bool)
        requires
            i < self.interned@.len(),
        ensures
            r == self.entry_wf(i as int),
    {
        match &self.interned[i] {
            Interned::AttrSet(def) => self.check_attrs(def),
            Interned::Type(def) => {
                (def.attrs.0 as usize) < i && self.has_attr_set(def.attrs) && self.check_type_args(
                    def,
                    i,
                ) && check_type_shape(def)
            },
            Interned::Const(def) => {
                (def.attrs.0 as usize) < i && self.has_attr_set(def.attrs) && (def.ty.0 as usize)
                    < i && self.has_type(def.ty) && self.check_const_args(def, i) && match def.ctor {
                    ConstCtor::SpvStringLiteralForExtInst(s) => self.has_str(s),
                    _ => true,
                }
            },
        }
    }

    /// Decides [`Context::wf`].
    pub fn check(&self) -> (r: bool)
        ensures
            r == self.wf(),
    {
        if self.interned.len() == 0 || self.interned.len() > 0xffff_ffff {
            return false;
        }
        let first_ok = match &self.interned[0] {
            Interned::AttrSet(def) => def.attrs.len() == 0,
            _ => false,
        };
        if !first_ok {
            return false;
        }
        let mut i: usize = 0;
        while i < self.interned.len()
            invariant
                0 <= i <= self.interned.len(),
                forall|j: int| 0 <= j < i ==> #[trigger] self.entry_wf(j),
            decreases self.interned.len() - i,
        {
            if !self.check_entry(i) {
                return false;
            }
            i += 1;
        }
        true
    }
}

/// The width and bits of the floating-point number that entry `i` of the
/// context is, if it is a constant of a floating-point type of 32 or 64
/// bits that holds one or two words. Of a number of 32 bits, the bits
/// are the lower word.
pub open spec fn float_constant_at(cx: &Context, i: int) -> Option<(u32, u64)> {
    match cx.interned@[i] {
        Interned::Const(def) => if cx.is_type(def.ty) {
            match (def.ctor, cx.type_def(def.ty).ctor) {
                (ConstCtor::SpvInst(inst), TypeCtor::SpvInst(ty_inst)) => if inst.opcode.number
                    == spv::OP_CONSTANT && ty_inst.opcode.number == spv::OP_TYPE_FLOAT {
                    match (inst.raw_bits(), ty_inst.single_short()) {
                        (Some(raw), Some(width)) => if width == 32 {
                            Some((width, (raw % 0x1_0000_0000) as u64))
                        } else if width == 64 {
                            Some((width, raw))
                        } else {
                            None
                        },
                        _ => None,
                    }
                } else {
                    None
                },
                _ => None,
            }
        } else {
            None
        },
        _ => None,
    }
}

/// The floating-point constants among the first `count` entries of the
/// context, in order.
pub open spec fn float_constants_upto(cx: &Context, count: nat) -> Seq<(u32, u64)>
    decreases count,
{
    if count == 0 || count > cx.interned@.len() {
        Seq::empty()
    } else {
        match float_constant_at(cx, count - 1) {
            Some(c) => float_constants_upto(cx, (count - 1) as nat).push(c),
            None => float_constants_upto(cx, (count - 1) as nat),
        }
    }
}

impl Context {
    /// The width and bits of each floating-point constant of 32 or 64
    /// bits in the context, in order: those for which a printer can use
    /// a literal.
    pub fn float_constants(&self) -> (r: Vec<(u32, u64)>)
        ensures
            r@ == float_constants_upto(self, self.interned@.len()),
    {
        let mut out: Vec<(u32, u64)> = Vec::new();
        let mut i: usize = 0;
        while i < self.interned.len()
            invariant
                0 <= i <= self.interned.len(),
                out@ == float_constants_upto(self, i as nat),
            decreases self.interned.len() - i,
        {
            match &self.interned[i] {
                Interned::Const(def) => match (&def.ctor, self.lookup_type(def.ty)) {
                    (ConstCtor::SpvInst(inst), Some(ty_def)) => match &ty_def.ctor {
                        TypeCtor::SpvInst(ty_inst) => {
                            if inst.opcode.number == spv::OP_CONSTANT && ty_inst.opcode.number
                                == spv::OP_TYPE_FLOAT {
                                match (inst.get_raw_bits(), ty_inst.get_single_short()) {
                                    (Some(raw), Some(width)) => {
                                        if width == 32 {
                                            out.push((width, raw % 0x1_0000_0000));
                                        } else if width == 64 {
                                            out.push((width, raw));
                                        }
                                    },
                                    _ => {},
                                }
                            }
                        },
                        _ => {},
                    },
                    _ => {},
                },
                _ => {},
            }
            i += 1;
        }
        out
    }
}

/// Decides [`type_shape_ok`].
fn check_type_shape(def: &TypeDef) -> (r: bool)
    ensures
        r == type_shape_ok(*def),
{
    match &def.ctor {
        TypeCtor::SpvInst(inst) => {
            if inst.opcode.number == spv::OP_TYPE_INT {
                inst.get_two_shorts().is_some()
            } else if inst.opcode.number == spv::OP_TYPE_FLOAT {
                inst.get_single_short().is_some()
            } else if inst.opcode.number == spv::OP_TYPE_VECTOR {
                inst.get_single_short().is_some() && def.ctor_args.len() == 1 && matches!(
                    def.ctor_args[0],
                    TypeCtorArg::Type(_)
                )
            } else {
                true
            }
        },
        TypeCtor::SpvStringLiteralForExtInst => true,
    }
}

/// Whether a type built by one of the instructions that are printed in a
/// short form has the operands of that form: an integer type a width and
/// a signedness, a floating-point type a width, a vector type a length
/// and one element type.
pub open spec fn type_shape_ok(def: TypeDef) -> bool {
    match def.ctor {
        TypeCtor::SpvInst(inst) => {
            &&& inst.opcode.number == spv::OP_TYPE_INT ==> inst.two_shorts() is Some
            &&& inst.opcode.number == spv::OP_TYPE_FLOAT ==> inst.single_short() is Some
            &&& inst.opcode.number == spv::OP_TYPE_VECTOR ==> inst.single_short() is Some
                && def.ctor_args@.len() == 1 && def.ctor_args@[0] is Type
        },
        TypeCtor::SpvStringLiteralForExtInst => true,
    }
}

} // verus!
