//! Well-formedness of modules against a context: every handle names a
//! definition of the right kind, and every construct has the number of
//! operands, cases and targets that its kind calls for.
use vstd::prelude::*;
use crate::ir::{
    AddrSpace, AttrSet, Context, ControlInst, ControlInstKind, ControlNodeDef, ControlNodeKind,
    ControlRegionDef, DataInstDef, DataInstKind, DeclDef, ExportKey, FuncDecl, FuncDefBody,
    GlobalVarDecl, Import, Module, ModuleDebugInfo, ModuleDialect, SelectionKind, Type, TypeCtor, TypeDef,
};
use crate::spv;

verus! {

/// Whether an attribute set and a type are both of the context.
pub open spec fn decl_ok(cx: &Context, attrs: AttrSet, ty: Type) -> bool {
    cx.is_attr_set(attrs) && cx.is_type(ty)
}

/// Whether a data instruction refers only to definitions of the context.
pub open spec fn data_inst_wf(cx: &Context, inst: DataInstDef) -> bool {
    &&& cx.is_attr_set(inst.attrs)
    &&& inst.output_type is Some ==> cx.is_type(inst.output_type->0)
    &&& cx.values_ok(inst.inputs@)
    &&& inst.kind matches DataInstKind::SpvExtInst { ext_set, .. } ==> cx.is_str(ext_set)
}

/// Whether a control instruction has the inputs and targets of its kind.
pub open spec fn control_inst_shape_ok(ci: ControlInst) -> bool {
    match ci.kind {
        ControlInstKind::Unreachable => ci.targets@.len() == 0 && ci.inputs@.len() == 0,
        ControlInstKind::Return => ci.targets@.len() == 0 && ci.inputs@.len() <= 1,
        ControlInstKind::ExitInvocation(_) => ci.targets@.len() == 0,
        ControlInstKind::Branch => ci.targets@.len() == 1 && ci.inputs@.len() == 0,
        ControlInstKind::SelectBranch(kind) => ci.inputs@.len() == 1 && (kind is BoolCond
            ==> ci.targets@.len() == 2),
    }
}

/// Whether a control instruction is well formed.
pub open spec fn control_inst_wf(cx: &Context, ci: ControlInst) -> bool {
    &&& cx.is_attr_set(ci.attrs)
    &&& cx.values_ok(ci.inputs@)
    &&& forall|k: int|
        0 <= k < ci.target_inputs@.len() ==> cx.values_ok((#[trigger] ci.target_inputs@[k]).1@)
    &&& control_inst_shape_ok(ci)
}

/// Whether a region and everything nested in it is well formed.
pub open spec fn region_wf(cx: &Context, r: ControlRegionDef) -> bool
    decreases r,
{
    &&& r.inputs@.len() <= u32::MAX
    &&& forall|i: int|
        0 <= i < r.inputs@.len() ==> decl_ok(
            cx,
            (#[trigger] r.inputs@[i]).attrs,
            r.inputs@[i].ty,
        )
    &&& forall|i: int| 0 <= i < r.children@.len() ==> node_wf(cx, #[trigger] r.children@[i])
    &&& cx.values_ok(r.outputs@)
}

/// Whether a control node and everything nested in it is well formed.
pub open spec fn node_wf(cx: &Context, n: ControlNodeDef) -> bool
    decreases n,
{
    &&& n.outputs@.len() <= u32::MAX
    &&& forall|i: int|
        0 <= i < n.outputs@.len() ==> decl_ok(
            cx,
            (#[trigger] n.outputs@[i]).attrs,
            n.outputs@[i].ty,
        )
    &&& match n.kind {
        ControlNodeKind::Block { insts } => {
            &&& n.outputs@.len() == 0
            &&& forall|i: int| 0 <= i < insts@.len() ==> data_inst_wf(cx, #[trigger] insts@[i])
        },
        ControlNodeKind::Select { kind, scrutinee, cases } => {
            &&& cx.value_ok(scrutinee)
            &&& kind is BoolCond ==> cases@.len() == 2
            &&& forall|i: int| 0 <= i < cases@.len() ==> region_wf(cx, #[trigger] cases@[i])
        },
        ControlNodeKind::Loop { initial_inputs, body, repeat_condition } => {
            &&& n.outputs@.len() == 0
            &&& cx.values_ok(initial_inputs@)
            &&& initial_inputs@.len() == body.inputs@.len()
            &&& region_wf(cx, *body)
            &&& cx.value_ok(repeat_condition)
        },
    }
}

/// Whether the inputs and outputs of a region, and of everything nested
/// in it, can be numbered in 32 bits.
pub open spec fn region_wf_sizes(r: ControlRegionDef) -> bool
    decreases r,
{
    &&& r.inputs@.len() <= u32::MAX
    &&& forall|i: int| 0 <= i < r.children@.len() ==> node_wf_sizes(#[trigger] r.children@[i])
}

/// Whether the outputs of a control node, and the inputs and outputs of
/// everything nested in it, can be numbered in 32 bits.
pub open spec fn node_wf_sizes(n: ControlNodeDef) -> bool
    decreases n,
{
    &&& n.outputs@.len() <= u32::MAX
    &&& match n.kind {
        ControlNodeKind::Block { .. } => true,
        ControlNodeKind::Select { cases, .. } => forall|i: int|
            0 <= i < cases@.len() ==> region_wf_sizes(#[trigger] cases@[i]),
        ControlNodeKind::Loop { body, .. } => region_wf_sizes(*body),
    }
}

/// Whether the inputs and outputs throughout a function body can be
/// numbered in 32 bits.
pub open spec fn func_body_wf_sizes(body: FuncDefBody) -> bool {
    &&& region_wf_sizes(body.body)
    &&& body.unstructured_cfg matches Some(cfg) ==> forall|i: int|
        0 <= i < cfg.rest@.len() ==> region_wf_sizes((#[trigger] cfg.rest@[i]).def)
}

/// A well-formed region can be numbered.
pub proof fn lemma_region_sizes(cx: &Context, r: ControlRegionDef)
    requires
        region_wf(cx, r),
    ensures
        region_wf_sizes(r),
    decreases r,
{
    assert forall|i: int| 0 <= i < r.children@.len() implies node_wf_sizes(
        #[trigger] r.children@[i],
    ) by {
        lemma_node_sizes(cx, r.children@[i]);
    }
}

/// A well-formed control node can be numbered.
pub proof fn lemma_node_sizes(cx: &Context, n: ControlNodeDef)
    requires
        node_wf(cx, n),
    ensures
        node_wf_sizes(n),
    decreases n,
{
    match n.kind {
        ControlNodeKind::Block { .. } => {},
        ControlNodeKind::Select { cases, .. } => {
            assert forall|i: int| 0 <= i < cases@.len() implies region_wf_sizes(
                #[trigger] cases@[i],
            ) by {
                lemma_region_sizes(cx, cases@[i]);
            }
        },
        ControlNodeKind::Loop { body, .. } => {
            lemma_region_sizes(cx, *body);
        },
    }
}

/// A well-formed function body can be numbered.
pub proof fn lemma_func_body_sizes(cx: &Context, body: FuncDefBody)
    requires
        func_body_wf(cx, body),
    ensures
        func_body_wf_sizes(body),
{
    lemma_region_sizes(cx, body.body);
    if let Some(cfg) = body.unstructured_cfg {
        assert forall|i: int| 0 <= i < cfg.rest@.len() implies region_wf_sizes(
            (#[trigger] cfg.rest@[i]).def,
        ) by {
            lemma_region_sizes(cx, cfg.rest@[i].def);
        }
    }
}

/// Whether a function body is well formed.
pub open spec fn func_body_wf(cx: &Context, body: FuncDefBody) -> bool {
    &&& region_wf(cx, body.body)
    &&& body.unstructured_cfg matches Some(cfg) ==> {
        &&& control_inst_wf(cx, cfg.body_exit)
        &&& forall|i: int|
            0 <= i < cfg.rest@.len() ==> region_wf(cx, (#[trigger] cfg.rest@[i]).def)
                && control_inst_wf(cx, cfg.rest@[i].exit)
    }
}

/// Whether an import names a string of the context.
pub open spec fn import_ok(cx: &Context, import: Import) -> bool {
    match import {
        Import::LinkName(s) => cx.is_str(s),
    }
}

/// Whether a function declaration is well formed.
pub open spec fn func_decl_wf(cx: &Context, decl: FuncDecl) -> bool {
    &&& decl_ok(cx, decl.attrs, decl.ret_type)
    &&& decl.params@.len() <= u32::MAX
    &&& forall|i: int|
        0 <= i < decl.params@.len() ==> decl_ok(
            cx,
            (#[trigger] decl.params@[i]).attrs,
            decl.params@[i].ty,
        )
    &&& match decl.def {
        DeclDef::Imported(import) => import_ok(cx, import),
        DeclDef::Present(body) => func_body_wf(cx, body),
    }
}

/// Whether a type, where it is a pointer type, has exactly one argument,
/// the type pointed to.
pub open spec fn pointer_shape_ok(def: TypeDef) -> bool {
    def.ctor matches TypeCtor::SpvInst(inst) ==> (inst.opcode.number == spv::OP_TYPE_POINTER
        ==> def.ctor_args@.len() == 1 && def.ctor_args@[0] is Type)
}

/// Whether a global variable declaration is well formed.
pub open spec fn global_var_wf(cx: &Context, decl: GlobalVarDecl) -> bool {
    &&& decl_ok(cx, decl.attrs, decl.type_of_ptr_to)
    &&& decl.addr_space matches AddrSpace::SpvStorageClass(class) ==> class.is_plain()
    &&& pointer_shape_ok(cx.type_def(decl.type_of_ptr_to))
    &&& match decl.def {
        DeclDef::Imported(import) => import_ok(cx, import),
        DeclDef::Present(body) => body.initializer is Some ==> cx.is_const(body.initializer->0),
    }
}

/// Whether the file names in one language's sources are strings of the
/// context.
pub open spec fn sources_ok(cx: &Context, sources: spv::DebugSources) -> bool {
    forall|k: int|
        0 <= k < sources.file_contents@.len() ==> cx.is_str(
            (#[trigger] sources.file_contents@[k]).0,
        )
}

/// Whether the debug information refers only to strings of the context,
/// and its languages have no place for an ID.
pub open spec fn debug_info_wf(cx: &Context, info: ModuleDebugInfo) -> bool {
    match info {
        ModuleDebugInfo::Spv(info) => forall|i: int|
            0 <= i < info.source_languages@.len() ==> sources_ok(
                cx,
                (#[trigger] info.source_languages@[i]).1,
            ) && info.source_languages@[i].0.lang.is_plain(),
    }
}

/// Whether the dialect's enumerands have no place for an ID.
pub open spec fn dialect_wf(dialect: ModuleDialect) -> bool {
    match dialect {
        ModuleDialect::Spv(dialect) => dialect.wf(),
    }
}

/// Whether an export key refers only to strings of the context.
pub open spec fn export_key_ok(cx: &Context, key: ExportKey) -> bool {
    key matches ExportKey::LinkName(s) ==> cx.is_str(s)
}

impl Module {
    /// Whether the module is well formed against `cx`.
    ///
    /// Handles of global variables and functions are not constrained: one
    /// that the module does not define is printed as undefined.
    pub open spec fn wf(&self, cx: &Context) -> bool {
        &&& dialect_wf(self.dialect)
        &&& debug_info_wf(cx, self.debug_info)
        &&& forall|i: int|
            0 <= i < self.global_vars@.len() ==> global_var_wf(cx, #[trigger] self.global_vars@[i])
        &&& forall|i: int| 0 <= i < self.funcs@.len() ==> func_decl_wf(cx, #[trigger] self.funcs@[i])
        &&& forall|i: int|
            0 <= i < self.exports@.len() ==> export_key_ok(cx, (#[trigger] self.exports@[i]).0)
    }
}

/// Decides [`decl_ok`].
pub fn check_decl(cx: &Context, attrs: AttrSet, ty: Type) -> (r: bool)
    ensures
        r == decl_ok(cx, attrs, ty),
{
    cx.has_attr_set(attrs) && cx.has_type(ty)
}

/// Decides [`data_inst_wf`].
pub fn check_data_inst(cx: &Context, inst: &DataInstDef) -> (r: bool)
    ensures
        r == data_inst_wf(cx, *inst),
{
    let type_ok = match inst.output_type {
        Some(ty) => cx.has_type(ty),
        None => true,
    };
    let kind_ok = match &inst.kind {
        DataInstKind::SpvExtInst { ext_set, .. } => cx.has_str(*ext_set),
        _ => true,
    };
    cx.has_attr_set(inst.attrs) && type_ok && cx.check_values(&inst.inputs) && kind_ok
}

/// Decides [`control_inst_wf`].
pub fn check_control_inst(cx: &Context, ci: &ControlInst) -> (r: bool)
    ensures
        r == control_inst_wf(cx, *ci),
{
    let shape_ok = match &ci.kind {
        ControlInstKind::Unreachable => ci.targets.len() == 0 && ci.inputs.len() == 0,
        ControlInstKind::Return => ci.targets.len() == 0 && ci.inputs.len() <= 1,
        ControlInstKind::ExitInvocation(_) => ci.targets.len() == 0,
        ControlInstKind::Branch => ci.targets.len() == 1 && ci.inputs.len() == 0,
        ControlInstKind::SelectBranch(kind) => ci.inputs.len() == 1 && (match kind {
            SelectionKind::BoolCond => ci.targets.len() == 2,
            _ => true,
        }),
    };
    if !(cx.has_attr_set(ci.attrs) && cx.check_values(&ci.inputs) && shape_ok) {
        return false;
    }
    let mut k: usize = 0;
    while k < ci.target_inputs.len()
        invariant
            0 <= k <= ci.target_inputs.len(),
            forall|j: int| 0 <= j < k ==> cx.values_ok((#[trigger] ci.target_inputs@[j]).1@),
        decreases ci.target_inputs.len() - k,
    {
        if !cx.check_values(&ci.target_inputs[k].1) {
            return false;
        }
        k += 1;
    }
    true
}

/// Decides [`region_wf`].
#[verifier::loop_isolation(false)]
pub fn check_region(cx: &Context, r: &ControlRegionDef) -> (ok: bool)
    ensures
        ok == region_wf(cx, *r),
    decreases *r,
{
    if r.inputs.len() > 0xffff_ffff || !cx.check_values(&r.outputs) {
        return false;
    }
    let mut i: usize = 0;
    while i < r.inputs.len()
        invariant
            0 <= i <= r.inputs.len(),
            forall|j: int|
                0 <= j < i ==> decl_ok(cx, (#[trigger] r.inputs@[j]).attrs, r.inputs@[j].ty),
        decreases r.inputs.len() - i,
    {
        if !check_decl(cx, r.inputs[i].attrs, r.inputs[i].ty) {
            return false;
        }
        i += 1;
    }
    let mut i: usize = 0;
    while i < r.children.len()
        invariant
            0 <= i <= r.children.len(),
            forall|j: int| 0 <= j < i ==> node_wf(cx, #[trigger] r.children@[j]),
        decreases r.children.len() - i,
    {
        if !check_node(cx, &r.children[i]) {
            return false;
        }
        i += 1;
    }
    true
}

/// Decides [`node_wf`].
#[verifier::loop_isolation(false)]
pub fn check_node(cx: &Context, n: &ControlNodeDef) -> (ok: bool)
    ensures
        ok == node_wf(cx, *n),
    decreases *n,
{
    if n.outputs.len() > 0xffff_ffff {
        return false;
    }
    let mut i: usize = 0;
    while i < n.outputs.len()
        invariant
            0 <= i <= n.outputs.len(),
            forall|j: int|
                0 <= j < i ==> decl_ok(cx, (#[trigger] n.outputs@[j]).attrs, n.outputs@[j].ty),
        decreases n.outputs.len() - i,
    {
        if !check_decl(cx, n.outputs[i].attrs, n.outputs[i].ty) {
            return false;
        }
        i += 1;
    }
    match &n.kind {
        ControlNodeKind::Block { insts } => {
            if n.outputs.len() != 0 {
                return false;
            }
            let mut i: usize = 0;
            while i < insts.len()
                invariant
                    0 <= i <= insts.len(),
                    forall|j: int| 0 <= j < i ==> data_inst_wf(cx, #[trigger] insts@[j]),
                decreases insts.len() - i,
            {
                if !check_data_inst(cx, &insts[i]) {
                    return false;
                }
                i += 1;
            }
            true
        },
        ControlNodeKind::Select { kind, scrutinee, cases } => {
            let count_ok = match kind {
                SelectionKind::BoolCond => cases.len() == 2,
                _ => true,
            };
            if !(cx.check_value(scrutinee) && count_ok) {
                return false;
            }
            let mut i: usize = 0;
            while i < cases.len()
                invariant
                    0 <= i <= cases.len(),
                    forall|j: int| 0 <= j < i ==> region_wf(cx, #[trigger] cases@[j]),
                decreases cases.len() - i,
            {
                if !check_region(cx, &cases[i]) {
                    return false;
                }
                i += 1;
            }
            true
        },
        ControlNodeKind::Loop { initial_inputs, body, repeat_condition } => {
            n.outputs.len() == 0 && cx.check_values(initial_inputs) && initial_inputs.len()
                == body.inputs.len() && check_region(cx, body) && cx.check_value(
                repeat_condition,
            )
        },
    }
}

/// Decides [`func_body_wf`].
#[verifier::loop_isolation(false)]
pub fn check_func_body(cx: &Context, body: &FuncDefBody) -> (r: bool)
    ensures
        r == func_body_wf(cx, *body),
{
    if !check_region(cx, &body.body) {
        return false;
    }
    match &body.unstructured_cfg {
        None => true,
        Some(cfg) => {
            if !check_control_inst(cx, &cfg.body_exit) {
                return false;
            }
            let mut i: usize = 0;
            while i < cfg.rest.len()
                invariant
                    0 <= i <= cfg.rest.len(),
                    forall|j: int|
                        0 <= j < i ==> region_wf(cx, (#[trigger] cfg.rest@[j]).def)
                            && control_inst_wf(cx, cfg.rest@[j].exit),
                decreases cfg.rest.len() - i,
            {
                if !(check_region(cx, &cfg.rest[i].def) && check_control_inst(
                    cx,
                    &cfg.rest[i].exit,
                )) {
                    return false;
                }
                i += 1;
            }
            true
        },
    }
}

/// Decides [`import_ok`].
pub fn check_import(cx: &Context, import: &Import) -> (r: bool)
    ensures
        r == import_ok(cx, *import),
{
    match import {
        Import::LinkName(s) => cx.has_str(*s),
    }
}

/// Decides [`func_decl_wf`].
pub fn check_func_decl(cx: &Context, decl: &FuncDecl) -> (r: bool)
    ensures
        r == func_decl_wf(cx, *decl),
{
    if !(check_decl(cx, decl.attrs, decl.ret_type) && decl.params.len() <= 0xffff_ffff) {
        return false;
    }
    let mut i: usize = 0;
    while i < decl.params.len()
        invariant
            0 <= i <= decl.params.len(),
            forall|j: int|
                0 <= j < i ==> decl_ok(cx, (#[trigger] decl.params@[j]).attrs, decl.params@[j].ty),
        decreases decl.params.len() - i,
    {
        if !check_decl(cx, decl.params[i].attrs, decl.params[i].ty) {
            return false;
        }
        i += 1;
    }
    match &decl.def {
        DeclDef::Imported(import) => check_import(cx, import),
        DeclDef::Present(body) => check_func_body(cx, body),
    }
}

/// Decides [`global_var_wf`].
pub fn check_global_var(cx: &Context, decl: &GlobalVarDecl) -> (r: bool)
    ensures
        r == global_var_wf(cx, *decl),
{
    if !check_decl(cx, decl.attrs, decl.type_of_ptr_to) {
        return false;
    }
    let ty_def = cx.lookup_type(decl.type_of_ptr_to).unwrap();
    let shape_ok = match &ty_def.ctor {
        TypeCtor::SpvInst(inst) => inst.opcode.number != spv::OP_TYPE_POINTER || (
        ty_def.ctor_args.len() == 1 && matches!(ty_def.ctor_args[0], crate::ir::TypeCtorArg::Type(_))),
        _ => true,
    };
    let class_ok = match &decl.addr_space {
        AddrSpace::SpvStorageClass(class) => class.check_is_plain(),
    };
    shape_ok && class_ok && match &decl.def {
        DeclDef::Imported(import) => check_import(cx, import),
        DeclDef::Present(body) => match body.initializer {
            Some(c) => cx.has_const(c),
            None => true,
        },
    }
}

/// Decides [`debug_info_wf`].
#[verifier::loop_isolation(false)]
pub fn check_debug_info(cx: &Context, info: &ModuleDebugInfo) -> (r: bool)
    ensures
        r == debug_info_wf(cx, *info),
{
    match info {
        ModuleDebugInfo::Spv(info) => {
            let mut i: usize = 0;
            while i < info.source_languages.len()
                invariant
                    0 <= i <= info.source_languages.len(),
                    forall|j: int|
                        0 <= j < i ==> sources_ok(cx, (#[trigger] info.source_languages@[j]).1)
                            && info.source_languages@[j].0.lang.is_plain(),
                decreases info.source_languages.len() - i,
            {
                if !info.source_languages[i].0.lang.check_is_plain() {
                    return false;
                }
                let sources = &info.source_languages[i].1;
                let mut k: usize = 0;
                while k < sources.file_contents.len()
                    invariant
                        0 <= k <= sources.file_contents.len(),
                        forall|j: int|
                            0 <= j < k ==> cx.is_str((#[trigger] sources.file_contents@[j]).0),
                    decreases sources.file_contents.len() - k,
                {
                    if !cx.has_str(sources.file_contents[k].0) {
                        return false;
                    }
                    k += 1;
                }
                i += 1;
            }
            true
        },
    }
}

impl Module {
    /// Decides [`Module::wf`].
    pub fn check(&self, cx: &Context) -> (r: bool)
        ensures
            r == self.wf(cx),
    {
        let dialect_ok = match &self.dialect {
            ModuleDialect::Spv(dialect) => dialect.check(),
        };
        if !(dialect_ok && check_debug_info(cx, &self.debug_info)) {
            return false;
        }
        let mut i: usize = 0;
        while i < self.global_vars.len()
            invariant
                0 <= i <= self.global_vars.len(),
                forall|j: int| 0 <= j < i ==> global_var_wf(cx, #[trigger] self.global_vars@[j]),
            decreases self.global_vars.len() - i,
        {
            if !check_global_var(cx, &self.global_vars[i]) {
                return false;
            }
            i += 1;
        }
        let mut i: usize = 0;
        while i < self.funcs.len()
            invariant
                0 <= i <= self.funcs.len(),
                forall|j: int| 0 <= j < i ==> func_decl_wf(cx, #[trigger] self.funcs@[j]),
            decreases self.funcs.len() - i,
        {
            if !check_func_decl(cx, &self.funcs[i]) {
                return false;
            }
            i += 1;
        }
        let mut i: usize = 0;
        while i < self.exports.len()
            invariant
                0 <= i <= self.exports.len(),
                forall|j: int| 0 <= j < i ==> export_key_ok(cx, (#[trigger] self.exports@[j]).0),
            decreases self.exports.len() - i,
        {
            let ok = match &self.exports[i].0 {
                ExportKey::LinkName(s) => cx.has_str(*s),
                _ => true,
            };
            if !ok {
                return false;
            }
            i += 1;
        }
        true
    }
}

} // verus!
