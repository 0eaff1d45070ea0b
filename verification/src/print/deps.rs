//! What each definition refers to, in the order in which a plan visits
//! the references.
use vstd::prelude::*;
use crate::ir::{
    AttrSet, Const, ConstCtor, ConstDef, Context, ControlInst, ControlNodeDef, ControlNodeKind,
    ControlRegion, ControlRegionDef, DataInstDef, DataInstKind, DeclDef, ExportKey, Exportee,
    FuncDecl, FuncDefBody, GlobalVar, GlobalVarDecl, Interned, Module, Type, TypeCtorArg,
    TypeDef, Value,
};
use crate::print::uses::{CxInterned, Node, Use};
use crate::seqs::{flatten, lemma_flatten_step, lemma_take_all};

verus! {

/// A use of an attribute set.
pub open spec fn attrs_use(attrs: AttrSet) -> Use {
    Use::CxInterned(CxInterned::AttrSet(attrs))
}

/// A use of a type.
pub open spec fn type_use(ty: Type) -> Use {
    Use::CxInterned(CxInterned::Type(ty))
}

/// A use of a constant.
pub open spec fn const_use(ct: Const) -> Use {
    Use::CxInterned(CxInterned::Const(ct))
}

/// A use of an argument of a type.
pub open spec fn type_arg_use(arg: TypeCtorArg) -> Use {
    match arg {
        TypeCtorArg::Type(ty) => type_use(ty),
        TypeCtorArg::Const(ct) => const_use(ct),
    }
}

/// The uses that the values stand for.
pub open spec fn value_uses(vs: Seq<Value>) -> Seq<Use> {
    vs.map_values(|v: Value| Use::of_value(v))
}

/// The uses of something declared with attributes and a type.
pub open spec fn decl_uses(attrs: AttrSet, ty: Type) -> Seq<Use> {
    seq![attrs_use(attrs), type_use(ty)]
}

/// What a type's definition refers to: its attributes, then its
/// arguments.
pub open spec fn type_def_uses(def: TypeDef) -> Seq<Use> {
    seq![attrs_use(def.attrs)] + def.ctor_args@.map_values(|arg: TypeCtorArg| type_arg_use(arg))
}

/// What a constant's definition refers to: its attributes, its type, the
/// global variable it points to if it is a pointer to one, then its
/// arguments.
pub open spec fn const_def_uses(def: ConstDef) -> Seq<Use> {
    seq![attrs_use(def.attrs), type_use(def.ty)] + (match def.ctor {
        ConstCtor::PtrToGlobalVar(gv) => seq![Use::Node(Node::GlobalVar(gv))],
        _ => Seq::empty(),
    }) + def.ctor_args@.map_values(|ct: Const| const_use(ct))
}

/// What an interned definition refers to.
pub open spec fn interned_uses(def: Interned) -> Seq<Use> {
    match def {
        Interned::AttrSet(_) => Seq::empty(),
        Interned::Type(def) => type_def_uses(def),
        Interned::Const(def) => const_def_uses(def),
    }
}

/// What a data instruction refers to: its attributes, the function it
/// calls if it is a call, its output type if it has one, then its inputs.
pub open spec fn data_inst_uses(inst: DataInstDef) -> Seq<Use> {
    seq![attrs_use(inst.attrs)] + (match inst.kind {
        DataInstKind::FuncCall(func) => seq![Use::Node(Node::Func(func))],
        _ => Seq::empty(),
    }) + (match inst.output_type {
        Some(ty) => seq![type_use(ty)],
        None => Seq::empty(),
    }) + value_uses(inst.inputs@)
}

/// What a control instruction refers to: its attributes, its inputs, then
/// the values passed to its targets.
pub open spec fn control_inst_uses(ci: ControlInst) -> Seq<Use> {
    seq![attrs_use(ci.attrs)] + value_uses(ci.inputs@) + flatten(
        Seq::new(ci.target_inputs@.len(), |k: int| value_uses(ci.target_inputs@[k].1@)),
    )
}

/// The labels that a control instruction branches to.
pub open spec fn target_labels(ci: ControlInst) -> Seq<Use> {
    ci.targets@.map_values(|target: ControlRegion| Use::ControlRegionLabel(target))
}

/// What a region refers to: the declarations of its inputs, its children
/// in order, then its outputs.
pub open spec fn region_uses(r: ControlRegionDef) -> Seq<Use>
    decreases r, 0nat,
{
    flatten(Seq::new(r.inputs@.len(), |i: int| decl_uses(r.inputs@[i].attrs, r.inputs@[i].ty)))
        + nodes_uses(r.children@, r.children@.len()) + value_uses(r.outputs@)
}

/// What the first `count` of `nodes` refer to.
pub open spec fn nodes_uses(nodes: Seq<ControlNodeDef>, count: nat) -> Seq<Use>
    decreases nodes, count,
{
    if count == 0 || count > nodes.len() {
        Seq::empty()
    } else {
        nodes_uses(nodes, (count - 1) as nat) + node_uses(nodes[count - 1])
    }
}

/// What the first `count` of `regions` refer to.
pub open spec fn regions_uses(regions: Seq<ControlRegionDef>, count: nat) -> Seq<Use>
    decreases regions, count,
{
    if count == 0 || count > regions.len() {
        Seq::empty()
    } else {
        regions_uses(regions, (count - 1) as nat) + region_uses(regions[count - 1])
    }
}

/// What a control node refers to: what its kind holds, in order, then the
/// declarations of its outputs.
pub open spec fn node_uses(n: ControlNodeDef) -> Seq<Use>
    decreases n, 0nat,
{
    (match n.kind {
        ControlNodeKind::Block { insts } => flatten(
            Seq::new(insts@.len(), |i: int| data_inst_uses(insts@[i])),
        ),
        ControlNodeKind::Select { kind, scrutinee, cases } => seq![Use::of_value(scrutinee)]
            + regions_uses(cases@, cases@.len()),
        ControlNodeKind::Loop { initial_inputs, body, repeat_condition } => value_uses(
            initial_inputs@,
        ) + region_uses(*body) + seq![Use::of_value(repeat_condition)],
    }) + flatten(
        Seq::new(n.outputs@.len(), |i: int| decl_uses(n.outputs@[i].attrs, n.outputs@[i].ty)),
    )
}

/// What a function body refers to: the body region, and for an
/// unstructured body the instruction that leaves it and then each
/// further region with the instruction that leaves that.
pub open spec fn func_body_uses(body: FuncDefBody) -> Seq<Use> {
    region_uses(body.body) + (match body.unstructured_cfg {
        None => Seq::empty(),
        Some(cfg) => control_inst_uses(cfg.body_exit) + flatten(
            Seq::new(
                cfg.rest@.len(),
                |i: int| region_uses(cfg.rest@[i].def) + control_inst_uses(cfg.rest@[i].exit),
            ),
        ),
    })
}

/// The labels that the control instructions of an unstructured body
/// branch to, region by region.
pub open spec fn func_body_labels(body: FuncDefBody) -> Seq<Use> {
    match body.unstructured_cfg {
        None => Seq::empty(),
        Some(cfg) => target_labels(cfg.body_exit) + flatten(
            Seq::new(cfg.rest@.len(), |i: int| target_labels(cfg.rest@[i].exit)),
        ),
    }
}

/// What a function declaration refers to: the labels that its body
/// branches to, its attributes, its return type, its parameters, then its
/// body.
pub open spec fn func_decl_uses(decl: FuncDecl) -> Seq<Use> {
    (match decl.def {
        DeclDef::Imported(_) => Seq::empty(),
        DeclDef::Present(body) => func_body_labels(body),
    }) + decl_uses(decl.attrs, decl.ret_type) + flatten(
        Seq::new(decl.params@.len(), |i: int| decl_uses(decl.params@[i].attrs, decl.params@[i].ty)),
    ) + (match decl.def {
        DeclDef::Imported(_) => Seq::empty(),
        DeclDef::Present(body) => func_body_uses(body),
    })
}

/// What a global variable declaration refers to: its attributes, its
/// type, then its initializer if it has one.
pub open spec fn global_var_uses(decl: GlobalVarDecl) -> Seq<Use> {
    decl_uses(decl.attrs, decl.type_of_ptr_to) + (match decl.def {
        DeclDef::Imported(_) => Seq::empty(),
        DeclDef::Present(body) => match body.initializer {
            Some(ct) => seq![const_use(ct)],
            None => Seq::empty(),
        },
    })
}

/// A use of what an export exports.
pub open spec fn exportee_use(exportee: Exportee) -> Use {
    match exportee {
        Exportee::GlobalVar(gv) => Use::Node(Node::GlobalVar(gv)),
        Exportee::Func(func) => Use::Node(Node::Func(func)),
    }
}

/// What one export refers to: the interface variables of an entry point,
/// then what is exported.
pub open spec fn export_uses(key: ExportKey, exportee: Exportee) -> Seq<Use> {
    (match key {
        ExportKey::LinkName(_) => Seq::empty(),
        ExportKey::SpvEntryPoint { interface_global_vars, .. } => interface_global_vars@.map_values(
            |gv: GlobalVar| Use::Node(Node::GlobalVar(gv)),
        ),
    }).push(exportee_use(exportee))
}

/// What a module refers to: its dialect, its debug information, then its
/// exports in order.
pub open spec fn module_uses(module: Module) -> Seq<Use> {
    seq![Use::Node(Node::ModuleDialect), Use::Node(Node::ModuleDebugInfo)] + flatten(
        Seq::new(
            module.exports@.len(),
            |i: int| export_uses(module.exports@[i].0, module.exports@[i].1),
        ),
    )
}

/// Adds the uses that the values stand for.
pub fn push_value_uses(out: &mut Vec<Use>, vs: &Vec<Value>)
    ensures
        final(out)@ == old(out)@ + value_uses(vs@),
{
    let mut i: usize = 0;
    while i < vs.len()
        invariant
            0 <= i <= vs.len(),
            out@ == old(out)@ + value_uses(vs@.take(i as int)),
        decreases vs.len() - i,
    {
        out.push(Use::from_value(vs[i]));
        assert(out@ =~= old(out)@ + value_uses(vs@.take(i + 1)));
        i += 1;
    }
    proof {
        lemma_take_all(vs@);
    }
}

/// Adds the uses of something declared with attributes and a type.
pub fn push_decl_uses(out: &mut Vec<Use>, attrs: AttrSet, ty: Type)
    ensures
        final(out)@ == old(out)@ + decl_uses(attrs, ty),
{
    out.push(Use::CxInterned(CxInterned::AttrSet(attrs)));
    out.push(Use::CxInterned(CxInterned::Type(ty)));
    assert(out@ =~= old(out)@ + decl_uses(attrs, ty));
}

/// Computes [`interned_uses`].
pub fn uses_of_interned(def: &Interned) -> (r: Vec<Use>)
    ensures
        r@ == interned_uses(*def),
{
    let mut out: Vec<Use> = Vec::new();
    match def {
        Interned::AttrSet(_) => {},
        Interned::Type(def) => {
            out.push(Use::CxInterned(CxInterned::AttrSet(def.attrs)));
            let mut i: usize = 0;
            while i < def.ctor_args.len()
                invariant
                    0 <= i <= def.ctor_args.len(),
                    out@ == seq![attrs_use(def.attrs)] + def.ctor_args@.take(i as int).map_values(
                        |arg: TypeCtorArg| type_arg_use(arg),
                    ),
                decreases def.ctor_args.len() - i,
            {
                let u = match def.ctor_args[i] {
                    TypeCtorArg::Type(ty) => Use::CxInterned(CxInterned::Type(ty)),
                    TypeCtorArg::Const(ct) => Use::CxInterned(CxInterned::Const(ct)),
                };
                out.push(u);
                assert(out@ =~= seq![attrs_use(def.attrs)] + def.ctor_args@.take(
                    i + 1,
                ).map_values(|arg: TypeCtorArg| type_arg_use(arg)));
                i += 1;
            }
            proof {
                lemma_take_all(def.ctor_args@);
            }
        },
        Interned::Const(def) => {
            out.push(Use::CxInterned(CxInterned::AttrSet(def.attrs)));
            out.push(Use::CxInterned(CxInterned::Type(def.ty)));
            match def.ctor {
                ConstCtor::PtrToGlobalVar(gv) => {
                    out.push(Use::Node(Node::GlobalVar(gv)));
                },
                _ => {},
            }
            let ghost head = out@;
            assert(head =~= seq![attrs_use(def.attrs), type_use(def.ty)] + (match def.ctor {
                ConstCtor::PtrToGlobalVar(gv) => seq![Use::Node(Node::GlobalVar(gv))],
                _ => Seq::empty(),
            }));
            let mut i: usize = 0;
            while i < def.ctor_args.len()
                invariant
                    0 <= i <= def.ctor_args.len(),
                    out@ == head + def.ctor_args@.take(i as int).map_values(
                        |ct: Const| const_use(ct),
                    ),
                decreases def.ctor_args.len() - i,
            {
                out.push(Use::CxInterned(CxInterned::Const(def.ctor_args[i])));
                assert(out@ =~= head + def.ctor_args@.take(i + 1).map_values(
                    |ct: Const| const_use(ct),
                ));
                i += 1;
            }
            proof {
                lemma_take_all(def.ctor_args@);
            }
        },
    }
    out
}

/// Adds [`data_inst_uses`].
pub fn push_data_inst_uses(out: &mut Vec<Use>, inst: &DataInstDef)
    ensures
        final(out)@ == old(out)@ + data_inst_uses(*inst),
{
    out.push(Use::CxInterned(CxInterned::AttrSet(inst.attrs)));
    match &inst.kind {
        DataInstKind::FuncCall(func) => {
            out.push(Use::Node(Node::Func(*func)));
        },
        _ => {},
    }
    match inst.output_type {
        Some(ty) => {
            out.push(Use::CxInterned(CxInterned::Type(ty)));
        },
        None => {},
    }
    let ghost head = out@;
    push_value_uses(out, &inst.inputs);
    assert(out@ =~= old(out)@ + data_inst_uses(*inst));
}

/// Adds [`control_inst_uses`].
pub fn push_control_inst_uses(out: &mut Vec<Use>, ci: &ControlInst)
    ensures
        final(out)@ == old(out)@ + control_inst_uses(*ci),
{
    out.push(Use::CxInterned(CxInterned::AttrSet(ci.attrs)));
    push_value_uses(out, &ci.inputs);
    let ghost head = out@;
    let ghost parts = Seq::new(
        ci.target_inputs@.len(),
        |k: int| value_uses(ci.target_inputs@[k].1@),
    );
    let mut k: usize = 0;
    while k < ci.target_inputs.len()
        invariant
            0 <= k <= ci.target_inputs.len(),
            parts == Seq::new(
                ci.target_inputs@.len(),
                |k: int| value_uses(ci.target_inputs@[k].1@),
            ),
            out@ == head + flatten(parts.take(k as int)),
        decreases ci.target_inputs.len() - k,
    {
        proof {
            lemma_flatten_step(parts, k as int);
        }
        push_value_uses(out, &ci.target_inputs[k].1);
        assert(out@ =~= head + flatten(parts.take(k + 1)));
        k += 1;
    }
    proof {
        lemma_take_all(parts);
    }
    assert(out@ =~= old(out)@ + control_inst_uses(*ci));
}

/// Adds [`target_labels`].
pub fn push_target_labels(out: &mut Vec<Use>, ci: &ControlInst)
    ensures
        final(out)@ == old(out)@ + target_labels(*ci),
{
    let mut i: usize = 0;
    while i < ci.targets.len()
        invariant
            0 <= i <= ci.targets.len(),
            out@ == old(out)@ + ci.targets@.take(i as int).map_values(
                |target: ControlRegion| Use::ControlRegionLabel(target),
            ),
        decreases ci.targets.len() - i,
    {
        out.push(Use::ControlRegionLabel(ci.targets[i]));
        assert(out@ =~= old(out)@ + ci.targets@.take(i + 1).map_values(
            |target: ControlRegion| Use::ControlRegionLabel(target),
        ));
        i += 1;
    }
    proof {
        lemma_take_all(ci.targets@);
    }
}

/// Adds [`region_uses`].
#[verifier::loop_isolation(false)]
pub fn push_region_uses(out: &mut Vec<Use>, r: &ControlRegionDef)
    ensures
        final(out)@ == old(out)@ + region_uses(*r),
    decreases *r,
{
    let ghost inputs = Seq::new(
        r.inputs@.len(),
        |i: int| decl_uses(r.inputs@[i].attrs, r.inputs@[i].ty),
    );
    let mut i: usize = 0;
    while i < r.inputs.len()
        invariant
            0 <= i <= r.inputs.len(),
            out@ == old(out)@ + flatten(inputs.take(i as int)),
        decreases r.inputs.len() - i,
    {
        proof {
            lemma_flatten_step(inputs, i as int);
        }
        push_decl_uses(out, r.inputs[i].attrs, r.inputs[i].ty);
        assert(out@ =~= old(out)@ + flatten(inputs.take(i + 1)));
        i += 1;
    }
    proof {
        lemma_take_all(inputs);
    }
    let ghost head = out@;
    let mut i: usize = 0;
    while i < r.children.len()
        invariant
            0 <= i <= r.children.len(),
            out@ == head + nodes_uses(r.children@, i as nat),
        decreases r.children.len() - i,
    {
        push_node_uses(out, &r.children[i]);
        assert(out@ =~= head + nodes_uses(r.children@, (i + 1) as nat));
        i += 1;
    }
    push_value_uses(out, &r.outputs);
    assert(out@ =~= old(out)@ + region_uses(*r));
}

/// Adds [`node_uses`].
#[verifier::loop_isolation(false)]
pub fn push_node_uses(out: &mut Vec<Use>, n: &ControlNodeDef)
    ensures
        final(out)@ == old(out)@ + node_uses(*n),
    decreases *n,
{
    match &n.kind {
        ControlNodeKind::Block { insts } => {
            let ghost parts = Seq::new(insts@.len(), |i: int| data_inst_uses(insts@[i]));
            let mut i: usize = 0;
            while i < insts.len()
                invariant
                    0 <= i <= insts.len(),
                    out@ == old(out)@ + flatten(parts.take(i as int)),
                decreases insts.len() - i,
            {
                proof {
                    lemma_flatten_step(parts, i as int);
                }
                push_data_inst_uses(out, &insts[i]);
                assert(out@ =~= old(out)@ + flatten(parts.take(i + 1)));
                i += 1;
            }
            proof {
                lemma_take_all(parts);
            }
        },
        ControlNodeKind::Select { kind, scrutinee, cases } => {
            out.push(Use::from_value(*scrutinee));
            let ghost head = out@;
            let mut i: usize = 0;
            while i < cases.len()
                invariant
                    0 <= i <= cases.len(),
                    out@ == head + regions_uses(cases@, i as nat),
                decreases cases.len() - i,
            {
                push_region_uses(out, &cases[i]);
                assert(out@ =~= head + regions_uses(cases@, (i + 1) as nat));
                i += 1;
            }
            assert(out@ =~= old(out)@ + (seq![Use::of_value(*scrutinee)] + regions_uses(
                cases@,
                cases@.len(),
            )));
        },
        ControlNodeKind::Loop { initial_inputs, body, repeat_condition } => {
            push_value_uses(out, initial_inputs);
            push_region_uses(out, body);
            out.push(Use::from_value(*repeat_condition));
            assert(out@ =~= old(out)@ + (value_uses(initial_inputs@) + region_uses(**body)
                + seq![Use::of_value(*repeat_condition)]));
        },
    }
    let ghost head = out@;
    let ghost outputs = Seq::new(
        n.outputs@.len(),
        |i: int| decl_uses(n.outputs@[i].attrs, n.outputs@[i].ty),
    );
    let mut i: usize = 0;
    while i < n.outputs.len()
        invariant
            0 <= i <= n.outputs.len(),
            out@ == head + flatten(outputs.take(i as int)),
        decreases n.outputs.len() - i,
    {
        proof {
            lemma_flatten_step(outputs, i as int);
        }
        push_decl_uses(out, n.outputs[i].attrs, n.outputs[i].ty);
        assert(out@ =~= head + flatten(outputs.take(i + 1)));
        i += 1;
    }
    proof {
        lemma_take_all(outputs);
    }
    assert(out@ =~= old(out)@ + node_uses(*n));
}

/// Adds [`func_body_uses`].
#[verifier::loop_isolation(false)]
pub fn push_func_body_uses(out: &mut Vec<Use>, body: &FuncDefBody)
    ensures
        final(out)@ == old(out)@ + func_body_uses(*body),
{
    push_region_uses(out, &body.body);
    match &body.unstructured_cfg {
        None => {
            assert(out@ =~= old(out)@ + func_body_uses(*body));
        },
        Some(cfg) => {
            push_control_inst_uses(out, &cfg.body_exit);
            let ghost head = out@;
            let ghost parts = Seq::new(
                cfg.rest@.len(),
                |i: int| region_uses(cfg.rest@[i].def) + control_inst_uses(cfg.rest@[i].exit),
            );
            let mut i: usize = 0;
            while i < cfg.rest.len()
                invariant
                    0 <= i <= cfg.rest.len(),
                    out@ == head + flatten(parts.take(i as int)),
                decreases cfg.rest.len() - i,
            {
                proof {
                    lemma_flatten_step(parts, i as int);
                }
                push_region_uses(out, &cfg.rest[i].def);
                push_control_inst_uses(out, &cfg.rest[i].exit);
                assert(out@ =~= head + flatten(parts.take(i + 1)));
                i += 1;
            }
            proof {
                lemma_take_all(parts);
            }
            assert(out@ =~= old(out)@ + func_body_uses(*body));
        },
    }
}

/// Adds [`func_body_labels`].
#[verifier::loop_isolation(false)]
pub fn push_func_body_labels(out: &mut Vec<Use>, body: &FuncDefBody)
    ensures
        final(out)@ == old(out)@ + func_body_labels(*body),
{
    match &body.unstructured_cfg {
        None => {
            assert(out@ =~= old(out)@ + func_body_labels(*body));
        },
        Some(cfg) => {
            push_target_labels(out, &cfg.body_exit);
            let ghost head = out@;
            let ghost parts = Seq::new(cfg.rest@.len(), |i: int| target_labels(cfg.rest@[i].exit));
            let mut i: usize = 0;
            while i < cfg.rest.len()
                invariant
                    0 <= i <= cfg.rest.len(),
                    out@ == head + flatten(parts.take(i as int)),
                decreases cfg.rest.len() - i,
            {
                proof {
                    lemma_flatten_step(parts, i as int);
                }
                push_target_labels(out, &cfg.rest[i].exit);
                assert(out@ =~= head + flatten(parts.take(i + 1)));
                i += 1;
            }
            proof {
                lemma_take_all(parts);
            }
            assert(out@ =~= old(out)@ + func_body_labels(*body));
        },
    }
}

/// Computes [`func_decl_uses`].
#[verifier::loop_isolation(false)]
pub fn uses_of_func_decl(decl: &FuncDecl) -> (r: Vec<Use>)
    ensures
        r@ == func_decl_uses(*decl),
{
    let mut out: Vec<Use> = Vec::new();
    match &decl.def {
        DeclDef::Imported(_) => {},
        DeclDef::Present(body) => {
            push_func_body_labels(&mut out, body);
        },
    }
    push_decl_uses(&mut out, decl.attrs, decl.ret_type);
    let ghost head = out@;
    let ghost parts = Seq::new(
        decl.params@.len(),
        |i: int| decl_uses(decl.params@[i].attrs, decl.params@[i].ty),
    );
    let mut i: usize = 0;
    while i < decl.params.len()
        invariant
            0 <= i <= decl.params.len(),
            out@ == head + flatten(parts.take(i as int)),
        decreases decl.params.len() - i,
    {
        proof {
            lemma_flatten_step(parts, i as int);
        }
        push_decl_uses(&mut out, decl.params[i].attrs, decl.params[i].ty);
        assert(out@ =~= head + flatten(parts.take(i + 1)));
        i += 1;
    }
    proof {
        lemma_take_all(parts);
    }
    match &decl.def {
        DeclDef::Imported(_) => {},
        DeclDef::Present(body) => {
            push_func_body_uses(&mut out, body);
        },
    }
    assert(out@ =~= func_decl_uses(*decl));
    out
}

/// Computes [`global_var_uses`].
pub fn uses_of_global_var(decl: &GlobalVarDecl) -> (r: Vec<Use>)
    ensures
        r@ == global_var_uses(*decl),
{
    let mut out: Vec<Use> = Vec::new();
    push_decl_uses(&mut out, decl.attrs, decl.type_of_ptr_to);
    match &decl.def {
        DeclDef::Imported(_) => {},
        DeclDef::Present(body) => match body.initializer {
            Some(ct) => {
                out.push(Use::CxInterned(CxInterned::Const(ct)));
            },
            None => {},
        },
    }
    assert(out@ =~= global_var_uses(*decl));
    out
}

/// Adds [`export_uses`].
pub fn push_export_uses(out: &mut Vec<Use>, key: &ExportKey, exportee: Exportee)
    ensures
        final(out)@ == old(out)@ + export_uses(*key, exportee),
{
    match key {
        ExportKey::LinkName(_) => {},
        ExportKey::SpvEntryPoint { interface_global_vars, .. } => {
            let mut i: usize = 0;
            while i < interface_global_vars.len()
                invariant
                    0 <= i <= interface_global_vars.len(),
                    out@ == old(out)@ + interface_global_vars@.take(i as int).map_values(
                        |gv: GlobalVar| Use::Node(Node::GlobalVar(gv)),
                    ),
                decreases interface_global_vars.len() - i,
            {
                out.push(Use::Node(Node::GlobalVar(interface_global_vars[i])));
                assert(out@ =~= old(out)@ + interface_global_vars@.take(i + 1).map_values(
                    |gv: GlobalVar| Use::Node(Node::GlobalVar(gv)),
                ));
                i += 1;
            }
            proof {
                lemma_take_all(interface_global_vars@);
            }
        },
    }
    let u = match exportee {
        Exportee::GlobalVar(gv) => Use::Node(Node::GlobalVar(gv)),
        Exportee::Func(func) => Use::Node(Node::Func(func)),
    };
    out.push(u);
    assert(out@ =~= old(out)@ + export_uses(*key, exportee));
}

/// Computes [`module_uses`].
pub fn uses_of_module(module: &Module) -> (r: Vec<Use>)
    ensures
        r@ == module_uses(*module),
{
    let mut out: Vec<Use> = Vec::new();
    out.push(Use::Node(Node::ModuleDialect));
    out.push(Use::Node(Node::ModuleDebugInfo));
    let ghost head = out@;
    let ghost parts = Seq::new(
        module.exports@.len(),
        |i: int| export_uses(module.exports@[i].0, module.exports@[i].1),
    );
    let mut i: usize = 0;
    while i < module.exports.len()
        invariant
            0 <= i <= module.exports.len(),
            parts == Seq::new(
                module.exports@.len(),
                |i: int| export_uses(module.exports@[i].0, module.exports@[i].1),
            ),
            out@ == head + flatten(parts.take(i as int)),
        decreases module.exports.len() - i,
    {
        proof {
            lemma_flatten_step(parts, i as int);
        }
        push_export_uses(&mut out, &module.exports[i].0, module.exports[i].1);
        assert(out@ =~= head + flatten(parts.take(i + 1)));
        i += 1;
    }
    proof {
        lemma_take_all(parts);
    }
    assert(out@ =~= module_uses(*module));
    out
}

} // verus!
