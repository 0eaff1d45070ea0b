//! Printing functions: their signature, and their body as nested regions
//! and control nodes or as the blocks of a control-flow graph.
use vstd::prelude::*;
use vstd::string::*;
use crate::ir::{
    ControlInst, ControlInstKind, ControlNodeDef, ControlNodeKind, ControlRegion,
    ControlRegionDef, DataInstDef, DataInstKind, DeclDef, ExitInvocationKind, FuncDecl,
    FuncDefBody, SelectionKind, Value,
};
use crate::pretty::{
    comma_sep, indented, interleave, intersperse, interspersed, join_comma_sep, line_sep, styled,
    text, views, Doc, Fragment,
};
use crate::print::attrs::{insert_name, AttrsAndDef};
use crate::print::interned::{keyword, type_ascription, use_doc};
use crate::print::module_text::{
    attrs_doc, decl_doc, import_doc, number, quoted, type_doc, value_doc, value_docs,
};
use crate::print::printer::{Scheme, imperative_keyword_style, spv_op_style, Printer};
use crate::print::spv_text::{opcode_doc, option_views, spv_inst_doc};
use crate::print::use_map::has_key;
use crate::print::uses::{Node, Use};
use crate::seqs::{flatten, lemma_flatten_step, lemma_take_all};
use crate::validate::{
    control_inst_wf, data_inst_wf, func_body_wf, func_decl_wf, node_wf, region_wf,
};

verus! {

/// A word in the style of imperative keywords.
pub open spec fn imperative(word: Seq<char>) -> Doc {
    styled(imperative_keyword_style(), word)
}

/// The only item, or several items in parentheses.
pub open spec fn one_or_tuple(items: Seq<Doc>) -> Doc {
    if items.len() == 1 {
        items[0]
    } else {
        comma_sep(text("("@), items, text(")"@))
    }
}

/// Each value as an ID operand.
pub open spec fn value_ids(p: Scheme, vs: Seq<Value>) -> Seq<Option<Doc>> {
    Seq::new(vs.len(), |i: int| Some(value_doc(p, vs[i])))
}

/// The use that is input `i` of the region `region`.
pub open spec fn input_use(region: ControlRegion, i: int) -> Use {
    Use::ControlRegionInput { region, input_idx: i as u32 }
}

/// What a data instruction is bound to: nothing if it has no output,
/// else the name of its output and ` = `.
pub open spec fn data_inst_name(p: Scheme, inst: DataInstDef) -> Doc {
    if inst.output_type is Some {
        use_doc(p, Use::DataInstOutput(inst.id), true) + text(" = "@)
    } else {
        Seq::empty()
    }
}

/// The type after a data instruction, if it has an output.
pub open spec fn output_suffix(p: Scheme, inst: DataInstDef) -> Doc {
    match inst.output_type {
        Some(ty) => type_ascription(type_doc(p, ty)),
        None => Seq::empty(),
    }
}

/// The body of a data instruction: a call as `call` and the function, an
/// extended instruction by its set and number, each followed by the
/// inputs in parentheses; any other instruction as [`spv_inst_doc`]
/// prints it; and then the type of the output.
pub open spec fn data_inst_body(p: Scheme, inst: DataInstDef) -> Doc {
    match inst.kind {
        DataInstKind::SpvInst(spv_inst) => spv_inst_doc(
            spv_op_style(),
            spv_inst,
            value_ids(p, inst.inputs@),
            output_suffix(p, inst),
        ),
        DataInstKind::FuncCall(func) => keyword("call"@) + text(" "@) + use_doc(
            p,
            Use::Node(Node::Func(func)),
            false,
        ) + comma_sep(text("("@), value_docs(p, inst.inputs@), text(")"@)) + output_suffix(
            p,
            inst,
        ),
        DataInstKind::SpvExtInst { ext_set, inst: number_in_set } => text("("@) + opcode_doc(
            spv_op_style(),
            "OpExtInstImport"@,
        ) + text("<"@) + quoted(p.cx.str_text(ext_set)) + text(">)."@) + opcode_doc(
            spv_op_style(),
            "OpExtInst"@,
        ) + text("<"@) + number(number_in_set as nat) + text(">"@) + comma_sep(
            text("("@),
            value_docs(p, inst.inputs@),
            text(")"@),
        ) + output_suffix(p, inst),
    }
}

/// A data instruction: its attributes, what it is bound to, its body.
pub open spec fn data_inst_doc(p: Scheme, inst: DataInstDef) -> Doc {
    insert_name(attrs_doc(p, inst.attrs), data_inst_body(p, inst), data_inst_name(p, inst))
}

/// A block: its instructions, each after a line break.
pub open spec fn block_doc(p: Scheme, insts: Seq<DataInstDef>) -> Doc {
    flatten(Seq::new(insts.len(), |i: int| line_sep() + data_inst_doc(p, insts[i])))
}

/// A selection with the scrutinee `scrutinee` and the printed cases
/// `cases`: an `if` and `else` for a boolean condition, else the
/// instruction that selects, with each case in braces after `case =>`.
pub open spec fn selection_doc(
    p: Scheme,
    kind: SelectionKind,
    scrutinee: Value,
    cases: Seq<Doc>,
) -> Doc {
    match kind {
        SelectionKind::BoolCond => imperative("if"@) + text(" "@) + value_doc(p, scrutinee) + text(
            " {"@,
        ) + indented(seq![cases[0]]) + text("} "@) + imperative("else"@) + text(" {"@) + indented(
            seq![cases[1]],
        ) + text("}"@),
        SelectionKind::SpvInst(inst) => spv_inst_doc(
            imperative_keyword_style(),
            inst,
            seq![Some(value_doc(p, scrutinee))] + Seq::new(cases.len(), |i: int| None::<Doc>),
            Seq::empty(),
        ) + text(" {"@) + indented(
            Seq::new(
                cases.len(),
                |i: int|
                    line_sep() + imperative("case"@) + text(" => {"@) + indented(seq![cases[i]])
                        + text("}"@) + line_sep(),
            ),
        ) + text("}"@),
    }
}

/// The values passed to the target `target`, if any are: those of the
/// first entry for it at or after `from`.
pub open spec fn target_values(
    target_inputs: Seq<(ControlRegion, Vec<Value>)>,
    target: ControlRegion,
    from: nat,
) -> Option<Seq<Value>>
    decreases target_inputs.len() - from,
{
    if from >= target_inputs.len() {
        None
    } else if target_inputs[from as int].0 == target {
        Some(target_inputs[from as int].1@)
    } else {
        target_values(target_inputs, target, from + 1)
    }
}

/// A branch to `target`, with the values passed to it if there are any.
pub open spec fn target_doc(p: Scheme, ci: ControlInst, target: ControlRegion) -> Doc {
    imperative("branch"@) + text(" "@) + use_doc(p, Use::ControlRegionLabel(target), false) + (
    match target_values(ci.target_inputs@, target, 0) {
        Some(vs) => comma_sep(text("("@), value_docs(p, vs), text(")"@)),
        None => Seq::empty(),
    })
}

/// A branch to each target.
pub open spec fn target_docs(p: Scheme, ci: ControlInst) -> Seq<Doc> {
    Seq::new(ci.targets@.len(), |i: int| target_doc(p, ci, ci.targets@[i]))
}

/// A control instruction: its attributes, then `unreachable`, `return`
/// with its value if it has one, the instruction that ends the
/// invocation, a branch, or a selection between branches.
pub open spec fn control_inst_doc(p: Scheme, ci: ControlInst) -> Doc {
    attrs_doc(p, ci.attrs) + (match ci.kind {
        ControlInstKind::Unreachable => imperative("unreachable"@),
        ControlInstKind::Return => if ci.inputs@.len() == 0 {
            imperative("return"@)
        } else {
            imperative("return"@) + text(" "@) + value_doc(p, ci.inputs@[0])
        },
        ControlInstKind::ExitInvocation(ExitInvocationKind::SpvInst(inst)) => spv_inst_doc(
            imperative_keyword_style(),
            inst,
            value_ids(p, ci.inputs@),
            Seq::empty(),
        ),
        ControlInstKind::Branch => target_docs(p, ci)[0],
        ControlInstKind::SelectBranch(kind) => selection_doc(
            p,
            kind,
            ci.inputs@[0],
            target_docs(p, ci),
        ),
    })
}

/// What a region ends with: nothing if it has no outputs, else a line
/// break and the outputs.
pub open spec fn outputs_footer(p: Scheme, outputs: Seq<Value>) -> Doc {
    if outputs.len() > 0 {
        line_sep() + one_or_tuple(value_docs(p, outputs))
    } else {
        Seq::empty()
    }
}

/// The declarations of the outputs of a control node, each with its name.
pub open spec fn node_output_docs(p: Scheme, n: ControlNodeDef) -> Seq<Doc> {
    Seq::new(
        n.outputs@.len(),
        |i: int|
            decl_doc(
                p,
                n.outputs@[i].attrs,
                n.outputs@[i].ty,
                use_doc(
                    p,
                    Use::ControlNodeOutput { control_node: n.id, output_idx: i as u32 },
                    true,
                ),
            ),
    )
}

/// What a control node begins with: nothing if it has no outputs, else
/// the outputs and ` = `.
pub open spec fn outputs_header(p: Scheme, n: ControlNodeDef) -> Doc {
    if n.outputs@.len() > 0 {
        one_or_tuple(node_output_docs(p, n)) + text(" = "@)
    } else {
        Seq::empty()
    }
}

/// The declarations of the inputs of a region, each with its name.
pub open spec fn input_decl_docs(p: Scheme, r: ControlRegionDef) -> Seq<Doc> {
    Seq::new(
        r.inputs@.len(),
        |i: int|
            decl_doc(
                p,
                r.inputs@[i].attrs,
                r.inputs@[i].ty,
                use_doc(p, input_use(r.id, i), true),
            ),
    )
}

/// The inputs of a loop's body, each with the value it starts with.
pub open spec fn loop_header(p: Scheme, body: ControlRegionDef, initial: Seq<Value>) -> Doc {
    if body.inputs@.len() > 0 {
        comma_sep(
            text("("@),
            Seq::new(
                body.inputs@.len(),
                |i: int| input_decl_docs(p, body)[i] + text(" <- "@) + value_doc(p, initial[i]),
            ),
            text(")"@),
        )
    } else {
        Seq::empty()
    }
}

/// What follows the outputs of a loop's body: an arrow to the inputs
/// that they become in the next round.
pub open spec fn loop_suffix(p: Scheme, body: ControlRegionDef) -> Doc {
    if body.inputs@.len() > 0 {
        text(" -> "@) + one_or_tuple(
            Seq::new(body.inputs@.len(), |i: int| use_doc(p, input_use(body.id, i), false)),
        )
    } else {
        Seq::empty()
    }
}

/// A region: its children, each on lines of its own, then its outputs.
/// Its inputs are printed by what holds the region.
pub open spec fn region_doc(p: Scheme, r: ControlRegionDef) -> Doc
    decreases r, 0nat,
{
    interspersed(node_docs(p, r.children@, r.children@.len()), line_sep()) + outputs_footer(
        p,
        r.outputs@,
    )
}

/// The first `count` of `nodes`.
pub open spec fn node_docs(p: Scheme, nodes: Seq<ControlNodeDef>, count: nat) -> Seq<Doc>
    decreases nodes, count,
{
    if count == 0 || count > nodes.len() {
        Seq::empty()
    } else {
        node_docs(p, nodes, (count - 1) as nat).push(node_doc(p, nodes[count - 1]))
    }
}

/// The first `count` of `regions`.
pub open spec fn region_docs(p: Scheme, regions: Seq<ControlRegionDef>, count: nat) -> Seq<Doc>
    decreases regions, count,
{
    if count == 0 || count > regions.len() {
        Seq::empty()
    } else {
        region_docs(p, regions, (count - 1) as nat).push(region_doc(p, regions[count - 1]))
    }
}

/// A control node: its outputs, then a block's instructions, a
/// selection, or a loop with its inputs, its body and the condition on
/// which it repeats.
pub open spec fn node_doc(p: Scheme, n: ControlNodeDef) -> Doc
    decreases n, 0nat,
{
    outputs_header(p, n) + (match n.kind {
        ControlNodeKind::Block { insts } => block_doc(p, insts@),
        ControlNodeKind::Select { kind, scrutinee, cases } => selection_doc(
            p,
            kind,
            scrutinee,
            region_docs(p, cases@, cases@.len()),
        ),
        ControlNodeKind::Loop { initial_inputs, body, repeat_condition } => imperative("loop"@)
            + loop_header(p, *body, initial_inputs@) + text(" {"@) + indented(
            seq![region_doc(p, *body) + loop_suffix(p, *body)],
        ) + text("} "@) + imperative("while"@) + text(" "@) + value_doc(p, repeat_condition),
    })
}

/// The name of parameter `i` of a function: `_` for an imported one,
/// else input `i` of the body.
pub open spec fn param_name(p: Scheme, decl: FuncDecl, i: int) -> Doc {
    match decl.def {
        DeclDef::Imported(_) => text("_"@),
        DeclDef::Present(body) => use_doc(p, input_use(body.body.id, i), false),
    }
}

/// The signature of a function: its parameters in parentheses, an arrow,
/// and its return type.
pub open spec fn signature(p: Scheme, decl: FuncDecl) -> Doc {
    comma_sep(
        text("("@),
        Seq::new(
            decl.params@.len(),
            |i: int| decl_doc(p, decl.params@[i].attrs, decl.params@[i].ty, param_name(p, decl, i)),
        ),
        text(")"@),
    ) + text(" -> "@) + type_doc(p, decl.ret_type)
}

/// What a block of a control-flow graph begins with: nothing if nothing
/// branches to it, else its label, its inputs and a colon on a line of
/// their own.
pub open spec fn label_header(p: Scheme, r: ControlRegionDef) -> Doc {
    if has_key(p.styles, Use::ControlRegionLabel(r.id)) {
        line_sep() + use_doc(p, Use::ControlRegionLabel(r.id), true) + (if r.inputs@.len() > 0 {
            comma_sep(text("("@), input_decl_docs(p, r), text(")"@))
        } else {
            Seq::empty()
        }) + text(":"@) + line_sep()
    } else {
        Seq::empty()
    }
}

/// A block of a control-flow graph: its label, the region indented, and
/// the instruction that leaves it.
pub open spec fn cfg_block(p: Scheme, r: ControlRegionDef, exit: ControlInst) -> Doc {
    label_header(p, r) + indented(seq![region_doc(p, r)]) + control_inst_doc(p, exit)
}

/// The blocks of a control-flow graph: that of the body, then those of
/// the further regions.
pub open spec fn cfg_blocks(p: Scheme, body: FuncDefBody) -> Seq<Doc> {
    match body.unstructured_cfg {
        Some(cfg) => seq![cfg_block(p, body.body, cfg.body_exit)] + Seq::new(
            cfg.rest@.len(),
            |i: int| cfg_block(p, cfg.rest@[i].def, cfg.rest@[i].exit),
        ),
        None => Seq::empty(),
    }
}

/// What stands between the braces of a function: the body region of a
/// structured body, else the blocks of the control-flow graph with an
/// empty line between them.
pub open spec fn func_blocks(p: Scheme, body: FuncDefBody) -> Seq<Doc> {
    match body.unstructured_cfg {
        None => seq![region_doc(p, body.body)],
        Some(_) => interleave(cfg_blocks(p, body), text("\n\n"@)),
    }
}

/// The body of a function declaration: the signature, then the import
/// of an imported function or the body in braces.
pub open spec fn func_decl_body(p: Scheme, decl: FuncDecl) -> Doc {
    match decl.def {
        DeclDef::Imported(import) => signature(p, decl) + text(" = "@) + import_doc(p.cx, import),
        DeclDef::Present(body) => signature(p, decl) + text(" {"@) + indented(
            func_blocks(p, body),
        ) + text("}"@),
    }
}

/// The only fragment, or several fragments in parentheses.
pub fn join_one_or_tuple(items: &Vec<Fragment>) -> (r: Fragment)
    ensures
        r@ == one_or_tuple(views(items@)),
{
    if items.len() == 1 {
        items[0].clone()
    } else {
        join_comma_sep(Fragment::text("("), items, Fragment::text(")"))
    }
}

/// A block that holds one fragment.
pub fn indent_one(item: Fragment) -> (r: Fragment)
    ensures
        r@ == indented(seq![item@]),
{
    let mut children: Vec<Fragment> = Vec::new();
    children.push(item);
    assert(views(children@) =~= seq![item@]);
    Fragment::indented_block(children)
}

/// Computes [`target_values`].
pub fn find_target_values<'b>(
    target_inputs: &'b Vec<(ControlRegion, Vec<Value>)>,
    target: ControlRegion,
) -> (r: Option<&'b Vec<Value>>)
    ensures
        r is Some == target_values(target_inputs@, target, 0) is Some,
        r is Some ==> r->0@ == target_values(target_inputs@, target, 0)->0,
        r is Some ==> exists|k: int|
            0 <= k < target_inputs@.len() && (#[trigger] target_inputs@[k]).1 == *r->0,
{
    let mut i: usize = 0;
    while i < target_inputs.len()
        invariant
            0 <= i <= target_inputs.len(),
            target_values(target_inputs@, target, 0) == target_values(
                target_inputs@,
                target,
                i as nat,
            ),
        decreases target_inputs.len() - i,
    {
        if target_inputs[i].0 == target {
            return Some(&target_inputs[i].1);
        }
        i += 1;
    }
    None
}

impl<'a> Printer<'a> {
    fn imperative(&self, word: &str) -> (r: Fragment)
        ensures
            r@ == imperative(word@),
    {
        Fragment::styled(self.imperative_keyword_style(), word)
    }

    /// Prints each value as an ID operand.
    pub fn print_value_ids(&self, vs: &Vec<Value>) -> (r: Vec<Option<Fragment>>)
        requires
            self.wf(),
            self.cx.values_ok(vs@),
        ensures
            option_views(r@) == value_ids(self@, vs@),
    {
        let mut out: Vec<Option<Fragment>> = Vec::new();
        let mut i: usize = 0;
        while i < vs.len()
            invariant
                0 <= i <= vs.len(),
                self.wf(),
                self.cx.values_ok(vs@),
                out@.len() == i,
                forall|j: int|
                    0 <= j < i ==> (#[trigger] out@[j]) is Some && out@[j]->0@ == value_doc(
                        self@,
                        vs@[j],
                    ),
            decreases vs.len() - i,
        {
            out.push(Some(self.print_value(vs[i])));
            i += 1;
        }
        assert(option_views(out@) =~= value_ids(self@, vs@));
        out
    }

    /// Prints a data instruction: see [`data_inst_doc`].
    pub fn print_data_inst(&self, inst: &DataInstDef) -> (r: Fragment)
        requires
            self.wf(),
            data_inst_wf(self.cx, *inst),
        ensures
            r@ == data_inst_doc(self@, *inst),
    {
        let suffix = match inst.output_type {
            Some(ty) => self.pretty_type_ascription_suffix(self.print_type(ty)),
            None => Fragment::new(),
        };
        let body = match &inst.kind {
            DataInstKind::SpvInst(spv_inst) => self.pretty_spv_inst(
                self.spv_op_style(),
                spv_inst,
                &self.print_value_ids(&inst.inputs),
                suffix,
            ),
            DataInstKind::FuncCall(func) => {
                let mut out = Fragment::styled(self.declarative_keyword_style(), "call");
                out.push_text(" ");
                out.append(self.print_as_ref_or_def(Use::Node(Node::Func(*func)), false));
                out.append(
                    join_comma_sep(
                        Fragment::text("("),
                        &self.print_values(&inst.inputs),
                        Fragment::text(")"),
                    ),
                );
                out.append(suffix);
                out
            },
            DataInstKind::SpvExtInst { ext_set, inst: number_in_set } => {
                let mut out = Fragment::text("(");
                out.append(self.pretty_spv_opcode(self.spv_op_style(), "OpExtInstImport"));
                out.push_text("<");
                out.append(self.print_quoted(self.cx.lookup_str(*ext_set).unwrap().as_str()));
                out.push_text(">).");
                out.append(self.pretty_spv_opcode(self.spv_op_style(), "OpExtInst"));
                out.push_text("<");
                out.append(self.print_number(*number_in_set));
                out.push_text(">");
                out.append(
                    join_comma_sep(
                        Fragment::text("("),
                        &self.print_values(&inst.inputs),
                        Fragment::text(")"),
                    ),
                );
                out.append(suffix);
                out
            },
        };
        let name = if inst.output_type.is_some() {
            let mut name = self.print_as_ref_or_def(Use::DataInstOutput(inst.id), true);
            name.push_text(" = ");
            name
        } else {
            Fragment::new()
        };
        let parts = AttrsAndDef { attrs: self.print_attrs(inst.attrs), def_without_name: body };
        parts.insert_name_before_def(name)
    }

    /// Prints a selection: see [`selection_doc`].
    pub fn print_selection(&self, kind: &SelectionKind, scrutinee: Value, cases: &Vec<Fragment>) -> (r:
        Fragment)
        requires
            self.wf(),
            self.cx.value_ok(scrutinee),
            kind is BoolCond ==> cases@.len() == 2,
        ensures
            r@ == selection_doc(self@, *kind, scrutinee, views(cases@)),
    {
        let ghost docs = views(cases@);
        match kind {
            SelectionKind::BoolCond => {
                let mut out = self.imperative("if");
                out.push_text(" ");
                out.append(self.print_value(scrutinee));
                out.push_text(" {");
                out.append(indent_one(cases[0].clone()));
                out.push_text("} ");
                out.append(self.imperative("else"));
                out.push_text(" {");
                out.append(indent_one(cases[1].clone()));
                out.push_text("}");
                assert(docs[0] == cases@[0]@);
                assert(docs[1] == cases@[1]@);
                out
            },
            SelectionKind::SpvInst(inst) => {
                let mut ids: Vec<Option<Fragment>> = Vec::new();
                ids.push(Some(self.print_value(scrutinee)));
                let mut i: usize = 0;
                while i < cases.len()
                    invariant
                        0 <= i <= cases.len(),
                        ids@.len() == i + 1,
                        ids@[0] is Some,
                        ids@[0]->0@ == value_doc(self@, scrutinee),
                        forall|j: int| 1 <= j <= i ==> (#[trigger] ids@[j]) is None,
                    decreases cases.len() - i,
                {
                    ids.push(None);
                    i += 1;
                }
                assert(option_views(ids@) =~= seq![Some(value_doc(self@, scrutinee))] + Seq::new(
                    docs.len(),
                    |i: int| None::<Doc>,
                ));
                let mut arms: Vec<Fragment> = Vec::new();
                let mut i: usize = 0;
                while i < cases.len()
                    invariant
                        0 <= i <= cases.len(),
                        docs == views(cases@),
                        arms@.len() == i,
                        forall|j: int|
                            0 <= j < i ==> (#[trigger] arms@[j])@ == line_sep() + imperative(
                                "case"@,
                            ) + text(" => {"@) + indented(seq![docs[j]]) + text("}"@)
                                + line_sep(),
                    decreases cases.len() - i,
                {
                    let mut arm = Fragment::new();
                    arm.push_line_sep();
                    arm.append(self.imperative("case"));
                    arm.push_text(" => {");
                    arm.append(indent_one(cases[i].clone()));
                    arm.push_text("}");
                    arm.push_line_sep();
                    assert(docs[i as int] == cases@[i as int]@);
                    assert(arm@ =~= line_sep() + imperative("case"@) + text(" => {"@) + indented(
                        seq![docs[i as int]],
                    ) + text("}"@) + line_sep());
                    arms.push(arm);
                    i += 1;
                }
                assert(views(arms@) =~= Seq::new(
                    docs.len(),
                    |i: int|
                        line_sep() + imperative("case"@) + text(" => {"@) + indented(seq![docs[i]])
                            + text("}"@) + line_sep(),
                ));
                let mut out = self.pretty_spv_inst(
                    self.imperative_keyword_style(),
                    inst,
                    &ids,
                    Fragment::new(),
                );
                out.push_text(" {");
                out.append(Fragment::indented_block(arms));
                out.push_text("}");
                out
            },
        }
    }

    /// Prints a branch to each target of a control instruction.
    pub fn print_targets(&self, ci: &ControlInst) -> (r: Vec<Fragment>)
        requires
            self.wf(),
            control_inst_wf(self.cx, *ci),
        ensures
            views(r@) == target_docs(self@, *ci),
            r@.len() == ci.targets@.len(),
    {
        let mut out: Vec<Fragment> = Vec::new();
        let mut i: usize = 0;
        while i < ci.targets.len()
            invariant
                0 <= i <= ci.targets.len(),
                self.wf(),
                control_inst_wf(self.cx, *ci),
                out@.len() == i,
                forall|j: int|
                    0 <= j < i ==> (#[trigger] out@[j])@ == target_doc(self@, *ci, ci.targets@[j]),
            decreases ci.targets.len() - i,
        {
            let target = ci.targets[i];
            let mut doc = self.imperative("branch");
            doc.push_text(" ");
            doc.append(self.print_as_ref_or_def(Use::ControlRegionLabel(target), false));
            match find_target_values(&ci.target_inputs, target) {
                Some(vs) => {
                    doc.append(
                        join_comma_sep(
                            Fragment::text("("),
                            &self.print_values(vs),
                            Fragment::text(")"),
                        ),
                    );
                },
                None => {},
            }
            assert(doc@ =~= target_doc(self@, *ci, ci.targets@[i as int]));
            out.push(doc);
            i += 1;
        }
        assert(views(out@) =~= target_docs(self@, *ci));
        out
    }

    /// Prints a control instruction: see [`control_inst_doc`].
    pub fn print_control_inst(&self, ci: &ControlInst) -> (r: Fragment)
        requires
            self.wf(),
            control_inst_wf(self.cx, *ci),
        ensures
            r@ == control_inst_doc(self@, *ci),
    {
        let mut out = self.print_attrs(ci.attrs);
        match &ci.kind {
            ControlInstKind::Unreachable => {
                out.append(self.imperative("unreachable"));
            },
            ControlInstKind::Return => {
                out.append(self.imperative("return"));
                if ci.inputs.len() != 0 {
                    out.push_text(" ");
                    out.append(self.print_value(ci.inputs[0]));
                }
            },
            ControlInstKind::ExitInvocation(ExitInvocationKind::SpvInst(inst)) => {
                out.append(
                    self.pretty_spv_inst(
                        self.imperative_keyword_style(),
                        inst,
                        &self.print_value_ids(&ci.inputs),
                        Fragment::new(),
                    ),
                );
            },
            ControlInstKind::Branch => {
                let targets = self.print_targets(ci);
                assert(views(targets@)[0] == targets@[0]@);
                out.extend_from(&targets[0]);
            },
            ControlInstKind::SelectBranch(kind) => {
                let targets = self.print_targets(ci);
                out.append(self.print_selection(kind, ci.inputs[0], &targets));
            },
        }
        assert(out@ =~= control_inst_doc(self@, *ci));
        out
    }

    /// Prints the declarations of the inputs of a region, each with the
    /// name that defines it.
    pub fn print_input_decls(&self, r: &ControlRegionDef) -> (docs: Vec<Fragment>)
        requires
            self.wf(),
            region_wf(self.cx, *r),
        ensures
            views(docs@) == input_decl_docs(self@, *r),
            docs@.len() == r.inputs@.len(),
    {
        let mut out: Vec<Fragment> = Vec::new();
        let mut i: usize = 0;
        while i < r.inputs.len()
            invariant
                0 <= i <= r.inputs.len(),
                self.wf(),
                region_wf(self.cx, *r),
                out@.len() == i,
                forall|j: int|
                    0 <= j < i ==> (#[trigger] out@[j])@ == input_decl_docs(self@, *r)[j],
            decreases r.inputs.len() - i,
        {
            let name = self.print_as_ref_or_def(
                Use::ControlRegionInput { region: r.id, input_idx: i as u32 },
                true,
            );
            out.push(self.print_decl(r.inputs[i].attrs, r.inputs[i].ty, name));
            i += 1;
        }
        assert(views(out@) =~= input_decl_docs(self@, *r));
        out
    }

    /// Prints a region: see [`region_doc`].
    #[verifier::loop_isolation(false)]
    pub fn print_region(&self, r: &ControlRegionDef) -> (doc: Fragment)
        requires
            self.wf(),
            region_wf(self.cx, *r),
        ensures
            doc@ == region_doc(self@, *r),
        decreases *r, 0nat,
    {
        let mut children: Vec<Fragment> = Vec::new();
        let mut i: usize = 0;
        while i < r.children.len()
            invariant
                0 <= i <= r.children.len(),
                views(children@) == node_docs(self@, r.children@, i as nat),
            decreases r.children.len() - i,
        {
            let ghost before = views(children@);
            let child = self.print_node(&r.children[i]);
            children.push(child);
            assert(views(children@) =~= before.push(child@));
            i += 1;
        }
        let mut out = Fragment::join(children, Fragment::from_node(crate::pretty::Node::ForceLineSeparation));
        if r.outputs.len() > 0 {
            out.push_line_sep();
            out.append(join_one_or_tuple(&self.print_values(&r.outputs)));
        }
        assert(out@ =~= region_doc(self@, *r));
        out
    }

    /// Prints what a control node begins with: see [`outputs_header`].
    pub fn print_outputs_header(&self, n: &ControlNodeDef) -> (doc: Fragment)
        requires
            self.wf(),
            node_wf(self.cx, *n),
        ensures
            doc@ == outputs_header(self@, *n),
    {
        let mut out = Fragment::new();
        if n.outputs.len() > 0 {
            let mut outputs: Vec<Fragment> = Vec::new();
            let mut i: usize = 0;
            while i < n.outputs.len()
                invariant
                    0 <= i <= n.outputs.len(),
                    self.wf(),
                    node_wf(self.cx, *n),
                    outputs@.len() == i,
                    forall|j: int|
                        0 <= j < i ==> (#[trigger] outputs@[j])@ == node_output_docs(self@, *n)[j],
                decreases n.outputs.len() - i,
            {
                let name = self.print_as_ref_or_def(
                    Use::ControlNodeOutput { control_node: n.id, output_idx: i as u32 },
                    true,
                );
                outputs.push(self.print_decl(n.outputs[i].attrs, n.outputs[i].ty, name));
                i += 1;
            }
            assert(views(outputs@) =~= node_output_docs(self@, *n));
            out.append(join_one_or_tuple(&outputs));
            out.push_text(" = ");
        }
        out
    }

    /// Prints a block: see [`block_doc`].
    pub fn print_block(&self, insts: &Vec<DataInstDef>) -> (doc: Fragment)
        requires
            self.wf(),
            forall|i: int| 0 <= i < insts@.len() ==> data_inst_wf(self.cx, #[trigger] insts@[i]),
        ensures
            doc@ == block_doc(self@, insts@),
    {
        let mut out = Fragment::new();
        let ghost lines = Seq::new(
            insts@.len(),
            |i: int| line_sep() + data_inst_doc(self@, insts@[i]),
        );
        let mut i: usize = 0;
        while i < insts.len()
            invariant
                0 <= i <= insts.len(),
                self.wf(),
                forall|i: int|
                    0 <= i < insts@.len() ==> data_inst_wf(self.cx, #[trigger] insts@[i]),
                lines == Seq::new(
                    insts@.len(),
                    |i: int| line_sep() + data_inst_doc(self@, insts@[i]),
                ),
                out@ == flatten(lines.take(i as int)),
            decreases insts.len() - i,
        {
            proof {
                lemma_flatten_step(lines, i as int);
            }
            out.push_line_sep();
            out.append(self.print_data_inst(&insts[i]));
            assert(out@ =~= flatten(lines.take(i + 1)));
            i += 1;
        }
        proof {
            lemma_take_all(lines);
        }
        out
    }

    /// Prints the inputs of a loop's body with the values they start
    /// with: see [`loop_header`].
    pub fn print_loop_header(&self, body: &ControlRegionDef, initial: &Vec<Value>) -> (doc:
        Fragment)
        requires
            self.wf(),
            region_wf(self.cx, *body),
            self.cx.values_ok(initial@),
            initial@.len() == body.inputs@.len(),
        ensures
            doc@ == loop_header(self@, *body, initial@),
    {
        if body.inputs.len() == 0 {
            return Fragment::new();
        }
        let decls = self.print_input_decls(body);
        let ghost decl_docs = input_decl_docs(self@, *body);
        let mut entries: Vec<Fragment> = Vec::new();
        let mut i: usize = 0;
        while i < body.inputs.len()
            invariant
                0 <= i <= body.inputs.len(),
                self.wf(),
                self.cx.values_ok(initial@),
                initial@.len() == body.inputs@.len(),
                decls@.len() == body.inputs@.len(),
                views(decls@) == decl_docs,
                entries@.len() == i,
                forall|j: int|
                    0 <= j < i ==> (#[trigger] entries@[j])@ == decl_docs[j] + text(" <- "@)
                        + value_doc(self@, initial@[j]),
            decreases body.inputs.len() - i,
        {
            let mut entry = decls[i].clone();
            assert(entry@ == decl_docs[i as int]);
            entry.push_text(" <- ");
            entry.append(self.print_value(initial[i]));
            entries.push(entry);
            i += 1;
        }
        assert(views(entries@) =~= Seq::new(
            body.inputs@.len(),
            |i: int| input_decl_docs(self@, *body)[i] + text(" <- "@) + value_doc(self@, initial@[i]),
        ));
        join_comma_sep(Fragment::text("("), &entries, Fragment::text(")"))
    }

    /// Prints what follows the outputs of a loop's body: see
    /// [`loop_suffix`].
    pub fn print_loop_suffix(&self, body: &ControlRegionDef) -> (doc: Fragment)
        requires
            self.wf(),
            region_wf(self.cx, *body),
        ensures
            doc@ == loop_suffix(self@, *body),
    {
        if body.inputs.len() == 0 {
            return Fragment::new();
        }
        let mut dests: Vec<Fragment> = Vec::new();
        let mut i: usize = 0;
        while i < body.inputs.len()
            invariant
                0 <= i <= body.inputs.len(),
                self.wf(),
                region_wf(self.cx, *body),
                dests@.len() == i,
                forall|j: int|
                    0 <= j < i ==> (#[trigger] dests@[j])@ == use_doc(
                        self@,
                        input_use(body.id, j),
                        false,
                    ),
            decreases body.inputs.len() - i,
        {
            dests.push(
                self.print_as_ref_or_def(
                    Use::ControlRegionInput { region: body.id, input_idx: i as u32 },
                    false,
                ),
            );
            i += 1;
        }
        assert(views(dests@) =~= Seq::new(
            body.inputs@.len(),
            |i: int| use_doc(self@, input_use(body.id, i), false),
        ));
        let mut out = Fragment::text(" -> ");
        out.append(join_one_or_tuple(&dests));
        out
    }

    /// Prints each of `regions`.
    #[verifier::loop_isolation(false)]
    pub fn print_regions(&self, regions: &Vec<ControlRegionDef>) -> (docs: Vec<Fragment>)
        requires
            self.wf(),
            forall|i: int| 0 <= i < regions@.len() ==> region_wf(self.cx, #[trigger] regions@[i]),
        ensures
            views(docs@) == region_docs(self@, regions@, regions@.len()),
            docs@.len() == regions@.len(),
        decreases *regions, 0nat,
    {
        let mut docs: Vec<Fragment> = Vec::new();
        let mut i: usize = 0;
        while i < regions.len()
            invariant
                0 <= i <= regions.len(),
                docs@.len() == i,
                views(docs@) == region_docs(self@, regions@, i as nat),
            decreases regions.len() - i,
        {
            let ghost before = views(docs@);
            let doc = self.print_region(&regions[i]);
            docs.push(doc);
            assert(views(docs@) =~= before.push(doc@));
            i += 1;
        }
        docs
    }

    /// Prints a loop without its outputs: `loop`, the inputs of its body,
    /// the body in braces, and the condition on which it repeats.
    pub fn print_loop(
        &self,
        initial_inputs: &Vec<Value>,
        body: &ControlRegionDef,
        repeat_condition: Value,
    ) -> (doc: Fragment)
        requires
            self.wf(),
            region_wf(self.cx, *body),
            self.cx.values_ok(initial_inputs@),
            initial_inputs@.len() == body.inputs@.len(),
            self.cx.value_ok(repeat_condition),
        ensures
            doc@ == imperative("loop"@) + loop_header(self@, *body, initial_inputs@) + text(" {"@)
                + indented(seq![region_doc(self@, *body) + loop_suffix(self@, *body)]) + text(
                "} "@,
            ) + imperative("while"@) + text(" "@) + value_doc(self@, repeat_condition),
        decreases *body, 1nat,
    {
        let mut out = self.imperative("loop");
        out.append(self.print_loop_header(body, initial_inputs));
        let mut inner = self.print_region(body);
        inner.append(self.print_loop_suffix(body));
        out.push_text(" {");
        out.append(indent_one(inner));
        out.push_text("} ");
        out.append(self.imperative("while"));
        out.push_text(" ");
        out.append(self.print_value(repeat_condition));
        out
    }

    /// Prints a control node: see [`node_doc`].
    pub fn print_node(&self, n: &ControlNodeDef) -> (doc: Fragment)
        requires
            self.wf(),
            node_wf(self.cx, *n),
        ensures
            doc@ == node_doc(self@, *n),
        decreases *n, 0nat,
    {
        let mut out = self.print_outputs_header(n);
        match &n.kind {
            ControlNodeKind::Block { insts } => {
                out.append(self.print_block(insts));
            },
            ControlNodeKind::Select { kind, scrutinee, cases } => {
                let docs = self.print_regions(cases);
                out.append(self.print_selection(kind, *scrutinee, &docs));
            },
            ControlNodeKind::Loop { initial_inputs, body, repeat_condition } => {
                out.append(self.print_loop(initial_inputs, body, *repeat_condition));
            },
        }
        out
    }

    /// Prints one block of a control-flow graph: see [`cfg_block`].
    pub fn print_cfg_block(&self, r: &ControlRegionDef, exit: &ControlInst) -> (doc: Fragment)
        requires
            self.wf(),
            region_wf(self.cx, *r),
            control_inst_wf(self.cx, *exit),
        ensures
            doc@ == cfg_block(self@, *r, *exit),
    {
        let mut out = Fragment::new();
        let label = Use::ControlRegionLabel(r.id);
        if self.use_styles.find(label).is_some() {
            out.push_line_sep();
            out.append(self.print_as_ref_or_def(label, true));
            if r.inputs.len() > 0 {
                out.append(
                    join_comma_sep(
                        Fragment::text("("),
                        &self.print_input_decls(r),
                        Fragment::text(")"),
                    ),
                );
            }
            out.push_text(":");
            out.push_line_sep();
        }
        assert(out@ =~= label_header(self@, *r));
        out.append(indent_one(self.print_region(r)));
        out.append(self.print_control_inst(exit));
        out
    }

    /// Prints the signature of a function: see [`signature`].
    pub fn print_signature(&self, decl: &FuncDecl) -> (doc: Fragment)
        requires
            self.wf(),
            func_decl_wf(self.cx, *decl),
        ensures
            doc@ == signature(self@, *decl),
    {
        let mut params: Vec<Fragment> = Vec::new();
        let mut i: usize = 0;
        while i < decl.params.len()
            invariant
                0 <= i <= decl.params.len(),
                self.wf(),
                func_decl_wf(self.cx, *decl),
                params@.len() == i,
                forall|j: int|
                    0 <= j < i ==> (#[trigger] params@[j])@ == decl_doc(
                        self@,
                        decl.params@[j].attrs,
                        decl.params@[j].ty,
                        param_name(self@, *decl, j),
                    ),
            decreases decl.params.len() - i,
        {
            let name = match &decl.def {
                DeclDef::Imported(_) => Fragment::text("_"),
                DeclDef::Present(body) => self.print_as_ref_or_def(
                    Use::ControlRegionInput { region: body.body.id, input_idx: i as u32 },
                    false,
                ),
            };
            params.push(self.print_decl(decl.params[i].attrs, decl.params[i].ty, name));
            i += 1;
        }
        assert(views(params@) =~= Seq::new(
            decl.params@.len(),
            |i: int|
                decl_doc(
                    self@,
                    decl.params@[i].attrs,
                    decl.params@[i].ty,
                    param_name(self@, *decl, i),
                ),
        ));
        let mut out = join_comma_sep(Fragment::text("("), &params, Fragment::text(")"));
        out.push_text(" -> ");
        out.append(self.print_type(decl.ret_type));
        out
    }

    /// Prints what stands between the braces of a function: see
    /// [`func_blocks`].
    pub fn print_func_blocks(&self, body: &FuncDefBody) -> (blocks: Vec<Fragment>)
        requires
            self.wf(),
            func_body_wf(self.cx, *body),
        ensures
            views(blocks@) == func_blocks(self@, *body),
    {
        match &body.unstructured_cfg {
            None => {
                let mut blocks: Vec<Fragment> = Vec::new();
                let region = self.print_region(&body.body);
                blocks.push(region);
                assert(views(blocks@) =~= func_blocks(self@, *body));
                blocks
            },
            Some(cfg) => {
                let mut blocks: Vec<Fragment> = Vec::new();
                let first = self.print_cfg_block(&body.body, &cfg.body_exit);
                blocks.push(first);
                let mut i: usize = 0;
                while i < cfg.rest.len()
                    invariant
                        0 <= i <= cfg.rest.len(),
                        self.wf(),
                        func_body_wf(self.cx, *body),
                        body.unstructured_cfg == Some(*cfg),
                        blocks@.len() == i + 1,
                        blocks@[0]@ == cfg_block(self@, body.body, cfg.body_exit),
                        forall|j: int|
                            0 <= j < i ==> (#[trigger] blocks@[j + 1])@ == cfg_block(
                                self@,
                                cfg.rest@[j].def,
                                cfg.rest@[j].exit,
                            ),
                    decreases cfg.rest.len() - i,
                {
                    blocks.push(self.print_cfg_block(&cfg.rest[i].def, &cfg.rest[i].exit));
                    i += 1;
                }
                assert(views(blocks@) =~= cfg_blocks(self@, *body)) by {
                    assert forall|j: int| 0 <= j < blocks@.len() implies views(blocks@)[j]
                        == cfg_blocks(self@, *body)[j] by {
                        if j > 0 {
                            assert(blocks@[(j - 1) + 1]@ == cfg_block(
                                self@,
                                cfg.rest@[j - 1].def,
                                cfg.rest@[j - 1].exit,
                            ));
                        }
                    }
                }
                intersperse(blocks, Fragment::text("\n\n"))
            },
        }
    }

    /// Prints a function declaration: see [`func_decl_body`].
    pub fn print_func_decl(&self, decl: &FuncDecl) -> (r: AttrsAndDef)
        requires
            self.wf(),
            func_decl_wf(self.cx, *decl),
        ensures
            r.attrs@ == attrs_doc(self@, decl.attrs),
            r.def_without_name@ == func_decl_body(self@, *decl),
    {
        let mut out = self.print_signature(decl);
        match &decl.def {
            DeclDef::Imported(import) => {
                out.push_text(" = ");
                out.append(self.print_import(import));
            },
            DeclDef::Present(body) => {
                out.push_text(" {");
                out.append(Fragment::indented_block(self.print_func_blocks(body)));
                out.push_text("}");
            },
        }
        AttrsAndDef { attrs: self.print_attrs(decl.attrs), def_without_name: out }
    }
}

} // verus!
