//! The labels and values that a function body defines, in the order in
//! which they get their numbers.
use vstd::prelude::*;
use crate::ir::{ControlNodeDef, ControlNodeKind, ControlRegionDef, DataInstDef, FuncDefBody};
use crate::print::uses::Use;
use crate::seqs::{flatten, lemma_flatten_step, lemma_take_all};
use crate::validate::{func_body_wf_sizes, node_wf_sizes, region_wf_sizes};

verus! {

/// The output of a data instruction, if it has one.
pub open spec fn inst_def(inst: DataInstDef) -> Seq<Use> {
    if inst.output_type is Some {
        seq![Use::DataInstOutput(inst.id)]
    } else {
        Seq::empty()
    }
}

/// What a control node defines by itself: the outputs of its
/// instructions if it is a block, then its own outputs.
pub open spec fn node_own_defs(n: ControlNodeDef) -> Seq<Use> {
    (match n.kind {
        ControlNodeKind::Block { insts } => flatten(
            Seq::new(insts@.len(), |i: int| inst_def(insts@[i])),
        ),
        _ => Seq::empty(),
    }) + Seq::new(
        n.outputs@.len(),
        |i: int| Use::ControlNodeOutput { control_node: n.id, output_idx: i as u32 },
    )
}

/// What a region defines: its label, its inputs, what each of its
/// children defines by itself, and then what the regions nested in its
/// children define, child by child.
pub open spec fn region_defs(r: ControlRegionDef) -> Seq<Use>
    decreases r, 0nat,
{
    seq![Use::ControlRegionLabel(r.id)] + Seq::new(
        r.inputs@.len(),
        |i: int| Use::ControlRegionInput { region: r.id, input_idx: i as u32 },
    ) + flatten(Seq::new(r.children@.len(), |i: int| node_own_defs(r.children@[i])))
        + nodes_nested_defs(r.children@, r.children@.len())
}

/// What the regions nested in a control node define.
pub open spec fn node_nested_defs(n: ControlNodeDef) -> Seq<Use>
    decreases n, 0nat,
{
    match n.kind {
        ControlNodeKind::Block { .. } => Seq::empty(),
        ControlNodeKind::Select { cases, .. } => regions_defs(cases@, cases@.len()),
        ControlNodeKind::Loop { body, .. } => region_defs(*body),
    }
}

/// What the regions nested in the first `count` of `nodes` define.
pub open spec fn nodes_nested_defs(nodes: Seq<ControlNodeDef>, count: nat) -> Seq<Use>
    decreases nodes, count,
{
    if count == 0 || count > nodes.len() {
        Seq::empty()
    } else {
        nodes_nested_defs(nodes, (count - 1) as nat) + node_nested_defs(nodes[count - 1])
    }
}

/// What the first `count` of `regions` define.
pub open spec fn regions_defs(regions: Seq<ControlRegionDef>, count: nat) -> Seq<Use>
    decreases regions, count,
{
    if count == 0 || count > regions.len() {
        Seq::empty()
    } else {
        regions_defs(regions, (count - 1) as nat) + region_defs(regions[count - 1])
    }
}

/// What a function body defines: what its body region defines, then for
/// an unstructured body what each further region defines.
pub open spec fn func_body_defs(body: FuncDefBody) -> Seq<Use> {
    region_defs(body.body) + (match body.unstructured_cfg {
        None => Seq::empty(),
        Some(cfg) => flatten(Seq::new(cfg.rest@.len(), |i: int| region_defs(cfg.rest@[i].def))),
    })
}

/// Adds [`node_own_defs`].
#[verifier::loop_isolation(false)]
pub fn push_node_own_defs(out: &mut Vec<Use>, n: &ControlNodeDef)
    requires
        n.outputs@.len() <= u32::MAX,
    ensures
        final(out)@ == old(out)@ + node_own_defs(*n),
{
    match &n.kind {
        ControlNodeKind::Block { insts } => {
            let ghost parts = Seq::new(insts@.len(), |i: int| inst_def(insts@[i]));
            let mut i: usize = 0;
            while i < insts.len()
                invariant
                    0 <= i <= insts.len(),
                    out@ == old(out)@ + flatten(parts.take(i as int)),
                decreases insts.len() - i,
            {
                proof {
                    lemma_flatten_step(parts, i as int);
                }
                if insts[i].output_type.is_some() {
                    out.push(Use::DataInstOutput(insts[i].id));
                }
                assert(out@ =~= old(out)@ + flatten(parts.take(i + 1)));
                i += 1;
            }
            proof {
                lemma_take_all(parts);
            }
        },
        _ => {
            assert(out@ =~= old(out)@ + Seq::<Use>::empty());
        },
    }
    let ghost head = out@;
    let ghost outputs = Seq::new(
        n.outputs@.len(),
        |i: int| Use::ControlNodeOutput { control_node: n.id, output_idx: i as u32 },
    );
    let mut i: usize = 0;
    while i < n.outputs.len()
        invariant
            0 <= i <= n.outputs.len(),
            out@ == head + outputs.take(i as int),
        decreases n.outputs.len() - i,
    {
        out.push(Use::ControlNodeOutput { control_node: n.id, output_idx: i as u32 });
        assert(out@ =~= head + outputs.take(i + 1));
        i += 1;
    }
    proof {
        lemma_take_all(outputs);
    }
    assert(out@ =~= old(out)@ + node_own_defs(*n));
}

/// Adds [`region_defs`].
#[verifier::loop_isolation(false)]
pub fn push_region_defs(out: &mut Vec<Use>, r: &ControlRegionDef)
    requires
        region_wf_sizes(*r),
    ensures
        final(out)@ == old(out)@ + region_defs(*r),
    decreases *r,
{
    out.push(Use::ControlRegionLabel(r.id));
    let ghost head = out@;
    let ghost inputs = Seq::new(
        r.inputs@.len(),
        |i: int| Use::ControlRegionInput { region: r.id, input_idx: i as u32 },
    );
    let mut i: usize = 0;
    while i < r.inputs.len()
        invariant
            0 <= i <= r.inputs.len(),
            out@ == head + inputs.take(i as int),
        decreases r.inputs.len() - i,
    {
        out.push(Use::ControlRegionInput { region: r.id, input_idx: i as u32 });
        assert(out@ =~= head + inputs.take(i + 1));
        i += 1;
    }
    proof {
        lemma_take_all(inputs);
    }
    let ghost head = out@;
    let ghost own = Seq::new(r.children@.len(), |i: int| node_own_defs(r.children@[i]));
    let mut i: usize = 0;
    while i < r.children.len()
        invariant
            0 <= i <= r.children.len(),
            out@ == head + flatten(own.take(i as int)),
        decreases r.children.len() - i,
    {
        proof {
            lemma_flatten_step(own, i as int);
        }
        push_node_own_defs(out, &r.children[i]);
        assert(out@ =~= head + flatten(own.take(i + 1)));
        i += 1;
    }
    proof {
        lemma_take_all(own);
    }
    let ghost head = out@;
    let mut i: usize = 0;
    while i < r.children.len()
        invariant
            0 <= i <= r.children.len(),
            out@ == head + nodes_nested_defs(r.children@, i as nat),
        decreases r.children.len() - i,
    {
        push_node_nested_defs(out, &r.children[i]);
        assert(out@ =~= head + nodes_nested_defs(r.children@, (i + 1) as nat));
        i += 1;
    }
    assert(out@ =~= old(out)@ + region_defs(*r));
}

/// Adds [`node_nested_defs`].
#[verifier::loop_isolation(false)]
pub fn push_node_nested_defs(out: &mut Vec<Use>, n: &ControlNodeDef)
    requires
        node_wf_sizes(*n),
    ensures
        final(out)@ == old(out)@ + node_nested_defs(*n),
    decreases *n,
{
    match &n.kind {
        ControlNodeKind::Block { .. } => {
            assert(out@ =~= old(out)@ + node_nested_defs(*n));
        },
        ControlNodeKind::Select { cases, .. } => {
            let mut i: usize = 0;
            while i < cases.len()
                invariant
                    0 <= i <= cases.len(),
                    out@ == old(out)@ + regions_defs(cases@, i as nat),
                decreases cases.len() - i,
            {
                push_region_defs(out, &cases[i]);
                assert(out@ =~= old(out)@ + regions_defs(cases@, (i + 1) as nat));
                i += 1;
            }
        },
        ControlNodeKind::Loop { body, .. } => {
            push_region_defs(out, body);
        },
    }
}

/// Computes [`func_body_defs`].
#[verifier::loop_isolation(false)]
pub fn defs_of_func_body(body: &FuncDefBody) -> (r: Vec<Use>)
    requires
        func_body_wf_sizes(*body),
    ensures
        r@ == func_body_defs(*body),
{
    let mut out: Vec<Use> = Vec::new();
    push_region_defs(&mut out, &body.body);
    match &body.unstructured_cfg {
        None => {
            assert(out@ =~= func_body_defs(*body));
        },
        Some(cfg) => {
            let ghost head = out@;
            let ghost parts = Seq::new(cfg.rest@.len(), |i: int| region_defs(cfg.rest@[i].def));
            let mut i: usize = 0;
            while i < cfg.rest.len()
                invariant
                    0 <= i <= cfg.rest.len(),
                    out@ == head + flatten(parts.take(i as int)),
                decreases cfg.rest.len() - i,
            {
                proof {
                    lemma_flatten_step(parts, i as int);
                }
                push_region_defs(&mut out, &cfg.rest[i].def);
                assert(out@ =~= head + flatten(parts.take(i + 1)));
                i += 1;
            }
            proof {
                lemma_take_all(parts);
            }
            assert(out@ =~= func_body_defs(*body));
        },
    }
    out
}

} // verus!
