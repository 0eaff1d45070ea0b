//! A plan is closed: it lists every node that a listed definition
//! refers to and that the version defines.
use vstd::prelude::*;
use crate::ir::{Context, Module};
use crate::print::deps::interned_uses;
use crate::print::discovery::{
    discover, key_bound, module_of, next_count, node_def_in, node_def_uses, put, rank,
    unregistered, use_node, visit, visit_all, Discovery, NodeDef, Root,
};
use crate::print::order::{
    continues, in_order, lemma_put_continues, lemma_put_keys, lemma_put_lists_only,
    lemma_grouped_in_order, lemma_prefix_keeps_keys, lemma_register_in_order,
    lemma_use_node_in_order, lemma_visit_all_in_order, lemma_visit_in_order,
};
use crate::print::use_map::{distinct_keys, has_key, index_of};
use crate::print::uses::{Node, Use};

verus! {

/// Whether the visit of a node has begun and not ended: its definition
/// is registered, and it is not in the table.
pub open spec fn open_node(st: Discovery, m: Node) -> bool {
    st.defs.contains_key(m.key()) && !has_key(st.counts, Use::Node(m))
}

/// Putting a count for a use other than the node `m` neither opens nor
/// closes `m`.
proof fn lemma_put_keeps_open(st: Discovery, k: Use, v: usize, m: Node)
    requires
        distinct_keys(st.counts),
        k != Use::Node(m),
    ensures
        open_node(st.with(k, v), m) == open_node(st, m),
{
    let u = Use::Node(m);
    lemma_put_keys(st.counts, k, v);
    if has_key(st.counts, u) {
        lemma_prefix_keeps_keys(st.counts, put(st.counts, k, v), u, 0);
    } else {
        lemma_put_lists_only(st.counts, k, v, u);
    }
}

/// Counting one more interned definition leaves every node as open or
/// closed as it was.
proof fn lemma_grouped_keeps_open(st: Discovery, m: Node)
    requires
        distinct_keys(st.counts),
    ensures
        open_node(st.grouped(), m) == open_node(st, m),
{
    let group = Use::Node(Node::AllCxInterned);
    if has_key(st.counts, group) {
        if m == Node::AllCxInterned {
            lemma_put_keys(st.counts, group, next_count(st.counts, group));
        } else {
            lemma_put_keeps_open(st, group, next_count(st.counts, group), m);
        }
    } else if st.defs.contains_key(Node::AllCxInterned.key()) {
    } else {
        let st1 = st.registered(Node::AllCxInterned, NodeDef::AllCxInterned);
        if m == Node::AllCxInterned {
            lemma_put_keys(st1.counts, group, 1);
        } else {
            Node::lemma_key_differs(m, Node::AllCxInterned);
            lemma_put_keeps_open(st1, group, 1, m);
        }
    }
}

/// Using something once leaves every node as open or closed as it was:
/// a visit that begins in it also ends in it.
pub proof fn lemma_visit_keeps_open<'a>(
    cx: &'a Context,
    module: Option<&'a Module>,
    st: Discovery<'a>,
    u: Use,
    m: Node,
)
    requires
        in_order(cx, st),
    ensures
        open_node(visit(cx, module, st, u), m) == open_node(st, m),
    decreases unregistered(st.defs, key_bound(module)), rank(u), 1nat, 0nat,
{
    match u {
        Use::CxInterned(x) => {
            if has_key(st.counts, u) {
                lemma_put_keeps_open(st, u, next_count(st.counts, u), m);
            } else if x.index() < cx.interned@.len() {
                let uses = interned_uses(cx.interned@[x.index() as int]);
                let r1 = visit_all(cx, module, st, uses, uses.len(), x.index() as nat);
                lemma_visit_all_in_order(cx, module, st, uses, uses.len(), x.index() as nat);
                lemma_visit_all_keeps_open(cx, module, st, uses, uses.len(), x.index() as nat, m);
                lemma_grouped_in_order(cx, module, r1);
                lemma_grouped_keeps_open(r1, m);
                lemma_put_keeps_open(r1.grouped(), u, 1, m);
            }
        },
        Use::Node(node) => {
            match node_def_in(module, node) {
                Some(def) => {
                    lemma_use_node_keeps_open(cx, module, st, node, def, m);
                },
                None => {},
            }
        },
        _ => {
            lemma_put_keeps_open(st, u, next_count(st.counts, u), m);
        },
    }
}

/// Using a node once leaves every node as open or closed as it was.
pub proof fn lemma_use_node_keeps_open<'a>(
    cx: &'a Context,
    module: Option<&'a Module>,
    st: Discovery<'a>,
    node: Node,
    def: NodeDef<'a>,
    m: Node,
)
    requires
        in_order(cx, st),
        node.key() < key_bound(module),
    ensures
        open_node(use_node(cx, module, st, node, def), m) == open_node(st, m),
    decreases unregistered(st.defs, key_bound(module)), 0nat, 0nat, 0nat,
{
    let u = Use::Node(node);
    if has_key(st.counts, u) {
        if m == node {
            lemma_put_keys(st.counts, u, next_count(st.counts, u));
        } else {
            lemma_put_keeps_open(st, u, next_count(st.counts, u), m);
        }
    } else if st.defs.contains_key(node.key()) {
    } else {
        let st1 = st.registered(node, def);
        lemma_register_in_order(cx, module, st, node, def);
        let uses = node_def_uses(def);
        let r2 = visit_all(cx, module, st1, uses, uses.len(), cx.interned@.len());
        lemma_visit_all_in_order(cx, module, st1, uses, uses.len(), cx.interned@.len());
        lemma_visit_all_keeps_open(cx, module, st1, uses, uses.len(), cx.interned@.len(), m);
        if m == node {
            lemma_put_keys(r2.counts, u, 1);
        } else {
            Node::lemma_key_differs(m, node);
            lemma_put_keeps_open(r2, u, 1, m);
        }
    }
}

/// Using each of the first `count` uses once leaves every node as open
/// or closed as it was.
pub proof fn lemma_visit_all_keeps_open<'a>(
    cx: &'a Context,
    module: Option<&'a Module>,
    st: Discovery<'a>,
    uses: Seq<Use>,
    count: nat,
    limit: nat,
    m: Node,
)
    requires
        in_order(cx, st),
        count <= uses.len(),
        limit <= cx.interned@.len(),
    ensures
        open_node(visit_all(cx, module, st, uses, count, limit), m) == open_node(st, m),
    decreases unregistered(st.defs, key_bound(module)), limit, 2nat, count,
{
    if count > 0 {
        let st1 = visit_all(cx, module, st, uses, (count - 1) as nat, limit);
        lemma_visit_all_in_order(cx, module, st, uses, (count - 1) as nat, limit);
        lemma_visit_all_keeps_open(cx, module, st, uses, (count - 1) as nat, limit, m);
        let u = uses[count - 1];
        if rank(u) <= limit {
            lemma_visit_keeps_open(cx, module, st1, u, m);
        }
    }
}

/// Whether the nodes among `uses` that the module defines have their
/// definitions registered.
pub open spec fn nodes_registered(module: Option<&Module>, st: Discovery, uses: Seq<Use>) -> bool {
    forall|k: int|
        0 <= k < uses.len() && (#[trigger] uses[k]) is Node && node_def_in(
            module,
            uses[k]->Node_0,
        ) is Some ==> st.defs.contains_key(uses[k]->Node_0.key())
}

/// Whether for every node in the table, the nodes that its definition
/// refers to and that the module defines have their definitions
/// registered.
pub open spec fn refs_registered(module: Option<&Module>, st: Discovery) -> bool {
    forall|i: int|
        0 <= i < st.counts.len() && (#[trigger] st.counts[i]).0 is Node ==> st.defs.contains_key(
            st.counts[i].0->Node_0.key(),
        ) && nodes_registered(module, st, node_def_uses(st.defs[st.counts[i].0->Node_0.key()]))
}

/// What continues a state in which the nodes that definitions refer to
/// are registered, and adds to the table at most a node of which the
/// same holds, is such a state.
proof fn lemma_refs_stay_registered<'a>(
    module: Option<&Module>,
    a: Discovery<'a>,
    b: Discovery<'a>,
)
    requires
        refs_registered(module, a),
        continues(module, a, b),
        forall|i: int|
            a.counts.len() <= i < b.counts.len() && (#[trigger] b.counts[i]).0 is Node
                ==> b.defs.contains_key(b.counts[i].0->Node_0.key()) && nodes_registered(
                module,
                b,
                node_def_uses(b.defs[b.counts[i].0->Node_0.key()]),
            ),
    ensures
        refs_registered(module, b),
{
    assert forall|i: int|
        0 <= i < b.counts.len() && (#[trigger] b.counts[i]).0 is Node implies b.defs.contains_key(
        b.counts[i].0->Node_0.key(),
    ) && nodes_registered(module, b, node_def_uses(b.defs[b.counts[i].0->Node_0.key()])) by {
        if i < a.counts.len() {
            assert(a.counts[i].0 == b.counts[i].0);
            let key = a.counts[i].0->Node_0.key();
            assert(a.defs.contains_key(key));
            let uses = node_def_uses(a.defs[key]);
            assert forall|k: int|
                0 <= k < uses.len() && (#[trigger] uses[k]) is Node && node_def_in(
                    module,
                    uses[k]->Node_0,
                ) is Some implies b.defs.contains_key(uses[k]->Node_0.key()) by {
                assert(a.defs.contains_key(uses[k]->Node_0.key()));
            }
        }
    }
}

/// Using something once keeps the nodes that definitions refer to
/// registered, and registers the node used, if the module defines it.
pub proof fn lemma_visit_registers<'a>(
    cx: &'a Context,
    module: Option<&'a Module>,
    st: Discovery<'a>,
    u: Use,
)
    requires
        in_order(cx, st),
        refs_registered(module, st),
    ensures
        refs_registered(module, visit(cx, module, st, u)),
        u matches Use::Node(node) ==> (node_def_in(module, node) is Some ==> visit(
            cx,
            module,
            st,
            u,
        ).defs.contains_key(node.key())),
    decreases unregistered(st.defs, key_bound(module)), rank(u), 1nat, 0nat,
{
    lemma_visit_in_order(cx, module, st, u);
    let r = visit(cx, module, st, u);
    match u {
        Use::CxInterned(x) => {
            if has_key(st.counts, u) {
                lemma_put_keys(st.counts, u, next_count(st.counts, u));
                lemma_refs_stay_registered(module, st, r);
            } else if x.index() < cx.interned@.len() {
                let uses = interned_uses(cx.interned@[x.index() as int]);
                let r1 = visit_all(cx, module, st, uses, uses.len(), x.index() as nat);
                lemma_visit_all_in_order(cx, module, st, uses, uses.len(), x.index() as nat);
                lemma_visit_all_registers(cx, module, st, uses, uses.len(), x.index() as nat);
                let r2 = r1.grouped();
                lemma_grouped_in_order(cx, module, r1);
                assert(refs_registered(module, r2)) by {
                    let group = Use::Node(Node::AllCxInterned);
                    if has_key(r1.counts, group) {
                        lemma_put_keys(r1.counts, group, next_count(r1.counts, group));
                    } else if r1.defs.contains_key(Node::AllCxInterned.key()) {
                    } else {
                        lemma_put_keys(
                            r1.registered(Node::AllCxInterned, NodeDef::AllCxInterned).counts,
                            group,
                            1,
                        );
                    }
                    lemma_refs_stay_registered(module, r1, r2);
                }
                lemma_put_keys(r2.counts, u, 1);
                lemma_put_continues(module, r2, u, 1);
                lemma_refs_stay_registered(module, r2, r);
            }
        },
        Use::Node(node) => {
            match node_def_in(module, node) {
                Some(def) => {
                    lemma_use_node_registers(cx, module, st, node, def);
                },
                None => {},
            }
        },
        _ => {
            lemma_put_keys(st.counts, u, next_count(st.counts, u));
            lemma_refs_stay_registered(module, st, r);
        },
    }
}

/// Using a node once keeps the nodes that definitions refer to
/// registered, and has the node registered afterwards.
pub proof fn lemma_use_node_registers<'a>(
    cx: &'a Context,
    module: Option<&'a Module>,
    st: Discovery<'a>,
    node: Node,
    def: NodeDef<'a>,
)
    requires
        in_order(cx, st),
        refs_registered(module, st),
        node.key() < key_bound(module),
    ensures
        refs_registered(module, use_node(cx, module, st, node, def)),
        use_node(cx, module, st, node, def).defs.contains_key(node.key()),
    decreases unregistered(st.defs, key_bound(module)), 0nat, 0nat, 0nat,
{
    lemma_use_node_in_order(cx, module, st, node, def);
    let u = Use::Node(node);
    let r = use_node(cx, module, st, node, def);
    if has_key(st.counts, u) {
        lemma_put_keys(st.counts, u, next_count(st.counts, u));
        lemma_refs_stay_registered(module, st, r);
        let i = index_of(st.counts, u);
        assert(0 <= i < st.counts.len() && st.counts[i].0 == u);
        assert(st.defs.contains_key(st.counts[i].0->Node_0.key()));
    } else if st.defs.contains_key(node.key()) {
    } else {
        let st1 = st.registered(node, def);
        lemma_register_in_order(cx, module, st, node, def);
        lemma_refs_stay_registered(module, st, st1);
        let uses = node_def_uses(def);
        let r2 = visit_all(cx, module, st1, uses, uses.len(), cx.interned@.len());
        lemma_visit_all_in_order(cx, module, st1, uses, uses.len(), cx.interned@.len());
        lemma_visit_all_registers(cx, module, st1, uses, uses.len(), cx.interned@.len());
        assert(st1.defs.contains_key(node.key()));
        assert(r2.defs.contains_key(node.key()) && r2.defs[node.key()] == def);
        assert(uses.take(uses.len() as int) =~= uses);
        lemma_put_keys(r2.counts, u, 1);
        lemma_put_continues(module, r2, u, 1);
        assert forall|i: int|
            r2.counts.len() <= i < r.counts.len() && (#[trigger] r.counts[i]).0
                is Node implies r.defs.contains_key(r.counts[i].0->Node_0.key())
            && nodes_registered(module, r, node_def_uses(r.defs[r.counts[i].0->Node_0.key()])) by {
            assert(r.counts[i].0 == u);
        }
        lemma_refs_stay_registered(module, r2, r);
    }
}

/// Using each of the first `count` uses once keeps the nodes that
/// definitions refer to registered, and registers the nodes among those
/// uses that the module defines.
pub proof fn lemma_visit_all_registers<'a>(
    cx: &'a Context,
    module: Option<&'a Module>,
    st: Discovery<'a>,
    uses: Seq<Use>,
    count: nat,
    limit: nat,
)
    requires
        in_order(cx, st),
        refs_registered(module, st),
        count <= uses.len(),
        limit <= cx.interned@.len(),
    ensures
        refs_registered(module, visit_all(cx, module, st, uses, count, limit)),
        nodes_registered(module, visit_all(cx, module, st, uses, count, limit), uses.take(count as int)),
    decreases unregistered(st.defs, key_bound(module)), limit, 2nat, count,
{
    let r = visit_all(cx, module, st, uses, count, limit);
    if count > 0 {
        let st1 = visit_all(cx, module, st, uses, (count - 1) as nat, limit);
        lemma_visit_all_in_order(cx, module, st, uses, (count - 1) as nat, limit);
        lemma_visit_all_registers(cx, module, st, uses, (count - 1) as nat, limit);
        let u = uses[count - 1];
        if rank(u) <= limit {
            lemma_visit_in_order(cx, module, st1, u);
            lemma_visit_registers(cx, module, st1, u);
        }
        let head = uses.take(count as int);
        let before = uses.take((count - 1) as int);
        assert forall|k: int|
            0 <= k < head.len() && (#[trigger] head[k]) is Node && node_def_in(
                module,
                head[k]->Node_0,
            ) is Some implies r.defs.contains_key(head[k]->Node_0.key()) by {
            if k < count - 1 {
                assert(before[k] == head[k]);
                assert(st1.defs.contains_key(before[k]->Node_0.key()));
            } else {
                assert(head[k] == u);
                assert(rank(u) == 0);
            }
        }
    }
}

/// The plan of one root lists every node that the definition of a
/// listed node refers to and that the root's module defines: every
/// function that is called and every global variable that is referred
/// to is in the plan.
pub proof fn lemma_referred_nodes_are_listed<'a>(cx: &'a Context, root: Root<'a>, i: int, k: int)
    requires
        0 <= i < discover(cx, root).counts.len(),
        discover(cx, root).counts[i].0 is Node,
    ensures
        discover(cx, root).defs.contains_key(discover(cx, root).counts[i].0->Node_0.key()),
        0 <= k < node_def_uses(
            discover(cx, root).defs[discover(cx, root).counts[i].0->Node_0.key()],
        ).len() && node_def_uses(
            discover(cx, root).defs[discover(cx, root).counts[i].0->Node_0.key()],
        )[k] is Node && node_def_in(
            module_of(root),
            node_def_uses(
                discover(cx, root).defs[discover(cx, root).counts[i].0->Node_0.key()],
            )[k]->Node_0,
        ) is Some ==> has_key(
            discover(cx, root).counts,
            node_def_uses(discover(cx, root).defs[discover(cx, root).counts[i].0->Node_0.key()])[k],
        ),
{
    let start = Discovery::<'a>::start();
    let module = module_of(root);
    let def = NodeDef::Root(root);
    let r = discover(cx, root);
    assert(in_order(cx, start));
    assert(refs_registered(module, start));
    lemma_use_node_registers(cx, module, start, Node::Root, def);
    let key = r.counts[i].0->Node_0.key();
    let uses = node_def_uses(r.defs[key]);
    if 0 <= k < uses.len() && uses[k] is Node && node_def_in(module, uses[k]->Node_0) is Some {
        let m = uses[k]->Node_0;
        assert(r.defs.contains_key(m.key()));
        lemma_use_node_keeps_open(cx, module, start, Node::Root, def, m);
        assert(!open_node(start, m));
    }
}

} // verus!
