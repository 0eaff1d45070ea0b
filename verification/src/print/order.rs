//! The order of a plan: every interned definition that a definition
//! refers to stands before it.
use vstd::prelude::*;
use crate::ir::{Context, Interned, Module, TypeCtorArg, Const};
use crate::print::deps::{
    attrs_use, const_def_uses, const_use, interned_uses, type_arg_use, type_def_uses, type_use,
};
use crate::print::discovery::{
    discover, key_bound, lemma_unregistered_insert, module_of, next_count, node_def_in,
    node_def_uses, put,
    rank, unregistered, use_node, visit, visit_all, Discovery, NodeDef, Root,
};
use crate::print::plan::{merge, merge_entry, merged_counts, root_last};
use crate::print::use_map::{distinct_keys, has_key, index_of};
use crate::print::uses::{CxInterned, Node, Use};

verus! {

/// Whether the key `k` stands in `t` before position `i`.
pub open spec fn comes_before(t: Seq<(Use, usize)>, k: Use, i: int) -> bool {
    exists|j: int| 0 <= j < i && j < t.len() && (#[trigger] t[j]).0 == k
}

/// Whether each interned definition among `uses` whose rank is at most
/// `limit` stands in `t` before position `i`.
pub open spec fn uses_before(t: Seq<(Use, usize)>, uses: Seq<Use>, i: int, limit: nat) -> bool {
    forall|k: int|
        0 <= k < uses.len() && (#[trigger] uses[k]) is CxInterned && rank(uses[k]) <= limit
            ==> comes_before(t, uses[k], i)
}

/// Whether every interned definition in `t` is one of the context and
/// stands after the interned definitions that its own definition refers
/// to.
pub open spec fn interned_deps_first(cx: &Context, t: Seq<(Use, usize)>) -> bool {
    forall|i: int|
        0 <= i < t.len() && (#[trigger] t[i]).0 is CxInterned ==> t[i].0->CxInterned_0.index()
            < cx.interned@.len() && uses_before(
            t,
            interned_uses(cx.interned@[t[i].0->CxInterned_0.index() as int]),
            i,
            t[i].0->CxInterned_0.index() as nat,
        )
}

/// Whether every node in `t` has a definition in `defs` and stands after
/// the interned definitions of the context that its definition refers
/// to.
pub open spec fn node_deps_first<'a>(
    cx: &Context,
    t: Seq<(Use, usize)>,
    defs: Map<u64, NodeDef<'a>>,
) -> bool {
    forall|i: int|
        0 <= i < t.len() && (#[trigger] t[i]).0 is Node ==> defs.contains_key(
            t[i].0->Node_0.key(),
        ) && uses_before(t, node_def_uses(defs[t[i].0->Node_0.key()]), i, cx.interned@.len())
}

/// Whether what has been discovered is in order: no use is there twice,
/// and interned definitions stand before what refers to them.
pub open spec fn in_order<'a>(cx: &Context, st: Discovery<'a>) -> bool {
    &&& distinct_keys(st.counts)
    &&& interned_deps_first(cx, st.counts)
    &&& node_deps_first(cx, st.counts, st.defs)
}

/// Whether `b` has the keys of `a`, in the same places, and perhaps more
/// after them.
pub open spec fn key_prefix(a: Seq<(Use, usize)>, b: Seq<(Use, usize)>) -> bool {
    a.len() <= b.len() && forall|i: int| 0 <= i < a.len() ==> (#[trigger] b[i]).0 == a[i].0
}

/// Whether `b` continues `a`: the table keeps its keys in their places,
/// the definitions stay, and no more node keys are open.
pub open spec fn continues<'a>(module: Option<&Module>, a: Discovery<'a>, b: Discovery<'a>) -> bool {
    &&& key_prefix(a.counts, b.counts)
    &&& forall|k: u64|
        #[trigger] a.defs.contains_key(k) ==> b.defs.contains_key(k) && b.defs[k] == a.defs[k]
    &&& unregistered(b.defs, key_bound(module)) <= unregistered(a.defs, key_bound(module))
}

/// A key that stands in a table stands in every table that has its keys.
pub proof fn lemma_prefix_keeps_keys(a: Seq<(Use, usize)>, b: Seq<(Use, usize)>, k: Use, i: int)
    requires
        key_prefix(a, b),
    ensures
        has_key(a, k) ==> has_key(b, k),
        comes_before(a, k, i) ==> comes_before(b, k, i),
{
    if has_key(a, k) {
        let j = index_of(a, k);
        assert(b[j].0 == k);
    }
    if comes_before(a, k, i) {
        let j = choose|j: int| 0 <= j < i && j < a.len() && (#[trigger] a[j]).0 == k;
        assert(b[j].0 == k);
    }
}

/// Putting a count for a use keeps the keys in their places, and has
/// the use in the table afterwards.
pub proof fn lemma_put_keys(t: Seq<(Use, usize)>, k: Use, v: usize)
    requires
        distinct_keys(t),
    ensures
        distinct_keys(put(t, k, v)),
        key_prefix(t, put(t, k, v)),
        has_key(put(t, k, v), k),
        has_key(t, k) ==> put(t, k, v).len() == t.len(),
        !has_key(t, k) ==> put(t, k, v) == t.push((k, v)),
{
    let r = put(t, k, v);
    if has_key(t, k) {
        let at = index_of(t, k);
        assert(r[at].0 == k);
        assert forall|i: int, j: int|
            0 <= i < r.len() && 0 <= j < r.len() && i != j implies (#[trigger] r[i]).0 != (
        #[trigger] r[j]).0 by {
            assert(r[i].0 == t[i].0);
            assert(r[j].0 == t[j].0);
        }
    } else {
        assert(r[t.len() as int].0 == k);
        assert forall|i: int, j: int|
            0 <= i < r.len() && 0 <= j < r.len() && i != j implies (#[trigger] r[i]).0 != (
        #[trigger] r[j]).0 by {
            if i < t.len() {
                assert(t[i].0 == r[i].0);
            }
            if j < t.len() {
                assert(t[j].0 == r[j].0);
            }
        }
    }
}

/// Putting a count for a use that is in the table, or for one that is
/// neither a node nor an interned definition, keeps the order.
pub proof fn lemma_put_in_order<'a>(cx: &Context, st: Discovery<'a>, k: Use, v: usize)
    requires
        in_order(cx, st),
        has_key(st.counts, k) || !(k is Node || k is CxInterned),
    ensures
        in_order(cx, st.with(k, v)),
{
    let t = st.counts;
    let r = put(t, k, v);
    lemma_put_keys(t, k, v);
    assert forall|i: int| 0 <= i < r.len() && (#[trigger] r[i]).0 is CxInterned implies r[i].0->CxInterned_0.index()
        < cx.interned@.len() && uses_before(
        r,
        interned_uses(cx.interned@[r[i].0->CxInterned_0.index() as int]),
        i,
        r[i].0->CxInterned_0.index() as nat,
    ) by {
        assert(i < t.len());
        assert(t[i].0 == r[i].0);
        let uses = interned_uses(cx.interned@[r[i].0->CxInterned_0.index() as int]);
        assert forall|n: int|
            0 <= n < uses.len() && (#[trigger] uses[n]) is CxInterned && rank(uses[n])
                <= r[i].0->CxInterned_0.index() implies comes_before(r, uses[n], i) by {
            lemma_prefix_keeps_keys(t, r, uses[n], i);
        }
    }
    assert forall|i: int| 0 <= i < r.len() && (#[trigger] r[i]).0 is Node implies st.defs.contains_key(
        r[i].0->Node_0.key(),
    ) && uses_before(r, node_def_uses(st.defs[r[i].0->Node_0.key()]), i, cx.interned@.len()) by {
        assert(i < t.len());
        assert(t[i].0 == r[i].0);
        let uses = node_def_uses(st.defs[r[i].0->Node_0.key()]);
        assert forall|n: int|
            0 <= n < uses.len() && (#[trigger] uses[n]) is CxInterned && rank(uses[n])
                <= cx.interned@.len() implies comes_before(r, uses[n], i) by {
            lemma_prefix_keeps_keys(t, r, uses[n], i);
        }
    }
}

/// Entering a new key at the end keeps the order, if the interned
/// definitions that its definition refers to are in the table.
pub proof fn lemma_push_in_order<'a>(cx: &Context, st: Discovery<'a>, k: Use)
    requires
        in_order(cx, st),
        !has_key(st.counts, k),
        k matches Use::CxInterned(x) ==> x.index() < cx.interned@.len() && uses_before(
            st.counts,
            interned_uses(cx.interned@[x.index() as int]),
            st.counts.len() as int,
            x.index() as nat,
        ),
        k matches Use::Node(node) ==> st.defs.contains_key(node.key()) && uses_before(
            st.counts,
            node_def_uses(st.defs[node.key()]),
            st.counts.len() as int,
            cx.interned@.len(),
        ),
    ensures
        in_order(cx, st.entered(k)),
{
    let t = st.counts;
    let r = put(t, k, 1);
    lemma_put_keys(t, k, 1);
    assert forall|i: int| 0 <= i < r.len() && (#[trigger] r[i]).0 is CxInterned implies r[i].0->CxInterned_0.index()
        < cx.interned@.len() && uses_before(
        r,
        interned_uses(cx.interned@[r[i].0->CxInterned_0.index() as int]),
        i,
        r[i].0->CxInterned_0.index() as nat,
    ) by {
        if i < t.len() {
            assert(t[i].0 == r[i].0);
        }
        let uses = interned_uses(cx.interned@[r[i].0->CxInterned_0.index() as int]);
        assert forall|n: int|
            0 <= n < uses.len() && (#[trigger] uses[n]) is CxInterned && rank(uses[n])
                <= r[i].0->CxInterned_0.index() implies comes_before(r, uses[n], i) by {
            lemma_prefix_keeps_keys(t, r, uses[n], i);
        }
    }
    assert forall|i: int| 0 <= i < r.len() && (#[trigger] r[i]).0 is Node implies st.defs.contains_key(
        r[i].0->Node_0.key(),
    ) && uses_before(r, node_def_uses(st.defs[r[i].0->Node_0.key()]), i, cx.interned@.len()) by {
        if i < t.len() {
            assert(t[i].0 == r[i].0);
        }
        let uses = node_def_uses(st.defs[r[i].0->Node_0.key()]);
        assert forall|n: int|
            0 <= n < uses.len() && (#[trigger] uses[n]) is CxInterned && rank(uses[n])
                <= cx.interned@.len() implies comes_before(r, uses[n], i) by {
            lemma_prefix_keeps_keys(t, r, uses[n], i);
        }
    }
}

/// Registering the definition of a node that has none keeps the order.
pub proof fn lemma_register_in_order<'a>(
    cx: &Context,
    module: Option<&Module>,
    st: Discovery<'a>,
    node: Node,
    def: NodeDef<'a>,
)
    requires
        in_order(cx, st),
        !st.defs.contains_key(node.key()),
    ensures
        in_order(cx, st.registered(node, def)),
        continues(module, st, st.registered(node, def)),
        node.key() < key_bound(module) ==> unregistered(
            st.registered(node, def).defs,
            key_bound(module),
        ) < unregistered(st.defs, key_bound(module)),
{
    lemma_unregistered_insert(st.defs, key_bound(module), node.key(), def);
    let r = st.registered(node, def);
    assert forall|i: int| 0 <= i < r.counts.len() && (#[trigger] r.counts[i]).0 is Node implies r.defs.contains_key(
        r.counts[i].0->Node_0.key(),
    ) && uses_before(
        r.counts,
        node_def_uses(r.defs[r.counts[i].0->Node_0.key()]),
        i,
        cx.interned@.len(),
    ) by {
        assert(st.defs.contains_key(st.counts[i].0->Node_0.key()));
    }
}

/// To continue what continues something is to continue that.
pub proof fn lemma_continues_twice<'a>(
    module: Option<&Module>,
    a: Discovery<'a>,
    b: Discovery<'a>,
    c: Discovery<'a>,
)
    requires
        continues(module, a, b),
        continues(module, b, c),
    ensures
        continues(module, a, c),
{
    assert forall|i: int| 0 <= i < a.counts.len() implies (#[trigger] c.counts[i]).0
        == a.counts[i].0 by {
        assert(b.counts[i].0 == a.counts[i].0);
    }
    assert forall|k: u64| a.defs.contains_key(k) implies c.defs.contains_key(k) && c.defs[k]
        == a.defs[k] by {
        assert(b.defs.contains_key(k) && b.defs[k] == a.defs[k]);
    }
}

/// Putting a count for a use continues what was discovered.
pub proof fn lemma_put_continues<'a>(
    module: Option<&Module>,
    st: Discovery<'a>,
    k: Use,
    v: usize,
)
    requires
        distinct_keys(st.counts),
    ensures
        continues(module, st, st.with(k, v)),
        has_key(st.with(k, v).counts, k),
{
    lemma_put_keys(st.counts, k, v);
}

/// A key that is in a table stands before the table's end.
pub proof fn lemma_key_comes_before_end(t: Seq<(Use, usize)>, k: Use)
    requires
        has_key(t, k),
    ensures
        comes_before(t, k, t.len() as int),
{
    let j = index_of(t, k);
    assert(t[j].0 == k);
}

/// Counting one more interned definition keeps the order.
pub proof fn lemma_grouped_in_order<'a>(cx: &Context, module: Option<&Module>, st: Discovery<'a>)
    requires
        in_order(cx, st),
    ensures
        in_order(cx, st.grouped()),
        continues(module, st, st.grouped()),
{
    let group = Use::Node(Node::AllCxInterned);
    if has_key(st.counts, group) {
        lemma_put_in_order(cx, st, group, next_count(st.counts, group));
        lemma_put_continues(module, st, group, next_count(st.counts, group));
    } else if st.defs.contains_key(Node::AllCxInterned.key()) {
    } else {
        let st1 = st.registered(Node::AllCxInterned, NodeDef::AllCxInterned);
        lemma_register_in_order(cx, module, st, Node::AllCxInterned, NodeDef::AllCxInterned);
        lemma_push_in_order(cx, st1, group);
        lemma_put_continues(module, st1, group, 1);
        lemma_continues_twice(module, st, st1, st1.entered(group));
    }
}

/// Entering `k` after everything in `uses` was visited keeps the order.
proof fn lemma_enter_after_uses<'a>(
    cx: &Context,
    module: Option<&Module>,
    st: Discovery<'a>,
    k: Use,
    uses: Seq<Use>,
    limit: nat,
)
    requires
        in_order(cx, st),
        forall|n: int|
            0 <= n < uses.len() && (#[trigger] uses[n]) is CxInterned && rank(uses[n]) <= limit
                ==> has_key(st.counts, uses[n]),
        k matches Use::CxInterned(x) ==> x.index() < cx.interned@.len() && uses == interned_uses(
            cx.interned@[x.index() as int],
        ) && limit == x.index(),
        k matches Use::Node(node) ==> st.defs.contains_key(node.key()) && uses == node_def_uses(
            st.defs[node.key()],
        ) && limit == cx.interned@.len(),
    ensures
        in_order(cx, st.entered(k)),
        continues(module, st, st.entered(k)),
        has_key(st.entered(k).counts, k),
{
    lemma_put_continues(module, st, k, 1);
    if has_key(st.counts, k) {
        lemma_put_in_order(cx, st, k, 1);
    } else {
        assert forall|n: int|
            0 <= n < uses.len() && (#[trigger] uses[n]) is CxInterned && rank(uses[n])
                <= limit implies comes_before(st.counts, uses[n], st.counts.len() as int) by {
            lemma_key_comes_before_end(st.counts, uses[n]);
        }
        lemma_push_in_order(cx, st, k);
    }
}

/// Using something once keeps the order, and an interned definition of
/// the context is in the table afterwards.
pub proof fn lemma_visit_in_order<'a>(
    cx: &'a Context,
    module: Option<&'a Module>,
    st: Discovery<'a>,
    u: Use,
)
    requires
        in_order(cx, st),
    ensures
        in_order(cx, visit(cx, module, st, u)),
        continues(module, st, visit(cx, module, st, u)),
        u matches Use::CxInterned(x) ==> (x.index() < cx.interned@.len() ==> has_key(
            visit(cx, module, st, u).counts,
            u,
        )),
    decreases unregistered(st.defs, key_bound(module)), rank(u), 1nat, 0nat,
{
    match u {
        Use::CxInterned(x) => {
            if has_key(st.counts, u) {
                lemma_put_in_order(cx, st, u, next_count(st.counts, u));
                lemma_put_continues(module, st, u, next_count(st.counts, u));
            } else if x.index() < cx.interned@.len() {
                let uses = interned_uses(cx.interned@[x.index() as int]);
                let r1 = visit_all(cx, module, st, uses, uses.len(), x.index() as nat);
                lemma_visit_all_in_order(cx, module, st, uses, uses.len(), x.index() as nat);
                let r2 = r1.grouped();
                lemma_grouped_in_order(cx, module, r1);
                assert forall|n: int|
                    0 <= n < uses.len() && (#[trigger] uses[n]) is CxInterned && rank(uses[n])
                        <= x.index() implies has_key(r2.counts, uses[n]) by {
                    lemma_prefix_keeps_keys(r1.counts, r2.counts, uses[n], 0);
                }
                lemma_enter_after_uses(cx, module, r2, u, uses, x.index() as nat);
                lemma_continues_twice(module, st, r1, r2);
                lemma_continues_twice(module, st, r2, r2.entered(u));
            }
        },
        Use::Node(node) => {
            match node_def_in(module, node) {
                Some(def) => {
                    lemma_use_node_in_order(cx, module, st, node, def);
                },
                None => {},
            }
        },
        _ => {
            lemma_put_in_order(cx, st, u, next_count(st.counts, u));
            lemma_put_continues(module, st, u, next_count(st.counts, u));
        },
    }
}

/// Using a node once keeps the order.
pub proof fn lemma_use_node_in_order<'a>(
    cx: &'a Context,
    module: Option<&'a Module>,
    st: Discovery<'a>,
    node: Node,
    def: NodeDef<'a>,
)
    requires
        in_order(cx, st),
        node.key() < key_bound(module),
    ensures
        in_order(cx, use_node(cx, module, st, node, def)),
        continues(module, st, use_node(cx, module, st, node, def)),
    decreases unregistered(st.defs, key_bound(module)), 0nat, 0nat, 0nat,
{
    let u = Use::Node(node);
    if has_key(st.counts, u) {
        lemma_put_in_order(cx, st, u, next_count(st.counts, u));
        lemma_put_continues(module, st, u, next_count(st.counts, u));
    } else if st.defs.contains_key(node.key()) {
    } else {
        let st1 = st.registered(node, def);
        lemma_register_in_order(cx, module, st, node, def);
        let uses = node_def_uses(def);
        let r2 = visit_all(cx, module, st1, uses, uses.len(), cx.interned@.len());
        lemma_visit_all_in_order(cx, module, st1, uses, uses.len(), cx.interned@.len());
        assert(st1.defs.contains_key(node.key()));
        assert(r2.defs.contains_key(node.key()) && r2.defs[node.key()] == def);
        lemma_enter_after_uses(cx, module, r2, u, uses, cx.interned@.len());
        lemma_continues_twice(module, st, st1, r2);
        lemma_continues_twice(module, st, r2, r2.entered(u));
    }
}

/// Using each of the first `count` uses once keeps the order, and those
/// of them that are interned definitions of a rank of at most `limit`
/// are in the table afterwards.
pub proof fn lemma_visit_all_in_order<'a>(
    cx: &'a Context,
    module: Option<&'a Module>,
    st: Discovery<'a>,
    uses: Seq<Use>,
    count: nat,
    limit: nat,
)
    requires
        in_order(cx, st),
        count <= uses.len(),
        limit <= cx.interned@.len(),
    ensures
        in_order(cx, visit_all(cx, module, st, uses, count, limit)),
        continues(module, st, visit_all(cx, module, st, uses, count, limit)),
        forall|n: int|
            0 <= n < count && (#[trigger] uses[n]) is CxInterned && rank(uses[n]) <= limit
                ==> has_key(visit_all(cx, module, st, uses, count, limit).counts, uses[n]),
    decreases unregistered(st.defs, key_bound(module)), limit, 2nat, count,
{
    if count > 0 {
        let st1 = visit_all(cx, module, st, uses, (count - 1) as nat, limit);
        lemma_visit_all_in_order(cx, module, st, uses, (count - 1) as nat, limit);
        let u = uses[count - 1];
        let r = visit_all(cx, module, st, uses, count, limit);
        if rank(u) <= limit {
            lemma_visit_in_order(cx, module, st1, u);
            lemma_continues_twice(module, st, st1, r);
        }
        assert forall|n: int|
            0 <= n < count && (#[trigger] uses[n]) is CxInterned && rank(uses[n])
                <= limit implies has_key(r.counts, uses[n]) by {
            if n < count - 1 {
                lemma_prefix_keeps_keys(st1.counts, r.counts, uses[n], 0);
            }
        }
    }
}

/// In the plan of one root, no use is listed twice, and every interned
/// definition stands before whatever refers to it: before each interned
/// definition whose own definition refers to it, and before each node
/// whose definition refers to it.
pub proof fn lemma_plan_is_in_order<'a>(cx: &'a Context, root: Root<'a>)
    ensures
        in_order(cx, discover(cx, root)),
{
    let start = Discovery::<'a>::start();
    assert(in_order(cx, start));
    lemma_use_node_in_order(cx, module_of(root), start, Node::Root, NodeDef::Root(root));
}

/// In a well-formed context, every interned definition that an interned
/// definition refers to has a lower index, and so a rank that is at most
/// that index.
pub proof fn lemma_interned_uses_are_earlier(cx: &Context, x: CxInterned, k: int)
    requires
        cx.wf(),
        x.index() < cx.interned@.len(),
        0 <= k < interned_uses(cx.interned@[x.index() as int]).len(),
        interned_uses(cx.interned@[x.index() as int])[k] is CxInterned,
    ensures
        rank(interned_uses(cx.interned@[x.index() as int])[k]) <= x.index(),
{
    let i = x.index() as int;
    assert(cx.entry_wf(i));
    match cx.interned@[i] {
        Interned::AttrSet(_) => {},
        Interned::Type(def) => {
            if k > 0 {
                assert(cx.type_arg_before(def.ctor_args@[k - 1], i));
            }
        },
        Interned::Const(def) => {
            let head = seq![attrs_use(def.attrs), type_use(def.ty)] + (match def.ctor {
                crate::ir::ConstCtor::PtrToGlobalVar(gv) => seq![Use::Node(Node::GlobalVar(gv))],
                _ => Seq::empty(),
            });
            if k >= head.len() {
                let n = k - head.len();
                assert(def.ctor_args@[n].0 < i);
            }
        },
    }
}

/// In the plan of one root over a well-formed context, every interned
/// definition that the definition of an interned definition refers to
/// stands before it.
pub proof fn lemma_dependencies_come_first<'a>(cx: &'a Context, root: Root<'a>, i: int, k: int)
    requires
        cx.wf(),
        0 <= i < discover(cx, root).counts.len(),
        discover(cx, root).counts[i].0 is CxInterned,
    ensures
        discover(cx, root).counts[i].0->CxInterned_0.index() < cx.interned@.len(),
        0 <= k < interned_uses(
            cx.interned@[discover(cx, root).counts[i].0->CxInterned_0.index() as int],
        ).len() && interned_uses(
            cx.interned@[discover(cx, root).counts[i].0->CxInterned_0.index() as int],
        )[k] is CxInterned ==> comes_before(
            discover(cx, root).counts,
            interned_uses(
                cx.interned@[discover(cx, root).counts[i].0->CxInterned_0.index() as int],
            )[k],
            i,
        ),
{
    lemma_plan_is_in_order(cx, root);
    let t = discover(cx, root).counts;
    let x = t[i].0->CxInterned_0;
    let uses = interned_uses(cx.interned@[x.index() as int]);
    if 0 <= k < uses.len() && uses[k] is CxInterned {
        lemma_interned_uses_are_earlier(cx, x, k);
    }
}

/// Merging one entry into a table keeps the keys of the table in their
/// places, and has the entry's key in the table afterwards.
pub proof fn lemma_merge_entry_keys(acc: Seq<(Use, usize)>, e: (Use, usize))
    requires
        distinct_keys(acc),
    ensures
        distinct_keys(merge_entry(acc, e)),
        key_prefix(acc, merge_entry(acc, e)),
        has_key(merge_entry(acc, e), e.0),
        has_key(acc, e.0) ==> merge_entry(acc, e).len() == acc.len(),
        !has_key(acc, e.0) ==> merge_entry(acc, e) == acc.push(e),
{
    let r = merge_entry(acc, e);
    if has_key(acc, e.0) {
        let at = index_of(acc, e.0);
        assert(r[at].0 == e.0);
        assert forall|i: int, j: int|
            0 <= i < r.len() && 0 <= j < r.len() && i != j implies (#[trigger] r[i]).0 != (
        #[trigger] r[j]).0 by {
            assert(r[i].0 == acc[i].0);
            assert(r[j].0 == acc[j].0);
        }
    } else {
        assert(r[acc.len() as int].0 == e.0);
        assert forall|i: int, j: int|
            0 <= i < r.len() && 0 <= j < r.len() && i != j implies (#[trigger] r[i]).0 != (
        #[trigger] r[j]).0 by {
            if i < acc.len() {
                assert(acc[i].0 == r[i].0);
            }
            if j < acc.len() {
                assert(acc[j].0 == r[j].0);
            }
        }
    }
}

/// A table that has the keys of an ordered table in their places, and
/// after them only keys whose interned definitions stand before them, is
/// ordered.
proof fn lemma_longer_table_in_order(cx: &Context, a: Seq<(Use, usize)>, b: Seq<(Use, usize)>)
    requires
        interned_deps_first(cx, a),
        key_prefix(a, b),
        forall|i: int|
            a.len() <= i < b.len() && (#[trigger] b[i]).0 is CxInterned ==> b[i].0->CxInterned_0.index()
                < cx.interned@.len() && uses_before(
                b,
                interned_uses(cx.interned@[b[i].0->CxInterned_0.index() as int]),
                i,
                b[i].0->CxInterned_0.index() as nat,
            ),
    ensures
        interned_deps_first(cx, b),
{
    assert forall|i: int| 0 <= i < b.len() && (#[trigger] b[i]).0 is CxInterned implies b[i].0->CxInterned_0.index()
        < cx.interned@.len() && uses_before(
        b,
        interned_uses(cx.interned@[b[i].0->CxInterned_0.index() as int]),
        i,
        b[i].0->CxInterned_0.index() as nat,
    ) by {
        if i < a.len() {
            assert(a[i].0 == b[i].0);
            let uses = interned_uses(cx.interned@[b[i].0->CxInterned_0.index() as int]);
            assert forall|n: int|
                0 <= n < uses.len() && (#[trigger] uses[n]) is CxInterned && rank(uses[n])
                    <= b[i].0->CxInterned_0.index() implies comes_before(b, uses[n], i) by {
                lemma_prefix_keeps_keys(a, b, uses[n], i);
            }
        }
    }
}

/// Merging the first `n` entries of an ordered table into an ordered
/// table gives an ordered table, which has the keys of those entries.
pub proof fn lemma_merge_in_order(
    cx: &Context,
    acc: Seq<(Use, usize)>,
    new: Seq<(Use, usize)>,
    n: nat,
)
    requires
        distinct_keys(acc),
        interned_deps_first(cx, acc),
        interned_deps_first(cx, new),
        n <= new.len(),
    ensures
        distinct_keys(merge(acc, new, n)),
        interned_deps_first(cx, merge(acc, new, n)),
        key_prefix(acc, merge(acc, new, n)),
        forall|j: int| 0 <= j < n ==> has_key(merge(acc, new, n), (#[trigger] new[j]).0),
    decreases n,
{
    if n > 0 {
        let m1 = merge(acc, new, (n - 1) as nat);
        let e = new[n - 1];
        let m = merge(acc, new, n);
        lemma_merge_in_order(cx, acc, new, (n - 1) as nat);
        lemma_merge_entry_keys(m1, e);
        assert forall|j: int| 0 <= j < n implies has_key(m, (#[trigger] new[j]).0) by {
            if j < n - 1 {
                lemma_prefix_keeps_keys(m1, m, new[j].0, 0);
            }
        }
        assert(key_prefix(acc, m)) by {
            assert forall|i: int| 0 <= i < acc.len() implies (#[trigger] m[i]).0 == acc[i].0 by {
                assert(m1[i].0 == acc[i].0);
            }
        }
        assert forall|i: int|
            m1.len() <= i < m.len() && (#[trigger] m[i]).0 is CxInterned implies m[i].0->CxInterned_0.index()
            < cx.interned@.len() && uses_before(
            m,
            interned_uses(cx.interned@[m[i].0->CxInterned_0.index() as int]),
            i,
            m[i].0->CxInterned_0.index() as nat,
        ) by {
            assert(m[i] == e);
            assert(new[n - 1].0 is CxInterned);
            let x = e.0->CxInterned_0;
            let uses = interned_uses(cx.interned@[x.index() as int]);
            assert forall|k: int|
                0 <= k < uses.len() && (#[trigger] uses[k]) is CxInterned && rank(uses[k])
                    <= x.index() implies comes_before(m, uses[k], i) by {
                assert(comes_before(new, uses[k], n - 1));
                let j = choose|j: int|
                    0 <= j < n - 1 && j < new.len() && (#[trigger] new[j]).0 == uses[k];
                assert(has_key(m1, new[j].0));
                lemma_key_comes_before_end(m1, uses[k]);
                lemma_prefix_keeps_keys(m1, m, uses[k], m1.len() as int);
            }
        }
        lemma_longer_table_in_order(cx, m1, m);
    }
}

/// The merged table of the first `count` roots is ordered.
pub proof fn lemma_merged_counts_in_order<'a>(cx: &'a Context, roots: Seq<Root<'a>>, count: nat)
    requires
        count <= roots.len(),
    ensures
        distinct_keys(merged_counts(cx, roots, count)),
        interned_deps_first(cx, merged_counts(cx, roots, count)),
    decreases count,
{
    if count > 0 {
        let new = discover(cx, roots[count - 1]).counts;
        lemma_merged_counts_in_order(cx, roots, (count - 1) as nat);
        lemma_plan_is_in_order(cx, roots[count - 1]);
        lemma_merge_in_order(cx, merged_counts(cx, roots, (count - 1) as nat), new, new.len());
    }
}

/// Moving the root to the end keeps a table ordered.
pub proof fn lemma_root_last_in_order(cx: &Context, t: Seq<(Use, usize)>)
    requires
        distinct_keys(t),
        interned_deps_first(cx, t),
    ensures
        distinct_keys(root_last(t)),
        interned_deps_first(cx, root_last(t)),
{
    let root = Use::Node(Node::Root);
    let r = root_last(t);
    if has_key(t, root) {
        let at = index_of(t, root);
        assert(t[at].0 == root);
        let back = |i: int|
            if i < at {
                i
            } else if i == r.len() - 1 {
                at
            } else {
                i + 1
            };
        assert forall|i: int| 0 <= i < r.len() implies #[trigger] r[i] == t[back(i)] by {}
        assert forall|i: int, j: int|
            0 <= i < r.len() && 0 <= j < r.len() && i != j implies (#[trigger] r[i]).0 != (
        #[trigger] r[j]).0 by {
            assert(r[i] == t[back(i)]);
            assert(r[j] == t[back(j)]);
        }
        assert forall|i: int| 0 <= i < r.len() && (#[trigger] r[i]).0 is CxInterned implies r[i].0->CxInterned_0.index()
            < cx.interned@.len() && uses_before(
            r,
            interned_uses(cx.interned@[r[i].0->CxInterned_0.index() as int]),
            i,
            r[i].0->CxInterned_0.index() as nat,
        ) by {
            let old_i = back(i);
            assert(r[i] == t[old_i]);
            assert(t[old_i].0 is CxInterned);
            let uses = interned_uses(cx.interned@[r[i].0->CxInterned_0.index() as int]);
            assert forall|k: int|
                0 <= k < uses.len() && (#[trigger] uses[k]) is CxInterned && rank(uses[k])
                    <= r[i].0->CxInterned_0.index() implies comes_before(r, uses[k], i) by {
                assert(comes_before(t, uses[k], old_i));
                let j = choose|j: int|
                    0 <= j < old_i && j < t.len() && (#[trigger] t[j]).0 == uses[k];
                let new_j = if j < at {
                    j
                } else {
                    j - 1
                };
                assert(j != at);
                assert(r[new_j] == t[back(new_j)]);
                assert(r[new_j].0 == uses[k]);
            }
        }
    }
}

/// In the plan of several versions too, no use is listed twice, and
/// every interned definition stands before each interned definition
/// whose own definition refers to it.
pub proof fn lemma_versions_plan_is_in_order<'a>(cx: &'a Context, roots: Seq<Root<'a>>)
    ensures
        distinct_keys(root_last(merged_counts(cx, roots, roots.len()))),
        interned_deps_first(cx, root_last(merged_counts(cx, roots, roots.len()))),
{
    lemma_merged_counts_in_order(cx, roots, roots.len());
    lemma_root_last_in_order(cx, merged_counts(cx, roots, roots.len()));
}

/// Putting a count for a use lists no other use that was not listed.
pub proof fn lemma_put_lists_only(t: Seq<(Use, usize)>, k: Use, v: usize, other: Use)
    requires
        other != k,
        !has_key(t, other),
    ensures
        !has_key(put(t, k, v), other),
{
    let r = put(t, k, v);
    if has_key(r, other) {
        let i = index_of(r, other);
        assert(r[i].0 == other);
        if has_key(t, k) {
            assert(t[i].0 == other);
        } else {
            assert(i < t.len());
            assert(t[i].0 == other);
        }
    }
}

/// Using something once does not list the root.
pub proof fn lemma_visit_leaves_root<'a>(
    cx: &'a Context,
    module: Option<&'a Module>,
    st: Discovery<'a>,
    u: Use,
)
    requires
        !has_key(st.counts, Use::Node(Node::Root)),
    ensures
        !has_key(visit(cx, module, st, u).counts, Use::Node(Node::Root)),
    decreases unregistered(st.defs, key_bound(module)), rank(u), 1nat, 0nat,
{
    let root = Use::Node(Node::Root);
    match u {
        Use::CxInterned(x) => {
            if has_key(st.counts, u) {
                lemma_put_lists_only(st.counts, u, next_count(st.counts, u), root);
            } else if x.index() < cx.interned@.len() {
                let uses = interned_uses(cx.interned@[x.index() as int]);
                let r1 = visit_all(cx, module, st, uses, uses.len(), x.index() as nat);
                lemma_visit_all_leaves_root(cx, module, st, uses, uses.len(), x.index() as nat);
                let group = Use::Node(Node::AllCxInterned);
                lemma_put_lists_only(r1.counts, group, next_count(r1.counts, group), root);
                lemma_put_lists_only(r1.counts, group, 1, root);
                lemma_put_lists_only(r1.grouped().counts, u, 1, root);
            }
        },
        Use::Node(node) => {
            match node_def_in(module, node) {
                Some(def) => {
                    lemma_use_node_leaves_root(cx, module, st, node, def);
                },
                None => {},
            }
        },
        _ => {
            lemma_put_lists_only(st.counts, u, next_count(st.counts, u), root);
        },
    }
}

/// Using a node other than the root once does not list the root.
pub proof fn lemma_use_node_leaves_root<'a>(
    cx: &'a Context,
    module: Option<&'a Module>,
    st: Discovery<'a>,
    node: Node,
    def: NodeDef<'a>,
)
    requires
        !has_key(st.counts, Use::Node(Node::Root)),
        node != Node::Root,
    ensures
        !has_key(use_node(cx, module, st, node, def).counts, Use::Node(Node::Root)),
    decreases unregistered(st.defs, key_bound(module)), 0nat, 0nat, 0nat,
{
    let root = Use::Node(Node::Root);
    let u = Use::Node(node);
    if has_key(st.counts, u) {
        lemma_put_lists_only(st.counts, u, next_count(st.counts, u), root);
    } else if st.defs.contains_key(node.key()) {
    } else {
        let st1 = st.registered(node, def);
        if unregistered(st1.defs, key_bound(module)) < unregistered(st.defs, key_bound(module)) {
            let uses = node_def_uses(def);
            lemma_visit_all_leaves_root(cx, module, st1, uses, uses.len(), cx.interned@.len());
            lemma_put_lists_only(
                visit_all(cx, module, st1, uses, uses.len(), cx.interned@.len()).counts,
                u,
                1,
                root,
            );
        }
    }
}

/// Using each of the first `count` uses once does not list the root.
pub proof fn lemma_visit_all_leaves_root<'a>(
    cx: &'a Context,
    module: Option<&'a Module>,
    st: Discovery<'a>,
    uses: Seq<Use>,
    count: nat,
    limit: nat,
)
    requires
        !has_key(st.counts, Use::Node(Node::Root)),
    ensures
        !has_key(visit_all(cx, module, st, uses, count, limit).counts, Use::Node(Node::Root)),
    decreases unregistered(st.defs, key_bound(module)), limit, 2nat, count,
{
    if count == 0 || count > uses.len() {
    } else {
        let st1 = visit_all(cx, module, st, uses, (count - 1) as nat, limit);
        lemma_visit_all_leaves_root(cx, module, st, uses, (count - 1) as nat, limit);
        let u = uses[count - 1];
        if rank(u) <= limit && unregistered(st1.defs, key_bound(module)) <= unregistered(
            st.defs,
            key_bound(module),
        ) {
            lemma_visit_leaves_root(cx, module, st1, u);
        }
    }
}

/// The plan of one root ends with the root, which is used once:
/// everything that the root refers to stands before it.
pub proof fn lemma_root_is_last<'a>(cx: &'a Context, root: Root<'a>)
    ensures
        discover(cx, root).counts.len() > 0,
        discover(cx, root).counts.last() == (Use::Node(Node::Root), 1usize),
{
    let start = Discovery::<'a>::start();
    let module = module_of(root);
    let def = NodeDef::Root(root);
    assert(!has_key(start.counts, Use::Node(Node::Root)));
    let st1 = start.registered(Node::Root, def);
    lemma_unregistered_insert(start.defs, key_bound(module), Node::Root.key(), def);
    let uses = node_def_uses(def);
    lemma_visit_all_leaves_root(cx, module, st1, uses, uses.len(), cx.interned@.len());
}

} // verus!
