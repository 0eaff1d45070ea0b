//! Discovery: walking everything that a root refers to, dependencies
//! first, while counting the uses of each definition.
use vstd::prelude::*;
use rustc_hash::FxHashMap;
use crate::fx::{fx_get, fx_insert, fx_new};
use crate::ir::{Context, FuncDecl, GlobalVarDecl, Module, ModuleDebugInfo, ModuleDialect};
use crate::print::deps::{
    func_decl_uses, global_var_uses, interned_uses, module_uses, uses_of_func_decl,
    uses_of_global_var, uses_of_interned, uses_of_module,
};
use crate::print::use_map::{has_key, index_of, keys_below, UseMap};
use crate::validate::{debug_info_wf, dialect_wf, func_decl_wf, global_var_wf};
use crate::print::uses::{CxInterned, Node, Use};

verus! {

/// A pair of things of which one was expected and the other found, to be
/// printed together with everything they refer to.
#[derive(Debug)]
pub struct ExpectedVsFound<E, F> {
    pub expected: E,
    pub found: F,
}

impl<E: Copy, F: Copy> Clone for ExpectedVsFound<E, F> {
    fn clone(&self) -> (r: Self)
        ensures
            r == *self,
    {
        *self
    }
}

impl<E: Copy, F: Copy> Copy for ExpectedVsFound<E, F> {

}

/// What a plan is made for.
#[derive(Clone, Copy, Debug)]
pub enum Root<'a> {
    /// A whole module.
    Module(&'a Module),
    /// Two interned definitions that should have been the same.
    Mismatch(ExpectedVsFound<CxInterned, CxInterned>),
}

/// The definition of a node in one version.
#[derive(Clone, Copy, Debug)]
pub enum NodeDef<'a> {
    Root(Root<'a>),
    AllCxInterned,
    ModuleDialect(&'a ModuleDialect),
    ModuleDebugInfo(&'a ModuleDebugInfo),
    GlobalVar(&'a GlobalVarDecl),
    Func(&'a FuncDecl),
}

/// The module in which global variables and functions are looked up
/// while `root` is walked.
pub open spec fn module_of<'a>(root: Root<'a>) -> Option<&'a Module> {
    match root {
        Root::Module(module) => Some(module),
        Root::Mismatch(_) => None,
    }
}

/// The definition of a node that is found through a module, if the
/// module has one.
pub open spec fn node_def_in<'a>(module: Option<&'a Module>, node: Node) -> Option<NodeDef<'a>> {
    match module {
        None => None,
        Some(m) => match node {
            Node::ModuleDialect => Some(NodeDef::ModuleDialect(&m.dialect)),
            Node::ModuleDebugInfo => Some(NodeDef::ModuleDebugInfo(&m.debug_info)),
            Node::GlobalVar(gv) => if gv.0 < m.global_vars@.len() {
                Some(NodeDef::GlobalVar(&m.global_vars@[gv.0 as int]))
            } else {
                None
            },
            Node::Func(func) => if func.0 < m.funcs@.len() {
                Some(NodeDef::Func(&m.funcs@[func.0 as int]))
            } else {
                None
            },
            _ => None,
        },
    }
}

/// What the definition of a node refers to, in the order of the visit.
pub open spec fn node_def_uses(def: NodeDef) -> Seq<Use> {
    match def {
        NodeDef::Root(Root::Module(module)) => module_uses(*module),
        NodeDef::Root(Root::Mismatch(pair)) => seq![
            Use::CxInterned(pair.expected),
            Use::CxInterned(pair.found),
        ],
        NodeDef::AllCxInterned => Seq::empty(),
        NodeDef::ModuleDialect(_) => Seq::empty(),
        NodeDef::ModuleDebugInfo(_) => Seq::empty(),
        NodeDef::GlobalVar(decl) => global_var_uses(*decl),
        NodeDef::Func(decl) => func_decl_uses(*decl),
    }
}

/// Whether an interned handle names a definition of its kind.
pub open spec fn interned_ok(cx: &Context, x: CxInterned) -> bool {
    match x {
        CxInterned::AttrSet(a) => cx.is_attr_set(a),
        CxInterned::Type(t) => cx.is_type(t),
        CxInterned::Const(c) => cx.is_const(c),
    }
}

/// Whether a root is well formed against `cx`.
pub open spec fn root_wf(cx: &Context, root: Root) -> bool {
    match root {
        Root::Module(module) => module.wf(cx),
        Root::Mismatch(pair) => interned_ok(cx, pair.expected) && interned_ok(cx, pair.found),
    }
}

/// Whether the definition of a node is well formed against `cx`.
pub open spec fn node_def_wf(cx: &Context, def: NodeDef) -> bool {
    match def {
        NodeDef::Root(root) => root_wf(cx, root),
        NodeDef::AllCxInterned => true,
        NodeDef::ModuleDialect(dialect) => dialect_wf(*dialect),
        NodeDef::ModuleDebugInfo(info) => debug_info_wf(cx, *info),
        NodeDef::GlobalVar(decl) => global_var_wf(cx, *decl),
        NodeDef::Func(decl) => func_decl_wf(cx, *decl),
    }
}

/// Whether the definition registered for each node is well formed
/// against `cx`.
pub open spec fn defs_wf<'a>(cx: &Context, defs: Map<u64, NodeDef<'a>>) -> bool {
    forall|node: Node| #[trigger]
        defs.contains_key(node.key()) ==> node_def_wf(cx, defs[node.key()])
}

/// A number above the key of every node that `module` defines.
pub open spec fn key_bound(module: Option<&Module>) -> nat {
    match module {
        None => 4,
        Some(m) => 4 + 2 * (m.global_vars@.len() + m.funcs@.len()),
    }
}

/// How many keys below `bound` have no definition in `defs`.
pub open spec fn unregistered<'a>(defs: Map<u64, NodeDef<'a>>, bound: nat) -> nat
    decreases bound,
{
    if bound == 0 {
        0
    } else {
        unregistered(defs, (bound - 1) as nat) + if defs.contains_key((bound - 1) as u64) {
            0nat
        } else {
            1nat
        }
    }
}

/// Registering a definition leaves no more keys unregistered than before,
/// and one fewer where the key is new and below the bound.
pub proof fn lemma_unregistered_insert<'a>(
    defs: Map<u64, NodeDef<'a>>,
    bound: nat,
    key: u64,
    def: NodeDef<'a>,
)
    ensures
        unregistered(defs.insert(key, def), bound) <= unregistered(defs, bound),
        !defs.contains_key(key) && key < bound ==> unregistered(defs.insert(key, def), bound)
            < unregistered(defs, bound),
    decreases bound,
{
    if bound > 0 {
        lemma_unregistered_insert(defs, (bound - 1) as nat, key, def);
    }
}

/// The place of a use in the order in which interned definitions were
/// made: one more than the index for an interned definition, zero for
/// anything else.
pub open spec fn rank(u: Use) -> nat {
    match u {
        Use::CxInterned(x) => (x.index() + 1) as nat,
        _ => 0,
    }
}

/// One more than `n`, unless `n` is the largest number.
pub open spec fn succ(n: usize) -> usize {
    if n < usize::MAX {
        (n + 1) as usize
    } else {
        n
    }
}

/// The table with the count `v` for `k`: in the place of `k` if it is
/// in the table, at the end if it is not.
pub open spec fn put(counts: Seq<(Use, usize)>, k: Use, v: usize) -> Seq<(Use, usize)> {
    if has_key(counts, k) {
        counts.update(index_of(counts, k), (k, v))
    } else {
        counts.push((k, v))
    }
}

/// The count of `k` after one more use: one more than its count, or 1
/// if it is not in the table.
pub open spec fn next_count(counts: Seq<(Use, usize)>, k: Use) -> usize {
    if has_key(counts, k) {
        succ(counts[index_of(counts, k)].1)
    } else {
        1
    }
}

/// Counts one more use of `k`: a key that is not there yet comes last,
/// with count 1.
pub open spec fn bump(counts: Seq<(Use, usize)>, k: Use) -> Seq<(Use, usize)> {
    put(counts, k, next_count(counts, k))
}

/// What has been discovered so far of one version: the uses with their
/// counts, in the order of discovery, and the definitions of the nodes
/// whose visit has begun.
pub ghost struct Discovery<'a> {
    pub counts: Seq<(Use, usize)>,
    pub defs: Map<u64, NodeDef<'a>>,
}

impl<'a> Discovery<'a> {
    /// Nothing discovered.
    pub open spec fn start() -> Discovery<'a> {
        Discovery { counts: Seq::empty(), defs: Map::empty() }
    }

    /// The count `v` for `k`.
    pub open spec fn with(self, k: Use, v: usize) -> Discovery<'a> {
        Discovery { counts: put(self.counts, k, v), defs: self.defs }
    }

    /// One more use of `k`.
    pub open spec fn bumped(self, k: Use) -> Discovery<'a> {
        self.with(k, next_count(self.counts, k))
    }

    /// The visit of `k` has ended: its count is 1.
    pub open spec fn entered(self, k: Use) -> Discovery<'a> {
        self.with(k, 1)
    }

    /// The definition of `node` registered.
    pub open spec fn registered(self, node: Node, def: NodeDef<'a>) -> Discovery<'a> {
        Discovery { counts: self.counts, defs: self.defs.insert(node.key(), def) }
    }

    /// One more interned definition discovered: counts a use of the node
    /// that groups them, registering it the first time.
    pub open spec fn grouped(self) -> Discovery<'a> {
        let group = Use::Node(Node::AllCxInterned);
        if has_key(self.counts, group) {
            self.bumped(group)
        } else if self.defs.contains_key(Node::AllCxInterned.key()) {
            self
        } else {
            self.registered(Node::AllCxInterned, NodeDef::AllCxInterned).entered(group)
        }
    }
}

/// The state after one use of `u`.
///
/// An interned definition that was counted before is counted once more.
/// One that was not is visited: first everything it refers to, then the
/// node that groups the interned definitions, then its count is set to
/// 1. A node is looked up in the module, and nothing happens where
/// the module does not define it. A label or a value is counted.
pub open spec fn visit<'a>(
    cx: &'a Context,
    module: Option<&'a Module>,
    st: Discovery<'a>,
    u: Use,
) -> Discovery<'a>
    decreases unregistered(st.defs, key_bound(module)), rank(u), 1nat, 0nat,
{
    match u {
        Use::CxInterned(x) => {
            if has_key(st.counts, u) {
                st.bumped(u)
            } else if x.index() < cx.interned@.len() {
                let uses = interned_uses(cx.interned@[x.index() as int]);
                visit_all(cx, module, st, uses, uses.len(), x.index() as nat).grouped().entered(u)
            } else {
                st
            }
        },
        Use::Node(node) => match node_def_in(module, node) {
            Some(def) => use_node(cx, module, st, node, def),
            None => st,
        },
        _ => st.bumped(u),
    }
}

/// The state after one use of the node `node`, whose definition is `def`.
///
/// A node that was counted before is counted once more. One whose
/// definition is registered but which was not counted yet is being
/// visited further up: nothing happens. Otherwise the definition is
/// registered, everything it refers to is visited, and the count of the
/// node is set to 1.
pub open spec fn use_node<'a>(
    cx: &'a Context,
    module: Option<&'a Module>,
    st: Discovery<'a>,
    node: Node,
    def: NodeDef<'a>,
) -> Discovery<'a>
    decreases unregistered(st.defs, key_bound(module)), 0nat, 0nat, 0nat,
{
    if has_key(st.counts, Use::Node(node)) {
        st.bumped(Use::Node(node))
    } else if st.defs.contains_key(node.key()) {
        st
    } else {
        let st1 = st.registered(node, def);
        if unregistered(st1.defs, key_bound(module)) < unregistered(st.defs, key_bound(module)) {
            let uses = node_def_uses(def);
            visit_all(cx, module, st1, uses, uses.len(), cx.interned@.len()).entered(
                Use::Node(node),
            )
        } else {
            st1
        }
    }
}

/// The state after the first `count` of `uses`, one after the other.
///
/// A use of an interned definition whose rank is above `limit` is passed
/// over: in a well-formed context there is none.
pub open spec fn visit_all<'a>(
    cx: &'a Context,
    module: Option<&'a Module>,
    st: Discovery<'a>,
    uses: Seq<Use>,
    count: nat,
    limit: nat,
) -> Discovery<'a>
    decreases unregistered(st.defs, key_bound(module)), limit, 2nat, count,
{
    if count == 0 || count > uses.len() {
        st
    } else {
        let st1 = visit_all(cx, module, st, uses, (count - 1) as nat, limit);
        let u = uses[count - 1];
        if rank(u) <= limit && unregistered(st1.defs, key_bound(module)) <= unregistered(
            st.defs,
            key_bound(module),
        ) {
            visit(cx, module, st1, u)
        } else {
            st1
        }
    }
}

/// What is discovered from `root`.
pub open spec fn discover<'a>(cx: &'a Context, root: Root<'a>) -> Discovery<'a> {
    use_node(cx, module_of(root), Discovery::start(), Node::Root, NodeDef::Root(root))
}

/// Computes [`node_def_in`].
pub fn lookup_node_def<'a>(module: Option<&'a Module>, node: Node) -> (r: Option<NodeDef<'a>>)
    ensures
        r == node_def_in(module, node),
{
    match module {
        None => None,
        Some(m) => match node {
            Node::ModuleDialect => Some(NodeDef::ModuleDialect(&m.dialect)),
            Node::ModuleDebugInfo => Some(NodeDef::ModuleDebugInfo(&m.debug_info)),
            Node::GlobalVar(gv) => if (gv.0 as usize) < m.global_vars.len() {
                Some(NodeDef::GlobalVar(&m.global_vars[gv.0 as usize]))
            } else {
                None
            },
            Node::Func(func) => if (func.0 as usize) < m.funcs.len() {
                Some(NodeDef::Func(&m.funcs[func.0 as usize]))
            } else {
                None
            },
            _ => None,
        },
    }
}

/// Computes [`node_def_uses`].
pub fn uses_of_node_def(def: &NodeDef) -> (r: Vec<Use>)
    ensures
        r@ == node_def_uses(*def),
{
    match def {
        NodeDef::Root(Root::Module(module)) => uses_of_module(module),
        NodeDef::Root(Root::Mismatch(pair)) => {
            let mut out: Vec<Use> = Vec::new();
            out.push(Use::CxInterned(pair.expected));
            out.push(Use::CxInterned(pair.found));
            assert(out@ =~= node_def_uses(*def));
            out
        },
        NodeDef::AllCxInterned => Vec::new(),
        NodeDef::ModuleDialect(_) => Vec::new(),
        NodeDef::ModuleDebugInfo(_) => Vec::new(),
        NodeDef::GlobalVar(decl) => uses_of_global_var(decl),
        NodeDef::Func(decl) => uses_of_func_decl(decl),
    }
}

/// Counts one more use of `k`.
pub fn count_use(counts: &mut UseMap<usize>, k: Use)
    requires
        old(counts).wf(),
    ensures
        final(counts)@ == bump(old(counts)@, k),
        final(counts).wf(),
        forall|len: nat|
            keys_below(old(counts)@, len) && (k matches Use::CxInterned(x) ==> x.index() < len)
                ==> keys_below(final(counts)@, len),
{
    match counts.find(k) {
        Some(i) => {
            let n: usize = counts.value_at(i);
            let next: usize = if n < usize::MAX {
                n + 1
            } else {
                n
            };
            counts.set_value(i, next);
        },
        None => {
            counts.push(k, 1);
        },
    }
}

/// The definition that the version of `root` has for a node, if it has
/// one: the root itself for the root, the group of interned definitions
/// for that, and for any other node what the root's module holds.
pub open spec fn def_of<'a>(root: Root<'a>, node: Node) -> Option<NodeDef<'a>> {
    match node {
        Node::Root => Some(NodeDef::Root(root)),
        Node::AllCxInterned => Some(NodeDef::AllCxInterned),
        _ => node_def_in(module_of(root), node),
    }
}

/// Whether each registered definition is the one that the version of
/// `root` has for its node.
pub open spec fn defs_agree<'a>(root: Root<'a>, defs: Map<u64, NodeDef<'a>>) -> bool {
    forall|node: Node| #[trigger]
        defs.contains_key(node.key()) ==> def_of(root, node) == Some(defs[node.key()])
}

/// Sets the count of `k` to 1, entering it last if it is not in the
/// table.
pub fn enter_use(counts: &mut UseMap<usize>, k: Use)
    requires
        old(counts).wf(),
    ensures
        final(counts)@ == put(old(counts)@, k, 1),
        final(counts).wf(),
        forall|len: nat|
            keys_below(old(counts)@, len) && (k matches Use::CxInterned(x) ==> x.index() < len)
                ==> keys_below(final(counts)@, len),
{
    match counts.find(k) {
        Some(i) => {
            counts.set_value(i, 1);
        },
        None => {
            counts.push(k, 1);
        },
    }
}

/// The discovery of one version, as it goes on.
pub struct Discoverer<'a> {
    pub cx: &'a Context,
    /// What is being discovered.
    pub root: Root<'a>,
    /// Where global variables and functions are looked up: the module
    /// of the root.
    pub module: Option<&'a Module>,
    pub counts: UseMap<usize>,
    pub defs: FxHashMap<u64, NodeDef<'a>>,
}

impl<'a> Discoverer<'a> {
    /// What has been discovered.
    pub open spec fn state(&self) -> Discovery<'a> {
        Discovery { counts: self.counts@, defs: self.defs@ }
    }

    /// Whether what has been discovered is consistent: no use is in the
    /// table twice, the interned definitions in it have an index within
    /// the context, and each registered definition is the one that the
    /// version has for its node.
    pub open spec fn wf(&self) -> bool {
        &&& self.counts.wf()
        &&& keys_below(self.counts@, self.cx.interned@.len())
        &&& self.module == module_of(self.root)
        &&& defs_agree(self.root, self.defs@)
    }

    /// How many node keys are still without a definition.
    pub open spec fn open_keys(&self) -> nat {
        unregistered(self.defs@, key_bound(self.module))
    }

    /// A discoverer for `root` that has discovered nothing.
    pub fn new(cx: &'a Context, root: Root<'a>) -> (r: Self)
        ensures
            r.cx == cx,
            r.root == root,
            r.module == module_of(root),
            r.state() == Discovery::<'a>::start(),
            r.wf(),
    {
        let module = match root {
            Root::Module(module) => Some(module),
            Root::Mismatch(_) => None,
        };
        Discoverer { cx, root, module, counts: UseMap::new(), defs: fx_new() }
    }

    /// One more interned definition discovered.
    fn group(&mut self)
        requires
            old(self).wf(),
        ensures
            final(self).state() == old(self).state().grouped(),
            final(self).wf(),
            final(self).cx == old(self).cx,
            final(self).module == old(self).module,
            final(self).root == old(self).root,
            final(self).open_keys() <= old(self).open_keys(),
    {
        let group = Use::Node(Node::AllCxInterned);
        if self.counts.find(group).is_some() {
            count_use(&mut self.counts, group);
        } else if fx_get(&self.defs, Node::AllCxInterned.get_key()).is_some() {
        } else {
            proof {
                lemma_unregistered_insert(
                    self.defs@,
                    key_bound(self.module),
                    Node::AllCxInterned.key(),
                    NodeDef::AllCxInterned,
                );
                lemma_agree_insert(
                    self.root,
                    self.defs@,
                    Node::AllCxInterned,
                    NodeDef::AllCxInterned,
                );
            }
            fx_insert(&mut self.defs, Node::AllCxInterned.get_key(), NodeDef::AllCxInterned);
            enter_use(&mut self.counts, group);
        }
    }

    /// Uses `u` once: see [`visit`].
    pub fn visit(&mut self, u: Use)
        requires
            old(self).wf(),
        ensures
            final(self).state() == visit(old(self).cx, old(self).module, old(self).state(), u),
            final(self).wf(),
            final(self).cx == old(self).cx,
            final(self).module == old(self).module,
            final(self).root == old(self).root,
            final(self).open_keys() <= old(self).open_keys(),
        decreases old(self).open_keys(), rank(u), 1nat, 0nat,
    {
        match u {
            Use::CxInterned(x) => {
                if self.counts.find(u).is_some() {
                    count_use(&mut self.counts, u);
                } else if (x.get_index() as usize) < self.cx.interned.len() {
                    let uses = uses_of_interned(&self.cx.interned[x.get_index() as usize]);
                    self.visit_all(&uses, x.get_index() as usize);
                    self.group();
                    enter_use(&mut self.counts, u);
                }
            },
            Use::Node(node) => match lookup_node_def(self.module, node) {
                Some(def) => {
                    self.use_node(node, def);
                },
                None => {},
            },
            _ => {
                count_use(&mut self.counts, u);
            },
        }
    }

    /// Uses the node `node` once, where `def` is the definition that the
    /// version has for it: see [`use_node`].
    pub fn use_node(&mut self, node: Node, def: NodeDef<'a>)
        requires
            old(self).wf(),
            def_of(old(self).root, node) == Some(def),
        ensures
            final(self).state() == use_node(
                old(self).cx,
                old(self).module,
                old(self).state(),
                node,
                def,
            ),
            final(self).wf(),
            final(self).cx == old(self).cx,
            final(self).module == old(self).module,
            final(self).root == old(self).root,
            final(self).open_keys() <= old(self).open_keys(),
        decreases old(self).open_keys(), 0nat, 0nat, 0nat,
    {
        if self.counts.find(Use::Node(node)).is_some() {
            count_use(&mut self.counts, Use::Node(node));
        } else if fx_get(&self.defs, node.get_key()).is_some() {
        } else {
            proof {
                lemma_unregistered_insert(self.defs@, key_bound(self.module), node.key(), def);
                lemma_agree_insert(self.root, self.defs@, node, def);
            }
            fx_insert(&mut self.defs, node.get_key(), def);
            let uses = uses_of_node_def(&def);
            let limit: usize = self.cx.interned.len();
            self.visit_all(&uses, limit);
            enter_use(&mut self.counts, Use::Node(node));
        }
    }

    /// Uses each of `uses` once, in order: see [`visit_all`].
    pub fn visit_all(&mut self, uses: &Vec<Use>, limit: usize)
        requires
            old(self).wf(),
        ensures
            final(self).state() == visit_all(
                old(self).cx,
                old(self).module,
                old(self).state(),
                uses@,
                uses@.len(),
                limit as nat,
            ),
            final(self).wf(),
            final(self).cx == old(self).cx,
            final(self).module == old(self).module,
            final(self).root == old(self).root,
            final(self).open_keys() <= old(self).open_keys(),
        decreases old(self).open_keys(), limit, 2nat, 0nat,
    {
        let mut i: usize = 0;
        while i < uses.len()
            invariant
                0 <= i <= uses.len(),
                self.wf(),
                self.cx == old(self).cx,
                self.module == old(self).module,
                self.root == old(self).root,
                self.open_keys() <= old(self).open_keys(),
                self.state() == visit_all(
                    old(self).cx,
                    old(self).module,
                    old(self).state(),
                    uses@,
                    i as nat,
                    limit as nat,
                ),
            decreases uses.len() - i,
        {
            let u = uses[i];
            let within = match u {
                Use::CxInterned(x) => (x.get_index() as usize) < limit,
                _ => true,
            };
            if within {
                self.visit(u);
            }
            i += 1;
        }
    }
}

/// The definitions that a well-formed root has for its nodes are well
/// formed.
pub proof fn lemma_defs_of_root_wf<'a>(cx: &Context, root: Root<'a>, defs: Map<u64, NodeDef<'a>>)
    requires
        defs_agree(root, defs),
        root_wf(cx, root),
    ensures
        defs_wf(cx, defs),
{
    assert forall|node: Node| #[trigger] defs.contains_key(node.key()) implies node_def_wf(
        cx,
        defs[node.key()],
    ) by {
        assert(def_of(root, node) == Some(defs[node.key()]));
        match root {
            Root::Module(m) => {
                match node {
                    Node::GlobalVar(gv) => {
                        assert(global_var_wf(cx, m.global_vars@[gv.0 as int]));
                    },
                    Node::Func(func) => {
                        assert(func_decl_wf(cx, m.funcs@[func.0 as int]));
                    },
                    _ => {},
                }
            },
            Root::Mismatch(_) => {},
        }
    }
}

/// Registering the definition that a version has for a node keeps the
/// registered definitions in agreement with the version.
pub proof fn lemma_agree_insert<'a>(
    root: Root<'a>,
    defs: Map<u64, NodeDef<'a>>,
    node: Node,
    def: NodeDef<'a>,
)
    requires
        defs_agree(root, defs),
        def_of(root, node) == Some(def),
    ensures
        defs_agree(root, defs.insert(node.key(), def)),
{
    assert forall|other: Node| #[trigger]
        defs.insert(node.key(), def).contains_key(other.key()) implies def_of(root, other)
        == Some(defs.insert(node.key(), def)[other.key()]) by {
        if other.key() == node.key() {
            Node::lemma_key_injective(other, node);
        } else {
            assert(defs.contains_key(other.key()));
        }
    }
}

} // verus!
