//! The plan: everything that is printed for one or several versions of a
//! root, in an order in which definitions come before their uses.
use vstd::prelude::*;
use rustc_hash::FxHashMap;
use crate::ir::{Context, Module};
use crate::print::discovery::{
    defs_wf, discover, lemma_defs_of_root_wf, root_wf, Discoverer, NodeDef, Root,
};
use crate::print::use_map::{has_key, index_of, keys_below, UseMap};
use crate::print::uses::{Node, Use};

verus! {

/// One version of what a plan is for: its name and the definitions of
/// the nodes found in it.
pub struct PlanVersion<'a> {
    /// A word for the version, such as the name of the pass that made
    /// it; empty where there is only one version.
    pub name: String,
    pub node_defs: FxHashMap<u64, NodeDef<'a>>,
}

/// The mathematical value of a [`PlanVersion`].
pub ghost struct VersionView<'a> {
    pub name: Seq<char>,
    pub defs: Map<u64, NodeDef<'a>>,
}

impl<'a> View for PlanVersion<'a> {
    type V = VersionView<'a>;

    open spec fn view(&self) -> VersionView<'a> {
        VersionView { name: self.name@, defs: self.node_defs@ }
    }
}

/// What is to be printed, definitions before uses.
///
/// To represent parts of a graph as text, its nodes are first put in an
/// order, which the plan records. Interned definitions may later be left
/// without a definition of their own where printing them at their use is
/// better, which is why the plan counts uses.
pub struct Plan<'a> {
    pub cx: &'a Context,
    /// The versions, in the order in which they were given.
    pub versions: Vec<PlanVersion<'a>>,
    /// For each use, the largest number of times that any one version
    /// uses it, in the order of discovery.
    pub use_counts: UseMap<usize>,
}

/// The larger of two counts.
pub open spec fn larger(a: usize, b: usize) -> usize {
    if a >= b {
        a
    } else {
        b
    }
}

/// `acc` with one entry of another table merged in: a key that `acc` has
/// keeps its place and gets the larger count, a new key comes last.
pub open spec fn merge_entry(acc: Seq<(Use, usize)>, e: (Use, usize)) -> Seq<(Use, usize)> {
    if has_key(acc, e.0) {
        acc.update(index_of(acc, e.0), (e.0, larger(e.1, acc[index_of(acc, e.0)].1)))
    } else {
        acc.push(e)
    }
}

/// `acc` with the first `count` entries of `new` merged in, in order.
pub open spec fn merge(acc: Seq<(Use, usize)>, new: Seq<(Use, usize)>, count: nat) -> Seq<
    (Use, usize),
>
    decreases count,
{
    if count == 0 || count > new.len() {
        acc
    } else {
        merge_entry(merge(acc, new, (count - 1) as nat), new[count - 1])
    }
}

/// The counts of the first `count` roots, each discovered on its own,
/// merged in order.
pub open spec fn merged_counts<'a>(cx: &'a Context, roots: Seq<Root<'a>>, count: nat) -> Seq<
    (Use, usize),
>
    decreases count,
{
    if count == 0 || count > roots.len() {
        Seq::empty()
    } else {
        let new = discover(cx, roots[count - 1]).counts;
        merge(merged_counts(cx, roots, (count - 1) as nat), new, new.len())
    }
}

/// The table with the entry of the root, if there is one, moved to the
/// end.
pub open spec fn root_last(counts: Seq<(Use, usize)>) -> Seq<(Use, usize)> {
    let root = Use::Node(Node::Root);
    if has_key(counts, root) {
        counts.remove(index_of(counts, root)).push(counts[index_of(counts, root)])
    } else {
        counts
    }
}

/// The roots of named versions.
pub open spec fn roots_of<'a>(versions: Seq<(String, Root<'a>)>) -> Seq<Root<'a>> {
    versions.map_values(|v: (String, Root<'a>)| v.1)
}

impl<'a> Plan<'a> {
    /// The values of the versions.
    pub open spec fn version_views(&self) -> Seq<VersionView<'a>> {
        self.versions@.map_values(|v: PlanVersion<'a>| v@)
    }

    /// Whether the plan is well formed: its context is, the definitions
    /// it holds are well formed against the context, and no use is in
    /// its table twice.
    pub open spec fn wf(&self) -> bool {
        &&& self.cx.wf()
        &&& self.use_counts.wf()
        &&& keys_below(self.use_counts@, self.cx.interned@.len())
        &&& forall|i: int|
            0 <= i < self.versions@.len() ==> defs_wf(
                self.cx,
                (#[trigger] self.versions@[i]).node_defs@,
            )
    }

    /// Whether the plan is one for the single, unnamed version of `root`.
    pub open spec fn is_for_root(&self, cx: &'a Context, root: Root<'a>) -> bool {
        &&& self.cx == cx
        &&& self.version_views() == seq![
            VersionView { name: Seq::empty(), defs: discover(cx, root).defs },
        ]
        &&& self.use_counts@ == discover(cx, root).counts
    }

    /// Whether the plan is the one for the named versions `versions`.
    pub open spec fn is_for_versions(
        &self,
        cx: &'a Context,
        versions: Seq<(String, Root<'a>)>,
    ) -> bool {
        &&& self.cx == cx
        &&& self.version_views() == Seq::new(
            versions.len(),
            |i: int|
                VersionView { name: versions[i].0@, defs: discover(cx, versions[i].1).defs },
        )
        &&& self.use_counts@ == root_last(
            merged_counts(cx, roots_of(versions), versions.len()),
        )
    }

    /// A plan with everything that `root` refers to, followed by `root`
    /// itself.
    ///
    /// Planning works on any input. The plan is well formed, which is what
    /// printing it asks for, if the context and the root are.
    pub fn for_root(cx: &'a Context, root: Root<'a>) -> (plan: Self)
        ensures
            plan.is_for_root(cx, root),
            plan.use_counts.wf(),
            cx.wf() && root_wf(cx, root) ==> plan.wf(),
    {
        let mut d = Discoverer::new(cx, root);
        d.use_node(Node::Root, NodeDef::Root(root));
        proof {
            if root_wf(cx, root) {
                lemma_defs_of_root_wf(cx, root, d.defs@);
            }
        }
        let Discoverer { cx: _, root: _, module: _, counts, defs } = d;
        let mut versions: Vec<PlanVersion<'a>> = Vec::new();
        versions.push(PlanVersion { name: String::new(), node_defs: defs });
        let plan = Plan { cx, versions, use_counts: counts };
        assert(plan.version_views() =~= seq![
            VersionView { name: Seq::empty(), defs: discover(cx, root).defs },
        ]);
        plan
    }

    /// A plan with all that `module` exports and everything that those
    /// exports refer to.
    pub fn for_module(cx: &'a Context, module: &'a Module) -> (plan: Self)
        ensures
            plan.is_for_root(cx, Root::Module(module)),
            plan.use_counts.wf(),
            cx.wf() && module.wf(cx) ==> plan.wf(),
    {
        Plan::for_root(cx, Root::Module(module))
    }

    /// A plan that combines the plans of several versions.
    ///
    /// Each version has a name, which should describe it (such as the
    /// name of the pass that made it). The roots can be unrelated, but
    /// the output is most useful where most definitions are in most
    /// versions.
    pub fn for_versions(cx: &'a Context, versions: &Vec<(String, Root<'a>)>) -> (plan: Self)
        ensures
            plan.is_for_versions(cx, versions@),
            plan.use_counts.wf(),
            cx.wf() && (forall|i: int|
                0 <= i < versions@.len() ==> root_wf(cx, (#[trigger] versions@[i]).1))
                ==> plan.wf(),
    {
        let ghost roots = roots_of(versions@);
        let mut plan_versions: Vec<PlanVersion<'a>> = Vec::new();
        let mut combined: UseMap<usize> = UseMap::new();
        let mut i: usize = 0;
        while i < versions.len()
            invariant
                0 <= i <= versions.len(),
                roots == roots_of(versions@),
                combined.wf(),
                keys_below(combined@, cx.interned@.len()),
                combined@ == merged_counts(cx, roots, i as nat),
                plan_versions@.len() == i,
                forall|j: int|
                    0 <= j < i && root_wf(cx, versions@[j].1) ==> defs_wf(
                        cx,
                        (#[trigger] plan_versions@[j]).node_defs@,
                    ),
                forall|j: int|
                    0 <= j < i ==> (#[trigger] plan_versions@[j])@ == (VersionView {
                        name: versions@[j].0@,
                        defs: discover(cx, versions@[j].1).defs,
                    }),
            decreases versions.len() - i,
        {
            let root = versions[i].1;
            let mut d = Discoverer::new(cx, root);
            d.use_node(Node::Root, NodeDef::Root(root));
            proof {
                if root_wf(cx, root) {
                    lemma_defs_of_root_wf(cx, root, d.defs@);
                }
            }
            let Discoverer { cx: _, root: _, module: _, counts, defs } = d;
            plan_versions.push(PlanVersion { name: versions[i].0.clone(), node_defs: defs });
            merge_into(&mut combined, &counts);
            i += 1;
        }
        move_root_last(&mut combined);
        let plan = Plan { cx, versions: plan_versions, use_counts: combined };
        assert(plan.version_views() =~= Seq::new(
            versions@.len(),
            |i: int|
                VersionView { name: versions@[i].0@, defs: discover(cx, versions@[i].1).defs },
        ));
        plan
    }
}

/// Merges the counts of `new` into `acc`: see [`merge`].
pub fn merge_into(acc: &mut UseMap<usize>, new: &UseMap<usize>)
    requires
        old(acc).wf(),
    ensures
        final(acc)@ == merge(old(acc)@, new@, new@.len()),
        final(acc).wf(),
        forall|len: nat|
            keys_below(old(acc)@, len) && keys_below(new@, len) ==> keys_below(final(acc)@, len),
{
    let mut i: usize = 0;
    while i < new.len()
        invariant
            0 <= i <= new@.len(),
            acc.wf(),
            forall|len: nat|
                keys_below(old(acc)@, len) && keys_below(new@, len) ==> keys_below(acc@, len),
            acc@ == merge(old(acc)@, new@, i as nat),
        decreases new@.len() - i,
    {
        let k = new.key_at(i);
        let c: usize = new.value_at(i);
        match acc.find(k) {
            Some(at) => {
                let old_count: usize = acc.value_at(at);
                let count: usize = if c >= old_count {
                    c
                } else {
                    old_count
                };
                acc.set_value(at, count);
            },
            None => {
                acc.push(k, c);
            },
        }
        i += 1;
    }
}

/// Moves the entry of the root, if there is one, to the end: see
/// [`root_last`].
pub fn move_root_last(counts: &mut UseMap<usize>)
    requires
        old(counts).wf(),
    ensures
        final(counts)@ == root_last(old(counts)@),
        final(counts).wf(),
        forall|len: nat| keys_below(old(counts)@, len) ==> keys_below(final(counts)@, len),
{
    let root = Use::Node(Node::Root);
    match counts.find(root) {
        Some(i) => {
            let (k, v) = counts.remove(i);
            assert(!has_key(counts@, k)) by {
                if has_key(counts@, k) {
                    let j = index_of(counts@, k);
                    let before = old(counts)@;
                    if j < i {
                        assert(before[j].0 == k);
                    } else {
                        assert(before[j + 1].0 == k);
                    }
                }
            }
            counts.push(k, v);
        },
        None => {},
    }
}

} // verus!
