//! Putting the prints of all definitions together: as one document for
//! a single unnamed version, else as rows of what each version has,
//! with versions that agree put together.
use vstd::prelude::*;
use vstd::string::*;
use crate::layout::texts;
use crate::pretty::{interspersed, text, views, Doc, Fragment, NodeView};
use crate::print::attrs::{insert_name, AttrsAndDef};
use crate::fx::fx_get;
use crate::print::discovery::{defs_wf, node_def_wf, NodeDef, Root};
use crate::print::func_text::func_decl_body;
use crate::print::interned::use_doc;
use crate::print::module_text::{
    all_interned_body, attrs_doc, debug_info_body, dialect_body, global_var_body, mismatch_body,
    module_body,
};
use crate::print::plan::{Plan, PlanVersion, VersionView};
use crate::print::printer::{Printer, Scheme};
use crate::print::uses::{Node, Use};

verus! {

/// Either the one document of a single unnamed version, or for each
/// node what each version has for it.
#[derive(Debug)]
pub enum Versions<PF> {
    Single(PF),
    Multiple {
        version_names: Vec<String>,
        /// For each node, what the versions have for it, in the order of
        /// the versions: each entry stands for as many versions in a row
        /// as its number says, which all have the same.
        per_node_versions_with_repeat_count: Vec<Vec<(PF, usize)>>,
    },
}

/// The mathematical value of a [`Versions`].
pub ghost enum VersionsView<D> {
    Single(D),
    Multiple { version_names: Seq<Seq<char>>, rows: Seq<Seq<(D, usize)>> },
}

/// The value of one row.
pub open spec fn row_view<PF: View>(row: Seq<(PF, usize)>) -> Seq<(PF::V, usize)> {
    row.map_values(|e: (PF, usize)| (e.0@, e.1))
}

impl<PF: View> View for Versions<PF> {
    type V = VersionsView<PF::V>;

    open spec fn view(&self) -> VersionsView<PF::V> {
        match self {
            Versions::Single(doc) => VersionsView::Single(doc@),
            Versions::Multiple { version_names, per_node_versions_with_repeat_count } => {
                VersionsView::Multiple {
                    version_names: texts(version_names@),
                    rows: per_node_versions_with_repeat_count@.map_values(
                        |row: Vec<(PF, usize)>| row_view(row@),
                    ),
                }
            },
        }
    }
}

/// How many versions the first `count` entries of a row stand for.
pub open spec fn versions_covered<D>(row: Seq<(D, usize)>, count: nat) -> nat
    decreases count,
{
    if count == 0 || count > row.len() {
        0
    } else {
        versions_covered(row, (count - 1) as nat) + row[count - 1].1 as nat
    }
}

impl<D> VersionsView<D> {
    /// Whether no row stands for more versions than there are names.
    pub open spec fn wf(self) -> bool {
        match self {
            VersionsView::Single(_) => true,
            VersionsView::Multiple { version_names, rows } => forall|i: int|
                0 <= i < rows.len() ==> versions_covered(
                    #[trigger] rows[i],
                    rows[i].len(),
                ) <= version_names.len(),
        }
    }
}

/// The attributes and the body of a node's definition.
pub open spec fn node_def_parts(p: Scheme, def: NodeDef) -> (Doc, Doc) {
    match def {
        NodeDef::Root(Root::Module(module)) => (Seq::empty(), module_body(p, *module)),
        NodeDef::Root(Root::Mismatch(pair)) => (Seq::empty(), mismatch_body(p, pair)),
        NodeDef::AllCxInterned => (Seq::empty(), all_interned_body(p)),
        NodeDef::ModuleDialect(dialect) => (Seq::empty(), dialect_body(*dialect)),
        NodeDef::ModuleDebugInfo(info) => (Seq::empty(), debug_info_body(p.cx, *info)),
        NodeDef::GlobalVar(decl) => (attrs_doc(p, decl.attrs), global_var_body(p, *decl)),
        NodeDef::Func(decl) => (attrs_doc(p, decl.attrs), func_decl_body(p, *decl)),
    }
}

/// The name at the definition of a node: none for the root and for the
/// group of interned definitions.
pub open spec fn node_name(p: Scheme, node: Node) -> Doc {
    if node.category_text() is Err {
        Seq::empty()
    } else {
        use_doc(p, Use::Node(node), true)
    }
}

/// What a version has for a node: its definition with its name, or
/// nothing if the version does not define the node.
pub open spec fn version_doc(p: Scheme, version: VersionView, node: Node) -> Doc {
    if version.defs.contains_key(node.key()) {
        insert_name(
            node_def_parts(p, version.defs[node.key()]).0,
            node_def_parts(p, version.defs[node.key()]).1,
            node_name(p, node),
        )
    } else {
        Seq::empty()
    }
}

/// What each version has for a node.
pub open spec fn version_docs(p: Scheme, versions: Seq<VersionView>, node: Node) -> Seq<Doc> {
    Seq::new(versions.len(), |v: int| version_doc(p, versions[v], node))
}

/// The first `count` documents with each run of equal documents put
/// together into its first document and the length of the run.
pub open spec fn run_lengths(docs: Seq<Doc>, count: nat) -> Seq<(Doc, usize)>
    decreases count,
{
    if count == 0 || count > docs.len() {
        Seq::empty()
    } else if count >= 2 && docs[count - 1] == docs[count - 2] {
        let prev = run_lengths(docs, (count - 1) as nat);
        prev.update(prev.len() - 1, (prev.last().0, (prev.last().1 + 1) as usize))
    } else {
        run_lengths(docs, (count - 1) as nat).push((docs[count - 1], 1))
    }
}

/// The row of a node: what the versions have for it, with versions in a
/// row that have the same put together. The group of interned
/// definitions is the same for all versions.
pub open spec fn node_row(p: Scheme, versions: Seq<VersionView>, node: Node) -> Seq<
    (Doc, usize),
> {
    if versions.len() == 0 {
        Seq::empty()
    } else if node == Node::AllCxInterned {
        seq![
            (
                insert_name(Seq::empty(), all_interned_body(p), node_name(p, node)),
                versions.len() as usize,
            ),
        ]
    } else {
        run_lengths(version_docs(p, versions, node), versions.len())
    }
}

/// The rows of the nodes among the first `count` uses of the printer.
pub open spec fn node_rows(p: Scheme, versions: Seq<VersionView>, count: nat) -> Seq<
    Seq<(Doc, usize)>,
>
    decreases count,
{
    if count == 0 || count > p.styles.len() {
        Seq::empty()
    } else {
        match p.styles[count - 1].0 {
            Use::Node(node) => node_rows(p, versions, (count - 1) as nat).push(
                node_row(p, versions, node),
            ),
            _ => node_rows(p, versions, (count - 1) as nat),
        }
    }
}

/// The definitions of the nodes other than the root among the first
/// `count` uses of the printer, without those that are empty: of each
/// node, what the last entry of its row has.
pub open spec fn single_parts(p: Scheme, versions: Seq<VersionView>, count: nat) -> Seq<Doc>
    decreases count,
{
    if count == 0 || count > p.styles.len() {
        Seq::empty()
    } else {
        match p.styles[count - 1].0 {
            Use::Node(node) => if node != Node::Root && node_row(p, versions, node).len() > 0
                && node_row(p, versions, node).last().0.len() > 0 {
                single_parts(p, versions, (count - 1) as nat).push(
                    node_row(p, versions, node).last().0,
                )
            } else {
                single_parts(p, versions, (count - 1) as nat)
            },
            _ => single_parts(p, versions, (count - 1) as nat),
        }
    }
}

/// Whether there is exactly one version, and it has no name.
pub open spec fn is_unversioned(versions: Seq<VersionView>) -> bool {
    versions.len() == 1 && versions[0].name.len() == 0
}

/// The print of a plan.
///
/// A plan with one unnamed version is printed as one document: the
/// definitions of its nodes other than the root, in the plan's order,
/// without those that are empty, with an empty line between them. Any
/// other plan is printed as the names of its versions and a row for each
/// node, the root among them.
pub open spec fn plan_doc(p: Scheme, plan: &Plan) -> VersionsView<Doc> {
    let versions = plan.version_views();
    if is_unversioned(versions) {
        VersionsView::Single(
            interspersed(single_parts(p, versions, p.styles.len()), text("\n\n"@)),
        )
    } else {
        VersionsView::Multiple {
            version_names: Seq::new(versions.len(), |v: int| versions[v].name),
            rows: node_rows(p, versions, p.styles.len()),
        }
    }
}

/// Two rows whose first `count` entries stand for the same numbers of
/// versions cover the same number of versions with them.
pub proof fn lemma_covered_same<A, B>(a: Seq<(A, usize)>, b: Seq<(B, usize)>, count: nat)
    requires
        count <= a.len(),
        count <= b.len(),
        forall|i: int| 0 <= i < count ==> (#[trigger] a[i]).1 == (#[trigger] b[i]).1,
    ensures
        versions_covered(a, count) == versions_covered(b, count),
    decreases count,
{
    if count > 0 {
        lemma_covered_same(a, b, (count - 1) as nat);
        assert(a[count - 1].1 == b[count - 1].1);
    }
}

/// The runs of the first `count` documents stand for `count` versions.
pub proof fn lemma_run_lengths_cover(docs: Seq<Doc>, count: nat)
    requires
        count <= docs.len(),
        count <= usize::MAX,
    ensures
        versions_covered(run_lengths(docs, count), run_lengths(docs, count).len()) == count,
        count > 0 ==> run_lengths(docs, count).len() > 0,
    decreases count,
{
    if count > 0 {
        let prev = run_lengths(docs, (count - 1) as nat);
        let now = run_lengths(docs, count);
        lemma_run_lengths_cover(docs, (count - 1) as nat);
        if count >= 2 && docs[count - 1] == docs[count - 2] {
            let last = prev.len() - 1;
            lemma_covered_same(prev, now, last as nat);
            assert(versions_covered(prev, prev.len()) == versions_covered(prev, last as nat)
                + prev[last].1);
            assert(versions_covered(now, now.len()) == versions_covered(now, last as nat)
                + now[last].1);
        } else {
            lemma_covered_same(prev, now, prev.len());
        }
    }
}

/// No row of a plan's print stands for more versions than the plan has.
pub proof fn lemma_node_rows_wf(p: Scheme, versions: Seq<VersionView>, count: nat)
    requires
        versions.len() <= usize::MAX,
    ensures
        forall|i: int|
            0 <= i < node_rows(p, versions, count).len() ==> versions_covered(
                #[trigger] node_rows(p, versions, count)[i],
                node_rows(p, versions, count)[i].len(),
            ) <= versions.len(),
    decreases count,
{
    if count == 0 || count > p.styles.len() {
    } else {
        lemma_node_rows_wf(p, versions, (count - 1) as nat);
        let before = node_rows(p, versions, (count - 1) as nat);
        let now = node_rows(p, versions, count);
        match p.styles[count - 1].0 {
            Use::Node(node) => {
                let row = node_row(p, versions, node);
                if versions.len() == 0 {
                    assert(versions_covered(row, 0) == 0);
                } else if node == Node::AllCxInterned {
                    assert(versions_covered(row, 1) == versions_covered(row, 0) + row[0].1);
                } else {
                    lemma_run_lengths_cover(version_docs(p, versions, node), versions.len());
                }
                assert(now == before.push(row));
                assert forall|i: int| 0 <= i < now.len() implies versions_covered(
                    #[trigger] now[i],
                    now[i].len(),
                ) <= versions.len() by {
                    if i < before.len() {
                        assert(now[i] == before[i]);
                    } else {
                        assert(now[i] == row);
                    }
                }
            },
            _ => {
                assert(now == before);
            },
        }
    }
}

/// Puts each run of equal documents together, through
/// `itertools::Itertools::dedup_by_with_count` with equality of the
/// documents' values: each run is replaced by its first document and the
/// length of the run.
#[verifier::external_body]
pub(crate) fn dedup_with_count(docs: Vec<Fragment>) -> (r: Vec<(Fragment, usize)>)
    ensures
        row_view(r@) == run_lengths(views(docs@), docs@.len()),
{
    itertools::Itertools::dedup_by_with_count(docs.into_iter(), |a, b| a.same(b)).map(
        |(count, doc)| (doc, count),
    ).collect()
}

impl<'a> Printer<'a> {
    /// Prints the attributes and the body of a node's definition: see
    /// [`node_def_parts`].
    pub fn print_node_def(&self, def: &NodeDef<'_>) -> (r: AttrsAndDef)
        requires
            self.wf(),
            node_def_wf(self.cx, *def),
        ensures
            (r.attrs@, r.def_without_name@) == node_def_parts(self@, *def),
    {
        match def {
            NodeDef::Root(Root::Module(module)) => self.print_module(module),
            NodeDef::Root(Root::Mismatch(pair)) => self.print_mismatch(pair),
            NodeDef::AllCxInterned => self.print_all_interned(),
            NodeDef::ModuleDialect(dialect) => self.print_dialect(dialect),
            NodeDef::ModuleDebugInfo(info) => self.print_debug_info(info),
            NodeDef::GlobalVar(decl) => self.print_global_var(decl),
            NodeDef::Func(decl) => self.print_func_decl(decl),
        }
    }

    /// Prints the name at the definition of a node: see [`node_name`].
    pub fn print_node_name(&self, node: Node) -> (r: Fragment)
        requires
            self.wf(),
        ensures
            r@ == node_name(self@, node),
    {
        match node.category() {
            Ok(_) => self.print_as_ref_or_def(Use::Node(node), true),
            Err(_) => Fragment::new(),
        }
    }
}

impl<'a> Plan<'a> {
    /// Prints the row of a node: see [`node_row`].
    pub fn print_node_row(&self, printer: &Printer<'_>, node: Node) -> (r: Vec<(Fragment, usize)>)
        requires
            self.wf(),
            printer.wf(),
            printer.cx == self.cx,
        ensures
            row_view(r@) == node_row(printer@, self.version_views(), node),
    {
        let ghost versions = self.version_views();
        if self.versions.len() == 0 {
            let r: Vec<(Fragment, usize)> = Vec::new();
            assert(row_view(r@) =~= node_row(printer@, versions, node));
            return r;
        }
        let name = printer.print_node_name(node);
        if node == Node::AllCxInterned {
            let doc = printer.print_all_interned().insert_name_before_def(name);
            let mut r: Vec<(Fragment, usize)> = Vec::new();
            r.push((doc, self.versions.len()));
            assert(row_view(r@) =~= node_row(printer@, versions, node));
            return r;
        }
        let mut docs: Vec<Fragment> = Vec::new();
        let mut v: usize = 0;
        while v < self.versions.len()
            invariant
                0 <= v <= self.versions.len(),
                self.wf(),
                printer.wf(),
                printer.cx == self.cx,
                versions == self.version_views(),
                name@ == node_name(printer@, node),
                docs@.len() == v,
                forall|j: int|
                    0 <= j < v ==> (#[trigger] docs@[j])@ == version_doc(
                        printer@,
                        versions[j],
                        node,
                    ),
            decreases self.versions.len() - v,
        {
            assert(versions[v as int] == self.versions@[v as int]@);
            let doc = match fx_get(&self.versions[v].node_defs, node.get_key()) {
                Some(def) => {
                    assert(defs_wf(self.cx, self.versions@[v as int].node_defs@));
                    printer.print_node_def(&def).insert_name_before_def(name.clone())
                },
                None => Fragment::new(),
            };
            docs.push(doc);
            v += 1;
        }
        assert(views(docs@) =~= version_docs(printer@, versions, node));
        dedup_with_count(docs)
    }

    /// Prints the nodes of the plan's one version other than the root,
    /// without those whose print is empty: see [`single_parts`].
    pub fn print_single_parts(&self, printer: &Printer<'_>) -> (parts: Vec<Fragment>)
        requires
            self.wf(),
            printer.wf(),
            printer.cx == self.cx,
        ensures
            views(parts@) == single_parts(printer@, self.version_views(), printer@.styles.len()),
    {
        let ghost versions = self.version_views();
        let mut parts: Vec<Fragment> = Vec::new();
        let mut i: usize = 0;
        while i < printer.use_styles.len()
            invariant
                0 <= i <= printer.use_styles@.len(),
                self.wf(),
                printer.wf(),
                printer.cx == self.cx,
                versions == self.version_views(),
                views(parts@) == single_parts(printer@, versions, i as nat),
            decreases printer.use_styles@.len() - i,
        {
            match printer.use_styles.key_at(i) {
                Use::Node(node) => {
                    if node != Node::Root {
                        let mut row = self.print_node_row(printer, node);
                        let ghost entries = row_view(row@);
                        match row.pop() {
                            Some((part, _)) => {
                                assert(entries.last().0 == part@);
                                if !part.is_empty() {
                                    let ghost before = views(parts@);
                                    parts.push(part);
                                    assert(views(parts@) =~= before.push(part@));
                                }
                            },
                            None => {},
                        }
                    }
                },
                _ => {},
            }
            i += 1;
        }
        parts
    }

    /// Prints the row of each node of the plan: see [`node_rows`].
    pub fn print_node_rows(&self, printer: &Printer<'_>) -> (rows: Vec<Vec<(Fragment, usize)>>)
        requires
            self.wf(),
            printer.wf(),
            printer.cx == self.cx,
        ensures
            rows@.map_values(|row: Vec<(Fragment, usize)>| row_view(row@)) == node_rows(
                printer@,
                self.version_views(),
                printer@.styles.len(),
            ),
    {
        let ghost versions = self.version_views();
        let mut rows: Vec<Vec<(Fragment, usize)>> = Vec::new();
        let mut i: usize = 0;
        while i < printer.use_styles.len()
            invariant
                0 <= i <= printer.use_styles@.len(),
                self.wf(),
                printer.wf(),
                printer.cx == self.cx,
                versions == self.version_views(),
                rows@.map_values(|row: Vec<(Fragment, usize)>| row_view(row@)) == node_rows(
                    printer@,
                    versions,
                    i as nat,
                ),
            decreases printer.use_styles@.len() - i,
        {
            match printer.use_styles.key_at(i) {
                Use::Node(node) => {
                    let ghost before = rows@.map_values(
                        |row: Vec<(Fragment, usize)>| row_view(row@),
                    );
                    let row = self.print_node_row(printer, node);
                    rows.push(row);
                    assert(rows@.map_values(|row: Vec<(Fragment, usize)>| row_view(row@))
                        =~= before.push(row_view(row@)));
                },
                _ => {},
            }
            i += 1;
        }
        rows
    }

    /// Prints everything in the plan: see [`plan_doc`].
    pub fn print(&self, printer: &Printer<'_>) -> (r: Versions<Fragment>)
        requires
            self.wf(),
            printer.wf(),
            printer.cx == self.cx,
        ensures
            r@ == plan_doc(printer@, self),
            r@.wf(),
    {
        let ghost versions = self.version_views();
        let version_count: usize = self.versions.len();
        assert(versions.len() == version_count);
        if version_count == 1 && self.versions[0].name.as_str().is_empty() {
            assert(versions[0] == self.versions@[0]@);
            let parts = self.print_single_parts(printer);
            Versions::Single(Fragment::join(parts, Fragment::text("\n\n")))
        } else {
            if version_count == 1 {
                assert(versions[0] == self.versions@[0]@);
            }
            proof {
                lemma_node_rows_wf(printer@, versions, printer@.styles.len());
            }
            let rows = self.print_node_rows(printer);
            let mut names: Vec<String> = Vec::new();
            let mut v: usize = 0;
            while v < self.versions.len()
                invariant
                    0 <= v <= self.versions.len(),
                    versions == self.version_views(),
                    names@.len() == v,
                    forall|j: int| 0 <= j < v ==> (#[trigger] names@[j])@ == versions[j].name,
                decreases self.versions.len() - v,
            {
                assert(versions[v as int] == self.versions@[v as int]@);
                names.push(self.versions[v].name.clone());
                v += 1;
            }
            let r = Versions::Multiple {
                version_names: names,
                per_node_versions_with_repeat_count: rows,
            };
            assert(texts(names@) =~= Seq::new(versions.len(), |v: int| versions[v].name));
            r
        }
    }
}

} // verus!
