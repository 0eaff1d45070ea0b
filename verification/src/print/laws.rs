//! What holds of every plan and every print.
use vstd::prelude::*;
use crate::ir::Context;
use crate::layout::{laid_out, plain_text};
use crate::pretty::{interspersed, text};
use crate::print::output::{laid_out_versions, pretty_doc, versions_text, MAX_LINE_WIDTH};
use crate::print::plan::Plan;
use crate::ir::Func;
use crate::print::plan::VersionView;
use crate::print::output::{versions_body, versions_head};
use crate::print::printer::{
    counter_of, define, define_all, define_in_versions, global_style, global_styles, local_styles,
    named_before, plan_styles, version_defs, Numbering, Scheme,
};
use crate::print::uses::UseStyle;
use crate::print::discovery::{discover, Root};
use crate::print::order::{in_order, lemma_plan_is_in_order};
use crate::print::plan::{larger, merge, merge_entry, merged_counts, root_last};
use crate::print::use_map::{distinct_keys, has_key, index_of, lemma_index_of, value_of};
use crate::print::uses::{Node, Use};
use crate::print::versions::{is_unversioned, plan_doc, VersionsView};

verus! {

/// The number of names given before entry `i` depends only on the
/// entries before it.
pub proof fn lemma_named_before_depends_on_prefix(
    cx: &Context,
    a: Seq<(Use, usize)>,
    b: Seq<(Use, usize)>,
    i: nat,
    counter: int,
)
    requires
        i <= a.len(),
        i <= b.len(),
        a.take(i as int) == b.take(i as int),
    ensures
        named_before(cx, a, i, counter) == named_before(cx, b, i, counter),
    decreases i,
{
    if i > 0 {
        assert(a.take(i as int)[i - 1] == b.take(i as int)[i - 1]);
        assert(a.take((i - 1) as int) =~= a.take(i as int).take((i - 1) as int));
        assert(b.take((i - 1) as int) =~= b.take(i as int).take((i - 1) as int));
        lemma_named_before_depends_on_prefix(cx, a, b, (i - 1) as nat, counter);
    }
}

/// The name of a definition does not depend on what is discovered after
/// it: two tables that agree up to and including entry `i` give entry
/// `i` the same style before labels and values are numbered, whatever
/// entries follow in either and however often those are used.
pub proof fn lemma_style_depends_on_prefix(
    cx: &Context,
    a: Seq<(Use, usize)>,
    b: Seq<(Use, usize)>,
    i: int,
)
    requires
        0 <= i < a.len(),
        i < b.len(),
        a.take(i + 1) == b.take(i + 1),
    ensures
        global_style(cx, a, i) == global_style(cx, b, i),
{
    assert(a.take(i + 1)[i] == b.take(i + 1)[i]);
    assert(a.take(i) =~= a.take(i + 1).take(i));
    assert(b.take(i) =~= b.take(i + 1).take(i));
    lemma_named_before_depends_on_prefix(cx, a, b, i as nat, counter_of(a[i].0));
}

/// The print of a plan with one unnamed version is a single document,
/// and its text is the text of that document: nothing is added to it,
/// and so no `//#IF`, `//#ELSEIF` or `//#ENDIF` that the document itself
/// does not hold.
pub proof fn lemma_single_version_text(p: Scheme, plan: &Plan)
    requires
        is_unversioned(plan.version_views()),
    ensures
        plan_doc(p, plan) is Single,
        versions_text(laid_out_versions(plan_doc(p, plan), MAX_LINE_WIDTH as nat)) == plain_text(
            laid_out(plan_doc(p, plan)->Single_0, MAX_LINE_WIDTH as nat),
            laid_out(plan_doc(p, plan)->Single_0, MAX_LINE_WIDTH as nat).len(),
        ),
{
}

/// How often a table says that `k` is used: zero if it does not list
/// `k`.
pub open spec fn count_in(t: Seq<(Use, usize)>, k: Use) -> usize {
    match value_of(t, k) {
        Some(c) => c,
        None => 0,
    }
}

/// The largest number of uses of `k` in the plans of the first `count`
/// roots, each planned on its own.
pub open spec fn max_count<'a>(cx: &'a Context, roots: Seq<Root<'a>>, count: nat, k: Use) -> usize
    decreases count,
{
    if count == 0 || count > roots.len() {
        0
    } else {
        larger(
            count_in(discover(cx, roots[count - 1]).counts, k),
            max_count(cx, roots, (count - 1) as nat, k),
        )
    }
}

/// In a table without repeated keys, the count of the key at a position
/// is the count at that position.
pub proof fn lemma_count_at(t: Seq<(Use, usize)>, i: int)
    requires
        distinct_keys(t),
        0 <= i < t.len(),
    ensures
        count_in(t, t[i].0) == t[i].1,
{
    lemma_index_of(t, t[i].0, i);
}

/// Merging one entry into a table gives its key the larger count and
/// leaves the counts of the other keys as they are.
pub proof fn lemma_merge_entry_count(acc: Seq<(Use, usize)>, e: (Use, usize), k: Use)
    requires
        distinct_keys(acc),
    ensures
        distinct_keys(merge_entry(acc, e)),
        count_in(merge_entry(acc, e), k) == (if k == e.0 {
            larger(e.1, count_in(acc, k))
        } else {
            count_in(acc, k)
        }),
{
    let r = merge_entry(acc, e);
    if has_key(acc, e.0) {
        let at = index_of(acc, e.0);
        assert(acc[at].0 == e.0);
        assert forall|i: int, j: int|
            0 <= i < r.len() && 0 <= j < r.len() && i != j implies (#[trigger] r[i]).0 != (
        #[trigger] r[j]).0 by {
            assert(r[i].0 == acc[i].0);
            assert(r[j].0 == acc[j].0);
        }
        if has_key(acc, k) {
            let i = index_of(acc, k);
            assert(acc[i].0 == k);
            assert(r[i].0 == k);
            lemma_index_of(r, k, i);
            lemma_index_of(acc, k, i);
        } else {
            if has_key(r, k) {
                let i = index_of(r, k);
                assert(r[i].0 == k);
                assert(acc[i].0 == k);
            }
        }
    } else {
        assert forall|i: int, j: int|
            0 <= i < r.len() && 0 <= j < r.len() && i != j implies (#[trigger] r[i]).0 != (
        #[trigger] r[j]).0 by {
            if i < acc.len() {
                assert(acc[i].0 == r[i].0);
            }
            if j < acc.len() {
                assert(acc[j].0 == r[j].0);
            }
        }
        if k == e.0 {
            lemma_index_of(r, k, acc.len() as int);
        } else if has_key(acc, k) {
            let i = index_of(acc, k);
            assert(acc[i].0 == k);
            assert(r[i] == acc[i]);
            lemma_index_of(r, k, i);
            lemma_index_of(acc, k, i);
        } else {
            if has_key(r, k) {
                let i = index_of(r, k);
                assert(r[i].0 == k);
                if i < acc.len() {
                    assert(acc[i].0 == k);
                }
            }
        }
    }
}

/// Merging the first `n` entries of a table into another gives each key
/// the larger of its counts in the two.
pub proof fn lemma_merge_count(acc: Seq<(Use, usize)>, new: Seq<(Use, usize)>, n: nat, k: Use)
    requires
        distinct_keys(acc),
        distinct_keys(new),
        n <= new.len(),
    ensures
        distinct_keys(merge(acc, new, n)),
        count_in(merge(acc, new, n), k) == larger(count_in(new.take(n as int), k), count_in(acc, k)),
    decreases n,
{
    let head = new.take(n as int);
    if n == 0 {
        assert(!has_key(head, k));
    } else {
        let before = new.take((n - 1) as int);
        let e = new[n - 1];
        lemma_merge_count(acc, new, (n - 1) as nat, k);
        lemma_merge_entry_count(merge(acc, new, (n - 1) as nat), e, k);
        assert(distinct_keys(head)) by {
            assert forall|i: int, j: int|
                0 <= i < head.len() && 0 <= j < head.len() && i != j implies (#[trigger] head[i]).0
                != (#[trigger] head[j]).0 by {
                assert(head[i] == new[i] && head[j] == new[j]);
            }
        }
        if k == e.0 {
            assert(head[n - 1] == e);
            lemma_count_at(head, n - 1);
            if has_key(before, k) {
                let i = index_of(before, k);
                assert(before[i].0 == k);
                assert(new[i].0 == k);
                assert(new[n - 1].0 == k);
            }
        } else {
            if has_key(head, k) {
                let i = index_of(head, k);
                assert(head[i].0 == k);
                assert(before[i] == head[i]);
                assert(distinct_keys(before)) by {
                    assert forall|a: int, b: int|
                        0 <= a < before.len() && 0 <= b < before.len() && a != b implies (
                    #[trigger] before[a]).0 != (#[trigger] before[b]).0 by {
                        assert(before[a] == new[a] && before[b] == new[b]);
                    }
                }
                lemma_index_of(before, k, i);
                lemma_index_of(head, k, i);
            } else {
                if has_key(before, k) {
                    let i = index_of(before, k);
                    assert(before[i].0 == k);
                    assert(head[i].0 == k);
                }
            }
        }
    }
}

/// Moving the root to the end changes no count.
pub proof fn lemma_root_last_count(t: Seq<(Use, usize)>, k: Use)
    requires
        distinct_keys(t),
    ensures
        count_in(root_last(t), k) == count_in(t, k),
{
    let root = Use::Node(Node::Root);
    let r = root_last(t);
    if has_key(t, root) {
        let at = index_of(t, root);
        assert(t[at].0 == root);
        let moved = |i: int|
            if i < at {
                i
            } else if i == at {
                t.len() - 1
            } else {
                i - 1
            };
        assert forall|i: int| 0 <= i < t.len() implies r[moved(i)] == t[i] by {}
        assert(distinct_keys(r)) by {
            assert forall|i: int, j: int|
                0 <= i < r.len() && 0 <= j < r.len() && i != j implies (#[trigger] r[i]).0 != (
            #[trigger] r[j]).0 by {
                let back = |i: int|
                    if i < at {
                        i
                    } else if i == r.len() - 1 {
                        at
                    } else {
                        i + 1
                    };
                assert(r[i] == t[back(i)]);
                assert(r[j] == t[back(j)]);
            }
        }
        if has_key(t, k) {
            let i = index_of(t, k);
            assert(t[i].0 == k);
            lemma_index_of(t, k, i);
            lemma_index_of(r, k, moved(i));
        } else {
            if has_key(r, k) {
                let i = index_of(r, k);
                assert(r[i].0 == k);
                if i < at {
                    assert(t[i].0 == k);
                } else if i == r.len() - 1 {
                    assert(t[at].0 == k);
                } else {
                    assert(t[i + 1].0 == k);
                }
            }
        }
    }
}

/// The merged table of the first `count` roots lists no use twice, and
/// gives each use the largest count that the plan of any one of the
/// roots gives it.
pub proof fn lemma_merged_counts<'a>(cx: &'a Context, roots: Seq<Root<'a>>, count: nat, k: Use)
    requires
        count <= roots.len(),
    ensures
        distinct_keys(merged_counts(cx, roots, count)),
        count_in(merged_counts(cx, roots, count), k) == max_count(cx, roots, count, k),
    decreases count,
{
    if count == 0 {
        assert(!has_key(merged_counts(cx, roots, count), k));
    } else {
        let new = discover(cx, roots[count - 1]).counts;
        lemma_merged_counts(cx, roots, (count - 1) as nat, k);
        lemma_plan_is_in_order(cx, roots[count - 1]);
        lemma_merge_count(merged_counts(cx, roots, (count - 1) as nat), new, new.len(), k);
        assert(new.take(new.len() as int) =~= new);
    }
}

/// The use counts of a plan for several versions are the maxima, not the
/// sums, of the counts of the versions: for every use, the count in the
/// plan is the largest count that the plan of any single version gives
/// that use, where a plan that does not list a use gives it the count
/// zero.
pub proof fn lemma_counts_are_maxima<'a>(cx: &'a Context, roots: Seq<Root<'a>>, k: Use)
    ensures
        count_in(root_last(merged_counts(cx, roots, roots.len())), k) == max_count(
            cx,
            roots,
            roots.len(),
            k,
        ),
{
    lemma_merged_counts(cx, roots, roots.len(), k);
    lemma_root_last_count(merged_counts(cx, roots, roots.len()), k);
}

/// Giving a label or value its number changes no entry that has a name.
pub proof fn lemma_define_keeps_names(n: Numbering, func: Func, d: Use, i: int)
    requires
        0 <= i < n.styles.len(),
        n.styles[i].1 is Anon,
    ensures
        define(n, func, d).styles.len() == n.styles.len(),
        define(n, func, d).styles[i] == n.styles[i],
{
    if has_key(n.styles, d) {
        let at = index_of(n.styles, d);
        assert(0 <= at < n.styles.len());
    }
}

/// Numbering the first `count` of `defs` changes no entry that has a
/// name.
pub proof fn lemma_define_all_keeps_names(
    n: Numbering,
    func: Func,
    defs: Seq<Use>,
    count: nat,
    i: int,
)
    requires
        0 <= i < n.styles.len(),
        n.styles[i].1 is Anon,
    ensures
        define_all(n, func, defs, count).styles.len() == n.styles.len(),
        define_all(n, func, defs, count).styles[i] == n.styles[i],
    decreases count,
{
    if count == 0 || count > defs.len() {
    } else {
        lemma_define_all_keeps_names(n, func, defs, (count - 1) as nat, i);
        lemma_define_keeps_names(
            define_all(n, func, defs, (count - 1) as nat),
            func,
            defs[count - 1],
            i,
        );
    }
}

/// Numbering a function's labels and values in the first `count`
/// versions changes no entry that has a name.
pub proof fn lemma_define_in_versions_keeps_names(
    n: Numbering,
    func: Func,
    versions: Seq<VersionView>,
    count: nat,
    i: int,
)
    requires
        0 <= i < n.styles.len(),
        n.styles[i].1 is Anon,
    ensures
        define_in_versions(n, func, versions, count).styles.len() == n.styles.len(),
        define_in_versions(n, func, versions, count).styles[i] == n.styles[i],
    decreases count,
{
    if count == 0 || count > versions.len() {
    } else {
        lemma_define_in_versions_keeps_names(n, func, versions, (count - 1) as nat, i);
        let defs = version_defs(versions[count - 1], func);
        lemma_define_all_keeps_names(
            define_in_versions(n, func, versions, (count - 1) as nat),
            func,
            defs,
            defs.len(),
            i,
        );
    }
}

/// Numbering the labels and values of the functions among the first
/// `count` entries changes no entry that has a name.
pub proof fn lemma_local_styles_keep_names(
    styles: Seq<(Use, UseStyle)>,
    table: Seq<(Use, usize)>,
    versions: Seq<VersionView>,
    count: nat,
    i: int,
)
    requires
        0 <= i < styles.len(),
        styles[i].1 is Anon,
    ensures
        local_styles(styles, table, versions, count).len() == styles.len(),
        local_styles(styles, table, versions, count)[i] == styles[i],
    decreases count,
{
    if count == 0 || count > table.len() {
    } else {
        lemma_local_styles_keep_names(styles, table, versions, (count - 1) as nat, i);
        let before = local_styles(styles, table, versions, (count - 1) as nat);
        match table[count - 1].0 {
            Use::Node(Node::Func(func)) => {
                lemma_define_in_versions_keeps_names(
                    Numbering { styles: before, labels: 0, values: 0 },
                    func,
                    versions,
                    versions.len(),
                    i,
                );
            },
            _ => {},
        }
    }
}

/// A name, once given, is final: an entry that has a name before labels
/// and values are numbered has the same name in the styles of the plan.
/// With [`lemma_style_depends_on_prefix`], the name of a definition
/// depends only on the table up to and including its entry.
pub proof fn lemma_names_are_final(
    cx: &Context,
    table: Seq<(Use, usize)>,
    versions: Seq<VersionView>,
    i: int,
)
    requires
        0 <= i < table.len(),
        global_style(cx, table, i) is Anon,
    ensures
        plan_styles(cx, table, versions)[i] == (table[i].0, global_style(cx, table, i)),
{
    lemma_local_styles_keep_names(global_styles(cx, table), table, versions, table.len(), i);
}

/// Printing is deterministic: two plans for the same root over the same
/// context print the same text and the same HTML.
pub proof fn lemma_printing_is_deterministic<'a>(
    cx: &'a Context,
    root: Root<'a>,
    first: &Plan<'a>,
    second: &Plan<'a>,
)
    requires
        first.is_for_root(cx, root),
        second.is_for_root(cx, root),
    ensures
        pretty_doc(first) == pretty_doc(second),
        versions_text(pretty_doc(first)) == versions_text(pretty_doc(second)),
        versions_head(pretty_doc(first)) == versions_head(pretty_doc(second)),
        versions_body(pretty_doc(first)) == versions_body(pretty_doc(second)),
{
}

/// Printing several versions is deterministic: two plans for the same
/// named versions over the same context print the same text and the
/// same HTML.
pub proof fn lemma_printing_versions_is_deterministic<'a>(
    cx: &'a Context,
    versions: Seq<(String, Root<'a>)>,
    first: &Plan<'a>,
    second: &Plan<'a>,
)
    requires
        first.is_for_versions(cx, versions),
        second.is_for_versions(cx, versions),
    ensures
        pretty_doc(first) == pretty_doc(second),
        versions_text(pretty_doc(first)) == versions_text(pretty_doc(second)),
        versions_head(pretty_doc(first)) == versions_head(pretty_doc(second)),
        versions_body(pretty_doc(first)) == versions_body(pretty_doc(second)),
{
}

} // verus!
