//! The print of a plan as text and as HTML.
use vstd::prelude::*;
use vstd::string::*;
use crate::layout::{
    fragment_html, fragment_style, laid_out, plain_text, texts, FragmentPostLayout, HtmlSnippet,
    LaidOutView,
};
use crate::pretty::{Doc, Fragment};
use crate::print::plan::Plan;
use crate::print::printer::{plan_styles, FloatLiteral, Printer, Scheme};
use crate::print::versions::{
    lemma_covered_same, plan_doc, row_view, versions_covered, Versions, VersionsView,
};
use crate::text::{decimal, format_usize};

verus! {

/// The widest line that a plan is laid out for.
pub const MAX_LINE_WIDTH: usize = 120;

/// Each document laid out for lines of at most `max` characters.
pub open spec fn laid_out_versions(v: VersionsView<Doc>, max: nat) -> VersionsView<
    Seq<LaidOutView>,
> {
    match v {
        VersionsView::Single(doc) => VersionsView::Single(laid_out(doc, max)),
        VersionsView::Multiple { version_names, rows } => VersionsView::Multiple {
            version_names,
            rows: Seq::new(
                rows.len(),
                |i: int| Seq::new(rows[i].len(), |k: int| (laid_out(rows[i][k].0, max), rows[i][k].1)),
            ),
        },
    }
}

/// The names of `count` versions from `from` on, each in backquotes,
/// with ` | ` between them.
pub open spec fn names_joined(names: Seq<Seq<char>>, from: nat, count: nat) -> Seq<char>
    decreases count,
{
    if count == 0 {
        Seq::empty()
    } else if count == 1 {
        "`"@ + names[from as int] + "`"@
    } else {
        names_joined(names, from, (count - 1) as nat) + " | "@ + "`"@ + names[from + count - 1]
            + "`"@
    }
}

/// Whether an entry that begins at version `next` and stands for `count`
/// versions stands for all versions.
pub open spec fn is_uniform(names: Seq<Seq<char>>, next: nat, count: usize) -> bool {
    next == 0 && count == names.len()
}

/// The line before an entry that does not stand for all versions, which
/// names the versions it stands for.
pub open spec fn banner(names: Seq<Seq<char>>, next: nat, count: usize) -> Seq<char> {
    if is_uniform(names, next, count) {
        Seq::empty()
    } else {
        (if next == 0 {
            "//#IF "@
        } else {
            "//#ELSEIF "@
        }) + names_joined(names, next, count as nat) + "\n"@
    }
}

/// The text of the first `count` entries of a row, each after its
/// banner and followed by a newline.
pub open spec fn entries_text(
    names: Seq<Seq<char>>,
    row: Seq<(Seq<LaidOutView>, usize)>,
    count: nat,
) -> Seq<char>
    decreases count,
{
    if count == 0 || count > row.len() {
        Seq::empty()
    } else {
        entries_text(names, row, (count - 1) as nat) + banner(
            names,
            versions_covered(row, (count - 1) as nat),
            row[count - 1].1,
        ) + plain_text(row[count - 1].0, row[count - 1].0.len()) + "\n"@
    }
}

/// Whether any of the first `count` entries of a row has a banner.
pub open spec fn any_banner(
    names: Seq<Seq<char>>,
    row: Seq<(Seq<LaidOutView>, usize)>,
    count: nat,
) -> bool
    decreases count,
{
    if count == 0 || count > row.len() {
        false
    } else {
        any_banner(names, row, (count - 1) as nat) || !is_uniform(
            names,
            versions_covered(row, (count - 1) as nat),
            row[count - 1].1,
        )
    }
}

/// The text of a row: its entries, and after them `//#ENDIF` if any of
/// them has a banner.
pub open spec fn row_text(names: Seq<Seq<char>>, row: Seq<(Seq<LaidOutView>, usize)>) -> Seq<char> {
    entries_text(names, row, row.len()) + (if any_banner(names, row, row.len()) {
        "//#ENDIF\n"@
    } else {
        Seq::empty()
    })
}

/// The text of the first `count` rows, with an empty line between them.
pub open spec fn rows_text(
    names: Seq<Seq<char>>,
    rows: Seq<Seq<(Seq<LaidOutView>, usize)>>,
    count: nat,
) -> Seq<char>
    decreases count,
{
    if count == 0 || count > rows.len() {
        Seq::empty()
    } else if count == 1 {
        row_text(names, rows[0])
    } else {
        rows_text(names, rows, (count - 1) as nat) + "\n"@ + row_text(names, rows[count - 1])
    }
}

/// The plain text of a print.
///
/// A single document is printed as it is. Of several versions, each
/// row is printed entry by entry; an entry that does not stand for all
/// versions comes after `//#IF` or `//#ELSEIF` and the names of the
/// versions it stands for, and a row with such entries ends with
/// `//#ENDIF`.
pub open spec fn versions_text(v: VersionsView<Seq<LaidOutView>>) -> Seq<char> {
    match v {
        VersionsView::Single(doc) => plain_text(doc, doc.len()),
        VersionsView::Multiple { version_names, rows } => rows_text(
            version_names,
            rows,
            rows.len(),
        ),
    }
}

/// The class of the table that several versions are printed as.
pub open spec fn table_class() -> Seq<char> {
    "spirt-table-90c2056d-5b38-4644-824a-b4be1c82f14d"@
}

/// The style element for the table of versions.
pub open spec fn table_style() -> Seq<char> {
    "\n<style>\n    table.spirt-table-90c2056d-5b38-4644-824a-b4be1c82f14d {\n        min-width: 100%;\n\n        border-collapse: collapse;\n    }\n    table.spirt-table-90c2056d-5b38-4644-824a-b4be1c82f14d>tbody>tr>*:not(:only-child) {\n        border: solid 1px;\n    }\n    table.spirt-table-90c2056d-5b38-4644-824a-b4be1c82f14d>tbody>tr>th {\n        font-size: 17px;\n        font-weight: 700;\n\n        font-style: italic;\n    }\n    table.spirt-table-90c2056d-5b38-4644-824a-b4be1c82f14d>tbody>tr>td {\n        vertical-align: top;\n\n        max-width: 40ch;\n    }\n    table.spirt-table-90c2056d-5b38-4644-824a-b4be1c82f14d>tbody>tr>td>pre {\n        overflow-x: auto;\n    }\n</style>\n        "@
}

/// The first `count` names as table headings.
pub open spec fn heading_cells(names: Seq<Seq<char>>, count: nat) -> Seq<char>
    decreases count,
{
    if count == 0 || count > names.len() {
        Seq::empty()
    } else {
        heading_cells(names, (count - 1) as nat) + "<th><code>"@ + names[count - 1]
            + "</code></th>"@
    }
}

/// The table row that names the versions.
pub open spec fn headings(names: Seq<Seq<char>>) -> Seq<char> {
    "<tr>"@ + heading_cells(names, names.len()) + "</tr>\n"@
}

/// The first `count` entries of a row as table cells, each as wide as
/// the number of versions it stands for.
pub open spec fn cells(row: Seq<(Seq<LaidOutView>, usize)>, count: nat) -> Seq<char>
    decreases count,
{
    if count == 0 || count > row.len() {
        Seq::empty()
    } else {
        cells(row, (count - 1) as nat) + "<td colspan=\""@ + decimal(row[count - 1].1 as nat)
            + "\">\n"@ + fragment_html(row[count - 1].0) + "</td>\n"@
    }
}

/// Whether a row is one entry that stands for all versions.
pub open spec fn row_is_uniform(names: Seq<Seq<char>>, row: Seq<(Seq<LaidOutView>, usize)>) -> bool {
    row.len() == 1 && row[0].1 == names.len()
}

/// The first `count` rows as table rows. The headings are repeated
/// before each row, except between rows that are uniform and before a
/// uniform row at the start.
pub open spec fn table_rows(
    names: Seq<Seq<char>>,
    rows: Seq<Seq<(Seq<LaidOutView>, usize)>>,
    count: nat,
) -> Seq<char>
    decreases count,
{
    if count == 0 || count > rows.len() {
        Seq::empty()
    } else {
        table_rows(names, rows, (count - 1) as nat) + (if (count == 1 || row_is_uniform(
            names,
            rows[count - 2],
        )) && row_is_uniform(names, rows[count - 1]) {
            Seq::empty()
        } else {
            headings(names)
        }) + "<tr>\n"@ + cells(rows[count - 1], rows[count - 1].len()) + "</tr>\n"@
    }
}

/// The body of the HTML of several versions: a table with a column for
/// each version and a row for each node.
pub open spec fn table_html(names: Seq<Seq<char>>, rows: Seq<Seq<(Seq<LaidOutView>, usize)>>) -> Seq<
    char,
> {
    "<table class=\""@ + table_class() + "\">\n"@ + table_rows(names, rows, rows.len())
        + "</table>"@
}

/// Whether any row has an entry.
pub open spec fn any_entry<D>(rows: Seq<Seq<(D, usize)>>) -> bool {
    exists|i: int| 0 <= i < rows.len() && (#[trigger] rows[i]).len() > 0
}

/// The elements for the head of a page that shows the HTML of a print:
/// the style of the table for several versions, and the style of
/// documents if there is any document.
pub open spec fn versions_head(v: VersionsView<Seq<LaidOutView>>) -> Seq<Seq<char>> {
    match v {
        VersionsView::Single(_) => seq![fragment_style()],
        VersionsView::Multiple { rows, .. } => head_with(any_entry(rows)),
    }
}

/// The body of the HTML of a print.
pub open spec fn versions_body(v: VersionsView<Seq<LaidOutView>>) -> Seq<char> {
    match v {
        VersionsView::Single(doc) => fragment_html(doc),
        VersionsView::Multiple { version_names, rows } => table_html(version_names, rows),
    }
}

/// The versions that a prefix of a row stands for are no more than
/// those that the whole row stands for.
pub proof fn lemma_covered_grows<D>(row: Seq<(D, usize)>, a: nat, b: nat)
    requires
        a <= b <= row.len(),
    ensures
        versions_covered(row, a) <= versions_covered(row, b),
    decreases b,
{
    if a < b {
        lemma_covered_grows(row, a, (b - 1) as nat);
    }
}

/// Laying out keeps the rows as wide as they were.
pub proof fn lemma_layout_keeps_wf(v: VersionsView<Doc>, max: nat)
    requires
        v.wf(),
    ensures
        laid_out_versions(v, max).wf(),
{
    match v {
        VersionsView::Single(_) => {},
        VersionsView::Multiple { version_names, rows } => {
            let after = laid_out_versions(v, max)->Multiple_rows;
            assert forall|i: int| 0 <= i < after.len() implies versions_covered(
                #[trigger] after[i],
                after[i].len(),
            ) <= version_names.len() by {
                lemma_covered_same(rows[i], after[i], rows[i].len());
            }
        },
    }
}

/// The print of a plan by the printer that [`Printer::new`] makes for
/// it, laid out for lines of at most [`MAX_LINE_WIDTH`] characters.
pub open spec fn pretty_doc(plan: &Plan) -> VersionsView<Seq<LaidOutView>> {
    laid_out_versions(plan_doc(default_scheme(plan), plan), MAX_LINE_WIDTH as nat)
}

/// What the printer that [`Printer::new`] makes for a plan prints by.
pub open spec fn default_scheme<'a>(plan: &Plan<'a>) -> Scheme<'a> {
    Scheme {
        cx: plan.cx,
        styles: plan_styles(plan.cx, plan.use_counts@, plan.version_views()),
        floats: Seq::empty(),
    }
}

impl<'a> Plan<'a> {
    /// Prints everything in the plan and lays it out. The result can be
    /// written as text ([`Versions::to_text`]) or as HTML
    /// ([`Versions::render_to_html`]).
    pub fn pretty_print(&self) -> (r: Versions<FragmentPostLayout>)
        requires
            self.wf(),
        ensures
            r@ == pretty_doc(self),
            r@.wf(),
    {
        let printer = Printer::new(self);
        assert(printer@.floats =~= Seq::empty());
        assert(printer@ == default_scheme(self));
        let docs = self.print(&printer);
        proof {
            lemma_layout_keeps_wf(docs@, MAX_LINE_WIDTH as nat);
        }
        docs.layout_with_max_line_width(MAX_LINE_WIDTH)
    }
}

impl<'a> Plan<'a> {
    /// Prints everything in the plan as [`Plan::pretty_print`] does, with
    /// the floating-point constants whose bits are in `floats` printed as
    /// the literals given there.
    pub fn pretty_print_with_float_literals(&self, floats: Vec<FloatLiteral>) -> (r: Versions<
        FragmentPostLayout,
    >)
        requires
            self.wf(),
        ensures
            r@ == laid_out_versions(
                plan_doc(
                    Scheme {
                        cx: self.cx,
                        styles: plan_styles(self.cx, self.use_counts@, self.version_views()),
                        floats: floats@,
                    },
                    self,
                ),
                MAX_LINE_WIDTH as nat,
            ),
            r@.wf(),
    {
        let printer = Printer::with_float_literals(self, floats);
        let docs = self.print(&printer);
        proof {
            lemma_layout_keeps_wf(docs@, MAX_LINE_WIDTH as nat);
        }
        docs.layout_with_max_line_width(MAX_LINE_WIDTH)
    }
}

fn push_names(out: &mut String, names: &Vec<String>, from: usize, count: usize)
    requires
        from + count <= names@.len(),
    ensures
        final(out)@ == old(out)@ + names_joined(texts(names@), from as nat, count as nat),
{
    let ghost all = texts(names@);
    let total: usize = names.len();
    let mut i: usize = 0;
    assert(out@ =~= old(out)@ + names_joined(all, from as nat, 0));
    while i < count
        invariant
            0 <= i <= count,
            from + count <= names@.len(),
            total == names@.len(),
            all == texts(names@),
            out@ == old(out)@ + names_joined(all, from as nat, i as nat),
        decreases count - i,
    {
        let ghost before = out@;
        if i > 0 {
            out.append(" | ");
        }
        out.append("`");
        out.append(names[from + i].as_str());
        out.append("`");
        assert(all[from + i] == names@[from + i]@);
        assert(out@ =~= old(out)@ + names_joined(all, from as nat, (i + 1) as nat));
        i += 1;
    }
}

fn row_to_text(names: &Vec<String>, row: &Vec<(FragmentPostLayout, usize)>) -> (r: String)
    requires
        versions_covered(row_view(row@), row@.len()) <= names@.len(),
    ensures
        r@ == row_text(texts(names@), row_view(row@)),
{
    let ghost all = texts(names@);
    let ghost entries = row_view(row@);
    let mut out = String::new();
    let total: usize = names.len();
    let mut next: usize = 0;
    let mut any_headings = false;
    let mut k: usize = 0;
    while k < row.len()
        invariant
            0 <= k <= row.len(),
            total == names@.len(),
            all == texts(names@),
            entries == row_view(row@),
            versions_covered(entries, row@.len()) <= names@.len(),
            next == versions_covered(entries, k as nat),
            any_headings == any_banner(all, entries, k as nat),
            out@ == entries_text(all, entries, k as nat),
        decreases row.len() - k,
    {
        let count: usize = row[k].1;
        assert(entries[k as int] == (row@[k as int].0@, row@[k as int].1));
        proof {
            lemma_covered_grows(entries, (k + 1) as nat, row@.len());
            assert(versions_covered(entries, (k + 1) as nat) == versions_covered(
                entries,
                k as nat,
            ) + entries[k as int].1);
        }
        let ghost before = out@;
        if !(next == 0 && count == names.len()) {
            any_headings = true;
            if next == 0 {
                out.append("//#IF ");
            } else {
                out.append("//#ELSEIF ");
            }
            push_names(&mut out, names, next, count);
            out.append("\n");
        }
        assert(out@ =~= before + banner(all, next as nat, count));
        out.append(row[k].0.to_text().as_str());
        out.append("\n");
        assert(out@ =~= entries_text(all, entries, (k + 1) as nat));
        next = next + count;
        k += 1;
    }
    if any_headings {
        out.append("//#ENDIF\n");
    }
    assert(out@ =~= row_text(all, entries));
    out
}

fn heading_row(names: &Vec<String>) -> (r: String)
    ensures
        r@ == headings(texts(names@)),
{
    let ghost all = texts(names@);
    let mut out = String::from_str("<tr>");
    let mut i: usize = 0;
    assert(out@ =~= "<tr>"@ + heading_cells(all, 0));
    while i < names.len()
        invariant
            0 <= i <= names.len(),
            all == texts(names@),
            out@ == "<tr>"@ + heading_cells(all, i as nat),
        decreases names.len() - i,
    {
        out.append("<th><code>");
        out.append(names[i].as_str());
        out.append("</code></th>");
        assert(all[i as int] == names@[i as int]@);
        assert(out@ =~= "<tr>"@ + heading_cells(all, (i + 1) as nat));
        i += 1;
    }
    out.append("</tr>\n");
    out
}

impl Versions<FragmentPostLayout> {
    /// The print as plain text: see [`versions_text`].
    pub fn to_text(&self) -> (r: String)
        requires
            self@.wf(),
        ensures
            r@ == versions_text(self@),
    {
        match self {
            Versions::Single(doc) => doc.to_text(),
            Versions::Multiple { version_names, per_node_versions_with_repeat_count } => {
                let rows = per_node_versions_with_repeat_count;
                let ghost names = texts(version_names@);
                let ghost row_views = self@->Multiple_rows;
                let mut out = String::new();
                let mut i: usize = 0;
                assert(self@ == (VersionsView::Multiple {
                    version_names: names,
                    rows: row_views,
                }));
                assert(forall|j: int|
                    0 <= j < row_views.len() ==> versions_covered(
                        #[trigger] row_views[j],
                        row_views[j].len(),
                    ) <= names.len());
                while i < rows.len()
                    invariant
                        0 <= i <= rows.len(),
                        forall|j: int|
                            0 <= j < row_views.len() ==> versions_covered(
                                #[trigger] row_views[j],
                                row_views[j].len(),
                            ) <= names.len(),
                        names == texts(version_names@),
                        row_views.len() == rows@.len(),
                        forall|j: int|
                            0 <= j < rows@.len() ==> #[trigger] row_views[j] == row_view(
                                rows@[j]@,
                            ),
                        out@ == rows_text(names, row_views, i as nat),
                    decreases rows.len() - i,
                {
                    if i > 0 {
                        out.append("\n");
                    }
                    assert(row_views[i as int] == row_view(rows@[i as int]@));
                    assert(versions_covered(row_views[i as int], row_views[i as int].len())
                        <= names.len());
                    out.append(row_to_text(version_names, &rows[i]).as_str());
                    assert(out@ =~= rows_text(names, row_views, (i + 1) as nat));
                    i += 1;
                }
                out
            },
        }
    }

    /// The print as HTML: see [`versions_head`] and [`versions_body`].
    pub fn render_to_html(&self) -> (r: HtmlSnippet)
        ensures
            texts(r.head_deduplicatable_elements@) == versions_head(self@),
            r.body@ == versions_body(self@),
    {
        match self {
            Versions::Single(doc) => doc.render_to_html(),
            Versions::Multiple { version_names, per_node_versions_with_repeat_count } => {
                let rows = per_node_versions_with_repeat_count;
                let ghost names = texts(version_names@);
                let ghost row_views = self@->Multiple_rows;
                let heading = heading_row(version_names);
                let mut head: Vec<String> = Vec::new();
                head.push(String::from_str(TABLE_STYLE));
                let mut seen = false;
                let mut body = String::from_str("<table class=\"");
                body.append(TABLE_CLASS);
                body.append("\">\n");
                let ghost start = body@;
                let mut last_was_uniform = true;
                let mut i: usize = 0;
                assert(texts(head@) =~= seq![table_style()]);
                assert(row_views.take(0) =~= Seq::empty());
                while i < rows.len()
                    invariant
                        0 <= i <= rows.len(),
                        names == texts(version_names@),
                        names.len() == version_names@.len(),
                        heading@ == headings(names),
                        row_views.len() == rows@.len(),
                        forall|j: int|
                            0 <= j < rows@.len() ==> #[trigger] row_views[j] == row_view(
                                rows@[j]@,
                            ),
                        last_was_uniform == (i == 0 || row_is_uniform(names, row_views[i - 1])),
                        seen == any_entry(row_views.take(i as int)),
                        texts(head@) == head_with(seen),
                        body@ == start + table_rows(names, row_views, i as nat),
                    decreases rows.len() - i,
                {
                    let row = &rows[i];
                    let ghost entries = row_views[i as int];
                    assert(entries == row_view(row@));
                    let uniform = row.len() == 1 && row[0].1 == version_names.len();
                    if row.len() == 1 {
                        assert(entries[0] == (row@[0].0@, row@[0].1));
                    }
                    if !(last_was_uniform && uniform) {
                        body.append(heading.as_str());
                    }
                    last_was_uniform = uniform;
                    body.append("<tr>\n");
                    let ghost seen_before = seen;
                    push_cells(&mut body, &mut head, &mut seen, row);
                    body.append("</tr>\n");
                    assert(body@ =~= start + table_rows(names, row_views, (i + 1) as nat));
                    proof {
                        lemma_any_entry_step(row_views, i as int);
                    }
                    i += 1;
                }
                body.append("</table>");
                assert(row_views.take(rows@.len() as int) =~= row_views);
                proof {
                    reveal_strlit("spirt-table-90c2056d-5b38-4644-824a-b4be1c82f14d");
                }
                assert(body@ =~= table_html(names, row_views));
                HtmlSnippet { head_deduplicatable_elements: head, body }
            },
        }
    }
}

/// The head elements of several versions, with the style of documents
/// if `seen`.
pub open spec fn head_with(seen: bool) -> Seq<Seq<char>> {
    if seen {
        seq![table_style(), fragment_style()]
    } else {
        seq![table_style()]
    }
}

/// Whether any of the first `i + 1` rows has an entry: whether any of
/// the first `i` has, or row `i` has.
pub proof fn lemma_any_entry_step<D>(rows: Seq<Seq<(D, usize)>>, i: int)
    requires
        0 <= i < rows.len(),
    ensures
        any_entry(rows.take(i + 1)) == (any_entry(rows.take(i)) || rows[i].len() > 0),
{
    let now = rows.take(i + 1);
    let earlier = rows.take(i);
    if any_entry(earlier) {
        let j = choose|j: int| 0 <= j < earlier.len() && (#[trigger] earlier[j]).len() > 0;
        assert(now[j].len() > 0);
    } else if rows[i].len() > 0 {
        assert(now[i].len() > 0);
    } else {
        if any_entry(now) {
            let j = choose|j: int| 0 <= j < now.len() && (#[trigger] now[j]).len() > 0;
            assert(earlier[j].len() > 0);
        }
    }
}

fn push_cells(
    body: &mut String,
    head: &mut Vec<String>,
    seen: &mut bool,
    row: &Vec<(FragmentPostLayout, usize)>,
)
    requires
        texts(old(head)@) == head_with(*old(seen)),
    ensures
        final(body)@ == old(body)@ + cells(row_view(row@), row@.len()),
        *final(seen) == (*old(seen) || row@.len() > 0),
        texts(final(head)@) == head_with(*final(seen)),
{
    let ghost entries = row_view(row@);
    let mut k: usize = 0;
    assert(body@ =~= old(body)@ + cells(entries, 0));
    while k < row.len()
        invariant
            0 <= k <= row.len(),
            entries == row_view(row@),
            *seen == (*old(seen) || k > 0),
            texts(head@) == head_with(*seen),
            body@ == old(body)@ + cells(entries, k as nat),
        decreases row.len() - k,
    {
        assert(entries[k as int] == (row@[k as int].0@, row@[k as int].1));
        body.append("<td colspan=\"");
        body.append(format_usize(row[k].1).as_str());
        body.append("\">\n");
        let snippet = row[k].0.render_to_html();
        assert(texts(snippet.head_deduplicatable_elements@).len() == 1);
        if !*seen {
            let ghost old_head = texts(head@);
            head.push(snippet.head_deduplicatable_elements[0].clone());
            assert(texts(snippet.head_deduplicatable_elements@)[0]
                == snippet.head_deduplicatable_elements@[0]@);
            assert(texts(head@) =~= old_head.push(fragment_style()));
            *seen = true;
        }
        body.append(snippet.body.as_str());
        body.append("</td>\n");
        assert(body@ =~= old(body)@ + cells(entries, (k + 1) as nat));
        k += 1;
    }
}

/// The class of the table that several versions are printed as.
pub const TABLE_CLASS: &'static str = "spirt-table-90c2056d-5b38-4644-824a-b4be1c82f14d";

/// The style element for the table of versions.
pub const TABLE_STYLE: &'static str =
    "\n<style>\n    table.spirt-table-90c2056d-5b38-4644-824a-b4be1c82f14d {\n        min-width: 100%;\n\n        border-collapse: collapse;\n    }\n    table.spirt-table-90c2056d-5b38-4644-824a-b4be1c82f14d>tbody>tr>*:not(:only-child) {\n        border: solid 1px;\n    }\n    table.spirt-table-90c2056d-5b38-4644-824a-b4be1c82f14d>tbody>tr>th {\n        font-size: 17px;\n        font-weight: 700;\n\n        font-style: italic;\n    }\n    table.spirt-table-90c2056d-5b38-4644-824a-b4be1c82f14d>tbody>tr>td {\n        vertical-align: top;\n\n        max-width: 40ch;\n    }\n    table.spirt-table-90c2056d-5b38-4644-824a-b4be1c82f14d>tbody>tr>td>pre {\n        overflow-x: auto;\n    }\n</style>\n        ";

impl Versions<Fragment> {
    /// Lays out each document for lines of at most `max_line_width`
    /// characters.
    pub fn layout_with_max_line_width(&self, max_line_width: usize) -> (r: Versions<
        FragmentPostLayout,
    >)
        ensures
            r@ == laid_out_versions(self@, max_line_width as nat),
    {
        match self {
            Versions::Single(doc) => Versions::Single(
                doc.layout_with_max_line_width(max_line_width),
            ),
            Versions::Multiple { version_names, per_node_versions_with_repeat_count } => {
                let rows = per_node_versions_with_repeat_count;
                let mut names: Vec<String> = Vec::new();
                let mut i: usize = 0;
                while i < version_names.len()
                    invariant
                        0 <= i <= version_names.len(),
                        names@.len() == i,
                        forall|j: int| 0 <= j < i ==> (#[trigger] names@[j])@ == version_names@[j]@,
                    decreases version_names.len() - i,
                {
                    names.push(version_names[i].clone());
                    i += 1;
                }
                let mut out: Vec<Vec<(FragmentPostLayout, usize)>> = Vec::new();
                let mut i: usize = 0;
                while i < rows.len()
                    invariant
                        0 <= i <= rows.len(),
                        out@.len() == i,
                        forall|j: int|
                            0 <= j < i ==> row_view((#[trigger] out@[j])@) == Seq::new(
                                rows@[j]@.len(),
                                |k: int|
                                    (
                                        laid_out(rows@[j]@[k].0@, max_line_width as nat),
                                        rows@[j]@[k].1,
                                    ),
                            ),
                    decreases rows.len() - i,
                {
                    let row = &rows[i];
                    let mut laid: Vec<(FragmentPostLayout, usize)> = Vec::new();
                    let mut k: usize = 0;
                    while k < row.len()
                        invariant
                            0 <= k <= row.len(),
                            laid@.len() == k,
                            forall|j: int|
                                0 <= j < k ==> (#[trigger] laid@[j]).0@ == laid_out(
                                    row@[j].0@,
                                    max_line_width as nat,
                                ) && laid@[j].1 == row@[j].1,
                        decreases row.len() - k,
                    {
                        laid.push((row[k].0.layout_with_max_line_width(max_line_width), row[k].1));
                        k += 1;
                    }
                    assert(row_view(laid@) =~= Seq::new(
                        row@.len(),
                        |k: int| (laid_out(row@[k].0@, max_line_width as nat), row@[k].1),
                    ));
                    out.push(laid);
                    i += 1;
                }
                let r = Versions::Multiple {
                    version_names: names,
                    per_node_versions_with_repeat_count: out,
                };
                assert(r@ =~~= laid_out_versions(self@, max_line_width as nat)) by {
                    let want = laid_out_versions(self@, max_line_width as nat);
                    assert(texts(names@) =~= texts(version_names@));
                    assert(r@->Multiple_version_names =~= want->Multiple_version_names);
                    assert forall|j: int| 0 <= j < out@.len() implies (
                    #[trigger] r@->Multiple_rows[j]) == want->Multiple_rows[j] by {
                        assert(row_view(out@[j]@) == r@->Multiple_rows[j]);
                        assert(self@->Multiple_rows[j] == row_view(rows@[j]@));
                        assert(want->Multiple_rows[j] =~= Seq::new(
                            rows@[j]@.len(),
                            |k: int|
                                (
                                    laid_out(rows@[j]@[k].0@, max_line_width as nat),
                                    rows@[j]@[k].1,
                                ),
                        ));
                    }
                    assert(r@->Multiple_rows =~= want->Multiple_rows);
                }
                r
            },
        }
    }
}

} // verus!
