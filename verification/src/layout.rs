//! Layout: deciding for each group of a document whether it goes on one
//! line or becomes an indented block, and writing the result as plain
//! text or as HTML.
use vstd::prelude::*;
use vstd::string::*;
use crate::pretty::{Doc, Fragment, Node, NodeView, Rgb, Styles, StylesView};
use crate::text::{
    decimal, format_hex_byte, format_u32, hex_byte, html_escape, html_escaped,
};

verus! {

/// One element of a document after layout.
#[derive(Debug)]
pub enum LaidOut {
    Text(String),
    StyledText(Styles, String),
    /// The start of a new line, `indent` levels deep.
    LineBreak { indent: usize },
}

/// The mathematical value of a [`LaidOut`].
pub ghost enum LaidOutView {
    Text(Seq<char>),
    StyledText(StylesView, Seq<char>),
    LineBreak { indent: usize },
}

impl View for LaidOut {
    type V = LaidOutView;

    open spec fn view(&self) -> LaidOutView {
        match self {
            LaidOut::Text(s) => LaidOutView::Text(s@),
            LaidOut::StyledText(st, s) => LaidOutView::StyledText(st@, s@),
            LaidOut::LineBreak { indent } => LaidOutView::LineBreak { indent: *indent },
        }
    }
}

/// A document after layout: texts and line breaks.
#[derive(Debug)]
pub struct FragmentPostLayout {
    pub nodes: Vec<LaidOut>,
}

impl View for FragmentPostLayout {
    type V = Seq<LaidOutView>;

    open spec fn view(&self) -> Seq<LaidOutView> {
        self.nodes@.map_values(|n: LaidOut| n@)
    }
}

/// Whether the group whose contents begin at `from` fits on one line:
/// it holds no forced line break and no block, and its texts and spaces
/// are no wider than `max` characters, `width` of which are used up.
/// `depth` is the number of groups nested in it that are still open.
pub open spec fn group_fits(doc: Doc, from: int, depth: nat, width: nat, max: nat) -> bool
    decreases doc.len() - from,
{
    if from < 0 || from >= doc.len() {
        true
    } else {
        match doc[from] {
            NodeView::Text(s) => width + s.len() <= max && group_fits(
                doc,
                from + 1,
                depth,
                width + s.len(),
                max,
            ),
            NodeView::StyledText(_, s) => width + s.len() <= max && group_fits(
                doc,
                from + 1,
                depth,
                width + s.len(),
                max,
            ),
            NodeView::BreakingOnlySpace => width + 1 <= max && group_fits(
                doc,
                from + 1,
                depth,
                width + 1,
                max,
            ),
            NodeView::IfBlockLayout(_) => group_fits(doc, from + 1, depth, width, max),
            NodeView::GroupStart => group_fits(doc, from + 1, depth + 1, width, max),
            NodeView::GroupEnd => depth == 0 || group_fits(
                doc,
                from + 1,
                (depth - 1) as nat,
                width,
                max,
            ),
            NodeView::BlockEnd => group_fits(doc, from + 1, depth, width, max),
            NodeView::BlockStart => false,
            NodeView::ForceLineSeparation => false,
        }
    }
}

/// Where layout stands.
pub ghost struct LayoutState {
    pub out: Seq<LaidOutView>,
    /// How deep the current line is indented.
    pub indent: usize,
    /// Whether a line break is due before the next text.
    pub pending_break: bool,
    /// Whether any text has been written.
    pub started: bool,
    /// For each open group, outermost first, whether it is laid out as a
    /// block.
    pub modes: Seq<bool>,
}

impl LayoutState {
    /// The state before the first node.
    pub open spec fn start() -> LayoutState {
        LayoutState {
            out: Seq::empty(),
            indent: 0,
            pending_break: false,
            started: false,
            modes: Seq::empty(),
        }
    }

    /// Whether the innermost open group is laid out as a block.
    pub open spec fn in_block(self) -> bool {
        self.modes.len() > 0 && self.modes.last()
    }

    /// One more text, after the line break that is due, if one is.
    pub open spec fn emit(self, node: LaidOutView) -> LayoutState {
        LayoutState {
            out: if self.pending_break {
                self.out.push(LaidOutView::LineBreak { indent: self.indent }).push(node)
            } else {
                self.out.push(node)
            },
            pending_break: false,
            started: true,
            ..self
        }
    }

    /// A line break is due, unless nothing has been written yet.
    pub open spec fn break_line(self) -> LayoutState {
        LayoutState { pending_break: self.pending_break || self.started, ..self }
    }

    /// An empty line, unless nothing has been written yet.
    pub open spec fn gap(self) -> LayoutState {
        if self.started {
            LayoutState {
                out: self.out.push(LaidOutView::LineBreak { indent: 0 }),
                pending_break: true,
                ..self
            }
        } else {
            self
        }
    }

    /// One level deeper.
    pub open spec fn deeper(self) -> LayoutState {
        LayoutState {
            indent: if self.indent < usize::MAX {
                (self.indent + 1) as usize
            } else {
                self.indent
            },
            ..self
        }
    }

    /// One level less deep.
    pub open spec fn shallower(self) -> LayoutState {
        LayoutState {
            indent: if self.indent > 0 {
                (self.indent - 1) as usize
            } else {
                self.indent
            },
            ..self
        }
    }
}

/// The text that stands for an empty line between two definitions.
pub open spec fn gap_text() -> Seq<char> {
    "\n\n"@
}

/// The state after node `i` of `doc`.
pub open spec fn layout_step(st: LayoutState, doc: Doc, i: int, max: nat) -> LayoutState {
    match doc[i] {
        NodeView::Text(s) => if s == gap_text() {
            st.gap()
        } else {
            st.emit(LaidOutView::Text(s))
        },
        NodeView::StyledText(styles, s) => st.emit(LaidOutView::StyledText(styles, s)),
        NodeView::ForceLineSeparation => st.break_line(),
        NodeView::BlockStart => st.deeper().break_line(),
        NodeView::BlockEnd => st.shallower().break_line(),
        NodeView::GroupStart => if group_fits(doc, i + 1, 0, 0, max) {
            LayoutState { modes: st.modes.push(false), ..st }
        } else {
            LayoutState { modes: st.modes.push(true), ..st.deeper().break_line() }
        },
        NodeView::GroupEnd => if st.modes.len() == 0 {
            st
        } else if st.modes.last() {
            LayoutState { modes: st.modes.drop_last(), ..st.shallower().break_line() }
        } else {
            LayoutState { modes: st.modes.drop_last(), ..st }
        },
        NodeView::BreakingOnlySpace => if st.in_block() {
            st.break_line()
        } else {
            st.emit(LaidOutView::Text(" "@))
        },
        NodeView::IfBlockLayout(s) => if st.in_block() {
            st.emit(LaidOutView::Text(s))
        } else {
            st
        },
    }
}

/// The state after the first `count` nodes of `doc`.
pub open spec fn layout_fold(doc: Doc, count: nat, max: nat) -> LayoutState
    decreases count,
{
    if count == 0 || count > doc.len() {
        LayoutState::start()
    } else {
        layout_step(layout_fold(doc, (count - 1) as nat, max), doc, count - 1, max)
    }
}

/// `doc` laid out for lines of at most `max` characters.
///
/// A group goes on one line if it fits (see [`group_fits`]), whatever
/// stands before it on the line; otherwise it becomes a block: one level
/// deeper, with a line break at its start, at its end and at each of its
/// breaking spaces. Line breaks that follow each other count once, and
/// none is written before the first text. A text of two newlines stands
/// for an empty line.
pub open spec fn laid_out(doc: Doc, max: nat) -> Seq<LaidOutView> {
    layout_fold(doc, doc.len(), max).out
}

/// Computes [`group_fits`] for a group that begins at `from`.
pub fn check_group_fits(frag: &Fragment, from: usize, max: usize) -> (r: bool)
    requires
        from <= frag.nodes@.len(),
    ensures
        r == group_fits(frag@, from as int, 0, 0, max as nat),
{
    let mut i: usize = from;
    let mut depth: usize = 0;
    let mut width: usize = 0;
    while i < frag.nodes.len()
        invariant
            from <= i <= frag.nodes.len(),
            width <= max,
            depth <= i - from,
            group_fits(frag@, from as int, 0, 0, max as nat) == group_fits(
                frag@,
                i as int,
                depth as nat,
                width as nat,
                max as nat,
            ),
        decreases frag.nodes.len() - i,
    {
        match &frag.nodes[i] {
            Node::Text(s) => {
                let n: usize = s.as_str().unicode_len();
                if n > max - width {
                    return false;
                }
                width = width + n;
            },
            Node::StyledText(_, s) => {
                let n: usize = s.as_str().unicode_len();
                if n > max - width {
                    return false;
                }
                width = width + n;
            },
            Node::BreakingOnlySpace => {
                if width == max {
                    return false;
                }
                width = width + 1;
            },
            Node::IfBlockLayout(_) => {},
            Node::GroupStart => {
                depth = depth + 1;
            },
            Node::GroupEnd => {
                if depth == 0 {
                    return true;
                }
                depth = depth - 1;
            },
            Node::BlockEnd => {},
            Node::BlockStart => {
                return false;
            },
            Node::ForceLineSeparation => {
                return false;
            },
        }
        i += 1;
    }
    true
}

/// The layout of a document as it proceeds.
struct Layouter {
    out: Vec<LaidOut>,
    indent: usize,
    pending_break: bool,
    started: bool,
    modes: Vec<bool>,
}

impl Layouter {
    spec fn state(&self) -> LayoutState {
        LayoutState {
            out: self.out@.map_values(|n: LaidOut| n@),
            indent: self.indent,
            pending_break: self.pending_break,
            started: self.started,
            modes: self.modes@,
        }
    }

    fn emit(&mut self, node: LaidOut)
        ensures
            final(self).state() == old(self).state().emit(node@),
    {
        if self.pending_break {
            self.out.push(LaidOut::LineBreak { indent: self.indent });
        }
        self.out.push(node);
        self.pending_break = false;
        self.started = true;
        assert(self.state().out =~= old(self).state().emit(node@).out);
    }

    fn break_line(&mut self)
        ensures
            final(self).state() == old(self).state().break_line(),
    {
        if self.started {
            self.pending_break = true;
        }
    }

    fn gap(&mut self)
        ensures
            final(self).state() == old(self).state().gap(),
    {
        if self.started {
            self.out.push(LaidOut::LineBreak { indent: 0 });
            self.pending_break = true;
            assert(self.state().out =~= old(self).state().gap().out);
        }
    }

    fn deeper(&mut self)
        ensures
            final(self).state() == old(self).state().deeper(),
    {
        if self.indent < usize::MAX {
            self.indent = self.indent + 1;
        }
    }

    fn shallower(&mut self)
        ensures
            final(self).state() == old(self).state().shallower(),
    {
        if self.indent > 0 {
            self.indent = self.indent - 1;
        }
    }
}

impl Fragment {
    /// Lays the document out for lines of at most `max_line_width`
    /// characters: see [`laid_out`].
    pub fn layout_with_max_line_width(&self, max_line_width: usize) -> (r: FragmentPostLayout)
        ensures
            r@ == laid_out(self@, max_line_width as nat),
    {
        let mut l = Layouter {
            out: Vec::new(),
            indent: 0,
            pending_break: false,
            started: false,
            modes: Vec::new(),
        };
        assert(l.state().out =~= Seq::<LaidOutView>::empty());
        let mut i: usize = 0;
        while i < self.nodes.len()
            invariant
                0 <= i <= self.nodes.len(),
                l.state() == layout_fold(self@, i as nat, max_line_width as nat),
            decreases self.nodes.len() - i,
        {
            match &self.nodes[i] {
                Node::Text(s) => {
                    if *s == String::from_str("\n\n") {
                        l.gap();
                    } else {
                        l.emit(LaidOut::Text(s.clone()));
                    }
                },
                Node::StyledText(styles, s) => {
                    l.emit(LaidOut::StyledText(styles.clone(), s.clone()));
                },
                Node::ForceLineSeparation => {
                    l.break_line();
                },
                Node::BlockStart => {
                    l.deeper();
                    l.break_line();
                },
                Node::BlockEnd => {
                    l.shallower();
                    l.break_line();
                },
                Node::GroupStart => {
                    if check_group_fits(self, i + 1, max_line_width) {
                        l.modes.push(false);
                    } else {
                        l.deeper();
                        l.break_line();
                        l.modes.push(true);
                    }
                },
                Node::GroupEnd => {
                    let ghost before = l.modes@;
                    match l.modes.pop() {
                        Some(block) => {
                            assert(l.modes@ =~= before.drop_last());
                            if block {
                                l.shallower();
                                l.break_line();
                            }
                        },
                        None => {},
                    }
                },
                Node::BreakingOnlySpace => {
                    let n: usize = l.modes.len();
                    if n > 0 && l.modes[n - 1] {
                        l.break_line();
                    } else {
                        l.emit(LaidOut::Text(String::from_str(" ")));
                    }
                },
                Node::IfBlockLayout(s) => {
                    let n: usize = l.modes.len();
                    if n > 0 && l.modes[n - 1] {
                        l.emit(LaidOut::Text(s.clone()));
                    }
                },
            }
            i += 1;
        }
        let r = FragmentPostLayout { nodes: l.out };
        r
    }
}

/// Two spaces for each level of indentation.
pub open spec fn indentation(levels: nat) -> Seq<char>
    decreases levels,
{
    if levels == 0 {
        Seq::empty()
    } else {
        indentation((levels - 1) as nat) + "  "@
    }
}

/// The plain text of one element: a text as it is, a line break as a
/// newline and the indentation of the new line.
pub open spec fn node_text(n: LaidOutView) -> Seq<char> {
    match n {
        LaidOutView::Text(s) => s,
        LaidOutView::StyledText(_, s) => s,
        LaidOutView::LineBreak { indent } => "\n"@ + indentation(indent as nat),
    }
}

/// The plain text of the first `count` elements.
pub open spec fn plain_text(nodes: Seq<LaidOutView>, count: nat) -> Seq<char>
    decreases count,
{
    if count == 0 || count > nodes.len() {
        Seq::empty()
    } else {
        plain_text(nodes, (count - 1) as nat) + node_text(nodes[count - 1])
    }
}

/// The weight of a font that is `thickness` steps bolder than normal.
pub open spec fn font_weight(thickness: i8) -> nat {
    if thickness <= -3 {
        100
    } else if thickness >= 5 {
        900
    } else {
        (400 + 100 * thickness) as nat
    }
}

/// The size in pixels of a font that is `size` steps larger than normal.
pub open spec fn font_size(size: i8) -> nat {
    if size <= -15 {
        1
    } else {
        (16 + size) as nat
    }
}

/// The CSS for a colour, if one is set.
pub open spec fn css_color(color: Option<Rgb>) -> Seq<char> {
    match color {
        Some(c) => "color:#"@ + hex_byte(c.r) + hex_byte(c.g) + hex_byte(c.b) + ";"@,
        None => Seq::empty(),
    }
}

/// The CSS for an opacity in thousandths, if one is set.
pub open spec fn css_opacity(opacity: Option<u16>) -> Seq<char> {
    match opacity {
        Some(o) => "opacity:calc("@ + decimal(o as nat) + "/1000);"@,
        None => Seq::empty(),
    }
}

/// The CSS for a thickness, if one is set.
pub open spec fn css_weight(thickness: Option<i8>) -> Seq<char> {
    match thickness {
        Some(t) => "font-weight:"@ + decimal(font_weight(t)) + ";"@,
        None => Seq::empty(),
    }
}

/// The CSS for a size, if one is set.
pub open spec fn css_size(size: Option<i8>) -> Seq<char> {
    match size {
        Some(s) => "font-size:"@ + decimal(font_size(s)) + "px;"@,
        None => Seq::empty(),
    }
}

/// The CSS for text that is lowered or raised.
pub open spec fn css_align(subscript: bool, superscript: bool) -> Seq<char> {
    (if subscript {
        "vertical-align:sub;"@
    } else {
        Seq::empty()
    }) + (if superscript {
        "vertical-align:super;"@
    } else {
        Seq::empty()
    })
}

/// The inline CSS for styles.
pub open spec fn css(st: StylesView) -> Seq<char> {
    css_color(st.color) + css_opacity(st.color_opacity) + css_weight(st.thickness) + css_size(
        st.size,
    ) + css_align(st.subscript, st.superscript)
}

/// A styled text in HTML: the escaped text, in a `span` with its CSS if
/// it has any, in a link to its anchor if it has one, which the link
/// defines by its `id` where the text defines the anchor.
pub open spec fn styled_html(st: StylesView, s: Seq<char>) -> Seq<char> {
    let inner = if css(st).len() > 0 {
        "<span style=\""@ + css(st) + "\">"@ + html_escaped(s) + "</span>"@
    } else {
        html_escaped(s)
    };
    match st.anchor {
        Some(a) => "<a "@ + (if st.anchor_is_def {
            "id=\""@ + html_escaped(a) + "\" "@
        } else {
            Seq::empty()
        }) + "href=\"#"@ + html_escaped(a) + "\">"@ + inner + "</a>"@,
        None => inner,
    }
}

/// One element in HTML.
pub open spec fn node_html(n: LaidOutView) -> Seq<char> {
    match n {
        LaidOutView::Text(s) => html_escaped(s),
        LaidOutView::StyledText(st, s) => styled_html(st, s),
        LaidOutView::LineBreak { indent } => "\n"@ + indentation(indent as nat),
    }
}

/// The first `count` elements in HTML.
pub open spec fn html_text(nodes: Seq<LaidOutView>, count: nat) -> Seq<char>
    decreases count,
{
    if count == 0 || count > nodes.len() {
        Seq::empty()
    } else {
        html_text(nodes, (count - 1) as nat) + node_html(nodes[count - 1])
    }
}

/// The style element that the HTML of every document needs once.
pub open spec fn fragment_style() -> Seq<char> {
    "<style>pre.spirt { font-size: 16px; line-height: 1.2; } pre.spirt a { color: unset; text-decoration: none; }</style>"@
}

/// A document in HTML.
pub open spec fn fragment_html(nodes: Seq<LaidOutView>) -> Seq<char> {
    "<pre class=\"spirt\">"@ + html_text(nodes, nodes.len()) + "</pre>"@
}

/// A piece of HTML to embed in a page: elements for the page's head, of
/// which a page needs each only once however many snippets it embeds,
/// and the body.
#[derive(Debug)]
pub struct HtmlSnippet {
    pub head_deduplicatable_elements: Vec<String>,
    pub body: String,
}

/// The texts of some strings.
pub open spec fn texts(items: Seq<String>) -> Seq<Seq<char>> {
    items.map_values(|s: String| s@)
}

fn push_indentation(out: &mut String, indent: usize)
    ensures
        final(out)@ == old(out)@ + indentation(indent as nat),
{
    let mut i: usize = 0;
    assert(out@ =~= old(out)@ + indentation(0));
    while i < indent
        invariant
            0 <= i <= indent,
            out@ == old(out)@ + indentation(i as nat),
        decreases indent - i,
    {
        out.append("  ");
        assert(out@ =~= old(out)@ + indentation((i + 1) as nat));
        i += 1;
    }
}

fn push_css_color(out: &mut String, color: Option<Rgb>)
    ensures
        final(out)@ == old(out)@ + css_color(color),
{
    match color {
        Some(c) => {
            out.append("color:#");
            out.append(format_hex_byte(c.r).as_str());
            out.append(format_hex_byte(c.g).as_str());
            out.append(format_hex_byte(c.b).as_str());
            out.append(";");
        },
        None => {},
    }
    assert(out@ =~= old(out)@ + css_color(color));
}

fn push_css_opacity(out: &mut String, opacity: Option<u16>)
    ensures
        final(out)@ == old(out)@ + css_opacity(opacity),
{
    match opacity {
        Some(o) => {
            out.append("opacity:calc(");
            out.append(format_u32(o as u32).as_str());
            out.append("/1000);");
        },
        None => {},
    }
    assert(out@ =~= old(out)@ + css_opacity(opacity));
}

fn push_css_weight(out: &mut String, thickness: Option<i8>)
    ensures
        final(out)@ == old(out)@ + css_weight(thickness),
{
    match thickness {
        Some(t) => {
            let weight: u32 = if t <= -3 {
                100
            } else if t >= 5 {
                900
            } else {
                (400 + 100 * (t as i32)) as u32
            };
            out.append("font-weight:");
            out.append(format_u32(weight).as_str());
            out.append(";");
        },
        None => {},
    }
    assert(out@ =~= old(out)@ + css_weight(thickness));
}

fn push_css_size(out: &mut String, size: Option<i8>)
    ensures
        final(out)@ == old(out)@ + css_size(size),
{
    match size {
        Some(s) => {
            let px: u32 = if s <= -15 {
                1
            } else {
                (16 + (s as i32)) as u32
            };
            out.append("font-size:");
            out.append(format_u32(px).as_str());
            out.append("px;");
        },
        None => {},
    }
    assert(out@ =~= old(out)@ + css_size(size));
}

fn push_css_align(out: &mut String, subscript: bool, superscript: bool)
    ensures
        final(out)@ == old(out)@ + css_align(subscript, superscript),
{
    if subscript {
        out.append("vertical-align:sub;");
    }
    if superscript {
        out.append("vertical-align:super;");
    }
    assert(out@ =~= old(out)@ + css_align(subscript, superscript));
}

/// Computes [`css`].
pub fn format_css(st: &Styles) -> (r: String)
    ensures
        r@ == css(st@),
{
    let mut out = String::new();
    push_css_color(&mut out, st.color);
    push_css_opacity(&mut out, st.color_opacity);
    push_css_weight(&mut out, st.thickness);
    push_css_size(&mut out, st.size);
    push_css_align(&mut out, st.subscript, st.superscript);
    assert(out@ =~= css(st@));
    out
}

/// Computes [`styled_html`].
pub fn format_styled_html(st: &Styles, s: &str) -> (r: String)
    ensures
        r@ == styled_html(st@, s@),
{
    let style = format_css(st);
    let mut inner = String::new();
    if style.as_str().unicode_len() > 0 {
        inner.append("<span style=\"");
        inner.append(style.as_str());
        inner.append("\">");
        inner.append(html_escape(s).as_str());
        inner.append("</span>");
    } else {
        inner.append(html_escape(s).as_str());
    }
    match &st.anchor {
        Some(a) => {
            let mut out = String::from_str("<a ");
            if st.anchor_is_def {
                out.append("id=\"");
                out.append(html_escape(a.as_str()).as_str());
                out.append("\" ");
            }
            out.append("href=\"#");
            out.append(html_escape(a.as_str()).as_str());
            out.append("\">");
            out.append(inner.as_str());
            out.append("</a>");
            assert(out@ =~= styled_html(st@, s@));
            out
        },
        None => {
            assert(inner@ =~= styled_html(st@, s@));
            inner
        },
    }
}

impl FragmentPostLayout {
    /// The document as plain text: see [`plain_text`].
    pub fn to_text(&self) -> (r: String)
        ensures
            r@ == plain_text(self@, self@.len()),
    {
        let mut out = String::new();
        let mut i: usize = 0;
        while i < self.nodes.len()
            invariant
                0 <= i <= self.nodes.len(),
                out@ == plain_text(self@, i as nat),
            decreases self.nodes.len() - i,
        {
            match &self.nodes[i] {
                LaidOut::Text(s) => {
                    out.append(s.as_str());
                },
                LaidOut::StyledText(_, s) => {
                    out.append(s.as_str());
                },
                LaidOut::LineBreak { indent } => {
                    let ghost before = out@;
                    out.append("\n");
                    push_indentation(&mut out, *indent);
                    assert(out@ =~= before + ("\n"@ + indentation(*indent as nat)));
                },
            }
            i += 1;
        }
        out
    }

    /// The document as HTML: see [`fragment_html`].
    pub fn render_to_html(&self) -> (r: HtmlSnippet)
        ensures
            texts(r.head_deduplicatable_elements@) == seq![fragment_style()],
            r.body@ == fragment_html(self@),
    {
        let mut body = String::from_str("<pre class=\"spirt\">");
        let ghost head = body@;
        let mut i: usize = 0;
        while i < self.nodes.len()
            invariant
                0 <= i <= self.nodes.len(),
                body@ == head + html_text(self@, i as nat),
            decreases self.nodes.len() - i,
        {
            let ghost before = body@;
            match &self.nodes[i] {
                LaidOut::Text(s) => {
                    body.append(html_escape(s.as_str()).as_str());
                },
                LaidOut::StyledText(st, s) => {
                    body.append(format_styled_html(st, s.as_str()).as_str());
                },
                LaidOut::LineBreak { indent } => {
                    body.append("\n");
                    push_indentation(&mut body, *indent);
                },
            }
            assert(body@ =~= before + node_html(self@[i as int]));
            assert(body@ =~= head + html_text(self@, (i + 1) as nat));
            i += 1;
        }
        body.append("</pre>");
        let mut head_elements: Vec<String> = Vec::new();
        head_elements.push(
            String::from_str(
                "<style>pre.spirt { font-size: 16px; line-height: 1.2; } pre.spirt a { color: unset; text-decoration: none; }</style>",
            ),
        );
        assert(texts(head_elements@) =~= seq![fragment_style()]);
        HtmlSnippet { head_deduplicatable_elements: head_elements, body }
    }
}

} // verus!
