//! Abstract documents: styled text leaves, forced line breaks, indented
//! blocks and groups that are laid out inline or as a block.
//!
//! A [`Fragment`] is a flat sequence of [`Node`]s; blocks and groups are
//! delimited by start and end nodes, so concatenating fragments is
//! concatenating their nodes.
use vstd::prelude::*;
use vstd::string::*;
use crate::seqs::{flatten, lemma_flatten_step};

verus! {

/// A colour, as red, green and blue components.
#[derive(Clone, Copy, PartialEq, Eq, Structural, Debug)]
pub struct Rgb {
    pub r: u8,
    pub g: u8,
    pub b: u8,
}

/// The dark gray of the palette.
pub open spec fn dark_gray() -> Rgb {
    Rgb { r: 0x44, g: 0x44, b: 0x44 }
}

/// The red of the palette.
pub open spec fn red() -> Rgb {
    Rgb { r: 0xcc, g: 0x55, b: 0x55 }
}

/// The green of the palette.
pub open spec fn green() -> Rgb {
    Rgb { r: 0x44, g: 0x99, b: 0x44 }
}

/// The blue of the palette.
pub open spec fn blue() -> Rgb {
    Rgb { r: 0x44, g: 0x66, b: 0xcc }
}

/// The yellow of the palette.
pub open spec fn yellow() -> Rgb {
    Rgb { r: 0xcc, g: 0x99, b: 0x44 }
}

/// The magenta of the palette.
pub open spec fn magenta() -> Rgb {
    Rgb { r: 0xcc, g: 0x44, b: 0xcc }
}

/// The cyan of the palette.
pub open spec fn cyan() -> Rgb {
    Rgb { r: 0x44, g: 0x99, b: 0xcc }
}

/// The orange of the palette.
pub open spec fn orange() -> Rgb {
    Rgb { r: 0xcc, g: 0x77, b: 0x55 }
}

/// How a piece of text looks and whether it carries a navigation anchor.
///
/// `color_opacity` is in thousandths: `1000` is fully opaque.
#[derive(Debug)]
pub struct Styles {
    pub anchor: Option<String>,
    pub anchor_is_def: bool,
    pub color: Option<Rgb>,
    pub color_opacity: Option<u16>,
    pub thickness: Option<i8>,
    pub size: Option<i8>,
    pub subscript: bool,
    pub superscript: bool,
}

/// The mathematical value of a [`Styles`].
pub ghost struct StylesView {
    pub anchor: Option<Seq<char>>,
    pub anchor_is_def: bool,
    pub color: Option<Rgb>,
    pub color_opacity: Option<u16>,
    pub thickness: Option<i8>,
    pub size: Option<i8>,
    pub subscript: bool,
    pub superscript: bool,
}

/// The styles that leave text as it is.
pub open spec fn plain_styles() -> StylesView {
    StylesView {
        anchor: None,
        anchor_is_def: false,
        color: None,
        color_opacity: None,
        thickness: None,
        size: None,
        subscript: false,
        superscript: false,
    }
}

/// Plain styles with only a colour set.
pub open spec fn colored(color: Rgb) -> StylesView {
    StylesView { color: Some(color), ..plain_styles() }
}

impl View for Styles {
    type V = StylesView;

    open spec fn view(&self) -> StylesView {
        StylesView {
            anchor: match self.anchor {
                Some(a) => Some(a@),
                None => None,
            },
            anchor_is_def: self.anchor_is_def,
            color: self.color,
            color_opacity: self.color_opacity,
            thickness: self.thickness,
            size: self.size,
            subscript: self.subscript,
            superscript: self.superscript,
        }
    }
}

impl Clone for Styles {
    fn clone(&self) -> (r: Self)
        ensures
            r@ == self@,
    {
        Styles {
            anchor: match &self.anchor {
                Some(a) => Some(a.clone()),
                None => None,
            },
            anchor_is_def: self.anchor_is_def,
            color: self.color,
            color_opacity: self.color_opacity,
            thickness: self.thickness,
            size: self.size,
            subscript: self.subscript,
            superscript: self.superscript,
        }
    }
}

impl Default for Styles {
    fn default() -> (r: Self)
        ensures
            r@ == plain_styles(),
    {
        Styles {
            anchor: None,
            anchor_is_def: false,
            color: None,
            color_opacity: None,
            thickness: None,
            size: None,
            subscript: false,
            superscript: false,
        }
    }
}

impl Styles {
    /// Plain styles with only a colour set.
    pub fn color(color: Rgb) -> (r: Self)
        ensures
            r@ == colored(color),
    {
        Styles {
            anchor: None,
            anchor_is_def: false,
            color: Some(color),
            color_opacity: None,
            thickness: None,
            size: None,
            subscript: false,
            superscript: false,
        }
    }

    /// The text `text` in these styles.
    pub fn apply(self, text: String) -> (r: Node)
        ensures
            r@ == NodeView::StyledText(self@, text@),
    {
        Node::StyledText(self, text)
    }

    /// Whether two styles have the same value.
    pub fn same(&self, other: &Styles) -> (r: bool)
        ensures
            r == (self@ == other@),
    {
        let anchors = match (&self.anchor, &other.anchor) {
            (Some(a), Some(b)) => *a == *b,
            (None, None) => true,
            _ => false,
        };
        anchors && self.anchor_is_def == other.anchor_is_def && self.color == other.color
            && self.color_opacity == other.color_opacity && self.thickness == other.thickness
            && self.size == other.size && self.subscript == other.subscript && self.superscript
            == other.superscript
    }
}

/// One element of a document.
#[derive(Debug)]
pub enum Node {
    /// Text as it is.
    Text(String),
    /// Text with styles.
    StyledText(Styles, String),
    /// Everything up to the matching [`Node::BlockEnd`] goes on lines of
    /// its own, one level deeper.
    BlockStart,
    BlockEnd,
    /// Everything up to the matching [`Node::GroupEnd`] is laid out either
    /// on the current line or as an indented block.
    GroupStart,
    GroupEnd,
    /// A space where its group is laid out inline, a line break where it
    /// is laid out as a block.
    BreakingOnlySpace,
    /// Ends the current line unless it is empty.
    ForceLineSeparation,
    /// Text that appears only where its group is laid out as a block.
    IfBlockLayout(String),
}

/// The mathematical value of a [`Node`].
pub ghost enum NodeView {
    Text(Seq<char>),
    StyledText(StylesView, Seq<char>),
    BlockStart,
    BlockEnd,
    GroupStart,
    GroupEnd,
    BreakingOnlySpace,
    ForceLineSeparation,
    IfBlockLayout(Seq<char>),
}

/// The mathematical value of a document: its nodes in order.
pub type Doc = Seq<NodeView>;

impl View for Node {
    type V = NodeView;

    open spec fn view(&self) -> NodeView {
        match self {
            Node::Text(s) => NodeView::Text(s@),
            Node::StyledText(st, s) => NodeView::StyledText(st@, s@),
            Node::BlockStart => NodeView::BlockStart,
            Node::BlockEnd => NodeView::BlockEnd,
            Node::GroupStart => NodeView::GroupStart,
            Node::GroupEnd => NodeView::GroupEnd,
            Node::BreakingOnlySpace => NodeView::BreakingOnlySpace,
            Node::ForceLineSeparation => NodeView::ForceLineSeparation,
            Node::IfBlockLayout(s) => NodeView::IfBlockLayout(s@),
        }
    }
}

impl Clone for Node {
    fn clone(&self) -> (r: Self)
        ensures
            r@ == self@,
    {
        match self {
            Node::Text(s) => Node::Text(s.clone()),
            Node::StyledText(st, s) => Node::StyledText(st.clone(), s.clone()),
            Node::BlockStart => Node::BlockStart,
            Node::BlockEnd => Node::BlockEnd,
            Node::GroupStart => Node::GroupStart,
            Node::GroupEnd => Node::GroupEnd,
            Node::BreakingOnlySpace => Node::BreakingOnlySpace,
            Node::ForceLineSeparation => Node::ForceLineSeparation,
            Node::IfBlockLayout(s) => Node::IfBlockLayout(s.clone()),
        }
    }
}

impl Node {
    /// Whether two nodes have the same value.
    pub fn same(&self, other: &Node) -> (r: bool)
        ensures
            r == (self@ == other@),
    {
        match (self, other) {
            (Node::Text(a), Node::Text(b)) => *a == *b,
            (Node::StyledText(sa, a), Node::StyledText(sb, b)) => sa.same(sb) && *a == *b,
            (Node::BlockStart, Node::BlockStart) => true,
            (Node::BlockEnd, Node::BlockEnd) => true,
            (Node::GroupStart, Node::GroupStart) => true,
            (Node::GroupEnd, Node::GroupEnd) => true,
            (Node::BreakingOnlySpace, Node::BreakingOnlySpace) => true,
            (Node::ForceLineSeparation, Node::ForceLineSeparation) => true,
            (Node::IfBlockLayout(a), Node::IfBlockLayout(b)) => *a == *b,
            _ => false,
        }
    }
}

/// A document.
#[derive(Debug)]
pub struct Fragment {
    pub nodes: Vec<Node>,
}

impl View for Fragment {
    type V = Doc;

    open spec fn view(&self) -> Doc {
        self.nodes@.map_values(|n: Node| n@)
    }
}

/// The values of a sequence of fragments.
pub open spec fn views(parts: Seq<Fragment>) -> Seq<Doc> {
    parts.map_values(|f: Fragment| f@)
}

/// The document of one plain text.
pub open spec fn text(s: Seq<char>) -> Doc {
    seq![NodeView::Text(s)]
}

/// The document of one styled text.
pub open spec fn styled(styles: StylesView, s: Seq<char>) -> Doc {
    seq![NodeView::StyledText(styles, s)]
}

/// The document of one forced line break.
pub open spec fn line_sep() -> Doc {
    seq![NodeView::ForceLineSeparation]
}

/// The parts one after another, with `sep` between each two.
pub open spec fn interspersed(parts: Seq<Doc>, sep: Doc) -> Doc
    decreases parts.len(),
{
    if parts.len() == 0 {
        Seq::empty()
    } else if parts.len() == 1 {
        parts[0]
    } else {
        interspersed(parts.drop_last(), sep) + sep + parts.last()
    }
}

/// An indented block whose children each start on a line of their own.
pub open spec fn indented(children: Seq<Doc>) -> Doc {
    seq![NodeView::BlockStart] + interspersed(children, line_sep()) + seq![NodeView::BlockEnd]
}

/// Item `i` of a comma-separated list with what follows it: a comma and a
/// breaking space, or after the last item a comma that shows only in
/// block layout.
pub open spec fn comma_item(contents: Seq<Doc>, i: int) -> Doc {
    if i + 1 == contents.len() {
        contents[i] + seq![NodeView::IfBlockLayout(","@)]
    } else {
        contents[i] + seq![NodeView::Text(","@), NodeView::BreakingOnlySpace]
    }
}

/// `prefix`, the comma-separated `contents` as a group, `suffix`.
pub open spec fn comma_sep(prefix: Doc, contents: Seq<Doc>, suffix: Doc) -> Doc {
    prefix + seq![NodeView::GroupStart] + flatten(
        Seq::new(contents.len(), |i: int| comma_item(contents, i)),
    ) + seq![NodeView::GroupEnd] + suffix
}

/// `prefix`, then the `contents` as a group, each after a breaking space.
pub open spec fn space_sep(prefix: Doc, contents: Seq<Doc>) -> Doc {
    prefix + seq![NodeView::GroupStart] + flatten(
        Seq::new(contents.len(), |i: int| seq![NodeView::BreakingOnlySpace] + contents[i]),
    ) + seq![NodeView::GroupEnd]
}

/// The parts with `sep` put between each two of them.
pub open spec fn interleave(parts: Seq<Doc>, sep: Doc) -> Seq<Doc> {
    Seq::new(
        if parts.len() == 0 {
            0
        } else {
            (2 * parts.len() - 1) as nat
        },
        |i: int|
            if i % 2 == 0 {
                parts[i / 2]
            } else {
                sep
            },
    )
}

/// Flattening interleaved parts puts the separator between them.
pub proof fn lemma_flatten_interleave(parts: Seq<Doc>, sep: Doc)
    ensures
        flatten(interleave(parts, sep)) == interspersed(parts, sep),
    decreases parts.len(),
{
    let all = interleave(parts, sep);
    if parts.len() == 0 {
    } else if parts.len() == 1 {
        assert(all.len() == 1);
        assert(all.drop_last() =~= Seq::<Doc>::empty());
        assert(flatten(all.drop_last()) =~= Seq::<NodeView>::empty());
        assert(all.last() == parts[0]);
        assert(flatten(all) =~= parts[0]);
    } else {
        let shorter = parts.drop_last();
        lemma_flatten_interleave(shorter, sep);
        let n = parts.len() as int;
        assert(all.len() == 2 * n - 1);
        assert(all.drop_last().len() == 2 * n - 2);
        assert(all.drop_last().drop_last() =~= interleave(shorter, sep));
        assert(all.last() == parts.last());
        assert(all.drop_last().last() == sep);
        assert(flatten(all.drop_last()) == flatten(all.drop_last().drop_last()) + sep);
        assert(flatten(all) == flatten(all.drop_last()) + parts.last());
    }
}

impl Clone for Fragment {
    fn clone(&self) -> (r: Self)
        ensures
            r@ == self@,
    {
        let mut nodes: Vec<Node> = Vec::new();
        let mut i: usize = 0;
        while i < self.nodes.len()
            invariant
                0 <= i <= self.nodes.len(),
                nodes@.len() == i,
                forall|j: int| 0 <= j < i ==> (#[trigger] nodes@[j])@ == self.nodes@[j]@,
            decreases self.nodes.len() - i,
        {
            nodes.push(self.nodes[i].clone());
            i += 1;
        }
        let r = Fragment { nodes };
        assert(r@ =~= self@);
        r
    }
}

impl Default for Fragment {
    fn default() -> (r: Self)
        ensures
            r@ == Seq::<NodeView>::empty(),
    {
        let r = Fragment { nodes: Vec::new() };
        assert(r@ =~= Seq::<NodeView>::empty());
        r
    }
}

impl Fragment {
    /// The empty document.
    pub fn new() -> (r: Self)
        ensures
            r@ == Seq::<NodeView>::empty(),
    {
        let r = Fragment { nodes: Vec::new() };
        assert(r@ =~= Seq::<NodeView>::empty());
        r
    }

    /// The document of one node.
    pub fn from_node(node: Node) -> (r: Self)
        ensures
            r@ == seq![node@],
    {
        let mut nodes: Vec<Node> = Vec::new();
        nodes.push(node);
        let r = Fragment { nodes };
        assert(r@ =~= seq![node@]);
        r
    }

    /// The document of one plain text.
    pub fn text(s: &str) -> (r: Self)
        ensures
            r@ == text(s@),
    {
        Fragment::from_node(Node::Text(String::from_str(s)))
    }

    /// The document of one styled text.
    pub fn styled(styles: Styles, s: &str) -> (r: Self)
        ensures
            r@ == styled(styles@, s@),
    {
        Fragment::from_node(Node::StyledText(styles, String::from_str(s)))
    }

    /// Whether the document has no nodes.
    pub fn is_empty(&self) -> (r: bool)
        ensures
            r == (self@.len() == 0),
    {
        self.nodes.len() == 0
    }

    /// Adds one node at the end.
    pub fn push(&mut self, node: Node)
        ensures
            final(self)@ == old(self)@.push(node@),
    {
        self.nodes.push(node);
        assert(self@ =~= old(self)@.push(node@));
    }

    /// Adds one plain text at the end.
    pub fn push_text(&mut self, s: &str)
        ensures
            final(self)@ == old(self)@ + text(s@),
    {
        self.nodes.push(Node::Text(String::from_str(s)));
        assert(self@ =~= old(self)@ + text(s@));
    }

    /// Adds one styled text at the end.
    pub fn push_styled(&mut self, styles: Styles, s: String)
        ensures
            final(self)@ == old(self)@ + styled(styles@, s@),
    {
        self.nodes.push(Node::StyledText(styles, s));
        assert(self@ =~= old(self)@ + styled(styles@, s@));
    }

    /// Adds a forced line break at the end.
    pub fn push_line_sep(&mut self)
        ensures
            final(self)@ == old(self)@ + line_sep(),
    {
        self.nodes.push(Node::ForceLineSeparation);
        assert(self@ =~= old(self)@ + line_sep());
    }

    /// Adds all of `other` at the end.
    pub fn append(&mut self, other: Fragment)
        ensures
            final(self)@ == old(self)@ + other@,
    {
        let ghost added = other@;
        let mut other = other;
        self.nodes.append(&mut other.nodes);
        assert(self@ =~= old(self)@ + added);
    }

    /// Adds a copy of all of `other` at the end.
    pub fn extend_from(&mut self, other: &Fragment)
        ensures
            final(self)@ == old(self)@ + other@,
    {
        self.append(other.clone());
    }

    /// The parts one after another.
    pub fn concat(parts: &Vec<Fragment>) -> (r: Fragment)
        ensures
            r@ == flatten(views(parts@)),
    {
        let mut out = Fragment::new();
        let mut i: usize = 0;
        while i < parts.len()
            invariant
                0 <= i <= parts.len(),
                out@ == flatten(views(parts@).take(i as int)),
            decreases parts.len() - i,
        {
            proof {
                lemma_flatten_step(views(parts@), i as int);
            }
            out.extend_from(&parts[i]);
            i += 1;
        }
        assert(views(parts@).take(parts.len() as int) =~= views(parts@));
        out
    }

    /// The parts one after another, with a copy of `sep` between each two.
    pub fn join(parts: Vec<Fragment>, sep: Fragment) -> (r: Fragment)
        ensures
            r@ == interspersed(views(parts@), sep@),
    {
        proof {
            lemma_flatten_interleave(views(parts@), sep@);
        }
        let all = intersperse(parts, sep);
        Fragment::concat(&all)
    }

    /// An indented block whose children each start on a line of their own.
    pub fn indented_block(children: Vec<Fragment>) -> (r: Fragment)
        ensures
            r@ == indented(views(children@)),
    {
        let mut out = Fragment::from_node(Node::BlockStart);
        let inner = Fragment::join(children, Fragment::from_node(Node::ForceLineSeparation));
        out.append(inner);
        out.push(Node::BlockEnd);
        assert(out@ =~= indented(views(children@)));
        out
    }

    /// Whether two documents have the same value.
    pub fn same(&self, other: &Fragment) -> (r: bool)
        ensures
            r == (self@ == other@),
    {
        if self.nodes.len() != other.nodes.len() {
            assert(self@.len() != other@.len());
            return false;
        }
        let mut i: usize = 0;
        while i < self.nodes.len()
            invariant
                0 <= i <= self.nodes.len(),
                self.nodes.len() == other.nodes.len(),
                forall|j: int| 0 <= j < i ==> self@[j] == other@[j],
            decreases self.nodes.len() - i,
        {
            if !self.nodes[i].same(&other.nodes[i]) {
                assert(self@[i as int] != other@[i as int]);
                return false;
            }
            i += 1;
        }
        assert(self@ =~= other@);
        true
    }
}

/// A short list of fragments, kept in a `smallvec::SmallVec` so that the
/// usual handful of operands needs no allocation.
#[verifier::external_body]
pub struct FragmentList {
    items: smallvec::SmallVec<[Fragment; 4]>,
}

/// The fragments that a list holds, in order.
pub uninterp spec fn fragment_list_items(list: FragmentList) -> Seq<Fragment>;

impl FragmentList {
    /// The documents that the list holds, in order.
    pub open spec fn docs(&self) -> Seq<Doc> {
        views(fragment_list_items(*self))
    }

    /// `SmallVec::new`: a list that holds nothing.
    #[verifier::external_body]
    pub(crate) fn new() -> (r: FragmentList)
        ensures
            fragment_list_items(r) == Seq::<Fragment>::empty(),
    {
        FragmentList { items: smallvec::SmallVec::new() }
    }

    /// `SmallVec::push`: the list holds what it held, and then `item`.
    #[verifier::external_body]
    pub(crate) fn push(&mut self, item: Fragment)
        ensures
            fragment_list_items(*final(self)) == fragment_list_items(*old(self)).push(item),
    {
        self.items.push(item)
    }

    /// `SmallVec::is_empty`: whether the list holds nothing.
    #[verifier::external_body]
    pub(crate) fn is_empty(&self) -> (r: bool)
        ensures
            r == (fragment_list_items(*self).len() == 0),
    {
        self.items.is_empty()
    }

    /// `SmallVec::into_vec`: what the list held, in the same order.
    #[verifier::external_body]
    pub(crate) fn into_vec(self) -> (r: Vec<Fragment>)
        ensures
            r@ == fragment_list_items(self),
    {
        self.items.into_vec()
    }
}

/// Puts a copy of `sep` between each two of `parts`, through
/// `itertools::Itertools::intersperse`: the parts stay in order, and the
/// result holds one separator fewer than parts.
#[verifier::external_body]
pub(crate) fn intersperse(parts: Vec<Fragment>, sep: Fragment) -> (r: Vec<Fragment>)
    ensures
        views(r@) == interleave(views(parts@), sep@),
{
    itertools::Itertools::intersperse(parts.into_iter(), sep).collect()
}

/// `prefix`, then `contents` separated by commas as a group that is laid
/// out inline or as a block, then `suffix`.
pub fn join_comma_sep(prefix: Fragment, contents: &Vec<Fragment>, suffix: Fragment) -> (r:
    Fragment)
    ensures
        r@ == comma_sep(prefix@, views(contents@), suffix@),
{
    let ghost docs = views(contents@);
    let ghost items = Seq::new(docs.len(), |i: int| comma_item(docs, i));
    let ghost start = prefix@;
    let mut out = prefix;
    out.push(Node::GroupStart);
    let ghost head = out@;
    let mut i: usize = 0;
    while i < contents.len()
        invariant
            0 <= i <= contents.len(),
            docs == views(contents@),
            items == Seq::new(docs.len(), |i: int| comma_item(docs, i)),
            out@ == head + flatten(items.take(i as int)),
        decreases contents.len() - i,
    {
        proof {
            lemma_flatten_step(items, i as int);
        }
        let ghost before = out@;
        out.extend_from(&contents[i]);
        if i + 1 == contents.len() {
            out.push(Node::IfBlockLayout(String::from_str(",")));
        } else {
            out.push(Node::Text(String::from_str(",")));
            out.push(Node::BreakingOnlySpace);
        }
        assert(out@ =~= before + comma_item(docs, i as int));
        assert(out@ =~= head + flatten(items.take(i + 1)));
        i += 1;
    }
    assert(items.take(contents.len() as int) =~= items);
    out.push(Node::GroupEnd);
    out.append(suffix);
    assert(out@ =~= comma_sep(start, views(contents@), suffix@));
    out
}

/// `prefix`, then `contents` as a group, each after a space that breaks
/// the line where the group is laid out as a block.
pub fn join_space(prefix: Fragment, contents: &Vec<Fragment>) -> (r: Fragment)
    ensures
        r@ == space_sep(prefix@, views(contents@)),
{
    let ghost docs = views(contents@);
    let ghost items = Seq::new(docs.len(), |i: int| seq![NodeView::BreakingOnlySpace] + docs[i]);
    let ghost start = prefix@;
    let mut out = prefix;
    out.push(Node::GroupStart);
    let ghost head = out@;
    let mut i: usize = 0;
    while i < contents.len()
        invariant
            0 <= i <= contents.len(),
            docs == views(contents@),
            items == Seq::new(docs.len(), |i: int| seq![NodeView::BreakingOnlySpace] + docs[i]),
            out@ == head + flatten(items.take(i as int)),
        decreases contents.len() - i,
    {
        proof {
            lemma_flatten_step(items, i as int);
        }
        let ghost before = out@;
        out.push(Node::BreakingOnlySpace);
        out.extend_from(&contents[i]);
        assert(out@ =~= before + items[i as int]);
        assert(out@ =~= head + flatten(items.take(i + 1)));
        i += 1;
    }
    assert(items.take(contents.len() as int) =~= items);
    out.push(Node::GroupEnd);
    assert(out@ =~= space_sep(start, views(contents@)));
    out
}

} // verus!
