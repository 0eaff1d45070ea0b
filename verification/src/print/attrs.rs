//! Printing attributes and attribute sets, and putting a name between
//! the attributes and the body of a definition.
use vstd::prelude::*;
use vstd::string::*;
use crate::ir::{Attr, AttrSetDef, Context};
use crate::pretty::{
    comma_sep, join_comma_sep, line_sep, plain_styles, styled, text, views, Doc, Fragment,
    FragmentList, Node, NodeView, Styles, StylesView,
};
use crate::print::printer::{attr_style, comment_style, Printer};
use crate::print::spv_text::{operand_doc, option_views, spv_inst_doc};
use crate::seqs::{flatten, lemma_flatten_step, lemma_take_all};
use crate::text::{
    check_plain_path, debug_quote, debug_quoted, decimal, format_u32, format_u64, is_plain_path,
};

verus! {

/// What the print of a definition consists of: its attributes, and the
/// rest of the definition without its name, which typically looks like
/// ` = ...` (for `name = ...`) or `(...) {...}` (for `name(...) {...}`).
/// The name is put between the two later.
#[derive(Debug)]
pub struct AttrsAndDef {
    pub attrs: Fragment,
    pub def_without_name: Fragment,
}

impl Default for AttrsAndDef {
    fn default() -> (r: Self)
        ensures
            r.attrs@ == Seq::<NodeView>::empty(),
            r.def_without_name@ == Seq::<NodeView>::empty(),
    {
        AttrsAndDef { attrs: Fragment::new(), def_without_name: Fragment::new() }
    }
}

/// Whether `name` begins with the definition of an anchor.
pub open spec fn begins_with_anchor_def(name: Doc) -> bool {
    name.len() > 0 && name[0] is StyledText && name[0]->StyledText_0.anchor_is_def
}

/// An empty text that defines the anchor that `name` begins with.
pub open spec fn hoisted_anchor(name: Doc) -> Doc {
    styled(
        StylesView { anchor: name[0]->StyledText_0.anchor, anchor_is_def: true, ..plain_styles() },
        Seq::empty(),
    )
}

/// `name` with its first text referring to its anchor, not defining it.
pub open spec fn without_anchor_def(name: Doc) -> Doc {
    name.update(
        0,
        NodeView::StyledText(
            StylesView { anchor_is_def: false, ..name[0]->StyledText_0 },
            name[0]->StyledText_1,
        ),
    )
}

/// `attrs`, `name` and `def`, one after the other.
///
/// Where `name` begins with the definition of an anchor and there are
/// attributes, the anchor is defined before the attributes instead, so
/// that going to the anchor does not hide them.
pub open spec fn insert_name(attrs: Doc, def: Doc, name: Doc) -> Doc {
    if attrs.len() > 0 && begins_with_anchor_def(name) {
        hoisted_anchor(name) + attrs + without_anchor_def(name) + def
    } else {
        attrs + name + def
    }
}

impl AttrsAndDef {
    /// Puts `name` between the attributes and the definition: see
    /// [`insert_name`].
    pub fn insert_name_before_def(self, name: Fragment) -> (r: Fragment)
        ensures
            r@ == insert_name(self.attrs@, self.def_without_name@, name@),
    {
        let AttrsAndDef { attrs, def_without_name } = self;
        let mut name = name;
        let ghost given = name@;
        let mut out = Fragment::new();
        if !attrs.is_empty() && name.nodes.len() > 0 {
            let anchor: Option<Option<String>> = match &name.nodes[0] {
                Node::StyledText(st, _) => if st.anchor_is_def {
                    Some(
                        match &st.anchor {
                            Some(a) => Some(a.clone()),
                            None => None,
                        },
                    )
                } else {
                    None
                },
                _ => None,
            };
            match anchor {
                Some(anchor) => {
                    let mut hoisted = Styles::default();
                    hoisted.anchor = anchor;
                    hoisted.anchor_is_def = true;
                    out.push_styled(hoisted, String::new());
                    let first = match &name.nodes[0] {
                        Node::StyledText(st, t) => {
                            let mut st = st.clone();
                            st.anchor_is_def = false;
                            Node::StyledText(st, t.clone())
                        },
                        _ => Node::ForceLineSeparation,
                    };
                    name.nodes.set(0, first);
                    assert(name@ =~= without_anchor_def(given));
                    assert(out@ =~= hoisted_anchor(given));
                },
                None => {},
            }
        }
        out.append(attrs);
        out.append(name);
        out.append(def_without_name);
        assert(out@ =~= insert_name(self.attrs@, self.def_without_name@, given));
        out
    }
}

/// Whether an attribute is printed as a comment after the definition's
/// attributes or among them.
#[derive(Clone, Copy, PartialEq, Eq, Structural, Debug)]
pub enum AttrStyle {
    Comment,
    NonComment,
}

/// The comment for a source position. Columns are printed one higher than
/// they are stored. A file name that has only visible ASCII characters
/// and no colon is printed as it is, any other in quotes.
pub open spec fn debug_line_text(path: Seq<char>, line: u32, col: u32) -> Seq<char> {
    "// at "@ + (if is_plain_path(path) {
        path
    } else {
        debug_quoted(path)
    }) + ":"@ + decimal(line as nat) + ":"@ + decimal((col + 1) as nat)
}

/// Whether an attribute is printed as a comment.
pub open spec fn attr_style_of(attr: Attr) -> AttrStyle {
    match attr {
        Attr::SpvDebugLine { .. } => AttrStyle::Comment,
        _ => AttrStyle::NonComment,
    }
}

/// One attribute.
pub open spec fn attr_doc(cx: &Context, attr: Attr) -> Doc {
    match attr {
        Attr::SpvAnnotation(inst) => spv_inst_doc(
            attr_style(),
            inst,
            seq![None],
            Seq::empty(),
        ),
        Attr::SpvDebugLine { file_path, line, col } => styled(
            comment_style(),
            debug_line_text(cx.str_text(file_path), line, col),
        ),
        Attr::SpvBitflagsOperand(operand) => operand_doc(operand),
    }
}

/// Those of the first `count` attributes that have the style `want`.
pub open spec fn attr_docs(cx: &Context, attrs: Seq<Attr>, want: AttrStyle, count: nat) -> Seq<Doc>
    decreases count,
{
    if count == 0 || count > attrs.len() {
        Seq::empty()
    } else if attr_style_of(attrs[count - 1]) == want {
        attr_docs(cx, attrs, want, (count - 1) as nat).push(attr_doc(cx, attrs[count - 1]))
    } else {
        attr_docs(cx, attrs, want, (count - 1) as nat)
    }
}

/// The attributes that are not comments, in `#{` and `}`: each on a line
/// of its own where there are several.
pub open spec fn attr_list(plain: Seq<Doc>) -> Doc {
    comma_sep(
        styled(attr_style(), "#{"@),
        Seq::new(
            plain.len(),
            |i: int|
                if plain.len() > 1 {
                    line_sep() + plain[i]
                } else {
                    plain[i]
                },
        ),
        styled(attr_style(), "}"@),
    )
}

/// An attribute set: the attributes that are not comments as one list,
/// if there are any, then the comments, each followed by a line break.
pub open spec fn attr_set_def_doc(cx: &Context, def: AttrSetDef) -> Doc {
    let plain = attr_docs(cx, def.attrs@, AttrStyle::NonComment, def.attrs@.len());
    let comments = attr_docs(cx, def.attrs@, AttrStyle::Comment, def.attrs@.len());
    let entries = if plain.len() == 0 {
        comments
    } else {
        seq![attr_list(plain)] + comments
    };
    flatten(Seq::new(entries.len(), |i: int| entries[i] + line_sep()))
}

impl<'a> Printer<'a> {
    /// Prints one attribute, and says whether it is a comment.
    pub fn print_attr(&self, attr: &Attr) -> (r: (AttrStyle, Fragment))
        requires
            self.cx.attr_ok(*attr),
        ensures
            r.0 == attr_style_of(*attr),
            r.1@ == attr_doc(self.cx, *attr),
    {
        match attr {
            Attr::SpvAnnotation(inst) => {
                let mut ids: Vec<Option<Fragment>> = Vec::new();
                ids.push(None);
                assert(option_views(ids@) =~= seq![None]);
                (
                    AttrStyle::NonComment,
                    self.pretty_spv_inst(self.attr_style(), inst, &ids, Fragment::new()),
                )
            },
            Attr::SpvDebugLine { file_path, line, col } => {
                let path = self.cx.lookup_str(*file_path).unwrap();
                let mut comment = String::from_str("// at ");
                if check_plain_path(path.as_str()) {
                    comment.append(path.as_str());
                } else {
                    comment.append(debug_quote(path.as_str()).as_str());
                }
                comment.append(":");
                comment.append(format_u32(*line).as_str());
                comment.append(":");
                comment.append(format_u64(*col as u64 + 1).as_str());
                (AttrStyle::Comment, Fragment::styled(self.comment_style(), comment.as_str()))
            },
            Attr::SpvBitflagsOperand(operand) => (
                AttrStyle::NonComment,
                self.pretty_spv_operand_from_imms(operand),
            ),
        }
    }

    /// Prints the definition of an attribute set: see
    /// [`attr_set_def_doc`].
    #[verifier::loop_isolation(false)]
    pub fn print_attr_set_def(&self, def: &AttrSetDef) -> (r: Fragment)
        requires
            self.cx.attr_set_def_wf(*def),
        ensures
            r@ == attr_set_def_doc(self.cx, *def),
    {
        let cx = self.cx;
        let mut comments = FragmentList::new();
        let mut plain = FragmentList::new();
        assert(comments.docs() =~= Seq::<Doc>::empty());
        assert(plain.docs() =~= Seq::<Doc>::empty());
        let mut i: usize = 0;
        while i < def.attrs.len()
            invariant
                0 <= i <= def.attrs.len(),
                comments.docs() == attr_docs(cx, def.attrs@, AttrStyle::Comment, i as nat),
                plain.docs() == attr_docs(cx, def.attrs@, AttrStyle::NonComment, i as nat),
            decreases def.attrs.len() - i,
        {
            let (style, doc) = self.print_attr(&def.attrs[i]);
            match style {
                AttrStyle::Comment => {
                    let ghost before = comments.docs();
                    comments.push(doc);
                    assert(comments.docs() =~= before.push(doc@));
                },
                AttrStyle::NonComment => {
                    let ghost before = plain.docs();
                    plain.push(doc);
                    assert(plain.docs() =~= before.push(doc@));
                },
            }
            i += 1;
        }
        let ghost plain_docs = plain.docs();
        let ghost comment_docs = comments.docs();
        let mut entries: Vec<Fragment> = Vec::new();
        if !plain.is_empty() {
            let plain = plain.into_vec();
            let mut items: Vec<Fragment> = Vec::new();
            let mut k: usize = 0;
            while k < plain.len()
                invariant
                    0 <= k <= plain.len(),
                    views(plain@) == plain_docs,
                    items@.len() == k,
                    forall|j: int|
                        0 <= j < k ==> (#[trigger] items@[j])@ == (if plain_docs.len() > 1 {
                            line_sep() + plain_docs[j]
                        } else {
                            plain_docs[j]
                        }),
                decreases plain.len() - k,
            {
                let mut item = Fragment::new();
                if plain.len() > 1 {
                    item.push_line_sep();
                }
                item.extend_from(&plain[k]);
                assert(item@ =~= (if plain_docs.len() > 1 {
                    line_sep() + plain_docs[k as int]
                } else {
                    plain_docs[k as int]
                }));
                items.push(item);
                k += 1;
            }
            assert(views(items@) =~= Seq::new(
                plain_docs.len(),
                |i: int|
                    if plain_docs.len() > 1 {
                        line_sep() + plain_docs[i]
                    } else {
                        plain_docs[i]
                    },
            ));
            let list = join_comma_sep(
                Fragment::styled(self.attr_style(), "#{"),
                &items,
                Fragment::styled(self.attr_style(), "}"),
            );
            entries.push(list);
        }
        let ghost head = views(entries@);
        assert(head =~= (if plain_docs.len() == 0 {
            Seq::<Doc>::empty()
        } else {
            seq![attr_list(plain_docs)]
        }));
        let comments = comments.into_vec();
        let mut k: usize = 0;
        while k < comments.len()
            invariant
                0 <= k <= comments.len(),
                views(comments@) == comment_docs,
                views(entries@) == head + comment_docs.take(k as int),
            decreases comments.len() - k,
        {
            let ghost before = views(entries@);
            let comment = comments[k].clone();
            assert(comment@ == views(comments@)[k as int]);
            entries.push(comment);
            assert(views(entries@) =~= before.push(comment@));
            assert(views(entries@) =~= head + comment_docs.take(k + 1));
            k += 1;
        }
        proof {
            lemma_take_all(comment_docs);
        }
        let ghost all = views(entries@);
        assert(all =~= (if plain_docs.len() == 0 {
            comment_docs
        } else {
            seq![attr_list(plain_docs)] + comment_docs
        }));
        let ghost lines = Seq::new(all.len(), |i: int| all[i] + line_sep());
        let mut out = Fragment::new();
        let mut k: usize = 0;
        while k < entries.len()
            invariant
                0 <= k <= entries.len(),
                all == views(entries@),
                out@ == flatten(lines.take(k as int)),
            decreases entries.len() - k,
        {
            proof {
                lemma_flatten_step(lines, k as int);
            }
            out.extend_from(&entries[k]);
            out.push_line_sep();
            assert(out@ =~= flatten(lines.take(k + 1)));
            k += 1;
        }
        proof {
            lemma_take_all(lines);
        }
        out
    }
}

} // verus!
