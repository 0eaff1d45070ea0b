//! Printing SPIR-V opcodes, operands and whole instructions.
use vstd::prelude::*;
use vstd::string::*;
use crate::pretty::{
    comma_sep, join_comma_sep, join_space, space_sep, styled, text, views, Doc, Fragment,
    FragmentList, Styles, StylesView,
};
use crate::print::printer::{
    comment_style, declarative_keyword_style, demoted, error_style, next_index,
    numeric_literal_style, spv_base_style, spv_enumerand_name_style, string_literal_style,
    Printer,
};
use crate::spv::{Inst, Operand, Token};
use crate::text::{concat2, concat3, decimal, format_usize};

verus! {

/// An opcode's name after a fainter `spv.`.
pub open spec fn opcode_doc(name_style: StylesView, name: Seq<char>) -> Doc {
    styled(demoted(spv_base_style()), "spv."@) + styled(name_style, name)
}

/// One token of an operand. The place of an ID is not printed here.
pub open spec fn token_doc(tok: Token) -> Doc {
    match tok {
        Token::Error(s) => styled(error_style(), s@),
        Token::Punctuation(s) => text(s@),
        Token::OperandKindNamespacePrefix(s) => styled(
            demoted(demoted(spv_base_style())),
            "spv."@,
        ) + styled(demoted(declarative_keyword_style()), s@ + "."@),
        Token::EnumerandName(s) => styled(spv_enumerand_name_style(), s@),
        Token::NumericLiteral(s) => styled(numeric_literal_style(), s@),
        Token::StringLiteral(s) => styled(string_literal_style(), s@),
        Token::Id => Seq::empty(),
    }
}

/// The first `count` tokens, one after the other.
pub open spec fn tokens_doc(tokens: Seq<Token>, count: nat) -> Doc
    decreases count,
{
    if count == 0 || count > tokens.len() {
        Seq::empty()
    } else {
        tokens_doc(tokens, (count - 1) as nat) + token_doc(tokens[count - 1])
    }
}

/// An operand made of immediates only.
pub open spec fn operand_doc(operand: Operand) -> Doc {
    tokens_doc(operand.tokens@, operand.tokens@.len())
}

/// The operands of an instruction while they are sorted into those that
/// go in angle brackets and those that go in parentheses.
pub ghost struct Operands {
    pub angle: Seq<Doc>,
    pub paren: Seq<Doc>,
    /// The place of the next ID among the IDs given.
    pub next_id: usize,
    /// The number of the next ID that stands inside another operand.
    pub next_extra: usize,
}

/// The values of a sequence of optional fragments.
pub open spec fn option_views(ids: Seq<Option<Fragment>>) -> Seq<Option<Doc>> {
    ids.map_values(
        |id: Option<Fragment>|
            match id {
                Some(f) => Some(f@),
                None => None,
            },
    )
}

/// The ID at place `i`: none where it is left out or where the IDs given
/// do not reach that far.
pub open spec fn id_at(ids: Seq<Option<Doc>>, i: usize) -> Option<Doc> {
    if i < ids.len() {
        ids[i as int]
    } else {
        None
    }
}

/// The comment that marks ID number `n` inside another operand.
pub open spec fn extra_comment(n: usize) -> Doc {
    styled(comment_style(), "/* #"@ + decimal(n as nat) + " */"@)
}

/// What stands for an ID that is left out.
pub open spec fn implicit_id() -> Doc {
    styled(comment_style(), "/* implicit ID */"@)
}

/// One more token of an operand with other tokens than the place of one
/// ID. At the place of an ID a numbered comment is printed, and the ID
/// itself goes in the parentheses after the same comment.
pub open spec fn token_step(ids: Seq<Option<Doc>>, acc: (Doc, Operands), tok: Token) -> (
    Doc,
    Operands,
) {
    match tok {
        Token::Id => (
            acc.0 + extra_comment(acc.1.next_extra),
            Operands {
                angle: acc.1.angle,
                paren: acc.1.paren.push(
                    space_sep(
                        extra_comment(acc.1.next_extra),
                        seq![
                            match id_at(ids, acc.1.next_id) {
                                Some(d) => d,
                                None => implicit_id(),
                            },
                        ],
                    ),
                ),
                next_id: next_index(acc.1.next_id),
                next_extra: next_index(acc.1.next_extra),
            },
        ),
        _ => (acc.0 + token_doc(tok), acc.1),
    }
}

/// The first `count` tokens of one operand.
pub open spec fn tokens_fold(
    ids: Seq<Option<Doc>>,
    st: Operands,
    tokens: Seq<Token>,
    count: nat,
) -> (Doc, Operands)
    decreases count,
{
    if count == 0 || count > tokens.len() {
        (Seq::empty(), st)
    } else {
        token_step(ids, tokens_fold(ids, st, tokens, (count - 1) as nat), tokens[count - 1])
    }
}

/// One more operand. The place of one ID takes the next ID, which goes in
/// the parentheses unless it is left out; any other operand goes in the
/// angle brackets.
pub open spec fn operand_step(ids: Seq<Option<Doc>>, st: Operands, operand: Operand) -> Operands {
    if operand.is_id() {
        Operands {
            angle: st.angle,
            paren: match id_at(ids, st.next_id) {
                Some(d) => st.paren.push(d),
                None => st.paren,
            },
            next_id: next_index(st.next_id),
            next_extra: st.next_extra,
        }
    } else {
        let done = tokens_fold(ids, st, operand.tokens@, operand.tokens@.len());
        Operands {
            angle: done.1.angle.push(done.0),
            paren: done.1.paren,
            next_id: done.1.next_id,
            next_extra: done.1.next_extra,
        }
    }
}

/// The first `count` operands.
pub open spec fn operands_fold(ids: Seq<Option<Doc>>, operands: Seq<Operand>, count: nat) -> Operands
    decreases count,
{
    if count == 0 || count > operands.len() {
        Operands { angle: Seq::empty(), paren: Seq::empty(), next_id: 0, next_extra: 0 }
    } else {
        operand_step(ids, operands_fold(ids, operands, (count - 1) as nat), operands[count - 1])
    }
}

/// `paren` followed by the IDs at the places from `from` up to `upto`
/// that are not left out.
pub open spec fn with_ids(paren: Seq<Doc>, ids: Seq<Option<Doc>>, from: nat, upto: nat) -> Seq<Doc>
    decreases upto,
{
    if upto <= from || upto > ids.len() {
        paren
    } else {
        match ids[upto - 1] {
            Some(d) => with_ids(paren, ids, from, (upto - 1) as nat).push(d),
            None => with_ids(paren, ids, from, (upto - 1) as nat),
        }
    }
}

/// A list in brackets, or nothing where the list is empty.
pub open spec fn bracketed(open: Seq<char>, items: Seq<Doc>, close: Seq<char>) -> Doc {
    if items.len() > 0 {
        comma_sep(text(open), items, text(close))
    } else {
        Seq::empty()
    }
}

/// An instruction with its IDs: the opcode, the immediate operands in
/// angle brackets, the IDs in parentheses, then `suffix`, as in
/// `spv.OpFoo<Bar, 123, "baz">(v1, v2)`. The IDs fill the places that the
/// operands have for them, in order, and those that are left over follow.
pub open spec fn spv_inst_doc(
    name_style: StylesView,
    inst: Inst,
    ids: Seq<Option<Doc>>,
    suffix: Doc,
) -> Doc {
    let st = operands_fold(ids, inst.operands@, inst.operands@.len());
    opcode_doc(name_style, inst.opcode.name@) + bracketed("<"@, st.angle, ">"@) + bracketed(
        "("@,
        with_ids(st.paren, ids, st.next_id as nat, ids.len()),
        ")"@,
    ) + suffix
}

impl<'a> Printer<'a> {
    /// Prints an opcode's name after `spv.`.
    pub fn pretty_spv_opcode(&self, opcode_name_style: Styles, name: &str) -> (r: Fragment)
        ensures
            r@ == opcode_doc(opcode_name_style@, name@),
    {
        let mut out = Fragment::styled(
            self.demote_style_for_namespace_prefix(self.spv_base_style()),
            "spv.",
        );
        out.push_styled(opcode_name_style, String::from_str(name));
        out
    }

    /// Prints one token that is not the place of an ID.
    pub fn pretty_spv_token(&self, tok: &Token) -> (r: Fragment)
        ensures
            r@ == token_doc(*tok),
    {
        match tok {
            Token::Error(s) => Fragment::styled(self.error_style(), s.as_str()),
            Token::Punctuation(s) => Fragment::text(s.as_str()),
            Token::OperandKindNamespacePrefix(s) => {
                let mut out = Fragment::styled(
                    self.demote_style_for_namespace_prefix(
                        self.demote_style_for_namespace_prefix(self.spv_base_style()),
                    ),
                    "spv.",
                );
                out.push_styled(
                    self.demote_style_for_namespace_prefix(self.declarative_keyword_style()),
                    concat2(s.as_str(), "."),
                );
                out
            },
            Token::EnumerandName(s) => Fragment::styled(
                self.spv_enumerand_name_style(),
                s.as_str(),
            ),
            Token::NumericLiteral(s) => Fragment::styled(self.numeric_literal_style(), s.as_str()),
            Token::StringLiteral(s) => Fragment::styled(self.string_literal_style(), s.as_str()),
            Token::Id => Fragment::new(),
        }
    }

    /// Prints a single operand made of immediates only, such as an
    /// enumerand with its parameters.
    pub fn pretty_spv_operand_from_imms(&self, operand: &Operand) -> (r: Fragment)
        requires
            operand.is_plain(),
        ensures
            r@ == operand_doc(*operand),
    {
        let mut out = Fragment::new();
        let mut i: usize = 0;
        while i < operand.tokens.len()
            invariant
                0 <= i <= operand.tokens.len(),
                out@ == tokens_doc(operand.tokens@, i as nat),
            decreases operand.tokens.len() - i,
        {
            out.append(self.pretty_spv_token(&operand.tokens[i]));
            i += 1;
        }
        out
    }

    /// Prints a single short immediate, such as an enumerand.
    pub fn pretty_spv_imm(&self, operand: &Operand) -> (r: Fragment)
        requires
            operand.is_plain(),
        ensures
            r@ == operand_doc(*operand),
    {
        self.pretty_spv_operand_from_imms(operand)
    }

    /// Prints an instruction with `ids` as its ID operands, where `None`
    /// is an ID that is not printed because it is implied, and with
    /// `suffix` at the end: see [`spv_inst_doc`].
    #[verifier::loop_isolation(false)]
    pub fn pretty_spv_inst(
        &self,
        spv_inst_name_style: Styles,
        inst: &Inst,
        ids: &Vec<Option<Fragment>>,
        suffix: Fragment,
    ) -> (r: Fragment)
        ensures
            r@ == spv_inst_doc(spv_inst_name_style@, *inst, option_views(ids@), suffix@),
    {
        let ghost id_docs = option_views(ids@);
        let mut angle = FragmentList::new();
        let mut paren = FragmentList::new();
        let mut next_id: usize = 0;
        let mut next_extra: usize = 0;
        assert(angle.docs() =~= Seq::<Doc>::empty());
        assert(paren.docs() =~= Seq::<Doc>::empty());
        let mut i: usize = 0;
        while i < inst.operands.len()
            invariant
                0 <= i <= inst.operands.len(),
                (Operands { angle: angle.docs(), paren: paren.docs(), next_id, next_extra })
                    == operands_fold(id_docs, inst.operands@, i as nat),
            decreases inst.operands.len() - i,
        {
            let operand = &inst.operands[i];
            let ghost before = Operands {
                angle: angle.docs(),
                paren: paren.docs(),
                next_id,
                next_extra,
            };
            if operand.check_is_id() {
                if next_id < ids.len() {
                    match &ids[next_id] {
                        Some(f) => {
                            let ghost old_paren = paren.docs();
                            paren.push(f.clone());
                            assert(paren.docs() =~= old_paren.push(f@));
                        },
                        None => {},
                    }
                }
                if next_id < usize::MAX {
                    next_id += 1;
                }
            } else {
                let mut doc = Fragment::new();
                let mut k: usize = 0;
                while k < operand.tokens.len()
                    invariant
                        0 <= k <= operand.tokens.len(),
                        (
                            doc@,
                            Operands {
                                angle: angle.docs(),
                                paren: paren.docs(),
                                next_id,
                                next_extra,
                            },
                        ) == tokens_fold(id_docs, before, operand.tokens@, k as nat),
                    decreases operand.tokens.len() - k,
                {
                    match &operand.tokens[k] {
                        Token::Id => {
                            let n = format_usize(next_extra);
                            let comment = Fragment::styled(
                                self.comment_style(),
                                concat3("/* #", n.as_str(), " */").as_str(),
                            );
                            let id = if next_id < ids.len() {
                                match &ids[next_id] {
                                    Some(f) => f.clone(),
                                    None => Fragment::styled(
                                        self.comment_style(),
                                        "/* implicit ID */",
                                    ),
                                }
                            } else {
                                Fragment::styled(self.comment_style(), "/* implicit ID */")
                            };
                            let mut contents: Vec<Fragment> = Vec::new();
                            contents.push(id);
                            assert(views(contents@) =~= seq![id@]);
                            let ghost old_paren = paren.docs();
                            let entry = join_space(comment.clone(), &contents);
                            paren.push(entry);
                            assert(paren.docs() =~= old_paren.push(entry@));
                            doc.append(comment);
                            if next_id < usize::MAX {
                                next_id += 1;
                            }
                            if next_extra < usize::MAX {
                                next_extra += 1;
                            }
                        },
                        tok => {
                            doc.append(self.pretty_spv_token(tok));
                        },
                    }
                    k += 1;
                }
                let ghost old_angle = angle.docs();
                angle.push(doc);
                assert(angle.docs() =~= old_angle.push(doc@));
            }
            i += 1;
        }
        let ghost st = operands_fold(id_docs, inst.operands@, inst.operands@.len());
        let mut j: usize = next_id;
        while j < ids.len()
            invariant
                next_id <= j,
                j <= ids.len() || j == next_id,
                paren.docs() == with_ids(st.paren, id_docs, next_id as nat, j as nat),
            decreases ids.len() - j,
        {
            assert(id_docs[j as int] == match ids@[j as int] {
                Some(f) => Some(f@),
                None => None,
            });
            match &ids[j] {
                Some(f) => {
                    let ghost old_paren = paren.docs();
                    paren.push(f.clone());
                    assert(paren.docs() =~= old_paren.push(f@));
                },
                None => {},
            }
            j += 1;
        }
        assert(paren.docs() == with_ids(st.paren, id_docs, next_id as nat, ids@.len()));
        let mut out = self.pretty_spv_opcode(spv_inst_name_style, inst.opcode.name.as_str());
        if !angle.is_empty() {
            let items = angle.into_vec();
            out.append(join_comma_sep(Fragment::text("<"), &items, Fragment::text(">")));
        }
        if !paren.is_empty() {
            let items = paren.into_vec();
            out.append(join_comma_sep(Fragment::text("("), &items, Fragment::text(")")));
        }
        out.append(suffix);
        out
    }
}

} // verus!
