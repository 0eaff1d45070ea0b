//! Printing uses, and the interned definitions that are printed where
//! they are used: types, constants and attribute sets.
use vstd::prelude::*;
use vstd::string::*;
use crate::ir::{
    Const, ConstCtor, ConstDef, Context, Func, Interned, Type, TypeCtor, TypeCtorArg, TypeDef,
};
use crate::pretty::{
    join_space, plain_styles, space_sep, styled, text, views, Doc, Fragment, Node as DocNode,
    NodeView, Styles, StylesView,
};
use crate::print::attrs::{attr_set_def_doc, insert_name, AttrsAndDef};
use crate::print::deps::{attrs_use, const_use, type_arg_use, type_use};
use crate::print::discovery::rank;
use crate::print::printer::{Scheme, 
    attr_style, declarative_keyword_style, error_style, numeric_literal_style, spv_op_style,
    string_literal_style, FloatLiteral, Printer,
};
use crate::print::spv_text::{opcode_doc, option_views, spv_inst_doc};
use crate::print::use_map::value_of;
use crate::print::uses::{CxInterned, Node, Use, UseStyle};
use crate::spv;
use crate::text::{
    concat2, debug_quote, debug_quoted, decimal, format_i128, format_u32, format_u64,
    format_usize, signed_decimal,
};

verus! {

/// How a use is printed: in place, unless the printer names it.
pub open spec fn style_of(p: Scheme, u: Use) -> UseStyle {
    match value_of(p.styles, u) {
        Some(style) => style,
        None => UseStyle::Inline,
    }
}

/// The name of a use with index `idx`: its category and the index, or
/// for the dialect and the debug information the category alone.
pub open spec fn anon_name(u: Use, idx: usize) -> Seq<char> {
    if u == Use::Node(Node::ModuleDialect) || u == Use::Node(Node::ModuleDebugInfo) {
        u.category_text()
    } else {
        u.category_text() + decimal(idx as nat)
    }
}

/// The index that a style names by, or zero for a style that names
/// nothing.
pub open spec fn index_in(style: UseStyle) -> usize {
    match style {
        UseStyle::Anon { idx, .. } => idx,
        UseStyle::Inline => 0,
    }
}

/// The anchor of the name `name`: inside a function, the function's own
/// name and a dot come first, so that anchors differ between functions.
pub open spec fn anchor_of(p: Scheme, parent_func: Option<Func>, name: Seq<char>) -> Seq<char> {
    match parent_func {
        Some(func) => "func"@ + decimal(
            index_in(style_of(p, Use::Node(Node::Func(func)))) as nat,
        ) + "."@ + name,
        None => name,
    }
}

/// A use printed by name. The name carries its anchor, which it defines
/// if `is_def`. The name of an attribute set begins with `#` and is
/// followed by a line break.
pub open spec fn anon_doc(
    p: Scheme,
    u: Use,
    parent_func: Option<Func>,
    idx: usize,
    is_def: bool,
) -> Doc {
    let name = anon_name(u, idx);
    let anchor = anchor_of(p, parent_func, name);
    if u matches Use::CxInterned(CxInterned::AttrSet(_)) {
        seq![
            NodeView::StyledText(
                StylesView { anchor: Some(anchor), anchor_is_def: is_def, ..attr_style() },
                "#"@ + name,
            ),
            NodeView::ForceLineSeparation,
        ]
    } else {
        styled(StylesView { anchor: Some(anchor), anchor_is_def: is_def, ..plain_styles() }, name)
    }
}

/// What stands for a node that has no definition.
pub open spec fn undefined_doc(node: Node) -> Doc {
    styled(error_style(), "/* undefined "@ + node.category_word() + " */_"@)
}

/// A `: T` after something of type `T`.
pub open spec fn type_ascription(ty: Doc) -> Doc {
    space_sep(text(":"@), seq![ty])
}

/// A word in the style of declarative keywords.
pub open spec fn keyword(word: Seq<char>) -> Doc {
    styled(declarative_keyword_style(), word)
}

/// The width of an integer type's instruction.
pub open spec fn int_width(inst: spv::Inst) -> u32 {
    match inst.two_shorts() {
        Some(operands) => operands.0,
        None => 0,
    }
}

/// Whether an integer type's instruction says that the type is signed.
pub open spec fn int_signed(inst: spv::Inst) -> bool {
    match inst.two_shorts() {
        Some(operands) => operands.1 != 0,
        None => false,
    }
}

/// The one short operand of an instruction: the width of a
/// floating-point type, the length of a vector type.
pub open spec fn short_operand(inst: spv::Inst) -> u32 {
    match inst.single_short() {
        Some(operand) => operand,
        None => 0,
    }
}

/// The name of an integer type: `s` or `u` and the width.
pub open spec fn int_type_name(width: u32, signed: bool) -> Seq<char> {
    (if signed {
        "s"@
    } else {
        "u"@
    }) + decimal(width as nat)
}

/// The name of a floating-point type: `f` and the width.
pub open spec fn float_type_name(width: u32) -> Seq<char> {
    "f"@ + decimal(width as nat)
}

/// The style of the type after a literal: that of a keyword, fainter and
/// lowered, since the exact type matters less than the value.
pub open spec fn literal_suffix_style() -> StylesView {
    StylesView { color_opacity: Some(400), subscript: true, ..declarative_keyword_style() }
}

/// `value` followed by its type.
pub open spec fn literal(value: Seq<char>, ty: Seq<char>) -> Doc {
    styled(numeric_literal_style(), value) + styled(literal_suffix_style(), ty)
}

/// Two to the power of `n`.
pub open spec fn two_to(n: nat) -> nat
    decreases n,
{
    if n == 0 {
        1
    } else {
        2 * two_to((n - 1) as nat)
    }
}

/// The value of the lowest `width` bits of `raw`, read as a signed
/// number in two's complement.
pub open spec fn sign_extended(raw: u64, width: u32) -> int
    recommends
        1 <= width <= 64,
{
    let low = raw as int % two_to(width as nat) as int;
    if low >= two_to((width - 1) as nat) {
        low - two_to(width as nat)
    } else {
        low
    }
}

/// The text of the first literal at or after `from` for the bits `bits`
/// of a floating-point type of width `width`.
pub open spec fn float_text(floats: Seq<FloatLiteral>, width: u32, bits: u64, from: nat) -> Option<
    Seq<char>,
>
    decreases floats.len() - from,
{
    if from >= floats.len() {
        None
    } else if floats[from as int].width == width && floats[from as int].bits == bits {
        Some(floats[from as int].text@)
    } else {
        float_text(floats, width, bits, from + 1)
    }
}

/// The bits of a floating-point constant of `width` bits whose
/// instruction holds `raw`: for 32 bits the lower half of `raw`.
pub open spec fn float_bits(raw: u64, width: u32) -> u64 {
    if width == 32 {
        (raw % 0x1_0000_0000) as u64
    } else {
        raw
    }
}

/// The short form of a constant, if it has one: `false`, `true`, or a
/// number followed by its type.
///
/// An integer of up to 64 bits is written in decimal, a signed one by
/// the value of its lowest bits in two's complement. A floating-point
/// number of 32 or 64 bits is written as the printer's literal for its
/// bits, if the printer has one.
pub open spec fn const_literal(p: Scheme, def: ConstDef) -> Option<Doc> {
    match def.ctor {
        ConstCtor::SpvInst(inst) => {
            if inst.opcode.number == spv::OP_CONSTANT_FALSE {
                Some(keyword("false"@))
            } else if inst.opcode.number == spv::OP_CONSTANT_TRUE {
                Some(keyword("true"@))
            } else if inst.opcode.number == spv::OP_CONSTANT {
                match (inst.raw_bits(), p.cx.type_def(def.ty).ctor) {
                    (Some(raw), TypeCtor::SpvInst(ty_inst)) => {
                        if ty_inst.opcode.number == spv::OP_TYPE_INT {
                            let width = int_width(ty_inst);
                            let signed = int_signed(ty_inst);
                            if width > 64 || (signed && width == 0) {
                                None
                            } else if signed {
                                Some(
                                    literal(
                                        signed_decimal(sign_extended(raw, width)),
                                        int_type_name(width, true),
                                    ),
                                )
                            } else {
                                Some(literal(decimal(raw as nat), int_type_name(width, false)))
                            }
                        } else if ty_inst.opcode.number == spv::OP_TYPE_FLOAT {
                            let width = short_operand(ty_inst);
                            if width == 32 || width == 64 {
                                match float_text(
                                    p.floats,
                                    width,
                                    float_bits(raw, width),
                                    0,
                                ) {
                                    Some(value) => Some(literal(value, float_type_name(width))),
                                    None => None,
                                }
                            } else {
                                None
                            }
                        } else {
                            None
                        }
                    },
                    _ => None,
                }
            } else {
                None
            }
        },
        _ => None,
    }
}

/// A use.
///
/// One that the printer names is printed by its name. Any other is
/// printed in place: an interned definition by its attributes and its
/// body, a node by a note that it is undefined, a label or value by `_`.
pub open spec fn use_doc(p: Scheme, u: Use, is_def: bool) -> Doc
    decreases rank(u), 9nat, 0nat,
{
    match style_of(p, u) {
        UseStyle::Anon { parent_func, idx } => anon_doc(p, u, parent_func, idx, is_def),
        UseStyle::Inline => match u {
            Use::CxInterned(x) => insert_name(
                interned_parts(p, x).0,
                interned_parts(p, x).1,
                Seq::empty(),
            ),
            Use::Node(node) => undefined_doc(node),
            _ => text("_"@),
        },
    }
}

/// The attributes and the body of an interned definition.
pub open spec fn interned_parts(p: Scheme, x: CxInterned) -> (Doc, Doc)
    decreases rank(Use::CxInterned(x)), 8nat, 0nat,
{
    if x.index() < p.cx.interned@.len() {
        match p.cx.interned@[x.index() as int] {
            Interned::AttrSet(def) => (Seq::empty(), attr_set_def_doc(p.cx, def)),
            Interned::Type(def) => (
                child_doc(p, attrs_use(def.attrs), x.index() as nat),
                type_def_body(p, def, x.index() as nat),
            ),
            Interned::Const(def) => (
                child_doc(p, attrs_use(def.attrs), x.index() as nat),
                const_def_body(p, def, x.index() as nat),
            ),
        }
    } else {
        (Seq::empty(), Seq::empty())
    }
}

/// A use inside a definition whose references all have a rank of at
/// most `limit`; a use of higher rank, which a well-formed context does
/// not have, prints as nothing.
pub open spec fn child_doc(p: Scheme, u: Use, limit: nat) -> Doc
    decreases limit + 1, 3nat, 0nat,
{
    if rank(u) <= limit {
        use_doc(p, u, false)
    } else {
        Seq::empty()
    }
}

/// The first `count` arguments of a type, each printed as a use.
pub open spec fn type_arg_docs(p: Scheme, args: Seq<TypeCtorArg>, limit: nat, count: nat) -> Seq<
    Option<Doc>,
>
    decreases limit + 1, 4nat, count,
{
    if count == 0 || count > args.len() {
        Seq::empty()
    } else {
        type_arg_docs(p, args, limit, (count - 1) as nat).push(
            Some(child_doc(p, type_arg_use(args[count - 1]), limit)),
        )
    }
}

/// The first `count` arguments of a constant, each printed as a use.
pub open spec fn const_arg_docs(p: Scheme, args: Seq<Const>, limit: nat, count: nat) -> Seq<
    Option<Doc>,
>
    decreases limit + 1, 4nat, count,
{
    if count == 0 || count > args.len() {
        Seq::empty()
    } else {
        const_arg_docs(p, args, limit, (count - 1) as nat).push(
            Some(child_doc(p, const_use(args[count - 1]), limit)),
        )
    }
}

/// The body of a type's definition.
///
/// Booleans, integers, floating-point numbers and vectors have short
/// forms: `bool`, `s32` or `u8`, `f` and the width, and the element type, `×` and the
/// length. Any other type is printed as its instruction with its
/// arguments.
pub open spec fn type_def_body(p: Scheme, def: TypeDef, limit: nat) -> Doc
    decreases limit + 1, 5nat, 0nat,
{
    match def.ctor {
        TypeCtor::SpvInst(inst) => {
            if inst.opcode.number == spv::OP_TYPE_BOOL {
                keyword("bool"@)
            } else if inst.opcode.number == spv::OP_TYPE_INT {
                keyword(int_type_name(int_width(inst), int_signed(inst)))
            } else if inst.opcode.number == spv::OP_TYPE_FLOAT {
                keyword(float_type_name(short_operand(inst)))
            } else if inst.opcode.number == spv::OP_TYPE_VECTOR {
                child_doc(p, type_arg_use(def.ctor_args@[0]), limit) + text("×"@) + styled(
                    numeric_literal_style(),
                    decimal(short_operand(inst) as nat),
                )
            } else {
                spv_inst_doc(
                    spv_op_style(),
                    inst,
                    type_arg_docs(p, def.ctor_args@, limit, def.ctor_args@.len()),
                    Seq::empty(),
                )
            }
        },
        TypeCtor::SpvStringLiteralForExtInst => styled(error_style(), "type_of"@) + text("("@)
            + opcode_doc(spv_op_style(), "OpString"@) + text(")"@),
    }
}

/// The body of a constant's definition: its short form if it has one
/// (see [`const_literal`]), else `&` and the global variable for a
/// pointer to one, the instruction with its arguments and its type, or
/// the string of a string literal.
pub open spec fn const_def_body(p: Scheme, def: ConstDef, limit: nat) -> Doc
    decreases limit + 1, 5nat, 0nat,
{
    match const_literal(p, def) {
        Some(doc) => doc,
        None => match def.ctor {
            ConstCtor::PtrToGlobalVar(gv) => text("&"@) + child_doc(
                p,
                Use::Node(Node::GlobalVar(gv)),
                limit,
            ),
            ConstCtor::SpvInst(inst) => spv_inst_doc(
                spv_op_style(),
                inst,
                const_arg_docs(p, def.ctor_args@, limit, def.ctor_args@.len()),
                type_ascription(child_doc(p, type_use(def.ty), limit)),
            ),
            ConstCtor::SpvStringLiteralForExtInst(s) => opcode_doc(spv_op_style(), "OpString"@)
                + text("<"@) + styled(string_literal_style(), debug_quoted(p.cx.str_text(s)))
                + text(">"@),
        },
    }
}

/// Whether a use, where it is one of an interned definition, has an
/// index within the context.
pub open spec fn use_ok(cx: &Context, u: Use) -> bool {
    u matches Use::CxInterned(x) ==> x.index() < cx.interned@.len()
}

/// `two_to` grows with its argument.
pub proof fn lemma_two_to_grows(a: nat, b: nat)
    requires
        a <= b,
    ensures
        0 < two_to(a) <= two_to(b),
    decreases b,
{
    if a < b {
        lemma_two_to_grows(a, (b - 1) as nat);
    } else if a > 0 {
        lemma_two_to_grows((a - 1) as nat, (b - 1) as nat);
    }
}

/// Powers of two up to the 64th fit in 65 bits.
pub proof fn lemma_two_to_fits(n: nat)
    requires
        n <= 64,
    ensures
        0 < two_to(n) <= 0x1_0000_0000_0000_0000,
{
    lemma_two_to_grows(n, 64);
    assert(two_to(8) == 0x100) by {
        reveal_with_fuel(two_to, 9);
    }
    assert(two_to(16) == 0x1_0000) by {
        lemma_two_to_adds(8, 8);
        assert(0x100 * 0x100 == 0x1_0000);
    }
    assert(two_to(32) == 0x1_0000_0000) by {
        lemma_two_to_adds(16, 16);
        assert(0x1_0000 * 0x1_0000 == 0x1_0000_0000);
    }
    assert(two_to(64) == 0x1_0000_0000_0000_0000) by {
        lemma_two_to_adds(32, 32);
        assert(0x1_0000_0000 * 0x1_0000_0000 == 0x1_0000_0000_0000_0000);
    }
}

/// The power of a sum is the product of the powers.
pub proof fn lemma_two_to_adds(a: nat, b: nat)
    ensures
        two_to(a + b) == two_to(a) * two_to(b),
    decreases b,
{
    if b > 0 {
        lemma_two_to_adds(a, (b - 1) as nat);
        let x = two_to(a);
        let y = two_to((b - 1) as nat);
        assert((a + b - 1) as nat == a + (b - 1) as nat);
        assert(two_to(a + b) == 2 * two_to((a + b - 1) as nat));
        assert(two_to(b) == 2 * y);
        assert(2 * (x * y) == x * (2 * y)) by (nonlinear_arith);
    } else {
        assert(two_to(a) * 1 == two_to(a));
    }
}

/// Computes [`two_to`].
pub fn power_of_two(n: u32) -> (r: u128)
    requires
        n <= 64,
    ensures
        r == two_to(n as nat),
{
    let mut r: u128 = 1;
    let mut i: u32 = 0;
    while i < n
        invariant
            0 <= i <= n <= 64,
            r == two_to(i as nat),
        decreases n - i,
    {
        proof {
            lemma_two_to_fits(i as nat);
            lemma_two_to_fits((i + 1) as nat);
        }
        r = r * 2;
        i += 1;
    }
    r
}

/// Computes [`sign_extended`].
pub fn sign_extend(raw: u64, width: u32) -> (r: i128)
    requires
        1 <= width <= 64,
    ensures
        r == sign_extended(raw, width),
{
    proof {
        lemma_two_to_fits(width as nat);
        lemma_two_to_fits((width - 1) as nat);
    }
    let modulus: u128 = power_of_two(width);
    let half: u128 = power_of_two(width - 1);
    let low: u128 = (raw as u128) % modulus;
    if low >= half {
        low as i128 - modulus as i128
    } else {
        low as i128
    }
}

impl<'a> Printer<'a> {
    /// How a use is printed: see [`style_of`].
    pub fn style(&self, u: Use) -> (r: UseStyle)
        requires
            self.use_styles.wf(),
        ensures
            r == style_of(self@, u),
    {
        match self.use_styles.get(u) {
            Some(style) => style,
            None => UseStyle::Inline,
        }
    }

    /// The printer's literal for a floating-point constant: see
    /// [`float_text`].
    pub fn float_literal(&self, width: u32, bits: u64) -> (r: Option<String>)
        ensures
            r is Some == float_text(self.float_literals@, width, bits, 0) is Some,
            r is Some ==> r->0@ == float_text(self.float_literals@, width, bits, 0)->0,
    {
        let mut i: usize = 0;
        while i < self.float_literals.len()
            invariant
                0 <= i <= self.float_literals.len(),
                float_text(self.float_literals@, width, bits, 0) == float_text(
                    self.float_literals@,
                    width,
                    bits,
                    i as nat,
                ),
            decreases self.float_literals.len() - i,
        {
            if self.float_literals[i].width == width && self.float_literals[i].bits == bits {
                return Some(self.float_literals[i].text.clone());
            }
            i += 1;
        }
        None
    }

    /// A `: T` after something of type `T`, the same wherever a type is
    /// noted.
    pub fn pretty_type_ascription_suffix(&self, ty: Fragment) -> (r: Fragment)
        ensures
            r@ == type_ascription(ty@),
    {
        let mut contents: Vec<Fragment> = Vec::new();
        contents.push(ty);
        assert(views(contents@) =~= seq![ty@]);
        join_space(Fragment::text(":"), &contents)
    }

    fn keyword(&self, word: &str) -> (r: Fragment)
        ensures
            r@ == keyword(word@),
    {
        Fragment::styled(self.declarative_keyword_style(), word)
    }

    fn literal(&self, value: String, ty: String) -> (r: Fragment)
        ensures
            r@ == literal(value@, ty@),
    {
        let mut out = Fragment::styled(self.numeric_literal_style(), value.as_str());
        let mut style = self.declarative_keyword_style();
        style.color_opacity = Some(400);
        style.subscript = true;
        out.push_styled(style, ty);
        out
    }

    /// Prints a use by name: see [`anon_doc`].
    fn print_anon(&self, u: Use, parent_func: Option<Func>, idx: usize, is_def: bool) -> (r:
        Fragment)
        requires
            self.use_styles.wf(),
            u.has_category(),
        ensures
            r@ == anon_doc(self@, u, parent_func, idx, is_def),
    {
        let dialect = Use::Node(Node::ModuleDialect);
        let debug_info = Use::Node(Node::ModuleDebugInfo);
        let name = if u == dialect || u == debug_info {
            String::from_str(u.category())
        } else {
            concat2(u.category(), format_usize(idx).as_str())
        };
        let anchor = match parent_func {
            Some(func) => {
                let func_idx: usize = match self.style(Use::Node(Node::Func(func))) {
                    UseStyle::Anon { idx, .. } => idx,
                    UseStyle::Inline => 0,
                };
                let mut a = String::from_str("func");
                a.append(format_usize(func_idx).as_str());
                a.append(".");
                a.append(name.as_str());
                a
            },
            None => name.clone(),
        };
        match u {
            Use::CxInterned(CxInterned::AttrSet(_)) => {
                let mut style = self.attr_style();
                style.anchor = Some(anchor);
                style.anchor_is_def = is_def;
                let mut out = Fragment::styled(style, concat2("#", name.as_str()).as_str());
                out.push(DocNode::ForceLineSeparation);
                assert(out@ =~= anon_doc(self@, u, parent_func, idx, is_def));
                out
            },
            _ => {
                let mut style = Styles::default();
                style.anchor = Some(anchor);
                style.anchor_is_def = is_def;
                Fragment::styled(style, name.as_str())
            },
        }
    }

    /// Prints a use, as a reference or as the place of its definition:
    /// see [`use_doc`].
    pub fn print_as_ref_or_def(&self, u: Use, is_def: bool) -> (r: Fragment)
        requires
            self.wf(),
            u.has_category(),
            use_ok(self.cx, u),
        ensures
            r@ == use_doc(self@, u, is_def),
        decreases rank(u), 9nat, 0nat,
    {
        match self.style(u) {
            UseStyle::Anon { parent_func, idx } => self.print_anon(u, parent_func, idx, is_def),
            UseStyle::Inline => match u {
                Use::CxInterned(x) => self.print_interned(x).insert_name_before_def(
                    Fragment::new(),
                ),
                Use::Node(node) => {
                    let word = match node.category() {
                        Ok(s) => s,
                        Err(s) => s,
                    };
                    let mut note = String::from_str("/* undefined ");
                    note.append(word);
                    note.append(" */_");
                    Fragment::styled(self.error_style(), note.as_str())
                },
                _ => Fragment::text("_"),
            },
        }
    }

    /// Prints the attributes and the body of an interned definition: see
    /// [`interned_parts`].
    pub fn print_interned(&self, x: CxInterned) -> (r: AttrsAndDef)
        requires
            self.wf(),
            x.index() < self.cx.interned@.len(),
        ensures
            (r.attrs@, r.def_without_name@) == interned_parts(self@, x),
        decreases rank(Use::CxInterned(x)), 8nat, 0nat,
    {
        let at: usize = x.get_index() as usize;
        assert(self.cx.entry_wf(at as int));
        match &self.cx.interned[at] {
            Interned::AttrSet(def) => AttrsAndDef {
                attrs: Fragment::new(),
                def_without_name: self.print_attr_set_def(def),
            },
            Interned::Type(def) => AttrsAndDef {
                attrs: self.print_child(Use::CxInterned(CxInterned::AttrSet(def.attrs)), at),
                def_without_name: self.print_type_def_body(def, at),
            },
            Interned::Const(def) => AttrsAndDef {
                attrs: self.print_child(Use::CxInterned(CxInterned::AttrSet(def.attrs)), at),
                def_without_name: self.print_const_def_body(def, at),
            },
        }
    }

    /// Prints a use inside a definition: see [`child_doc`].
    fn print_child(&self, u: Use, limit: usize) -> (r: Fragment)
        requires
            self.wf(),
            u.has_category(),
            use_ok(self.cx, u),
            rank(u) <= limit,
        ensures
            r@ == child_doc(self@, u, limit as nat),
        decreases limit + 1, 3nat, 0nat,
    {
        self.print_as_ref_or_def(u, false)
    }

    /// Prints the body of a type's definition: see [`type_def_body`].
    #[verifier::loop_isolation(false)]
    fn print_type_def_body(&self, def: &TypeDef, limit: usize) -> (r: Fragment)
        requires
            self.wf(),
            self.cx.type_def_wf(*def, limit as int),
        ensures
            r@ == type_def_body(self@, *def, limit as nat),
        decreases limit + 1, 5nat, 0nat,
    {
        match &def.ctor {
            TypeCtor::SpvInst(inst) => {
                if inst.opcode.number == spv::OP_TYPE_BOOL {
                    self.keyword("bool")
                } else if inst.opcode.number == spv::OP_TYPE_INT {
                    let (width, signedness) = inst.get_two_shorts().unwrap();
                    let name = if signedness != 0 {
                        concat2("s", format_u32(width).as_str())
                    } else {
                        concat2("u", format_u32(width).as_str())
                    };
                    self.keyword(name.as_str())
                } else if inst.opcode.number == spv::OP_TYPE_FLOAT {
                    let width = inst.get_single_short().unwrap();
                    self.keyword(concat2("f", format_u32(width).as_str()).as_str())
                } else if inst.opcode.number == spv::OP_TYPE_VECTOR {
                    let count = inst.get_single_short().unwrap();
                    let elem = match def.ctor_args[0] {
                        TypeCtorArg::Type(ty) => Use::CxInterned(CxInterned::Type(ty)),
                        TypeCtorArg::Const(ct) => Use::CxInterned(CxInterned::Const(ct)),
                    };
                    assert(self.cx.type_arg_before(def.ctor_args@[0], limit as int));
                    let mut out = self.print_child(elem, limit);
                    out.push_text("×");
                    out.push_styled(self.numeric_literal_style(), format_u32(count));
                    out
                } else {
                    let mut ids: Vec<Option<Fragment>> = Vec::new();
                    let mut i: usize = 0;
                    while i < def.ctor_args.len()
                        invariant
                            0 <= i <= def.ctor_args.len(),
                            option_views(ids@) == type_arg_docs(
                                self@,
                                def.ctor_args@,
                                limit as nat,
                                i as nat,
                            ),
                        decreases def.ctor_args.len() - i,
                    {
                        let arg = match def.ctor_args[i] {
                            TypeCtorArg::Type(ty) => Use::CxInterned(CxInterned::Type(ty)),
                            TypeCtorArg::Const(ct) => Use::CxInterned(CxInterned::Const(ct)),
                        };
                        assert(self.cx.type_arg_before(def.ctor_args@[i as int], limit as int));
                        let ghost before = option_views(ids@);
                        let doc = self.print_child(arg, limit);
                        ids.push(Some(doc));
                        assert(option_views(ids@) =~= before.push(Some(doc@)));
                        i += 1;
                    }
                    self.pretty_spv_inst(self.spv_op_style(), inst, &ids, Fragment::new())
                }
            },
            TypeCtor::SpvStringLiteralForExtInst => {
                let mut out = Fragment::styled(self.error_style(), "type_of");
                out.push_text("(");
                out.append(self.pretty_spv_opcode(self.spv_op_style(), "OpString"));
                out.push_text(")");
                out
            },
        }
    }

    /// Prints the short form of a constant, if it has one: see
    /// [`const_literal`].
    fn print_const_literal(&self, def: &ConstDef) -> (r: Option<Fragment>)
        requires
            self.wf(),
            self.cx.is_type(def.ty),
        ensures
            r is Some == const_literal(self@, *def) is Some,
            r is Some ==> r->0@ == const_literal(self@, *def)->0,
    {
        match &def.ctor {
            ConstCtor::SpvInst(inst) => {
                if inst.opcode.number == spv::OP_CONSTANT_FALSE {
                    Some(self.keyword("false"))
                } else if inst.opcode.number == spv::OP_CONSTANT_TRUE {
                    Some(self.keyword("true"))
                } else if inst.opcode.number == spv::OP_CONSTANT {
                    let ty_def = self.cx.lookup_type(def.ty).unwrap();
                    assert(self.cx.entry_wf(def.ty.0 as int));
                    match (inst.get_raw_bits(), &ty_def.ctor) {
                        (Some(raw), TypeCtor::SpvInst(ty_inst)) => {
                            if ty_inst.opcode.number == spv::OP_TYPE_INT {
                                let (width, signedness) = ty_inst.get_two_shorts().unwrap();
                                let signed = signedness != 0;
                                if width > 64 || (signed && width == 0) {
                                    None
                                } else if signed {
                                    Some(
                                        self.literal(
                                            format_i128(sign_extend(raw, width)),
                                            concat2("s", format_u32(width).as_str()),
                                        ),
                                    )
                                } else {
                                    Some(
                                        self.literal(
                                            format_u64(raw),
                                            concat2("u", format_u32(width).as_str()),
                                        ),
                                    )
                                }
                            } else if ty_inst.opcode.number == spv::OP_TYPE_FLOAT {
                                let width = ty_inst.get_single_short().unwrap();
                                if width == 32 || width == 64 {
                                    let bits: u64 = if width == 32 {
                                        raw % 0x1_0000_0000
                                    } else {
                                        raw
                                    };
                                    match self.float_literal(width, bits) {
                                        Some(value) => Some(
                                            self.literal(
                                                value,
                                                concat2("f", format_u32(width).as_str()),
                                            ),
                                        ),
                                        None => None,
                                    }
                                } else {
                                    None
                                }
                            } else {
                                None
                            }
                        },
                        _ => None,
                    }
                } else {
                    None
                }
            },
            _ => None,
        }
    }

    /// Prints the body of a constant's definition: see
    /// [`const_def_body`].
    #[verifier::loop_isolation(false)]
    fn print_const_def_body(&self, def: &ConstDef, limit: usize) -> (r: Fragment)
        requires
            self.wf(),
            self.cx.const_def_wf(*def, limit as int),
        ensures
            r@ == const_def_body(self@, *def, limit as nat),
        decreases limit + 1, 5nat, 0nat,
    {
        match self.print_const_literal(def) {
            Some(doc) => doc,
            None => match &def.ctor {
                ConstCtor::PtrToGlobalVar(gv) => {
                    let mut out = Fragment::text("&");
                    out.append(self.print_child(Use::Node(Node::GlobalVar(*gv)), limit));
                    out
                },
                ConstCtor::SpvInst(inst) => {
                    let mut ids: Vec<Option<Fragment>> = Vec::new();
                    let mut i: usize = 0;
                    while i < def.ctor_args.len()
                        invariant
                            0 <= i <= def.ctor_args.len(),
                            option_views(ids@) == const_arg_docs(
                                self@,
                                def.ctor_args@,
                                limit as nat,
                                i as nat,
                            ),
                        decreases def.ctor_args.len() - i,
                    {
                        let ghost before = option_views(ids@);
                        let doc = self.print_child(
                            Use::CxInterned(CxInterned::Const(def.ctor_args[i])),
                            limit,
                        );
                        ids.push(Some(doc));
                        assert(option_views(ids@) =~= before.push(Some(doc@)));
                        i += 1;
                    }
                    let ty = self.print_child(Use::CxInterned(CxInterned::Type(def.ty)), limit);
                    self.pretty_spv_inst(
                        self.spv_op_style(),
                        inst,
                        &ids,
                        self.pretty_type_ascription_suffix(ty),
                    )
                },
                ConstCtor::SpvStringLiteralForExtInst(s) => {
                    let mut out = self.pretty_spv_opcode(self.spv_op_style(), "OpString");
                    out.push_text("<");
                    out.push_styled(
                        self.string_literal_style(),
                        debug_quote(self.cx.lookup_str(*s).unwrap().as_str()),
                    );
                    out.push_text(">");
                    out
                },
            },
        }
    }
}

} // verus!
