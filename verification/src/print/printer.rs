//! The printer: how each use in a plan is printed, by name or in place,
//! and the styles of the syntactic categories.
use vstd::prelude::*;
use crate::ir::{no_attrs, Attr, AttrSet, ConstCtor, ConstDef, Context, DeclDef, Func, TypeCtor, TypeDef};
use crate::pretty::{
    blue, colored, cyan, dark_gray, green, magenta, orange, plain_styles, red, yellow, Rgb,
    Styles, StylesView,
};
use crate::fx::fx_get;
use crate::print::discovery::{defs_wf, NodeDef};
use crate::print::local_defs::{defs_of_func_body, func_body_defs};
use crate::print::plan::{Plan, PlanVersion, VersionView};
use crate::print::use_map::{has_key, index_of, keys_below, UseMap};
use crate::print::uses::{CxInterned, Node, Use, UseStyle};
use crate::spv;
use crate::validate::lemma_func_body_sizes;

verus! {

/// A floating-point constant written out: the width of its type, its
/// bits, and the text that reads back as exactly these bits.
#[derive(Debug)]
pub struct FloatLiteral {
    pub width: u32,
    pub bits: u64,
    pub text: String,
}

/// Decides how the uses of a plan are printed, and prints them.
pub struct Printer<'a> {
    pub cx: &'a Context,
    /// For each use of the plan, in the plan's order, how it is printed.
    pub use_styles: UseMap<UseStyle>,
    /// The floating-point constants that can be printed as literals.
    pub float_literals: Vec<FloatLiteral>,
}

/// What a printer prints by: the context, the style of each use, and the
/// literals for floating-point constants.
pub ghost struct Scheme<'a> {
    pub cx: &'a Context,
    pub styles: Seq<(Use, UseStyle)>,
    pub floats: Seq<FloatLiteral>,
}

impl<'a> View for Printer<'a> {
    type V = Scheme<'a>;

    open spec fn view(&self) -> Scheme<'a> {
        Scheme { cx: self.cx, styles: self.use_styles@, floats: self.float_literals@ }
    }
}

/// Whether a type is built by an instruction that has a short form.
pub open spec fn type_has_short_form(def: TypeDef) -> bool {
    match def.ctor {
        TypeCtor::SpvInst(inst) => inst.opcode.number == spv::OP_TYPE_BOOL || inst.opcode.number
            == spv::OP_TYPE_INT || inst.opcode.number == spv::OP_TYPE_FLOAT || inst.opcode.number
            == spv::OP_TYPE_VECTOR,
        TypeCtor::SpvStringLiteralForExtInst => true,
    }
}

/// Whether a constant is built by an instruction that has a short form.
pub open spec fn const_has_short_form(def: ConstDef) -> bool {
    match def.ctor {
        ConstCtor::SpvInst(inst) => inst.opcode.number == spv::OP_CONSTANT_FALSE
            || inst.opcode.number == spv::OP_CONSTANT_TRUE || inst.opcode.number
            == spv::OP_CONSTANT,
        _ => false,
    }
}

/// Whether an interned definition is short enough to be printed wherever
/// it is used, however often that is.
///
/// An attribute set is, if it has at most one attribute or an attribute
/// that is printed as a comment. A type or constant is, if it has no
/// attributes and either a short form or no arguments.
pub open spec fn is_compact(cx: &Context, x: CxInterned) -> bool {
    match x {
        CxInterned::AttrSet(a) => cx.is_attr_set(a) && (cx.attr_set_def(a).attrs@.len() <= 1
            || exists|k: int|
            0 <= k < cx.attr_set_def(a).attrs@.len() && (
            #[trigger] cx.attr_set_def(a).attrs@[k]) is SpvDebugLine),
        CxInterned::Type(t) => cx.is_type(t) && cx.type_def(t).attrs == no_attrs() && (
        type_has_short_form(cx.type_def(t)) || cx.type_def(t).ctor_args@.len() == 0),
        CxInterned::Const(c) => cx.is_const(c) && cx.const_def(c).attrs == no_attrs() && (
        const_has_short_form(cx.const_def(c)) || cx.const_def(c).ctor_args@.len() == 0),
    }
}

/// Whether an entry of the plan's table gets a numbered name: an interned
/// definition that is used more than once and is not compact, a global
/// variable, or a function.
pub open spec fn numbered(cx: &Context, e: (Use, usize)) -> bool {
    match e.0 {
        Use::CxInterned(x) => !(e.1 == 1 || is_compact(cx, x)),
        Use::Node(Node::GlobalVar(_)) => true,
        Use::Node(Node::Func(_)) => true,
        _ => false,
    }
}

/// The counter that numbers the names of a use's category: attribute
/// sets, types, constants, global variables and functions each have one.
pub open spec fn counter_of(u: Use) -> int {
    match u {
        Use::CxInterned(CxInterned::AttrSet(_)) => 0,
        Use::CxInterned(CxInterned::Type(_)) => 1,
        Use::CxInterned(CxInterned::Const(_)) => 2,
        Use::Node(Node::GlobalVar(_)) => 3,
        Use::Node(Node::Func(_)) => 4,
        _ => 5,
    }
}

/// How many of the first `i` entries get a numbered name from the
/// counter `counter`.
pub open spec fn named_before(cx: &Context, table: Seq<(Use, usize)>, i: nat, counter: int) -> nat
    decreases i,
{
    if i == 0 || i > table.len() {
        0
    } else {
        named_before(cx, table, (i - 1) as nat, counter) + if numbered(cx, table[i - 1])
            && counter_of(table[i - 1].0) == counter {
            1nat
        } else {
            0nat
        }
    }
}

/// How entry `i` of the table is printed before labels and values get
/// their numbers.
///
/// An entry with a numbered name is named by the number of entries of
/// its category that are named before it. The root, the group of interned
/// definitions, the dialect and the debug information each have the one
/// name of their kind. Everything else is printed in place.
pub open spec fn global_style(cx: &Context, table: Seq<(Use, usize)>, i: int) -> UseStyle {
    if numbered(cx, table[i]) {
        UseStyle::Anon {
            parent_func: None,
            idx: named_before(cx, table, i as nat, counter_of(table[i].0)) as usize,
        }
    } else {
        match table[i].0 {
            Use::Node(_) => UseStyle::Anon { parent_func: None, idx: 0 },
            _ => UseStyle::Inline,
        }
    }
}

/// The styles of all entries before labels and values get their numbers.
pub open spec fn global_styles(cx: &Context, table: Seq<(Use, usize)>) -> Seq<(Use, UseStyle)> {
    Seq::new(table.len(), |i: int| (table[i].0, global_style(cx, table, i)))
}

/// The styles while the labels and values of one function get their
/// numbers: the next number for a label and the next for a value.
pub ghost struct Numbering {
    pub styles: Seq<(Use, UseStyle)>,
    pub labels: usize,
    pub values: usize,
}

/// One more than `n`, unless `n` is the largest number.
pub open spec fn next_index(n: usize) -> usize {
    if n < usize::MAX {
        (n + 1) as usize
    } else {
        n
    }
}

/// The numbering after the definition `d` of function `func`: if `d` is
/// used and has no number yet, it gets the next one of its kind.
pub open spec fn define(n: Numbering, func: Func, d: Use) -> Numbering {
    if has_key(n.styles, d) && n.styles[index_of(n.styles, d)].1 is Inline {
        if d is ControlRegionLabel {
            Numbering {
                styles: n.styles.update(
                    index_of(n.styles, d),
                    (d, UseStyle::Anon { parent_func: Some(func), idx: n.labels }),
                ),
                labels: next_index(n.labels),
                values: n.values,
            }
        } else {
            Numbering {
                styles: n.styles.update(
                    index_of(n.styles, d),
                    (d, UseStyle::Anon { parent_func: Some(func), idx: n.values }),
                ),
                labels: n.labels,
                values: next_index(n.values),
            }
        }
    } else {
        n
    }
}

/// The numbering after the first `count` of `defs`.
pub open spec fn define_all(n: Numbering, func: Func, defs: Seq<Use>, count: nat) -> Numbering
    decreases count,
{
    if count == 0 || count > defs.len() {
        n
    } else {
        define(define_all(n, func, defs, (count - 1) as nat), func, defs[count - 1])
    }
}

/// The definitions of labels and values in the body that a version has
/// for `func`: none where the version has no such function or only an
/// imported one.
pub open spec fn version_defs(version: VersionView, func: Func) -> Seq<Use> {
    if version.defs.contains_key(Node::Func(func).key()) {
        match version.defs[Node::Func(func).key()] {
            NodeDef::Func(decl) => match decl.def {
                DeclDef::Present(body) => func_body_defs(body),
                DeclDef::Imported(_) => Seq::empty(),
            },
            _ => Seq::empty(),
        }
    } else {
        Seq::empty()
    }
}

/// The numbering after the bodies that the first `count` versions have
/// for `func`: what an earlier version numbered keeps its number.
pub open spec fn define_in_versions(
    n: Numbering,
    func: Func,
    versions: Seq<VersionView>,
    count: nat,
) -> Numbering
    decreases count,
{
    if count == 0 || count > versions.len() {
        n
    } else {
        let defs = version_defs(versions[count - 1], func);
        define_all(
            define_in_versions(n, func, versions, (count - 1) as nat),
            func,
            defs,
            defs.len(),
        )
    }
}

/// The styles after the labels and values of the functions among the
/// first `count` entries of the table got their numbers, each function
/// counting from zero.
pub open spec fn local_styles(
    styles: Seq<(Use, UseStyle)>,
    table: Seq<(Use, usize)>,
    versions: Seq<VersionView>,
    count: nat,
) -> Seq<(Use, UseStyle)>
    decreases count,
{
    if count == 0 || count > table.len() {
        styles
    } else {
        let before = local_styles(styles, table, versions, (count - 1) as nat);
        match table[count - 1].0 {
            Use::Node(Node::Func(func)) => define_in_versions(
                Numbering { styles: before, labels: 0, values: 0 },
                func,
                versions,
                versions.len(),
            ).styles,
            _ => before,
        }
    }
}

/// The styles that a printer gives to the uses of a plan.
pub open spec fn plan_styles(
    cx: &Context,
    table: Seq<(Use, usize)>,
    versions: Seq<VersionView>,
) -> Seq<(Use, UseStyle)> {
    local_styles(global_styles(cx, table), table, versions, table.len())
}

/// The style of what is wrong or missing.
pub open spec fn error_style() -> StylesView {
    colored(magenta())
}

/// The style of comments: faint and small.
pub open spec fn comment_style() -> StylesView {
    StylesView { color_opacity: Some(300), size: Some(-4i8), ..colored(dark_gray()) }
}

/// The style of numbers.
pub open spec fn numeric_literal_style() -> StylesView {
    colored(yellow())
}

/// The style of strings.
pub open spec fn string_literal_style() -> StylesView {
    colored(red())
}

/// The style of keywords that declare something.
pub open spec fn declarative_keyword_style() -> StylesView {
    colored(blue())
}

/// The style of keywords that direct control: bolder.
pub open spec fn imperative_keyword_style() -> StylesView {
    StylesView { thickness: Some(2), ..colored(magenta()) }
}

/// The style that the styles for SPIR-V are made from.
pub open spec fn spv_base_style() -> StylesView {
    colored(orange())
}

/// The style of opcode names: bold.
pub open spec fn spv_op_style() -> StylesView {
    StylesView { thickness: Some(3), ..spv_base_style() }
}

/// The style of enumerand names.
pub open spec fn spv_enumerand_name_style() -> StylesView {
    colored(cyan())
}

/// The style of attributes: fainter and thinner.
pub open spec fn attr_style() -> StylesView {
    StylesView {
        color: Some(green()),
        color_opacity: Some(600),
        thickness: Some(-2i8),
        ..plain_styles()
    }
}

/// The opacity, in thousandths, of a prefix whose text had the opacity
/// `opacity`: six tenths of it, rounded down.
pub open spec fn demoted_opacity(opacity: Option<u16>) -> u16 {
    match opacity {
        Some(o) => (o as int * 6 / 10) as u16,
        None => 600,
    }
}

/// The size of a prefix whose text had the size `size`: one step
/// smaller, or four steps below the normal size where none was set.
pub open spec fn demoted_size(size: Option<i8>) -> i8 {
    match size {
        Some(s) => if s > i8::MIN {
            (s - 1) as i8
        } else {
            s
        },
        None => -4i8,
    }
}

/// A style for an unobtrusive `foo.` prefix, made from the style of what
/// follows it by shrinking it and making it fainter.
pub open spec fn demoted(style: StylesView) -> StylesView {
    StylesView {
        color_opacity: Some(demoted_opacity(style.color_opacity)),
        size: Some(demoted_size(style.size)),
        ..style
    }
}

/// Decides [`is_compact`].
#[verifier::loop_isolation(false)]
pub fn check_compact(cx: &Context, x: CxInterned) -> (r: bool)
    ensures
        r == is_compact(cx, x),
{
    match x {
        CxInterned::AttrSet(a) => match cx.lookup_attr_set(a) {
            Some(def) => {
                if def.attrs.len() <= 1 {
                    return true;
                }
                let mut k: usize = 0;
                while k < def.attrs.len()
                    invariant
                        0 <= k <= def.attrs.len(),
                        forall|j: int| 0 <= j < k ==> !((#[trigger] def.attrs@[j]) is SpvDebugLine),
                    decreases def.attrs.len() - k,
                {
                    if matches!(def.attrs[k], Attr::SpvDebugLine { .. }) {
                        assert(cx.attr_set_def(a).attrs@[k as int] is SpvDebugLine);
                        return true;
                    }
                    k += 1;
                }
                false
            },
            None => false,
        },
        CxInterned::Type(t) => match cx.lookup_type(t) {
            Some(def) => {
                let short = match &def.ctor {
                    TypeCtor::SpvInst(inst) => inst.opcode.number == spv::OP_TYPE_BOOL
                        || inst.opcode.number == spv::OP_TYPE_INT || inst.opcode.number
                        == spv::OP_TYPE_FLOAT || inst.opcode.number == spv::OP_TYPE_VECTOR,
                    TypeCtor::SpvStringLiteralForExtInst => true,
                };
                def.attrs == AttrSet::empty() && (short || def.ctor_args.len() == 0)
            },
            None => false,
        },
        CxInterned::Const(c) => match cx.lookup_const(c) {
            Some(def) => {
                let short = match &def.ctor {
                    ConstCtor::SpvInst(inst) => inst.opcode.number == spv::OP_CONSTANT_FALSE
                        || inst.opcode.number == spv::OP_CONSTANT_TRUE || inst.opcode.number
                        == spv::OP_CONSTANT,
                    _ => false,
                };
                def.attrs == AttrSet::empty() && (short || def.ctor_args.len() == 0)
            },
            None => false,
        },
    }
}

/// Gives the definition `d` of function `func` its number: see
/// [`define`].
pub fn define_local(
    styles: &mut UseMap<UseStyle>,
    labels: &mut usize,
    values: &mut usize,
    func: Func,
    d: Use,
)
    requires
        old(styles).wf(),
    ensures
        final(styles).wf(),
        forall|len: nat| keys_below(old(styles)@, len) ==> keys_below(final(styles)@, len),
        (Numbering { styles: final(styles)@, labels: *final(labels), values: *final(values) })
            == define(
            Numbering { styles: old(styles)@, labels: *old(labels), values: *old(values) },
            func,
            d,
        ),
{
    match styles.find(d) {
        Some(at) => {
            if matches!(styles.value_at(at), UseStyle::Inline) {
                if matches!(d, Use::ControlRegionLabel(_)) {
                    let idx: usize = *labels;
                    styles.set_value(at, UseStyle::Anon { parent_func: Some(func), idx });
                    if idx < usize::MAX {
                        *labels = idx + 1;
                    }
                } else {
                    let idx: usize = *values;
                    styles.set_value(at, UseStyle::Anon { parent_func: Some(func), idx });
                    if idx < usize::MAX {
                        *values = idx + 1;
                    }
                }
            }
        },
        None => {},
    }
}

/// The styles of a plan's uses before labels and values get their
/// numbers: see [`global_styles`].
pub fn assign_global_styles(cx: &Context, counts: &UseMap<usize>) -> (styles: UseMap<UseStyle>)
    requires
        counts.wf(),
    ensures
        styles@ == global_styles(cx, counts@),
        styles.wf(),
        forall|len: nat| keys_below(counts@, len) ==> keys_below(styles@, len),
{
    let ghost table = counts@;
    let mut styles: UseMap<UseStyle> = UseMap::new();
    let mut attr_sets: usize = 0;
    let mut types: usize = 0;
    let mut consts: usize = 0;
    let mut global_vars: usize = 0;
    let mut funcs: usize = 0;
    let mut i: usize = 0;
    while i < counts.len()
        invariant
            0 <= i <= table.len(),
            table == counts@,
            counts.wf(),
            styles.wf(),
            styles@ == global_styles(cx, table).take(i as int),
            attr_sets == named_before(cx, table, i as nat, 0),
            types == named_before(cx, table, i as nat, 1),
            consts == named_before(cx, table, i as nat, 2),
            global_vars == named_before(cx, table, i as nat, 3),
            funcs == named_before(cx, table, i as nat, 4),
            attr_sets <= i,
            types <= i,
            consts <= i,
            global_vars <= i,
            funcs <= i,
        decreases table.len() - i,
    {
        let k = counts.key_at(i);
        let count: usize = counts.value_at(i);
        let style = match k {
            Use::CxInterned(x) => {
                if count == 1 || check_compact(cx, x) {
                    UseStyle::Inline
                } else {
                    match x {
                        CxInterned::AttrSet(_) => {
                            let idx: usize = attr_sets;
                            attr_sets += 1;
                            UseStyle::Anon { parent_func: None, idx }
                        },
                        CxInterned::Type(_) => {
                            let idx: usize = types;
                            types += 1;
                            UseStyle::Anon { parent_func: None, idx }
                        },
                        CxInterned::Const(_) => {
                            let idx: usize = consts;
                            consts += 1;
                            UseStyle::Anon { parent_func: None, idx }
                        },
                    }
                }
            },
            Use::Node(Node::GlobalVar(_)) => {
                let idx: usize = global_vars;
                global_vars += 1;
                UseStyle::Anon { parent_func: None, idx }
            },
            Use::Node(Node::Func(_)) => {
                let idx: usize = funcs;
                funcs += 1;
                UseStyle::Anon { parent_func: None, idx }
            },
            Use::Node(_) => UseStyle::Anon { parent_func: None, idx: 0 },
            _ => UseStyle::Inline,
        };
        assert(style == global_style(cx, table, i as int));
        assert(!has_key(styles@, k)) by {
            if has_key(styles@, k) {
                let j = index_of(styles@, k);
                assert(table[j].0 == k);
            }
        }
        styles.push(k, style);
        assert(styles@ =~= global_styles(cx, table).take(i + 1));
        i += 1;
    }
    assert(global_styles(cx, table).take(table.len() as int) =~= global_styles(cx, table));
    styles
}

impl<'a> Printer<'a> {
    /// Whether the printer's styles are those of `plan`.
    pub open spec fn is_for(&self, plan: &Plan<'a>) -> bool {
        &&& self.cx == plan.cx
        &&& self.use_styles@ == plan_styles(plan.cx, plan.use_counts@, plan.version_views())
    }

    /// Whether the printer is well formed: its context is, and no use
    /// has two styles.
    pub open spec fn wf(&self) -> bool {
        &&& self.cx.wf()
        &&& self.use_styles.wf()
        &&& keys_below(self.use_styles@, self.cx.interned@.len())
    }

    /// A printer for `plan`: see [`plan_styles`]. It prints no
    /// floating-point constant as a literal.
    #[verifier::loop_isolation(false)]
    pub fn new(plan: &Plan<'a>) -> (r: Self)
        requires
            plan.wf(),
        ensures
            r.is_for(plan),
            r.wf(),
            r.float_literals@.len() == 0,
    {
        let cx = plan.cx;
        let ghost table = plan.use_counts@;
        let ghost versions = plan.version_views();
        let mut styles = assign_global_styles(cx, &plan.use_counts);
        let mut i: usize = 0;
        while i < plan.use_counts.len()
            invariant
                0 <= i <= table.len(),
                styles.wf(),
                keys_below(styles@, cx.interned@.len()),
                styles@ == local_styles(global_styles(cx, table), table, versions, i as nat),
            decreases table.len() - i,
        {
            match plan.use_counts.key_at(i) {
                Use::Node(Node::Func(func)) => {
                    let mut labels: usize = 0;
                    let mut values: usize = 0;
                    let ghost start = Numbering { styles: styles@, labels: 0, values: 0 };
                    let mut v: usize = 0;
                    while v < plan.versions.len()
                        invariant
                            0 <= v <= plan.versions.len(),
                            styles.wf(),
                            keys_below(styles@, cx.interned@.len()),
                            (Numbering { styles: styles@, labels, values }) == define_in_versions(
                                start,
                                func,
                                versions,
                                v as nat,
                            ),
                        decreases plan.versions.len() - v,
                    {
                        let ghost before = Numbering { styles: styles@, labels, values };
                        assert(versions[v as int] == plan.versions@[v as int]@);
                        let def = fx_get(&plan.versions[v].node_defs, Node::Func(func).get_key());
                        match def {
                            Some(NodeDef::Func(decl)) => match &decl.def {
                                DeclDef::Present(body) => {
                                    proof {
                                        lemma_func_body_sizes(cx, *body);
                                    }
                                    let defs = defs_of_func_body(body);
                                    let mut k: usize = 0;
                                    while k < defs.len()
                                        invariant
                                            0 <= k <= defs.len(),
                                            styles.wf(),
                                            keys_below(styles@, cx.interned@.len()),
                                            (Numbering { styles: styles@, labels, values })
                                                == define_all(before, func, defs@, k as nat),
                                        decreases defs.len() - k,
                                    {
                                        define_local(
                                            &mut styles,
                                            &mut labels,
                                            &mut values,
                                            func,
                                            defs[k],
                                        );
                                        k += 1;
                                    }
                                },
                                DeclDef::Imported(_) => {},
                            },
                            _ => {},
                        }
                        v += 1;
                    }
                },
                _ => {},
            }
            i += 1;
        }
        Printer { cx, use_styles: styles, float_literals: Vec::new() }
    }

    /// A printer for `plan` that prints the floating-point constants whose
    /// bits are in `floats` as the literals given there.
    ///
    /// A literal must read back as exactly the bits it stands for; the
    /// constants that have none are printed as their instruction.
    pub fn with_float_literals(plan: &Plan<'a>, floats: Vec<FloatLiteral>) -> (r: Self)
        requires
            plan.wf(),
        ensures
            r.is_for(plan),
            r.wf(),
            r.float_literals@ == floats@,
    {
        let mut printer = Printer::new(plan);
        printer.float_literals = floats;
        printer
    }

    /// The context that the printer prints by.
    pub fn cx(&self) -> (r: &'a Context)
        ensures
            r == self.cx,
    {
        self.cx
    }

    /// The style of what is wrong or missing.
    pub fn error_style(&self) -> (r: Styles)
        ensures
            r@ == error_style(),
    {
        Styles::color(Rgb { r: 0xcc, g: 0x44, b: 0xcc })
    }

    /// The style of comments.
    pub fn comment_style(&self) -> (r: Styles)
        ensures
            r@ == comment_style(),
    {
        let mut s = Styles::color(Rgb { r: 0x44, g: 0x44, b: 0x44 });
        s.color_opacity = Some(300);
        s.size = Some(-4);
        s
    }

    /// The style of numbers.
    pub fn numeric_literal_style(&self) -> (r: Styles)
        ensures
            r@ == numeric_literal_style(),
    {
        Styles::color(Rgb { r: 0xcc, g: 0x99, b: 0x44 })
    }

    /// The style of strings.
    pub fn string_literal_style(&self) -> (r: Styles)
        ensures
            r@ == string_literal_style(),
    {
        Styles::color(Rgb { r: 0xcc, g: 0x55, b: 0x55 })
    }

    /// The style of keywords that declare something.
    pub fn declarative_keyword_style(&self) -> (r: Styles)
        ensures
            r@ == declarative_keyword_style(),
    {
        Styles::color(Rgb { r: 0x44, g: 0x66, b: 0xcc })
    }

    /// The style of keywords that direct control.
    pub fn imperative_keyword_style(&self) -> (r: Styles)
        ensures
            r@ == imperative_keyword_style(),
    {
        let mut s = Styles::color(Rgb { r: 0xcc, g: 0x44, b: 0xcc });
        s.thickness = Some(2);
        s
    }

    /// The style that the styles for SPIR-V are made from.
    pub fn spv_base_style(&self) -> (r: Styles)
        ensures
            r@ == spv_base_style(),
    {
        Styles::color(Rgb { r: 0xcc, g: 0x77, b: 0x55 })
    }

    /// The style of opcode names.
    pub fn spv_op_style(&self) -> (r: Styles)
        ensures
            r@ == spv_op_style(),
    {
        let mut s = self.spv_base_style();
        s.thickness = Some(3);
        s
    }

    /// The style of enumerand names.
    pub fn spv_enumerand_name_style(&self) -> (r: Styles)
        ensures
            r@ == spv_enumerand_name_style(),
    {
        Styles::color(Rgb { r: 0x44, g: 0x99, b: 0xcc })
    }

    /// The style of attributes.
    pub fn attr_style(&self) -> (r: Styles)
        ensures
            r@ == attr_style(),
    {
        let mut s = Styles::color(Rgb { r: 0x44, g: 0x99, b: 0x44 });
        s.color_opacity = Some(600);
        s.thickness = Some(-2);
        s
    }

    /// A style for an unobtrusive `foo.` prefix, made from a more usual
    /// style by shrinking it and making it fainter.
    pub fn demote_style_for_namespace_prefix(&self, style: Styles) -> (r: Styles)
        ensures
            r@ == demoted(style@),
    {
        let mut style = style;
        let opacity: u16 = match style.color_opacity {
            Some(o) => ((o as u32) * 6 / 10) as u16,
            None => 600,
        };
        let size: i8 = match style.size {
            Some(s) => if s > i8::MIN {
                s - 1
            } else {
                s
            },
            None => -4,
        };
        style.color_opacity = Some(opacity);
        style.size = Some(size);
        style
    }
}

} // verus!
