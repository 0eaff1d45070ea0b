//! Printing what a module holds besides functions: its exports, its
//! dialect and debug information, its global variables, and the interned
//! definitions that have names.
use vstd::prelude::*;
use vstd::string::*;
use crate::ir::{
    AddrSpace, AttrSet, Const, Context, DeclDef, ExportKey, Exportee, GlobalVarDecl, Import,
    Module, ModuleDebugInfo, ModuleDialect, Type, TypeCtor, TypeCtorArg, Value,
};
use crate::pretty::{
    comma_sep, interspersed, join_comma_sep, join_space, line_sep, plain_styles, space_sep,
    styled, text, views, Doc, Fragment, NodeView, Styles, StylesView,
};
use crate::print::attrs::{insert_name, AttrsAndDef};
use crate::print::deps::{attrs_use, const_use, exportee_use, type_use};
use crate::print::discovery::ExpectedVsFound;
use crate::print::interned::{
    interned_parts, keyword, type_ascription, use_doc, use_ok,
};
use crate::print::printer::{Scheme, 
    error_style, numeric_literal_style, spv_op_style, string_literal_style, Printer,
};
use crate::print::spv_text::{operand_doc, option_views, spv_inst_doc};
use crate::print::uses::{CxInterned, Node, Use, UseStyle};
use crate::spv;
use crate::text::{concat2, concat3, debug_quote, debug_quoted, decimal, format_u32, format_usize};
use crate::validate::{
    debug_info_wf, dialect_wf, export_key_ok, global_var_wf, import_ok, sources_ok,
};

verus! {

/// A string in quotes, in the style of string literals.
pub open spec fn quoted(s: Seq<char>) -> Doc {
    styled(string_literal_style(), debug_quoted(s))
}

/// A number in the style of numeric literals.
pub open spec fn number(n: nat) -> Doc {
    styled(numeric_literal_style(), decimal(n))
}

/// Each item after a forced line break.
pub open spec fn on_lines(items: Seq<Doc>) -> Seq<Doc> {
    Seq::new(items.len(), |i: int| line_sep() + items[i])
}

/// Each string in quotes.
pub open spec fn quoted_all(items: Seq<String>) -> Seq<Doc> {
    Seq::new(items.len(), |i: int| quoted(items[i]@))
}

/// Each operand.
pub open spec fn operand_docs(items: Seq<spv::Operand>) -> Seq<Doc> {
    Seq::new(items.len(), |i: int| operand_doc(items[i]))
}

/// A reference to a value.
pub open spec fn value_doc(p: Scheme, v: Value) -> Doc {
    use_doc(p, Use::of_value(v), false)
}

/// A reference to each value.
pub open spec fn value_docs(p: Scheme, vs: Seq<Value>) -> Seq<Doc> {
    Seq::new(vs.len(), |i: int| value_doc(p, vs[i]))
}

/// A reference to an attribute set.
pub open spec fn attrs_doc(p: Scheme, attrs: AttrSet) -> Doc {
    use_doc(p, attrs_use(attrs), false)
}

/// A reference to a type.
pub open spec fn type_doc(p: Scheme, ty: Type) -> Doc {
    use_doc(p, type_use(ty), false)
}

/// Something declared with attributes and a type, with `name` between
/// the two.
pub open spec fn decl_doc(p: Scheme, attrs: AttrSet, ty: Type, name: Doc) -> Doc {
    insert_name(attrs_doc(p, attrs), type_ascription(type_doc(p, ty)), name)
}

/// An import: `import` and the name it is linked by.
pub open spec fn import_doc(cx: &Context, import: Import) -> Doc {
    match import {
        Import::LinkName(name) => keyword("import"@) + text(" "@) + quoted(cx.str_text(name)),
    }
}

/// The key of an export: the name it is linked by, or the instruction of
/// an entry point, whose interface variables are not printed.
pub open spec fn export_key_doc(cx: &Context, key: ExportKey) -> Doc {
    match key {
        ExportKey::LinkName(name) => quoted(cx.str_text(name)),
        ExportKey::SpvEntryPoint { inst, .. } => spv_inst_doc(
            spv_op_style(),
            inst,
            seq![None],
            Seq::empty(),
        ),
    }
}

/// One export: its key, a colon, and a reference to what is exported.
pub open spec fn export_doc(p: Scheme, key: ExportKey, exportee: Exportee) -> Doc {
    export_key_doc(p.cx, key) + text(": "@) + use_doc(p, exportee_use(exportee), false)
}

/// The body of a module: nothing where it exports nothing, else `export`
/// and the exports in braces, each on a line of its own.
pub open spec fn module_body(p: Scheme, module: Module) -> Doc {
    if module.exports@.len() == 0 {
        Seq::empty()
    } else {
        keyword("export"@) + text(" "@) + comma_sep(
            text("{"@),
            Seq::new(
                module.exports@.len(),
                |i: int| line_sep() + export_doc(p, module.exports@[i].0, module.exports@[i].1),
            ),
            text("}"@),
        )
    }
}

/// The body of a dialect: its version, extensions, capabilities,
/// addressing model and memory model, each on a line of its own.
pub open spec fn dialect_body(dialect: ModuleDialect) -> Doc {
    match dialect {
        ModuleDialect::Spv(d) => text(" = "@) + comma_sep(
            text("SPIR-V {"@),
            on_lines(
                seq![
                    text("version: "@) + styled(
                        numeric_literal_style(),
                        decimal(d.version_major as nat) + "."@ + decimal(d.version_minor as nat),
                    ),
                    comma_sep(text("extensions: {"@), quoted_all(d.extensions@), text("}"@)),
                    comma_sep(text("capabilities: {"@), operand_docs(d.capabilities@), text("}"@)),
                    text("addressing_model: "@) + operand_doc(d.addressing_model),
                    text("memory_model: "@) + operand_doc(d.memory_model),
                ],
            ),
            text("}"@),
        ),
    }
}

/// The tool that generated a module: the upper 16 bits of the magic
/// number are the tool, the lower 16 its version.
pub open spec fn generator_doc(magic: Option<u32>) -> Doc {
    match magic {
        Some(m) => text("{ tool_id: "@) + number((m / 0x1_0000) as nat) + text(", version: "@)
            + number((m % 0x1_0000) as nat) + text(" }"@),
        None => text("unknown"@),
    }
}

/// One source file: its name and its contents, both in quotes.
pub open spec fn source_file_doc(cx: &Context, file: (crate::ir::InternedStr, String)) -> Doc {
    quoted(cx.str_text(file.0)) + text(": "@) + quoted(file.1@)
}

/// The sources of one language: the language, its version, and the
/// files, each on a line of its own.
pub open spec fn source_language_doc(
    cx: &Context,
    entry: (spv::SourceLang, spv::DebugSources),
) -> Doc {
    operand_doc(entry.0.lang) + text(" { version: "@) + number(entry.0.version as nat) + text(
        " }: "@,
    ) + comma_sep(
        text("{"@),
        Seq::new(
            entry.1.file_contents@.len(),
            |k: int| line_sep() + source_file_doc(cx, entry.1.file_contents@[k]),
        ),
        text("}"@),
    )
}

/// The body of the debug information: the generator, the sources by
/// language, the source extensions and the module processes, each on a
/// line of its own.
pub open spec fn debug_info_body(cx: &Context, info: ModuleDebugInfo) -> Doc {
    match info {
        ModuleDebugInfo::Spv(d) => text(" = "@) + comma_sep(
            text("SPIR-V {"@),
            on_lines(
                seq![
                    text("generator: "@) + generator_doc(d.original_generator_magic),
                    comma_sep(
                        text("source_languages: {"@),
                        Seq::new(
                            d.source_languages@.len(),
                            |i: int| line_sep() + source_language_doc(cx, d.source_languages@[i]),
                        ),
                        text("}"@),
                    ),
                    comma_sep(
                        text("source_extensions: ["@),
                        quoted_all(d.source_extensions@),
                        text("]"@),
                    ),
                    comma_sep(
                        text("module_processes: ["@),
                        quoted_all(d.module_processes@),
                        text("]"@),
                    ),
                ],
            ),
            text("}"@),
        ),
    }
}

/// The name that defines an interned definition: its category and index,
/// with an anchor of the same name.
pub open spec fn interned_name(x: CxInterned, idx: usize) -> Doc {
    styled(
        StylesView {
            anchor: Some(x.category_text() + decimal(idx as nat)),
            anchor_is_def: true,
            ..plain_styles()
        },
        x.category_text() + decimal(idx as nat),
    )
}

/// The definitions of those among the first `count` uses that are
/// interned definitions with a name, each as `name = ...`.
pub open spec fn named_interned(p: Scheme, count: nat) -> Seq<Doc>
    decreases count,
{
    if count == 0 || count > p.styles.len() {
        Seq::empty()
    } else {
        match p.styles[count - 1] {
            (Use::CxInterned(x), UseStyle::Anon { idx, .. }) => named_interned(
                p,
                (count - 1) as nat,
            ).push(
                insert_name(
                    interned_parts(p, x).0,
                    interned_parts(p, x).1,
                    interned_name(x, idx) + text(" = "@),
                ),
            ),
            _ => named_interned(p, (count - 1) as nat),
        }
    }
}

/// The body of the group of interned definitions: the definitions that
/// have a name, in the plan's order, with an empty line between them.
pub open spec fn all_interned_body(p: Scheme) -> Doc {
    interspersed(named_interned(p, p.styles.len()), text("\n\n"@))
}

/// The type of a global variable, which is what its pointer type points
/// to.
pub open spec fn pointee_suffix(p: Scheme, type_of_ptr_to: Type) -> Doc {
    match p.cx.type_def(type_of_ptr_to).ctor {
        TypeCtor::SpvInst(inst) if inst.opcode.number == spv::OP_TYPE_POINTER => type_ascription(
            use_doc(
                p,
                crate::print::deps::type_arg_use(p.cx.type_def(type_of_ptr_to).ctor_args@[0]),
                false,
            ),
        ),
        _ => text(": "@) + styled(error_style(), "pointee_type_of"@) + text("("@) + type_doc(
            p,
            type_of_ptr_to,
        ) + text(")"@),
    }
}

/// What follows the header of a global variable: its import, or its
/// initializer if it has one.
pub open spec fn global_var_tail(p: Scheme, decl: GlobalVarDecl) -> Seq<Doc> {
    match decl.def {
        DeclDef::Imported(import) => seq![text("= "@) + import_doc(p.cx, import)],
        DeclDef::Present(body) => match body.initializer {
            Some(ct) => seq![text("init="@) + use_doc(p, const_use(ct), false)],
            None => Seq::empty(),
        },
    }
}

/// The body of a global variable: ` in `, its address space, its type,
/// and then its import or initializer.
pub open spec fn global_var_body(p: Scheme, decl: GlobalVarDecl) -> Doc {
    text(" in "@) + (match decl.addr_space {
        AddrSpace::SpvStorageClass(class) => operand_doc(class),
    }) + pointee_suffix(p, decl.type_of_ptr_to) + space_sep(text(""@), global_var_tail(p, decl))
}

/// The body of a mismatch: what was expected, and on the next line what
/// was found.
pub open spec fn mismatch_body(p: Scheme, pair: ExpectedVsFound<CxInterned, CxInterned>) -> Doc {
    text("expected: "@) + use_doc(p, Use::CxInterned(pair.expected), false) + line_sep() + text(
        "found: "@,
    ) + use_doc(p, Use::CxInterned(pair.found), false)
}

/// Puts each fragment after a forced line break.
pub fn put_on_lines(items: &Vec<Fragment>) -> (r: Vec<Fragment>)
    ensures
        views(r@) == on_lines(views(items@)),
{
    let mut out: Vec<Fragment> = Vec::new();
    let mut i: usize = 0;
    while i < items.len()
        invariant
            0 <= i <= items.len(),
            out@.len() == i,
            forall|j: int| 0 <= j < i ==> (#[trigger] out@[j])@ == line_sep() + items@[j]@,
        decreases items.len() - i,
    {
        let mut item = Fragment::new();
        item.push_line_sep();
        item.extend_from(&items[i]);
        assert(item@ =~= line_sep() + items@[i as int]@);
        out.push(item);
        i += 1;
    }
    assert(views(out@) =~= on_lines(views(items@)));
    out
}

impl<'a> Printer<'a> {
    /// Prints a string in quotes.
    pub fn print_quoted(&self, s: &str) -> (r: Fragment)
        ensures
            r@ == quoted(s@),
    {
        Fragment::styled(self.string_literal_style(), debug_quote(s).as_str())
    }

    /// Prints a number.
    pub fn print_number(&self, n: u32) -> (r: Fragment)
        ensures
            r@ == number(n as nat),
    {
        Fragment::styled(self.numeric_literal_style(), format_u32(n).as_str())
    }

    /// Prints each string in quotes.
    pub fn print_quoted_all(&self, items: &Vec<String>) -> (r: Vec<Fragment>)
        ensures
            views(r@) == quoted_all(items@),
    {
        let mut out: Vec<Fragment> = Vec::new();
        let mut i: usize = 0;
        while i < items.len()
            invariant
                0 <= i <= items.len(),
                out@.len() == i,
                forall|j: int| 0 <= j < i ==> (#[trigger] out@[j])@ == quoted(items@[j]@),
            decreases items.len() - i,
        {
            out.push(self.print_quoted(items[i].as_str()));
            i += 1;
        }
        assert(views(out@) =~= quoted_all(items@));
        out
    }

    /// Prints each operand.
    pub fn print_operands(&self, items: &Vec<spv::Operand>) -> (r: Vec<Fragment>)
        requires
            forall|i: int| 0 <= i < items@.len() ==> (#[trigger] items@[i]).is_plain(),
        ensures
            views(r@) == operand_docs(items@),
    {
        let mut out: Vec<Fragment> = Vec::new();
        let mut i: usize = 0;
        while i < items.len()
            invariant
                0 <= i <= items.len(),
                forall|i: int| 0 <= i < items@.len() ==> (#[trigger] items@[i]).is_plain(),
                out@.len() == i,
                forall|j: int| 0 <= j < i ==> (#[trigger] out@[j])@ == operand_doc(items@[j]),
            decreases items.len() - i,
        {
            out.push(self.pretty_spv_operand_from_imms(&items[i]));
            i += 1;
        }
        assert(views(out@) =~= operand_docs(items@));
        out
    }

    /// Prints a reference to an attribute set.
    pub fn print_attrs(&self, attrs: AttrSet) -> (r: Fragment)
        requires
            self.wf(),
            self.cx.is_attr_set(attrs),
        ensures
            r@ == attrs_doc(self@, attrs),
    {
        self.print_as_ref_or_def(Use::CxInterned(CxInterned::AttrSet(attrs)), false)
    }

    /// Prints a reference to a type.
    pub fn print_type(&self, ty: Type) -> (r: Fragment)
        requires
            self.wf(),
            self.cx.is_type(ty),
        ensures
            r@ == type_doc(self@, ty),
    {
        self.print_as_ref_or_def(Use::CxInterned(CxInterned::Type(ty)), false)
    }

    /// Prints a reference to a constant.
    pub fn print_const(&self, ct: Const) -> (r: Fragment)
        requires
            self.wf(),
            self.cx.is_const(ct),
        ensures
            r@ == use_doc(self@, const_use(ct), false),
    {
        self.print_as_ref_or_def(Use::CxInterned(CxInterned::Const(ct)), false)
    }

    /// Prints a reference to a value.
    pub fn print_value(&self, v: Value) -> (r: Fragment)
        requires
            self.wf(),
            self.cx.value_ok(v),
        ensures
            r@ == value_doc(self@, v),
    {
        self.print_as_ref_or_def(Use::from_value(v), false)
    }

    /// Prints a value where it is defined.
    pub fn print_value_as_def(&self, v: Value) -> (r: Fragment)
        requires
            self.wf(),
            self.cx.value_ok(v),
        ensures
            r@ == use_doc(self@, Use::of_value(v), true),
    {
        self.print_as_ref_or_def(Use::from_value(v), true)
    }

    /// Prints a reference to each value.
    pub fn print_values(&self, vs: &Vec<Value>) -> (r: Vec<Fragment>)
        requires
            self.wf(),
            self.cx.values_ok(vs@),
        ensures
            views(r@) == value_docs(self@, vs@),
    {
        let mut out: Vec<Fragment> = Vec::new();
        let mut i: usize = 0;
        while i < vs.len()
            invariant
                0 <= i <= vs.len(),
                self.wf(),
                self.cx.values_ok(vs@),
                out@.len() == i,
                forall|j: int| 0 <= j < i ==> (#[trigger] out@[j])@ == value_doc(self@, vs@[j]),
            decreases vs.len() - i,
        {
            out.push(self.print_value(vs[i]));
            i += 1;
        }
        assert(views(out@) =~= value_docs(self@, vs@));
        out
    }

    /// Prints something declared with attributes and a type, with `name`
    /// between the two.
    pub fn print_decl(&self, attrs: AttrSet, ty: Type, name: Fragment) -> (r: Fragment)
        requires
            self.wf(),
            self.cx.is_attr_set(attrs),
            self.cx.is_type(ty),
        ensures
            r@ == decl_doc(self@, attrs, ty, name@),
    {
        let parts = AttrsAndDef {
            attrs: self.print_attrs(attrs),
            def_without_name: self.pretty_type_ascription_suffix(self.print_type(ty)),
        };
        parts.insert_name_before_def(name)
    }

    /// Prints an import.
    pub fn print_import(&self, import: &Import) -> (r: Fragment)
        requires
            import_ok(self.cx, *import),
        ensures
            r@ == import_doc(self.cx, *import),
    {
        match import {
            Import::LinkName(name) => {
                let mut out = Fragment::styled(self.declarative_keyword_style(), "import");
                out.push_text(" ");
                out.append(self.print_quoted(self.cx.lookup_str(*name).unwrap().as_str()));
                out
            },
        }
    }

    /// Prints the key of an export.
    pub fn print_export_key(&self, key: &ExportKey) -> (r: Fragment)
        requires
            export_key_ok(self.cx, *key),
        ensures
            r@ == export_key_doc(self.cx, *key),
    {
        match key {
            ExportKey::LinkName(name) => self.print_quoted(
                self.cx.lookup_str(*name).unwrap().as_str(),
            ),
            ExportKey::SpvEntryPoint { inst, .. } => {
                let mut ids: Vec<Option<Fragment>> = Vec::new();
                ids.push(None);
                assert(option_views(ids@) =~= seq![None]);
                self.pretty_spv_inst(self.spv_op_style(), inst, &ids, Fragment::new())
            },
        }
    }

    /// Prints a reference to what an export exports.
    pub fn print_exportee(&self, exportee: Exportee) -> (r: Fragment)
        requires
            self.wf(),
        ensures
            r@ == use_doc(self@, exportee_use(exportee), false),
    {
        match exportee {
            Exportee::GlobalVar(gv) => self.print_as_ref_or_def(
                Use::Node(Node::GlobalVar(gv)),
                false,
            ),
            Exportee::Func(func) => self.print_as_ref_or_def(Use::Node(Node::Func(func)), false),
        }
    }

    /// Prints a module: see [`module_body`].
    pub fn print_module(&self, module: &Module) -> (r: AttrsAndDef)
        requires
            self.wf(),
            module.wf(self.cx),
        ensures
            r.attrs@ == Seq::<NodeView>::empty(),
            r.def_without_name@ == module_body(self@, *module),
    {
        if module.exports.len() == 0 {
            return AttrsAndDef::default();
        }
        let mut entries: Vec<Fragment> = Vec::new();
        let mut i: usize = 0;
        while i < module.exports.len()
            invariant
                0 <= i <= module.exports.len(),
                self.wf(),
                module.wf(self.cx),
                entries@.len() == i,
                forall|j: int|
                    0 <= j < i ==> (#[trigger] entries@[j])@ == line_sep() + export_doc(
                        self@,
                        module.exports@[j].0,
                        module.exports@[j].1,
                    ),
            decreases module.exports.len() - i,
        {
            let mut entry = Fragment::new();
            entry.push_line_sep();
            entry.append(self.print_export_key(&module.exports[i].0));
            entry.push_text(": ");
            entry.append(self.print_exportee(module.exports[i].1));
            assert(entry@ =~= line_sep() + export_doc(
                self@,
                module.exports@[i as int].0,
                module.exports@[i as int].1,
            ));
            entries.push(entry);
            i += 1;
        }
        assert(views(entries@) =~= Seq::new(
            module.exports@.len(),
            |i: int| line_sep() + export_doc(self@, module.exports@[i].0, module.exports@[i].1),
        ));
        let mut out = Fragment::styled(self.declarative_keyword_style(), "export");
        out.push_text(" ");
        out.append(join_comma_sep(Fragment::text("{"), &entries, Fragment::text("}")));
        AttrsAndDef { attrs: Fragment::new(), def_without_name: out }
    }

    /// Prints a dialect: see [`dialect_body`].
    pub fn print_dialect(&self, dialect: &ModuleDialect) -> (r: AttrsAndDef)
        requires
            dialect_wf(*dialect),
        ensures
            r.attrs@ == Seq::<NodeView>::empty(),
            r.def_without_name@ == dialect_body(*dialect),
    {
        match dialect {
            ModuleDialect::Spv(d) => {
                let mut version = format_u32(d.version_major as u32);
                version.append(".");
                version.append(format_u32(d.version_minor as u32).as_str());
                let mut e0 = Fragment::text("version: ");
                e0.push_styled(self.numeric_literal_style(), version);
                let e1 = join_comma_sep(
                    Fragment::text("extensions: {"),
                    &self.print_quoted_all(&d.extensions),
                    Fragment::text("}"),
                );
                let e2 = join_comma_sep(
                    Fragment::text("capabilities: {"),
                    &self.print_operands(&d.capabilities),
                    Fragment::text("}"),
                );
                let mut e3 = Fragment::text("addressing_model: ");
                e3.append(self.pretty_spv_imm(&d.addressing_model));
                let mut e4 = Fragment::text("memory_model: ");
                e4.append(self.pretty_spv_imm(&d.memory_model));
                let mut entries: Vec<Fragment> = Vec::new();
                entries.push(e0);
                entries.push(e1);
                entries.push(e2);
                entries.push(e3);
                entries.push(e4);
                assert(views(entries@) =~= seq![e0@, e1@, e2@, e3@, e4@]);
                let mut out = Fragment::text(" = ");
                out.append(
                    join_comma_sep(
                        Fragment::text("SPIR-V {"),
                        &put_on_lines(&entries),
                        Fragment::text("}"),
                    ),
                );
                AttrsAndDef { attrs: Fragment::new(), def_without_name: out }
            },
        }
    }

    /// Prints the sources of one language: see [`source_language_doc`].
    pub fn print_source_language(&self, entry: &(spv::SourceLang, spv::DebugSources)) -> (r:
        Fragment)
        requires
            entry.0.lang.is_plain(),
            sources_ok(self.cx, entry.1),
        ensures
            r@ == source_language_doc(self.cx, *entry),
    {
        let mut files: Vec<Fragment> = Vec::new();
        let mut k: usize = 0;
        while k < entry.1.file_contents.len()
            invariant
                0 <= k <= entry.1.file_contents.len(),
                sources_ok(self.cx, entry.1),
                files@.len() == k,
                forall|j: int|
                    0 <= j < k ==> (#[trigger] files@[j])@ == line_sep() + source_file_doc(
                        self.cx,
                        entry.1.file_contents@[j],
                    ),
            decreases entry.1.file_contents.len() - k,
        {
            let file = &entry.1.file_contents[k];
            let mut item = Fragment::new();
            item.push_line_sep();
            item.append(self.print_quoted(self.cx.lookup_str(file.0).unwrap().as_str()));
            item.push_text(": ");
            item.append(self.print_quoted(file.1.as_str()));
            assert(item@ =~= line_sep() + source_file_doc(
                self.cx,
                entry.1.file_contents@[k as int],
            ));
            files.push(item);
            k += 1;
        }
        assert(views(files@) =~= Seq::new(
            entry.1.file_contents@.len(),
            |k: int| line_sep() + source_file_doc(self.cx, entry.1.file_contents@[k]),
        ));
        let mut out = self.pretty_spv_imm(&entry.0.lang);
        out.push_text(" { version: ");
        out.append(self.print_number(entry.0.version));
        out.push_text(" }: ");
        out.append(join_comma_sep(Fragment::text("{"), &files, Fragment::text("}")));
        out
    }

    /// Prints the debug information: see [`debug_info_body`].
    pub fn print_debug_info(&self, info: &ModuleDebugInfo) -> (r: AttrsAndDef)
        requires
            debug_info_wf(self.cx, *info),
        ensures
            r.attrs@ == Seq::<NodeView>::empty(),
            r.def_without_name@ == debug_info_body(self.cx, *info),
    {
        match info {
            ModuleDebugInfo::Spv(d) => {
                let mut e0 = Fragment::text("generator: ");
                match d.original_generator_magic {
                    Some(m) => {
                        e0.push_text("{ tool_id: ");
                        e0.append(self.print_number(m / 0x1_0000));
                        e0.push_text(", version: ");
                        e0.append(self.print_number(m % 0x1_0000));
                        e0.push_text(" }");
                    },
                    None => {
                        e0.push_text("unknown");
                    },
                }
                assert(e0@ =~= text("generator: "@) + generator_doc(d.original_generator_magic));
                let mut langs: Vec<Fragment> = Vec::new();
                let mut i: usize = 0;
                while i < d.source_languages.len()
                    invariant
                        0 <= i <= d.source_languages.len(),
                        debug_info_wf(self.cx, *info),
                        *info == ModuleDebugInfo::Spv(*d),
                        langs@.len() == i,
                        forall|j: int|
                            0 <= j < i ==> (#[trigger] langs@[j])@ == line_sep()
                                + source_language_doc(self.cx, d.source_languages@[j]),
                    decreases d.source_languages.len() - i,
                {
                    let mut item = Fragment::new();
                    item.push_line_sep();
                    item.append(self.print_source_language(&d.source_languages[i]));
                    langs.push(item);
                    i += 1;
                }
                assert(views(langs@) =~= Seq::new(
                    d.source_languages@.len(),
                    |i: int| line_sep() + source_language_doc(self.cx, d.source_languages@[i]),
                ));
                let e1 = join_comma_sep(
                    Fragment::text("source_languages: {"),
                    &langs,
                    Fragment::text("}"),
                );
                let e2 = join_comma_sep(
                    Fragment::text("source_extensions: ["),
                    &self.print_quoted_all(&d.source_extensions),
                    Fragment::text("]"),
                );
                let e3 = join_comma_sep(
                    Fragment::text("module_processes: ["),
                    &self.print_quoted_all(&d.module_processes),
                    Fragment::text("]"),
                );
                let mut entries: Vec<Fragment> = Vec::new();
                entries.push(e0);
                entries.push(e1);
                entries.push(e2);
                entries.push(e3);
                assert(views(entries@) =~= seq![e0@, e1@, e2@, e3@]);
                let mut out = Fragment::text(" = ");
                out.append(
                    join_comma_sep(
                        Fragment::text("SPIR-V {"),
                        &put_on_lines(&entries),
                        Fragment::text("}"),
                    ),
                );
                AttrsAndDef { attrs: Fragment::new(), def_without_name: out }
            },
        }
    }

    /// Prints the group of interned definitions: see
    /// [`all_interned_body`].
    pub fn print_all_interned(&self) -> (r: AttrsAndDef)
        requires
            self.wf(),
        ensures
            r.attrs@ == Seq::<NodeView>::empty(),
            r.def_without_name@ == all_interned_body(self@),
    {
        let mut defs: Vec<Fragment> = Vec::new();
        let mut i: usize = 0;
        while i < self.use_styles.len()
            invariant
                0 <= i <= self.use_styles@.len(),
                self.wf(),
                views(defs@) == named_interned(self@, i as nat),
            decreases self.use_styles@.len() - i,
        {
            match (self.use_styles.key_at(i), self.use_styles.value_at(i)) {
                (Use::CxInterned(x), UseStyle::Anon { idx, .. }) => {
                    let name = concat2(x.category(), format_usize(idx).as_str());
                    let mut style = Styles::default();
                    style.anchor = Some(name.clone());
                    style.anchor_is_def = true;
                    let mut name = Fragment::styled(style, name.as_str());
                    name.push_text(" = ");
                    let ghost before = views(defs@);
                    let def = self.print_interned(x).insert_name_before_def(name);
                    defs.push(def);
                    assert(views(defs@) =~= before.push(def@));
                },
                _ => {},
            }
            i += 1;
        }
        AttrsAndDef {
            attrs: Fragment::new(),
            def_without_name: Fragment::join(defs, Fragment::text("\n\n")),
        }
    }

    /// Prints a global variable: see [`global_var_body`].
    pub fn print_global_var(&self, decl: &GlobalVarDecl) -> (r: AttrsAndDef)
        requires
            self.wf(),
            global_var_wf(self.cx, *decl),
        ensures
            r.attrs@ == attrs_doc(self@, decl.attrs),
            r.def_without_name@ == global_var_body(self@, *decl),
    {
        let ty_def = self.cx.lookup_type(decl.type_of_ptr_to).unwrap();
        assert(self.cx.entry_wf(decl.type_of_ptr_to.0 as int));
        let pointee = match &ty_def.ctor {
            TypeCtor::SpvInst(inst) => if inst.opcode.number == spv::OP_TYPE_POINTER {
                match ty_def.ctor_args[0] {
                    TypeCtorArg::Type(ty) => Some(ty),
                    TypeCtorArg::Const(_) => None,
                }
            } else {
                None
            },
            _ => None,
        };
        let suffix = match pointee {
            Some(ty) => {
                assert(self.cx.type_arg_before(ty_def.ctor_args@[0], decl.type_of_ptr_to.0 as int));
                self.pretty_type_ascription_suffix(self.print_type(ty))
            },
            None => {
                let mut out = Fragment::text(": ");
                out.push_styled(self.error_style(), String::from_str("pointee_type_of"));
                out.push_text("(");
                out.append(self.print_type(decl.type_of_ptr_to));
                out.push_text(")");
                out
            },
        };
        let mut out = Fragment::text(" in ");
        match &decl.addr_space {
            AddrSpace::SpvStorageClass(class) => {
                out.append(self.pretty_spv_imm(class));
            },
        }
        out.append(suffix);
        let mut tail: Vec<Fragment> = Vec::new();
        match &decl.def {
            DeclDef::Imported(import) => {
                let mut body = Fragment::text("= ");
                body.append(self.print_import(import));
                tail.push(body);
            },
            DeclDef::Present(body) => match body.initializer {
                Some(ct) => {
                    let mut init = Fragment::text("init=");
                    init.append(self.print_const(ct));
                    tail.push(init);
                },
                None => {},
            },
        }
        assert(views(tail@) =~= global_var_tail(self@, *decl));
        out.append(join_space(Fragment::text(""), &tail));
        AttrsAndDef { attrs: self.print_attrs(decl.attrs), def_without_name: out }
    }

    /// Prints a mismatch: see [`mismatch_body`].
    pub fn print_mismatch(&self, pair: &ExpectedVsFound<CxInterned, CxInterned>) -> (r:
        AttrsAndDef)
        requires
            self.wf(),
            pair.expected.index() < self.cx.interned@.len(),
            pair.found.index() < self.cx.interned@.len(),
        ensures
            r.attrs@ == Seq::<NodeView>::empty(),
            r.def_without_name@ == mismatch_body(self@, *pair),
    {
        let mut out = Fragment::text("expected: ");
        out.append(self.print_as_ref_or_def(Use::CxInterned(pair.expected), false));
        out.push_line_sep();
        out.push_text("found: ");
        out.append(self.print_as_ref_or_def(Use::CxInterned(pair.found), false));
        AttrsAndDef { attrs: Fragment::new(), def_without_name: out }
    }
}

} // verus!
