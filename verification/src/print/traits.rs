//! Printing through one interface, whatever is printed.
use vstd::prelude::*;
use crate::ir::{
    Attr, AttrSet, AttrSetDef, Const, ControlNodeOutputDecl, ControlRegionInputDecl, ExportKey,
    FuncParam, ControlInst, ControlNodeDef, ControlRegionDef, DataInstDef, Exportee, Func,
    FuncDecl, GlobalVar, GlobalVarDecl, Import, Module, ModuleDebugInfo, ModuleDialect, Type,
    Value,
};
use crate::pretty::{Fragment, NodeView};
use crate::print::attrs::{attr_doc, attr_set_def_doc, attr_style_of, AttrStyle, AttrsAndDef};
use crate::print::deps::{attrs_use, const_use, exportee_use, type_use};
use crate::print::discovery::ExpectedVsFound;
use crate::print::func_text::{
    control_inst_doc, data_inst_doc, func_decl_body, node_doc, region_doc,
};
use crate::print::interned::{interned_parts, type_ascription, use_doc, use_ok};
use crate::print::module_text::{
    attrs_doc, export_key_doc, type_doc, debug_info_body, dialect_body, global_var_body, import_doc, mismatch_body,
    module_body,
};
use crate::print::plan::Plan;
use crate::print::printer::Printer;
use crate::print::versions::{plan_doc, Versions};
use crate::print::uses::{CxInterned, Node, Use};
use crate::validate::{
    control_inst_wf, decl_ok, export_key_ok, data_inst_wf, debug_info_wf, dialect_wf, func_decl_wf, global_var_wf,
    import_ok, node_wf, region_wf,
};

verus! {

/// Something that a printer can print.
pub trait Print {
    /// What the print is: a fragment, or attributes and a definition
    /// that still lacks its name.
    type Output;

    /// Whether `printer` can print this: both are well formed, and what
    /// is printed refers only to definitions of the printer's context.
    spec fn printable(&self, printer: &Printer) -> bool;

    /// Whether `out` is the print of this by `printer`.
    spec fn printed_as(&self, printer: &Printer, out: Self::Output) -> bool;

    fn print(&self, printer: &Printer<'_>) -> (r: Self::Output)
        requires
            self.printable(printer),
        ensures
            self.printed_as(printer, r),
    ;
}

impl<'a> Print for Plan<'a> {
    type Output = Versions<Fragment>;

    open spec fn printable(&self, printer: &Printer) -> bool {
        self.wf() && printer.wf() && printer.cx == self.cx
    }

    open spec fn printed_as(&self, printer: &Printer, out: Versions<Fragment>) -> bool {
        out@ == plan_doc(printer@, self) && out@.wf()
    }

    fn print(&self, printer: &Printer<'_>) -> (r: Versions<Fragment>) {
        Plan::print(self, printer)
    }
}

impl Print for Use {
    type Output = Fragment;

    open spec fn printable(&self, printer: &Printer) -> bool {
        printer.wf() && self.has_category() && use_ok(printer.cx, *self)
    }

    open spec fn printed_as(&self, printer: &Printer, out: Fragment) -> bool {
        out@ == use_doc(printer@, *self, false)
    }

    fn print(&self, printer: &Printer<'_>) -> (r: Fragment) {
        printer.print_as_ref_or_def(*self, false)
    }
}

impl Use {
    /// Prints the use where it is defined: its name defines its anchor.
    pub fn print_as_def(&self, printer: &Printer<'_>) -> (r: Fragment)
        requires
            self.printable(printer),
        ensures
            r@ == use_doc(printer@, *self, true),
    {
        printer.print_as_ref_or_def(*self, true)
    }
}

impl Print for AttrSet {
    type Output = Fragment;

    open spec fn printable(&self, printer: &Printer) -> bool {
        printer.wf() && printer.cx.is_attr_set(*self)
    }

    open spec fn printed_as(&self, printer: &Printer, out: Fragment) -> bool {
        out@ == use_doc(printer@, attrs_use(*self), false)
    }

    fn print(&self, printer: &Printer<'_>) -> (r: Fragment) {
        printer.print_attrs(*self)
    }
}

impl Print for Type {
    type Output = Fragment;

    open spec fn printable(&self, printer: &Printer) -> bool {
        printer.wf() && printer.cx.is_type(*self)
    }

    open spec fn printed_as(&self, printer: &Printer, out: Fragment) -> bool {
        out@ == use_doc(printer@, type_use(*self), false)
    }

    fn print(&self, printer: &Printer<'_>) -> (r: Fragment) {
        printer.print_type(*self)
    }
}

impl Print for Const {
    type Output = Fragment;

    open spec fn printable(&self, printer: &Printer) -> bool {
        printer.wf() && printer.cx.is_const(*self)
    }

    open spec fn printed_as(&self, printer: &Printer, out: Fragment) -> bool {
        out@ == use_doc(printer@, const_use(*self), false)
    }

    fn print(&self, printer: &Printer<'_>) -> (r: Fragment) {
        printer.print_const(*self)
    }
}

impl Print for GlobalVar {
    type Output = Fragment;

    open spec fn printable(&self, printer: &Printer) -> bool {
        printer.wf()
    }

    open spec fn printed_as(&self, printer: &Printer, out: Fragment) -> bool {
        out@ == use_doc(printer@, Use::Node(Node::GlobalVar(*self)), false)
    }

    fn print(&self, printer: &Printer<'_>) -> (r: Fragment) {
        printer.print_as_ref_or_def(Use::Node(Node::GlobalVar(*self)), false)
    }
}

impl Print for Func {
    type Output = Fragment;

    open spec fn printable(&self, printer: &Printer) -> bool {
        printer.wf()
    }

    open spec fn printed_as(&self, printer: &Printer, out: Fragment) -> bool {
        out@ == use_doc(printer@, Use::Node(Node::Func(*self)), false)
    }

    fn print(&self, printer: &Printer<'_>) -> (r: Fragment) {
        printer.print_as_ref_or_def(Use::Node(Node::Func(*self)), false)
    }
}

impl Print for Value {
    type Output = Fragment;

    open spec fn printable(&self, printer: &Printer) -> bool {
        printer.wf() && printer.cx.value_ok(*self)
    }

    open spec fn printed_as(&self, printer: &Printer, out: Fragment) -> bool {
        out@ == use_doc(printer@, Use::of_value(*self), false)
    }

    fn print(&self, printer: &Printer<'_>) -> (r: Fragment) {
        printer.print_value(*self)
    }
}

impl Value {
    /// Prints the value where it is defined.
    pub fn print_as_def(&self, printer: &Printer<'_>) -> (r: Fragment)
        requires
            self.printable(printer),
        ensures
            r@ == use_doc(printer@, Use::of_value(*self), true),
    {
        printer.print_value_as_def(*self)
    }
}

impl Print for Exportee {
    type Output = Fragment;

    open spec fn printable(&self, printer: &Printer) -> bool {
        printer.wf()
    }

    open spec fn printed_as(&self, printer: &Printer, out: Fragment) -> bool {
        out@ == use_doc(printer@, exportee_use(*self), false)
    }

    fn print(&self, printer: &Printer<'_>) -> (r: Fragment) {
        printer.print_exportee(*self)
    }
}

impl Print for Import {
    type Output = Fragment;

    open spec fn printable(&self, printer: &Printer) -> bool {
        import_ok(printer.cx, *self)
    }

    open spec fn printed_as(&self, printer: &Printer, out: Fragment) -> bool {
        out@ == import_doc(printer.cx, *self)
    }

    fn print(&self, printer: &Printer<'_>) -> (r: Fragment) {
        printer.print_import(self)
    }
}

impl Print for CxInterned {
    type Output = AttrsAndDef;

    open spec fn printable(&self, printer: &Printer) -> bool {
        printer.wf() && self.index() < printer.cx.interned@.len()
    }

    open spec fn printed_as(&self, printer: &Printer, out: AttrsAndDef) -> bool {
        (out.attrs@, out.def_without_name@) == interned_parts(printer@, *self)
    }

    fn print(&self, printer: &Printer<'_>) -> (r: AttrsAndDef) {
        printer.print_interned(*self)
    }
}

impl Print for ExpectedVsFound<CxInterned, CxInterned> {
    type Output = AttrsAndDef;

    open spec fn printable(&self, printer: &Printer) -> bool {
        printer.wf() && self.expected.index() < printer.cx.interned@.len() && self.found.index()
            < printer.cx.interned@.len()
    }

    open spec fn printed_as(&self, printer: &Printer, out: AttrsAndDef) -> bool {
        out.attrs@ == Seq::<NodeView>::empty() && out.def_without_name@ == mismatch_body(
            printer@,
            *self,
        )
    }

    fn print(&self, printer: &Printer<'_>) -> (r: AttrsAndDef) {
        printer.print_mismatch(self)
    }
}

impl Print for Module {
    type Output = AttrsAndDef;

    open spec fn printable(&self, printer: &Printer) -> bool {
        printer.wf() && self.wf(printer.cx)
    }

    open spec fn printed_as(&self, printer: &Printer, out: AttrsAndDef) -> bool {
        out.attrs@ == Seq::<NodeView>::empty() && out.def_without_name@ == module_body(
            printer@,
            *self,
        )
    }

    fn print(&self, printer: &Printer<'_>) -> (r: AttrsAndDef) {
        printer.print_module(self)
    }
}

impl Print for ModuleDialect {
    type Output = AttrsAndDef;

    open spec fn printable(&self, printer: &Printer) -> bool {
        dialect_wf(*self)
    }

    open spec fn printed_as(&self, printer: &Printer, out: AttrsAndDef) -> bool {
        out.attrs@ == Seq::<NodeView>::empty() && out.def_without_name@ == dialect_body(*self)
    }

    fn print(&self, printer: &Printer<'_>) -> (r: AttrsAndDef) {
        printer.print_dialect(self)
    }
}

impl Print for ModuleDebugInfo {
    type Output = AttrsAndDef;

    open spec fn printable(&self, printer: &Printer) -> bool {
        debug_info_wf(printer.cx, *self)
    }

    open spec fn printed_as(&self, printer: &Printer, out: AttrsAndDef) -> bool {
        out.attrs@ == Seq::<NodeView>::empty() && out.def_without_name@ == debug_info_body(
            printer.cx,
            *self,
        )
    }

    fn print(&self, printer: &Printer<'_>) -> (r: AttrsAndDef) {
        printer.print_debug_info(self)
    }
}

impl Print for GlobalVarDecl {
    type Output = AttrsAndDef;

    open spec fn printable(&self, printer: &Printer) -> bool {
        printer.wf() && global_var_wf(printer.cx, *self)
    }

    open spec fn printed_as(&self, printer: &Printer, out: AttrsAndDef) -> bool {
        out.attrs@ == attrs_doc(printer@, self.attrs) && out.def_without_name@ == global_var_body(
            printer@,
            *self,
        )
    }

    fn print(&self, printer: &Printer<'_>) -> (r: AttrsAndDef) {
        printer.print_global_var(self)
    }
}

impl Print for FuncDecl {
    type Output = AttrsAndDef;

    open spec fn printable(&self, printer: &Printer) -> bool {
        printer.wf() && func_decl_wf(printer.cx, *self)
    }

    open spec fn printed_as(&self, printer: &Printer, out: AttrsAndDef) -> bool {
        out.attrs@ == attrs_doc(printer@, self.attrs) && out.def_without_name@ == func_decl_body(
            printer@,
            *self,
        )
    }

    fn print(&self, printer: &Printer<'_>) -> (r: AttrsAndDef) {
        printer.print_func_decl(self)
    }
}

impl Print for ControlRegionDef {
    type Output = Fragment;

    open spec fn printable(&self, printer: &Printer) -> bool {
        printer.wf() && region_wf(printer.cx, *self)
    }

    open spec fn printed_as(&self, printer: &Printer, out: Fragment) -> bool {
        out@ == region_doc(printer@, *self)
    }

    fn print(&self, printer: &Printer<'_>) -> (r: Fragment) {
        printer.print_region(self)
    }
}

impl Print for ControlNodeDef {
    type Output = Fragment;

    open spec fn printable(&self, printer: &Printer) -> bool {
        printer.wf() && node_wf(printer.cx, *self)
    }

    open spec fn printed_as(&self, printer: &Printer, out: Fragment) -> bool {
        out@ == node_doc(printer@, *self)
    }

    fn print(&self, printer: &Printer<'_>) -> (r: Fragment) {
        printer.print_node(self)
    }
}

impl Print for DataInstDef {
    type Output = Fragment;

    open spec fn printable(&self, printer: &Printer) -> bool {
        printer.wf() && data_inst_wf(printer.cx, *self)
    }

    open spec fn printed_as(&self, printer: &Printer, out: Fragment) -> bool {
        out@ == data_inst_doc(printer@, *self)
    }

    fn print(&self, printer: &Printer<'_>) -> (r: Fragment) {
        printer.print_data_inst(self)
    }
}

impl Print for ControlInst {
    type Output = Fragment;

    open spec fn printable(&self, printer: &Printer) -> bool {
        printer.wf() && control_inst_wf(printer.cx, *self)
    }

    open spec fn printed_as(&self, printer: &Printer, out: Fragment) -> bool {
        out@ == control_inst_doc(printer@, *self)
    }

    fn print(&self, printer: &Printer<'_>) -> (r: Fragment) {
        printer.print_control_inst(self)
    }
}

impl Print for Attr {
    type Output = (AttrStyle, Fragment);

    open spec fn printable(&self, printer: &Printer) -> bool {
        printer.cx.attr_ok(*self)
    }

    open spec fn printed_as(&self, printer: &Printer, out: (AttrStyle, Fragment)) -> bool {
        out.0 == attr_style_of(*self) && out.1@ == attr_doc(printer.cx, *self)
    }

    fn print(&self, printer: &Printer<'_>) -> (r: (AttrStyle, Fragment)) {
        printer.print_attr(self)
    }
}

impl Print for AttrSetDef {
    type Output = Fragment;

    open spec fn printable(&self, printer: &Printer) -> bool {
        printer.cx.attr_set_def_wf(*self)
    }

    open spec fn printed_as(&self, printer: &Printer, out: Fragment) -> bool {
        out@ == attr_set_def_doc(printer.cx, *self)
    }

    fn print(&self, printer: &Printer<'_>) -> (r: Fragment) {
        printer.print_attr_set_def(self)
    }
}

impl Print for ExportKey {
    type Output = Fragment;

    open spec fn printable(&self, printer: &Printer) -> bool {
        export_key_ok(printer.cx, *self)
    }

    open spec fn printed_as(&self, printer: &Printer, out: Fragment) -> bool {
        out@ == export_key_doc(printer.cx, *self)
    }

    fn print(&self, printer: &Printer<'_>) -> (r: Fragment) {
        printer.print_export_key(self)
    }
}

impl Print for FuncParam {
    type Output = AttrsAndDef;

    open spec fn printable(&self, printer: &Printer) -> bool {
        printer.wf() && decl_ok(printer.cx, self.attrs, self.ty)
    }

    open spec fn printed_as(&self, printer: &Printer, out: AttrsAndDef) -> bool {
        out.attrs@ == attrs_doc(printer@, self.attrs) && out.def_without_name@ == type_ascription(
            type_doc(printer@, self.ty),
        )
    }

    fn print(&self, printer: &Printer<'_>) -> (r: AttrsAndDef) {
        AttrsAndDef {
            attrs: printer.print_attrs(self.attrs),
            def_without_name: printer.pretty_type_ascription_suffix(printer.print_type(self.ty)),
        }
    }
}

impl Print for ControlRegionInputDecl {
    type Output = AttrsAndDef;

    open spec fn printable(&self, printer: &Printer) -> bool {
        printer.wf() && decl_ok(printer.cx, self.attrs, self.ty)
    }

    open spec fn printed_as(&self, printer: &Printer, out: AttrsAndDef) -> bool {
        out.attrs@ == attrs_doc(printer@, self.attrs) && out.def_without_name@ == type_ascription(
            type_doc(printer@, self.ty),
        )
    }

    fn print(&self, printer: &Printer<'_>) -> (r: AttrsAndDef) {
        AttrsAndDef {
            attrs: printer.print_attrs(self.attrs),
            def_without_name: printer.pretty_type_ascription_suffix(printer.print_type(self.ty)),
        }
    }
}

impl Print for ControlNodeOutputDecl {
    type Output = AttrsAndDef;

    open spec fn printable(&self, printer: &Printer) -> bool {
        printer.wf() && decl_ok(printer.cx, self.attrs, self.ty)
    }

    open spec fn printed_as(&self, printer: &Printer, out: AttrsAndDef) -> bool {
        out.attrs@ == attrs_doc(printer@, self.attrs) && out.def_without_name@ == type_ascription(
            type_doc(printer@, self.ty),
        )
    }

    fn print(&self, printer: &Printer<'_>) -> (r: AttrsAndDef) {
        AttrsAndDef {
            attrs: printer.print_attrs(self.attrs),
            def_without_name: printer.pretty_type_ascription_suffix(printer.print_type(self.ty)),
        }
    }
}

} // verus!
