use spirt_print::ir::{
    AddrSpace, Attr, AttrSet, AttrSetDef, Const, ConstCtor, ConstDef, Context, ControlFlowGraph,
    ControlInst, ControlInstKind, ControlNode, ControlNodeDef, ControlNodeKind, ControlRegion,
    ControlRegionDef, ControlRegionInputDecl, DataInst, DataInstDef, DataInstKind, DeclDef,
    ExportKey, Exportee, Func, FuncDecl, FuncDefBody, FuncParam, GlobalVar, GlobalVarDecl,
    GlobalVarDefBody, Import, Interned, InternedStr, Module, ModuleDebugInfo, ModuleDialect,
    SelectionKind, Type, TypeCtor, TypeCtorArg, TypeDef, Value,
};
use spirt_print::print::{
    CxInterned, ExpectedVsFound, FloatLiteral, Node, Plan, Print, Printer, Root, Use, UseStyle,
    Versions,
};
use spirt_print::spv;

fn intern(cx: &mut Context, def: Interned) -> u32 {
    cx.interned.push(def);
    (cx.interned.len() - 1) as u32
}

fn intern_str(cx: &mut Context, s: &str) -> InternedStr {
    cx.strings.push(s.to_string());
    InternedStr((cx.strings.len() - 1) as u32)
}

fn token(kind: &str, s: &str) -> spv::Token {
    match kind {
        "punct" => spv::Token::Punctuation(s.to_string()),
        "prefix" => spv::Token::OperandKindNamespacePrefix(s.to_string()),
        "name" => spv::Token::EnumerandName(s.to_string()),
        "num" => spv::Token::NumericLiteral(s.to_string()),
        "str" => spv::Token::StringLiteral(s.to_string()),
        "id" => spv::Token::Id,
        _ => spv::Token::Error(s.to_string()),
    }
}

fn enumerand(kind: &str, name: &str) -> spv::Operand {
    spv::Operand { tokens: vec![token("prefix", kind), token("name", name)] }
}

fn numeral(n: u32) -> spv::Operand {
    spv::Operand { tokens: vec![token("num", &n.to_string())] }
}

fn inst(number: u16, name: &str, words: &[u32]) -> spv::Inst {
    spv::Inst {
        opcode: spv::Opcode { number, name: name.to_string() },
        imms: words.iter().map(|&w| spv::Imm::Short(0, w)).collect(),
        operands: words.iter().map(|&w| numeral(w)).collect(),
    }
}

fn int_type(cx: &mut Context, width: u32, signed: bool) -> Type {
    Type(intern(
        cx,
        Interned::Type(TypeDef {
            attrs: AttrSet(0),
            ctor: TypeCtor::SpvInst(inst(spv::OP_TYPE_INT, "OpTypeInt", &[width, signed as u32])),
            ctor_args: vec![],
        }),
    ))
}

fn float_type(cx: &mut Context, width: u32) -> Type {
    Type(intern(
        cx,
        Interned::Type(TypeDef {
            attrs: AttrSet(0),
            ctor: TypeCtor::SpvInst(inst(spv::OP_TYPE_FLOAT, "OpTypeFloat", &[width])),
            ctor_args: vec![],
        }),
    ))
}

fn bool_type(cx: &mut Context) -> Type {
    Type(intern(
        cx,
        Interned::Type(TypeDef {
            attrs: AttrSet(0),
            ctor: TypeCtor::SpvInst(inst(spv::OP_TYPE_BOOL, "OpTypeBool", &[])),
            ctor_args: vec![],
        }),
    ))
}

fn struct_type(cx: &mut Context, members: &[Type]) -> Type {
    Type(intern(
        cx,
        Interned::Type(TypeDef {
            attrs: AttrSet(0),
            ctor: TypeCtor::SpvInst(inst(30, "OpTypeStruct", &[])),
            ctor_args: members.iter().map(|&t| TypeCtorArg::Type(t)).collect(),
        }),
    ))
}

fn const_word(cx: &mut Context, ty: Type, word: u32) -> Const {
    Const(intern(
        cx,
        Interned::Const(ConstDef {
            attrs: AttrSet(0),
            ty,
            ctor: ConstCtor::SpvInst(inst(spv::OP_CONSTANT, "OpConstant", &[word])),
            ctor_args: vec![],
        }),
    ))
}

fn annotation(name: &str) -> Attr {
    Attr::SpvAnnotation(spv::Inst {
        opcode: spv::Opcode { number: 71, name: "OpDecorate".to_string() },
        imms: vec![spv::Imm::Short(0, 0)],
        operands: vec![
            spv::Operand { tokens: vec![token("id", "")] },
            enumerand("Decoration", name),
        ],
    })
}

fn attr_set(cx: &mut Context, attrs: Vec<Attr>) -> AttrSet {
    AttrSet(intern(cx, Interned::AttrSet(AttrSetDef { attrs })))
}

fn region(id: u32, children: Vec<ControlNodeDef>, outputs: Vec<Value>) -> ControlRegionDef {
    ControlRegionDef { id: ControlRegion(id), inputs: vec![], children, outputs }
}

fn block(id: u32, insts: Vec<DataInstDef>) -> ControlNodeDef {
    ControlNodeDef {
        id: ControlNode(id),
        kind: ControlNodeKind::Block { insts },
        outputs: vec![],
    }
}

fn add_inst(id: u32, ty: Type, inputs: Vec<Value>) -> DataInstDef {
    DataInstDef {
        id: DataInst(id),
        attrs: AttrSet(0),
        kind: DataInstKind::SpvInst(inst(128, "OpIAdd", &[])),
        output_type: Some(ty),
        inputs,
    }
}

fn call_inst(id: u32, func: Func, ty: Type, inputs: Vec<Value>) -> DataInstDef {
    DataInstDef {
        id: DataInst(id),
        attrs: AttrSet(0),
        kind: DataInstKind::FuncCall(func),
        output_type: Some(ty),
        inputs,
    }
}

fn func(attrs: AttrSet, ret_type: Type, params: Vec<FuncParam>, body: ControlRegionDef) -> FuncDecl {
    FuncDecl {
        attrs,
        ret_type,
        params,
        def: DeclDef::Present(FuncDefBody { body, unstructured_cfg: None }),
    }
}

fn dialect() -> ModuleDialect {
    ModuleDialect::Spv(spv::Dialect {
        version_major: 1,
        version_minor: 3,
        capabilities: vec![enumerand("Capability", "Shader")],
        extensions: vec!["SPV_KHR_storage".to_string()],
        addressing_model: enumerand("AddressingModel", "Logical"),
        memory_model: enumerand("MemoryModel", "GLSL450"),
    })
}

fn debug_info() -> ModuleDebugInfo {
    ModuleDebugInfo::Spv(spv::ModuleDebugInfo {
        original_generator_magic: Some((7 << 16) | 42),
        source_languages: vec![],
        source_extensions: vec![],
        module_processes: vec!["pass".to_string()],
    })
}

fn module(cx: &mut Context, funcs: Vec<FuncDecl>, exported: &[u32]) -> Module {
    let exports = exported
        .iter()
        .map(|&f| {
            let name = intern_str(cx, &format!("f{}", f));
            (ExportKey::LinkName(name), Exportee::Func(Func(f)))
        })
        .collect();
    Module { dialect: dialect(), debug_info: debug_info(), global_vars: vec![], funcs, exports }
}

fn count_of(plan: &Plan, u: Use) -> Option<usize> {
    plan.use_counts.get(u)
}

fn position(plan: &Plan, u: Use) -> usize {
    plan.use_counts.find(u).unwrap()
}

fn text_of(plan: &Plan) -> String {
    plan.pretty_print().to_text()
}

/// A module with one function that adds the constants 5 (twice) and 7.
fn sum_module(cx: &mut Context) -> (Module, Const, Const, Type) {
    let ty = int_type(cx, 32, false);
    let five = const_word(cx, ty, 5);
    let seven = const_word(cx, ty, 7);
    let body = region(
        0,
        vec![block(
            0,
            vec![
                add_inst(0, ty, vec![Value::Const(five), Value::Const(five)]),
                add_inst(1, ty, vec![Value::DataInstOutput(DataInst(0)), Value::Const(seven)]),
            ],
        )],
        vec![Value::DataInstOutput(DataInst(1))],
    );
    let f = func(AttrSet(0), ty, vec![], body);
    (module(cx, vec![f], &[0]), five, seven, ty)
}

#[test]
fn context_with_sum_module_is_well_formed() {
    let mut cx = Context::new();
    let (m, _, _, _) = sum_module(&mut cx);
    assert!(cx.check());
    assert!(m.check(&cx));
}

#[test]
fn plan_counts_each_use() {
    let mut cx = Context::new();
    let (m, five, seven, ty) = sum_module(&mut cx);
    assert!(cx.check() && m.check(&cx));
    let plan = Plan::for_module(&cx, &m);
    assert_eq!(count_of(&plan, Use::CxInterned(CxInterned::Const(five))), Some(2));
    assert_eq!(count_of(&plan, Use::CxInterned(CxInterned::Const(seven))), Some(1));
    assert_eq!(count_of(&plan, Use::DataInstOutput(DataInst(0))), Some(1));
    assert_eq!(count_of(&plan, Use::DataInstOutput(DataInst(1))), Some(1));
    assert_eq!(count_of(&plan, Use::Node(Node::Func(Func(0)))), Some(1));
    assert_eq!(count_of(&plan, Use::Node(Node::Root)), Some(1));
    // The type: once by each constant, by each instruction and as the return type.
    assert_eq!(count_of(&plan, Use::CxInterned(CxInterned::Type(ty))), Some(5));
    // The group of interned definitions: once for each interned definition found.
    assert_eq!(count_of(&plan, Use::Node(Node::AllCxInterned)), Some(4));
}

#[test]
fn plan_puts_dependencies_first() {
    let mut cx = Context::new();
    let (m, five, seven, ty) = sum_module(&mut cx);
    assert!(cx.check() && m.check(&cx));
    let plan = Plan::for_module(&cx, &m);
    let ty_at = position(&plan, Use::CxInterned(CxInterned::Type(ty)));
    let five_at = position(&plan, Use::CxInterned(CxInterned::Const(five)));
    let seven_at = position(&plan, Use::CxInterned(CxInterned::Const(seven)));
    let func_at = position(&plan, Use::Node(Node::Func(Func(0))));
    let root_at = position(&plan, Use::Node(Node::Root));
    assert!(ty_at < five_at && five_at < seven_at && seven_at < func_at && func_at < root_at);
    assert_eq!(root_at, plan.use_counts.len() - 1);
    // No use is in the plan twice.
    for i in 0..plan.use_counts.len() {
        for j in 0..i {
            assert_ne!(plan.use_counts.key_at(i), plan.use_counts.key_at(j));
        }
    }
}

#[test]
fn compact_constants_are_printed_inline() {
    let mut cx = Context::new();
    let (m, five, seven, _) = sum_module(&mut cx);
    assert!(cx.check() && m.check(&cx));
    let plan = Plan::for_module(&cx, &m);
    let printer = Printer::new(&plan);
    assert_eq!(printer.style(Use::CxInterned(CxInterned::Const(five))), UseStyle::Inline);
    assert_eq!(printer.style(Use::CxInterned(CxInterned::Const(seven))), UseStyle::Inline);
    let text = text_of(&plan);
    assert!(text.contains("spv.OpIAdd(5u32, 5u32): u32"), "{}", text);
    assert!(text.contains("7u32"), "{}", text);
    assert!(!text.contains("const0"), "{}", text);
}

#[test]
fn single_module_prints_as_expected() {
    let mut cx = Context::new();
    let (m, _, _, _) = sum_module(&mut cx);
    assert!(cx.check() && m.check(&cx));
    let plan = Plan::for_module(&cx, &m);
    let expected = "module.dialect = SPIR-V {\n  version: 1.3,\n  extensions: {\"SPV_KHR_storage\"},\n  capabilities: {spv.Capability.Shader},\n  addressing_model: spv.AddressingModel.Logical,\n  memory_model: spv.MemoryModel.GLSL450,\n}\n\nmodule.debug_info = SPIR-V {\n  generator: { tool_id: 7, version: 42 },\n  source_languages: {},\n  source_extensions: [],\n  module_processes: [\"pass\"],\n}\n\nfunc0() -> u32 {\n  v0 = spv.OpIAdd(5u32, 5u32): u32\n  v1 = spv.OpIAdd(v0, 7u32): u32\n  v1\n}";
    assert_eq!(text_of(&plan), expected);
    // The root itself, the module with its exports, is left out of the
    // document of a single unnamed version.
    assert!(!text_of(&plan).contains("export"));
}

#[test]
fn printing_twice_gives_the_same_text() {
    let mut cx = Context::new();
    let (m, _, _, _) = sum_module(&mut cx);
    assert!(cx.check() && m.check(&cx));
    let first = text_of(&Plan::for_module(&cx, &m));
    let second = text_of(&Plan::for_module(&cx, &m));
    assert_eq!(first, second);
    let html_a = Plan::for_module(&cx, &m).pretty_print().render_to_html();
    let html_b = Plan::for_module(&cx, &m).pretty_print().render_to_html();
    assert_eq!(html_a.body, html_b.body);
    assert_eq!(html_a.head_deduplicatable_elements, html_b.head_deduplicatable_elements);
}

#[test]
fn single_version_output_has_no_banners() {
    let mut cx = Context::new();
    let (m, _, _, _) = sum_module(&mut cx);
    assert!(cx.check() && m.check(&cx));
    let plan = Plan::for_module(&cx, &m);
    let printed = plan.pretty_print();
    assert!(matches!(printed, Versions::Single(_)));
    let text = printed.to_text();
    assert!(!text.contains("//#IF"));
    assert!(!text.contains("//#ELSEIF"));
    assert!(!text.contains("//#ENDIF"));
}

/// A module whose function uses `used` as often as `times` says, as the
/// inputs of one instruction.
fn module_using(cx: &mut Context, ty: Type, used: Const, times: usize) -> Module {
    let body = region(
        0,
        vec![block(0, vec![add_inst(0, ty, vec![Value::Const(used); times])])],
        vec![],
    );
    let f = func(AttrSet(0), ty, vec![], body);
    module(cx, vec![f], &[0])
}

#[test]
fn merged_use_counts_are_the_maximum_not_the_sum() {
    let mut cx = Context::new();
    let ty = int_type(&mut cx, 32, false);
    let ct = const_word(&mut cx, ty, 9);
    let a = module_using(&mut cx, ty, ct, 3);
    let b = module_using(&mut cx, ty, ct, 1);
    assert!(cx.check() && a.check(&cx) && b.check(&cx));
    let versions = vec![
        ("A".to_string(), Root::Module(&a)),
        ("B".to_string(), Root::Module(&b)),
    ];
    let plan = Plan::for_versions(&cx, &versions);
    let key = Use::CxInterned(CxInterned::Const(ct));
    assert_eq!(count_of(&Plan::for_module(&cx, &a), key), Some(3));
    assert_eq!(count_of(&Plan::for_module(&cx, &b), key), Some(1));
    assert_eq!(count_of(&plan, key), Some(3));
    let swapped = vec![
        ("B".to_string(), Root::Module(&b)),
        ("A".to_string(), Root::Module(&a)),
    ];
    assert_eq!(count_of(&Plan::for_versions(&cx, &swapped), key), Some(3));
    // The root is used once in each version, and comes last.
    assert_eq!(count_of(&plan, Use::Node(Node::Root)), Some(1));
    assert_eq!(position(&plan, Use::Node(Node::Root)), plan.use_counts.len() - 1);
}

#[test]
fn plan_for_no_versions_is_empty() {
    let cx = Context::new();
    let versions: Vec<(String, Root)> = vec![];
    let plan = Plan::for_versions(&cx, &versions);
    assert_eq!(plan.use_counts.len(), 0);
    assert_eq!(plan.versions.len(), 0);
    let printed = plan.pretty_print();
    assert_eq!(printed.to_text(), "");
}

#[test]
fn recursive_function_is_listed_once() {
    let mut cx = Context::new();
    let ty = int_type(&mut cx, 32, false);
    let body = region(
        0,
        vec![block(0, vec![call_inst(0, Func(0), ty, vec![])])],
        vec![Value::DataInstOutput(DataInst(0))],
    );
    let f = func(AttrSet(0), ty, vec![], body);
    let m = module(&mut cx, vec![f], &[0]);
    assert!(cx.check() && m.check(&cx));
    let plan = Plan::for_module(&cx, &m);
    let key = Use::Node(Node::Func(Func(0)));
    let mut listed = 0;
    for i in 0..plan.use_counts.len() {
        if plan.use_counts.key_at(i) == key {
            listed += 1;
        }
    }
    assert_eq!(listed, 1);
    // The call from inside the function is made while the function is
    // being visited, and is not counted.
    assert_eq!(count_of(&plan, key), Some(1));
    let text = text_of(&plan);
    assert_eq!(text.matches("func0() -> u32 {").count(), 1, "{}", text);
    assert!(text.contains("v0 = call func0(): u32"), "{}", text);
}

#[test]
fn mutually_recursive_functions_are_each_listed_once() {
    let mut cx = Context::new();
    let ty = int_type(&mut cx, 32, false);
    let calls = |callee: u32| {
        func(
            AttrSet(0),
            ty,
            vec![],
            region(0, vec![block(0, vec![call_inst(0, Func(callee), ty, vec![])])], vec![]),
        )
    };
    let m = module(&mut cx, vec![calls(1), calls(0)], &[0]);
    assert!(cx.check() && m.check(&cx));
    let plan = Plan::for_module(&cx, &m);
    // The function that is reached last is finished first.
    let first = position(&plan, Use::Node(Node::Func(Func(1))));
    let second = position(&plan, Use::Node(Node::Func(Func(0))));
    assert!(first < second);
    assert_eq!(count_of(&plan, Use::Node(Node::Func(Func(0)))), Some(1));
    assert_eq!(count_of(&plan, Use::Node(Node::Func(Func(1)))), Some(1));
    let printer = Printer::new(&plan);
    assert_eq!(
        printer.style(Use::Node(Node::Func(Func(1)))),
        UseStyle::Anon { parent_func: None, idx: 0 }
    );
    assert_eq!(
        printer.style(Use::Node(Node::Func(Func(0)))),
        UseStyle::Anon { parent_func: None, idx: 1 }
    );
}

#[test]
fn attribute_set_used_twice_is_defined_once() {
    let mut cx = Context::new();
    let attrs = attr_set(
        &mut cx,
        vec![annotation("Flat"), annotation("Invariant"), annotation("Restrict")],
    );
    let ty = int_type(&mut cx, 32, false);
    let param = FuncParam { attrs, ty };
    let mut body = region(0, vec![], vec![]);
    body.inputs = vec![
        ControlRegionInputDecl { attrs: AttrSet(0), ty },
        ControlRegionInputDecl { attrs: AttrSet(0), ty },
    ];
    let f = func(AttrSet(0), ty, vec![param, param], body);
    let m = module(&mut cx, vec![f], &[0]);
    assert!(cx.check() && m.check(&cx));
    let plan = Plan::for_module(&cx, &m);
    let key = Use::CxInterned(CxInterned::AttrSet(attrs));
    assert_eq!(count_of(&plan, key), Some(2));
    let printer = Printer::new(&plan);
    assert_eq!(printer.style(key), UseStyle::Anon { parent_func: None, idx: 0 });
    let text = text_of(&plan);
    assert_eq!(text.matches("attrs0 = ").count(), 1, "{}", text);
    assert_eq!(text.matches("#attrs0").count(), 2, "{}", text);
    assert_eq!(text.matches("spv.OpDecorate<spv.Decoration.Flat>").count(), 1, "{}", text);
    let html = plan.pretty_print().render_to_html().body;
    assert_eq!(html.matches("id=\"attrs0\"").count(), 1, "{}", html);
    assert_eq!(html.matches("href=\"#attrs0\"").count(), 3, "{}", html);
}

#[test]
fn attribute_set_used_once_is_printed_inline() {
    let mut cx = Context::new();
    let attrs = attr_set(&mut cx, vec![annotation("Flat"), annotation("Invariant")]);
    let ty = int_type(&mut cx, 32, false);
    let f = func(attrs, ty, vec![], region(0, vec![], vec![]));
    let m = module(&mut cx, vec![f], &[0]);
    assert!(cx.check() && m.check(&cx));
    let plan = Plan::for_module(&cx, &m);
    let printer = Printer::new(&plan);
    assert_eq!(printer.style(Use::CxInterned(CxInterned::AttrSet(attrs))), UseStyle::Inline);
    let text = text_of(&plan);
    assert!(
        text.contains(
            "#{\n  spv.OpDecorate<spv.Decoration.Flat>,\n  spv.OpDecorate<spv.Decoration.Invariant>,\n}\nfunc0() -> u32 {"
        ),
        "{}",
        text
    );
}

/// Two versions of a module with two functions: the first function is
/// the same in both, the second adds different constants.
fn two_versions(cx: &mut Context) -> (Module, Module) {
    let ty = int_type(cx, 32, false);
    let one = const_word(cx, ty, 1);
    let two = const_word(cx, ty, 2);
    let same = |ct: Const| {
        func(
            AttrSet(0),
            ty,
            vec![],
            region(0, vec![block(0, vec![add_inst(0, ty, vec![Value::Const(ct)])])], vec![]),
        )
    };
    let a = module(cx, vec![same(one), same(one)], &[0, 1]);
    let b = module(cx, vec![same(one), same(two)], &[0, 1]);
    (a, b)
}

#[test]
fn versions_with_the_same_definition_are_put_together() {
    let mut cx = Context::new();
    let (a, b) = two_versions(&mut cx);
    assert!(cx.check() && a.check(&cx) && b.check(&cx));
    let versions = vec![
        ("before".to_string(), Root::Module(&a)),
        ("after".to_string(), Root::Module(&b)),
    ];
    let plan = Plan::for_versions(&cx, &versions);
    let printed = plan.pretty_print();
    let rows = match &printed {
        Versions::Multiple { version_names, per_node_versions_with_repeat_count } => {
            assert_eq!(version_names, &vec!["before".to_string(), "after".to_string()]);
            per_node_versions_with_repeat_count
        }
        Versions::Single(_) => panic!("two versions print as rows"),
    };
    let texts: Vec<Vec<(String, usize)>> = rows
        .iter()
        .map(|row| row.iter().map(|(doc, n)| (doc.to_text(), *n)).collect())
        .collect();
    let func0 = texts.iter().find(|row| row[0].0.starts_with("func0(")).unwrap();
    assert_eq!(func0.len(), 1);
    assert_eq!(func0[0].1, 2);
    let func1 = texts.iter().find(|row| row[0].0.starts_with("func1(")).unwrap();
    assert_eq!(func1.len(), 2);
    assert_eq!((func1[0].1, func1[1].1), (1, 1));
    assert!(func1[0].0.contains("1u32") && func1[1].0.contains("2u32"));
    let text = printed.to_text();
    assert!(
        text.contains("func0() -> u32 {\n  _ = spv.OpIAdd(1u32): u32\n}\n\n//#IF `before`\nfunc1() -> u32 {\n  _ = spv.OpIAdd(1u32): u32\n}\n//#ELSEIF `after`\nfunc1() -> u32 {\n  _ = spv.OpIAdd(2u32): u32\n}\n//#ENDIF\n"),
        "{}",
        text
    );
    assert_eq!(text.matches("//#IF").count(), 1, "{}", text);
    assert_eq!(text.matches("//#ENDIF").count(), 1, "{}", text);
}

#[test]
fn versions_as_html_are_a_table() {
    let mut cx = Context::new();
    let (a, b) = two_versions(&mut cx);
    assert!(cx.check() && a.check(&cx) && b.check(&cx));
    let versions = vec![
        ("before".to_string(), Root::Module(&a)),
        ("after".to_string(), Root::Module(&b)),
    ];
    let html = Plan::for_versions(&cx, &versions).pretty_print().render_to_html();
    assert_eq!(html.head_deduplicatable_elements.len(), 2);
    assert!(html.head_deduplicatable_elements[0].contains("border-collapse: collapse;"));
    assert!(html
        .body
        .starts_with("<table class=\"spirt-table-90c2056d-5b38-4644-824a-b4be1c82f14d\">\n"));
    assert!(html.body.ends_with("</table>"));
    let headings = "<tr><th><code>before</code></th><th><code>after</code></th></tr>\n";
    // Rows: the interned definitions, dialect, debug info, func0 (all
    // uniform), func1 (two entries), root (uniform).
    assert_eq!(html.body.matches(headings).count(), 2, "{}", html.body);
    assert_eq!(html.body.matches("<td colspan=\"2\">").count(), 5, "{}", html.body);
    assert_eq!(html.body.matches("<td colspan=\"1\">").count(), 2, "{}", html.body);
}

#[test]
fn one_named_version_prints_as_rows() {
    let mut cx = Context::new();
    let (m, _, _, _) = sum_module(&mut cx);
    assert!(cx.check() && m.check(&cx));
    let versions = vec![("only".to_string(), Root::Module(&m))];
    let printed = Plan::for_versions(&cx, &versions).pretty_print();
    assert!(matches!(printed, Versions::Multiple { .. }));
    let text = printed.to_text();
    assert!(!text.contains("//#IF"), "{}", text);
    assert!(text.ends_with("export {\n  \"f0\": func0,\n}\n"), "{}", text);
    let unnamed = vec![(String::new(), Root::Module(&m))];
    let single = Plan::for_versions(&cx, &unnamed).pretty_print();
    assert!(matches!(single, Versions::Single(_)));
    assert_eq!(single.to_text(), text_of(&Plan::for_module(&cx, &m)));
}

#[test]
fn index_of_a_name_does_not_depend_on_later_entities() {
    let mut cx = Context::new();
    let ty = int_type(&mut cx, 32, false);
    let first = struct_type(&mut cx, &[ty]);
    let second = struct_type(&mut cx, &[ty, ty]);
    let uses = |t: Type| {
        func(AttrSet(0), t, vec![FuncParam { attrs: AttrSet(0), ty: t }], {
            let mut r = region(0, vec![], vec![]);
            r.inputs = vec![ControlRegionInputDecl { attrs: AttrSet(0), ty: t }];
            r
        })
    };
    let a = module(&mut cx, vec![uses(first)], &[0]);
    let with_later = module(&mut cx, vec![uses(first), uses(second)], &[0, 1]);
    let without_later = module(&mut cx, vec![uses(first)], &[0]);
    assert!(cx.check() && a.check(&cx) && with_later.check(&cx) && without_later.check(&cx));
    let key = Use::CxInterned(CxInterned::Type(first));
    let name = UseStyle::Anon { parent_func: None, idx: 0 };
    let plan = Plan::for_versions(
        &cx,
        &vec![("a".to_string(), Root::Module(&a)), ("b".to_string(), Root::Module(&with_later))],
    );
    let printer = Printer::new(&plan);
    assert_eq!(printer.style(key), name);
    assert_eq!(
        printer.style(Use::CxInterned(CxInterned::Type(second))),
        UseStyle::Anon { parent_func: None, idx: 1 }
    );
    let plan = Plan::for_versions(
        &cx,
        &vec![
            ("a".to_string(), Root::Module(&a)),
            ("b".to_string(), Root::Module(&without_later)),
        ],
    );
    assert_eq!(Printer::new(&plan).style(key), name);
    assert_eq!(Printer::new(&Plan::for_module(&cx, &a)).style(key), name);
}

#[test]
fn named_type_is_defined_before_its_uses() {
    let mut cx = Context::new();
    let ty = int_type(&mut cx, 32, false);
    let pair = struct_type(&mut cx, &[ty, ty]);
    let mut body = region(0, vec![], vec![]);
    body.inputs = vec![ControlRegionInputDecl { attrs: AttrSet(0), ty: pair }];
    let f = func(AttrSet(0), pair, vec![FuncParam { attrs: AttrSet(0), ty: pair }], body);
    let m = module(&mut cx, vec![f], &[0]);
    assert!(cx.check() && m.check(&cx));
    let text = text_of(&Plan::for_module(&cx, &m));
    let def_at = text.find("type0 = spv.OpTypeStruct(u32, u32)").expect(&text);
    let use_at = text.find("func0(_: type0) -> type0 {").expect(&text);
    assert!(def_at < use_at);
}

#[test]
fn mismatch_prints_expected_and_found() {
    let mut cx = Context::new();
    let a = int_type(&mut cx, 32, true);
    let b = float_type(&mut cx, 16);
    assert!(cx.check());
    let root = Root::Mismatch(ExpectedVsFound {
        expected: CxInterned::Type(a),
        found: CxInterned::Type(b),
    });
    let plan = Plan::for_root(&cx, root);
    assert_eq!(count_of(&plan, Use::CxInterned(CxInterned::Type(a))), Some(1));
    assert_eq!(text_of(&plan), "");
    let named = Plan::for_versions(&cx, &vec![("v".to_string(), root)]);
    assert_eq!(text_of(&named), "\n\nexpected: s32\nfound: f16\n");
    let pair = ExpectedVsFound { expected: CxInterned::Type(a), found: CxInterned::Type(b) };
    let printed = pair.print(&Printer::new(&plan));
    assert!(printed.attrs.is_empty());
    assert_eq!(
        printed.def_without_name.layout_with_max_line_width(120).to_text(),
        "expected: s32\nfound: f16"
    );
}

#[test]
fn undefined_function_is_printed_as_undefined() {
    let mut cx = Context::new();
    let m = module(&mut cx, vec![], &[5]);
    assert!(cx.check() && m.check(&cx));
    let plan = Plan::for_module(&cx, &m);
    assert_eq!(count_of(&plan, Use::Node(Node::Func(Func(5)))), None);
    let named = Plan::for_versions(&cx, &vec![("v".to_string(), Root::Module(&m))]);
    let text = text_of(&named);
    assert!(text.ends_with("export {\n  \"f5\": /* undefined func */_,\n}\n"), "{}", text);
}

#[test]
fn ill_formed_input_is_detected() {
    let mut cx = Context::new();
    let ty = int_type(&mut cx, 32, false);
    // A function whose return type is not a type of the context.
    let f = func(AttrSet(0), Type(77), vec![], region(0, vec![], vec![]));
    let m = module(&mut cx, vec![f], &[0]);
    assert!(cx.check());
    assert!(!m.check(&cx));
    // A selection on a boolean with three cases.
    let select = ControlNodeDef {
        id: ControlNode(0),
        kind: ControlNodeKind::Select {
            kind: SelectionKind::BoolCond,
            scrutinee: Value::ControlRegionInput { region: ControlRegion(0), input_idx: 0 },
            cases: vec![
                region(1, vec![], vec![]),
                region(2, vec![], vec![]),
                region(3, vec![], vec![]),
            ],
        },
        outputs: vec![],
    };
    let f = func(AttrSet(0), ty, vec![], region(0, vec![select], vec![]));
    let m = module(&mut cx, vec![f], &[0]);
    assert!(!m.check(&cx));
    // A type that refers to a later definition.
    let mut cx = Context::new();
    let _ = struct_type(&mut cx, &[Type(2)]);
    let _ = int_type(&mut cx, 8, false);
    assert!(!cx.check());
    // An integer type without its signedness.
    let mut cx = Context::new();
    intern(
        &mut cx,
        Interned::Type(TypeDef {
            attrs: AttrSet(0),
            ctor: TypeCtor::SpvInst(inst(spv::OP_TYPE_INT, "OpTypeInt", &[32])),
            ctor_args: vec![],
        }),
    );
    assert!(!cx.check());
    // A context without the empty attribute set.
    let cx = Context { strings: vec![], interned: vec![] };
    assert!(!cx.check());
}

fn ptr_type(cx: &mut Context, pointee: Type) -> Type {
    Type(intern(
        cx,
        Interned::Type(TypeDef {
            attrs: AttrSet(0),
            ctor: TypeCtor::SpvInst(spv::Inst {
                opcode: spv::Opcode { number: spv::OP_TYPE_POINTER, name: "OpTypePointer".into() },
                imms: vec![spv::Imm::Short(0, 7)],
                operands: vec![enumerand("StorageClass", "Function")],
            }),
            ctor_args: vec![TypeCtorArg::Type(pointee)],
        }),
    ))
}

#[test]
fn global_variables_are_printed_with_their_pointee_type() {
    let mut cx = Context::new();
    let ty = int_type(&mut cx, 32, false);
    let ptr = ptr_type(&mut cx, ty);
    let init = const_word(&mut cx, ty, 3);
    let name = intern_str(&mut cx, "ext");
    let link = intern_str(&mut cx, "gv");
    let class = || AddrSpace::SpvStorageClass(enumerand("StorageClass", "Private"));
    let m = Module {
        dialect: dialect(),
        debug_info: debug_info(),
        global_vars: vec![
            GlobalVarDecl {
                attrs: AttrSet(0),
                type_of_ptr_to: ptr,
                addr_space: class(),
                def: DeclDef::Present(GlobalVarDefBody { initializer: Some(init) }),
            },
            GlobalVarDecl {
                attrs: AttrSet(0),
                type_of_ptr_to: ptr,
                addr_space: class(),
                def: DeclDef::Imported(Import::LinkName(name)),
            },
            GlobalVarDecl {
                attrs: AttrSet(0),
                type_of_ptr_to: ty,
                addr_space: class(),
                def: DeclDef::Present(GlobalVarDefBody { initializer: None }),
            },
        ],
        funcs: vec![],
        exports: vec![
            (ExportKey::LinkName(link), Exportee::GlobalVar(GlobalVar(0))),
            (ExportKey::LinkName(link), Exportee::GlobalVar(GlobalVar(1))),
            (ExportKey::LinkName(link), Exportee::GlobalVar(GlobalVar(2))),
        ],
    };
    assert!(cx.check() && m.check(&cx));
    let text = text_of(&Plan::for_module(&cx, &m));
    assert!(text.contains("global_var0 in spv.StorageClass.Private: u32 init=3u32\n"), "{}", text);
    assert!(
        text.contains("global_var1 in spv.StorageClass.Private: u32 = import \"ext\"\n"),
        "{}",
        text
    );
    assert!(
        text.ends_with("global_var2 in spv.StorageClass.Private: pointee_type_of(u32)"),
        "{}",
        text
    );
}

#[test]
fn pointer_to_global_variable_counts_the_variable() {
    let mut cx = Context::new();
    let ty = int_type(&mut cx, 32, false);
    let ptr = ptr_type(&mut cx, ty);
    let addr = Const(intern(
        &mut cx,
        Interned::Const(ConstDef {
            attrs: AttrSet(0),
            ty: ptr,
            ctor: ConstCtor::PtrToGlobalVar(GlobalVar(0)),
            ctor_args: vec![],
        }),
    ));
    let body = region(0, vec![], vec![Value::Const(addr)]);
    let f = func(AttrSet(0), ptr, vec![], body);
    let mut m = module(&mut cx, vec![f], &[0]);
    m.global_vars.push(GlobalVarDecl {
        attrs: AttrSet(0),
        type_of_ptr_to: ptr,
        addr_space: AddrSpace::SpvStorageClass(enumerand("StorageClass", "Private")),
        def: DeclDef::Present(GlobalVarDefBody { initializer: None }),
    });
    assert!(cx.check() && m.check(&cx));
    let plan = Plan::for_module(&cx, &m);
    assert_eq!(count_of(&plan, Use::Node(Node::GlobalVar(GlobalVar(0)))), Some(1));
    assert!(
        position(&plan, Use::Node(Node::GlobalVar(GlobalVar(0))))
            < position(&plan, Use::CxInterned(CxInterned::Const(addr)))
    );
    let text = text_of(&plan);
    assert!(text.contains("\n  &global_var0\n}"), "{}", text);
}

fn exit(kind: ControlInstKind, inputs: Vec<Value>, targets: Vec<u32>) -> ControlInst {
    ControlInst {
        attrs: AttrSet(0),
        kind,
        inputs,
        targets: targets.into_iter().map(ControlRegion).collect(),
        target_inputs: vec![],
    }
}

#[test]
fn control_flow_graph_is_printed_as_blocks() {
    let mut cx = Context::new();
    let ty = int_type(&mut cx, 32, false);
    let boolean = bool_type(&mut cx);
    let mut entry = region(0, vec![], vec![]);
    entry.inputs = vec![ControlRegionInputDecl { attrs: AttrSet(0), ty: boolean }];
    let mut join = region(2, vec![], vec![]);
    join.inputs = vec![ControlRegionInputDecl { attrs: AttrSet(0), ty }];
    let five = const_word(&mut cx, ty, 5);
    let mut to_join = exit(ControlInstKind::Branch, vec![], vec![2]);
    to_join.target_inputs = vec![(ControlRegion(2), vec![Value::Const(five)])];
    let cfg = ControlFlowGraph {
        body_exit: exit(
            ControlInstKind::SelectBranch(SelectionKind::BoolCond),
            vec![Value::ControlRegionInput { region: ControlRegion(0), input_idx: 0 }],
            vec![1, 2],
        ),
        rest: vec![
            spirt_print::ir::CfgRegion { def: region(1, vec![], vec![]), exit: to_join },
            spirt_print::ir::CfgRegion {
                def: join,
                exit: exit(
                    ControlInstKind::Return,
                    vec![Value::ControlRegionInput { region: ControlRegion(2), input_idx: 0 }],
                    vec![],
                ),
            },
        ],
    };
    let f = FuncDecl {
        attrs: AttrSet(0),
        ret_type: ty,
        params: vec![FuncParam { attrs: AttrSet(0), ty: boolean }],
        def: DeclDef::Present(FuncDefBody { body: entry, unstructured_cfg: Some(cfg) }),
    };
    let m = module(&mut cx, vec![f], &[0]);
    assert!(cx.check() && m.check(&cx));
    let plan = Plan::for_module(&cx, &m);
    assert_eq!(count_of(&plan, Use::ControlRegionLabel(ControlRegion(2))), Some(2));
    assert_eq!(count_of(&plan, Use::ControlRegionLabel(ControlRegion(1))), Some(1));
    assert_eq!(count_of(&plan, Use::ControlRegionLabel(ControlRegion(0))), None);
    let printer = Printer::new(&plan);
    assert_eq!(
        printer.style(Use::ControlRegionLabel(ControlRegion(1))),
        UseStyle::Anon { parent_func: Some(Func(0)), idx: 0 }
    );
    assert_eq!(
        printer.style(Use::ControlRegionLabel(ControlRegion(2))),
        UseStyle::Anon { parent_func: Some(Func(0)), idx: 1 }
    );
    assert_eq!(
        printer.style(Use::ControlRegionInput { region: ControlRegion(0), input_idx: 0 }),
        UseStyle::Anon { parent_func: Some(Func(0)), idx: 0 }
    );
    assert_eq!(
        printer.style(Use::ControlRegionInput { region: ControlRegion(2), input_idx: 0 }),
        UseStyle::Anon { parent_func: Some(Func(0)), idx: 1 }
    );
    let text = text_of(&plan);
    let expected = "func0(v0: bool) -> u32 {\n  if v0 {\n    branch label0\n  } else {\n    branch label1\n  }\n\n  label0:\n  branch label1(5u32)\n\n  label1(v1: u32):\n  return v1\n}";
    assert!(text.contains(expected), "{}", text);
    let html = plan.pretty_print().render_to_html().body;
    assert!(html.contains("<a id=\"func0.label1\" href=\"#func0.label1\">label1</a>"), "{}", html);
    assert!(html.contains("<a href=\"#func0.v1\">v1</a>"), "{}", html);
}

#[test]
fn selections_and_loops_are_printed_structured() {
    let mut cx = Context::new();
    let ty = int_type(&mut cx, 32, false);
    let boolean = bool_type(&mut cx);
    let zero = const_word(&mut cx, ty, 0);
    let one = const_word(&mut cx, ty, 1);
    let t = Const(intern(
        &mut cx,
        Interned::Const(ConstDef {
            attrs: AttrSet(0),
            ty: boolean,
            ctor: ConstCtor::SpvInst(inst(spv::OP_CONSTANT_TRUE, "OpConstantTrue", &[])),
            ctor_args: vec![],
        }),
    ));
    let select = ControlNodeDef {
        id: ControlNode(0),
        kind: ControlNodeKind::Select {
            kind: SelectionKind::BoolCond,
            scrutinee: Value::Const(t),
            cases: vec![
                region(1, vec![], vec![Value::Const(zero)]),
                region(2, vec![], vec![Value::Const(one)]),
            ],
        },
        outputs: vec![spirt_print::ir::ControlNodeOutputDecl { attrs: AttrSet(0), ty }],
    };
    let mut loop_body = region(
        3,
        vec![block(
            2,
            vec![add_inst(
                0,
                ty,
                vec![
                    Value::ControlRegionInput { region: ControlRegion(3), input_idx: 0 },
                    Value::ControlNodeOutput { control_node: ControlNode(0), output_idx: 0 },
                ],
            )],
        )],
        vec![Value::DataInstOutput(DataInst(0))],
    );
    loop_body.inputs = vec![ControlRegionInputDecl { attrs: AttrSet(0), ty }];
    let looping = ControlNodeDef {
        id: ControlNode(1),
        kind: ControlNodeKind::Loop {
            initial_inputs: vec![Value::Const(zero)],
            body: Box::new(loop_body),
            repeat_condition: Value::Const(t),
        },
        outputs: vec![],
    };
    let f = func(AttrSet(0), ty, vec![], region(0, vec![select, looping], vec![]));
    let m = module(&mut cx, vec![f], &[0]);
    assert!(cx.check() && m.check(&cx));
    let text = text_of(&Plan::for_module(&cx, &m));
    let expected = "func0() -> u32 {\n  v0: u32 = if true {\n    0u32\n  } else {\n    1u32\n  }\n  loop(v1: u32 <- 0u32) {\n    v2 = spv.OpIAdd(v1, v0): u32\n    v2 -> v1\n  } while true\n}";
    assert!(text.contains(expected), "{}", text);
}

#[test]
fn selection_by_instruction_prints_its_cases() {
    let mut cx = Context::new();
    let ty = int_type(&mut cx, 32, false);
    let zero = const_word(&mut cx, ty, 0);
    let select = ControlNodeDef {
        id: ControlNode(0),
        kind: ControlNodeKind::Select {
            kind: SelectionKind::SpvInst(inst(251, "OpSwitch", &[])),
            scrutinee: Value::Const(zero),
            cases: vec![region(1, vec![], vec![]), region(2, vec![], vec![])],
        },
        outputs: vec![],
    };
    let f = func(AttrSet(0), ty, vec![], region(0, vec![select], vec![]));
    let m = module(&mut cx, vec![f], &[0]);
    assert!(cx.check() && m.check(&cx));
    let text = text_of(&Plan::for_module(&cx, &m));
    let expected = "func0() -> u32 {\n  spv.OpSwitch(0u32) {\n    case => {\n    }\n    case => {\n    }\n  }\n}";
    assert!(text.contains(expected), "{}", text);
}

#[test]
fn debug_lines_are_printed_as_comments() {
    let mut cx = Context::new();
    let plain = intern_str(&mut cx, "src/main.rs");
    let odd = intern_str(&mut cx, "my file:1");
    let at = attr_set(
        &mut cx,
        vec![Attr::SpvDebugLine { file_path: plain, line: 12, col: 4 }, annotation("Flat")],
    );
    let quoted = attr_set(&mut cx, vec![Attr::SpvDebugLine { file_path: odd, line: 1, col: 0 }]);
    let ty = int_type(&mut cx, 32, false);
    let f = func(at, ty, vec![FuncParam { attrs: quoted, ty }, FuncParam { attrs: quoted, ty }], {
        let mut r = region(0, vec![], vec![]);
        r.inputs = vec![
            ControlRegionInputDecl { attrs: AttrSet(0), ty },
            ControlRegionInputDecl { attrs: AttrSet(0), ty },
        ];
        r
    });
    let m = module(&mut cx, vec![f], &[0]);
    assert!(cx.check() && m.check(&cx));
    let plan = Plan::for_module(&cx, &m);
    let printer = Printer::new(&plan);
    // Sets with a comment are printed where they are used, however often.
    assert_eq!(printer.style(Use::CxInterned(CxInterned::AttrSet(quoted))), UseStyle::Inline);
    let text = text_of(&plan);
    assert!(
        text.contains("#{spv.OpDecorate<spv.Decoration.Flat>}\n// at src/main.rs:12:5\nfunc0("),
        "{}",
        text
    );
    assert_eq!(text.matches("// at \"my file:1\":1:1\n").count(), 2, "{}", text);
}

#[test]
fn ids_inside_operands_are_numbered() {
    let mut cx = Context::new();
    let ty = int_type(&mut cx, 32, false);
    let zero = const_word(&mut cx, ty, 0);
    let one = const_word(&mut cx, ty, 1);
    let two = const_word(&mut cx, ty, 2);
    let image = DataInstDef {
        id: DataInst(0),
        attrs: AttrSet(0),
        kind: DataInstKind::SpvInst(spv::Inst {
            opcode: spv::Opcode { number: 87, name: "OpImageSample".into() },
            imms: vec![spv::Imm::Short(0, 1)],
            operands: vec![
                spv::Operand { tokens: vec![token("id", "")] },
                spv::Operand {
                    tokens: vec![
                        token("prefix", "ImageOperands"),
                        token("name", "Bias"),
                        token("punct", "("),
                        token("id", ""),
                        token("punct", ")"),
                    ],
                },
            ],
        }),
        output_type: None,
        inputs: vec![Value::Const(zero), Value::Const(one), Value::Const(two)],
    };
    let f = func(AttrSet(0), ty, vec![], region(0, vec![block(0, vec![image])], vec![]));
    let m = module(&mut cx, vec![f], &[0]);
    assert!(cx.check() && m.check(&cx));
    let text = text_of(&Plan::for_module(&cx, &m));
    assert!(
        text.contains(
            "spv.OpImageSample<spv.ImageOperands.Bias(/* #0 */)>(0u32, /* #0 */ 1u32, 2u32)\n"
        ),
        "{}",
        text
    );
}

fn const_long(cx: &mut Context, ty: Type, lo: u32, hi: u32) -> Const {
    Const(intern(
        cx,
        Interned::Const(ConstDef {
            attrs: AttrSet(0),
            ty,
            ctor: ConstCtor::SpvInst(spv::Inst {
                opcode: spv::Opcode { number: spv::OP_CONSTANT, name: "OpConstant".into() },
                imms: vec![spv::Imm::LongStart(0, lo), spv::Imm::LongCont(0, hi)],
                operands: vec![spv::Operand { tokens: vec![token("num", "big")] }],
            }),
            ctor_args: vec![],
        }),
    ))
}

fn text_of_const(cx: &Context, ct: Const, floats: Vec<FloatLiteral>) -> String {
    let root = Root::Mismatch(ExpectedVsFound {
        expected: CxInterned::Const(ct),
        found: CxInterned::Const(ct),
    });
    let versions = vec![("v".to_string(), root)];
    let text = Plan::for_versions(cx, &versions).pretty_print_with_float_literals(floats).to_text();
    let rest = &text[text.find("expected: ").unwrap() + "expected: ".len()..];
    rest[..rest.find("\nfound: ").unwrap()].to_string()
}

#[test]
fn integer_constants_are_printed_by_value() {
    let mut cx = Context::new();
    let s32 = int_type(&mut cx, 32, true);
    let u8_ = int_type(&mut cx, 8, false);
    let s8 = int_type(&mut cx, 8, true);
    let s64 = int_type(&mut cx, 64, true);
    let u64_ = int_type(&mut cx, 64, false);
    let s1 = int_type(&mut cx, 1, true);
    let wide = int_type(&mut cx, 128, false);
    let none = int_type(&mut cx, 0, true);
    let cases = vec![
        (const_word(&mut cx, s32, 0xffff_ffff), "-1s32"),
        (const_word(&mut cx, s32, 0x7fff_ffff), "2147483647s32"),
        (const_word(&mut cx, s32, 0x8000_0000), "-2147483648s32"),
        (const_word(&mut cx, u8_, 255), "255u8"),
        (const_word(&mut cx, s8, 255), "-1s8"),
        (const_word(&mut cx, s8, 0x17f), "127s8"),
        (const_word(&mut cx, s1, 1), "-1s1"),
        (const_word(&mut cx, s1, 0), "0s1"),
        (const_long(&mut cx, s64, 0xffff_fffe, 0xffff_ffff), "-2s64"),
        (const_long(&mut cx, s64, 0, 0x8000_0000), "-9223372036854775808s64"),
        (const_long(&mut cx, u64_, 0xffff_ffff, 0xffff_ffff), "18446744073709551615u64"),
        (const_long(&mut cx, u64_, 1, 1), "4294967297u64"),
        (const_word(&mut cx, wide, 7), "spv.OpConstant<7>: u128"),
        (const_word(&mut cx, none, 7), "spv.OpConstant<7>: s0"),
    ];
    assert!(cx.check());
    for (ct, expected) in cases {
        assert_eq!(text_of_const(&cx, ct, vec![]), expected);
    }
}

#[test]
fn float_constants_are_printed_by_the_literals_given() {
    let mut cx = Context::new();
    let f32_ty = float_type(&mut cx, 32);
    let f64_ty = float_type(&mut cx, 64);
    let f16_ty = float_type(&mut cx, 16);
    let one_half = const_word(&mut cx, f32_ty, 0x3fc0_0000);
    let two = const_long(&mut cx, f64_ty, 0, 0x4000_0000);
    let half = const_word(&mut cx, f16_ty, 0x3c00);
    assert!(cx.check());
    assert_eq!(
        cx.float_constants(),
        vec![(32, 0x3fc0_0000), (64, 0x4000_0000_0000_0000)]
    );
    let floats = || {
        vec![
            FloatLiteral { width: 64, bits: 0x3fc0_0000, text: "wrong".to_string() },
            FloatLiteral { width: 32, bits: 0x3fc0_0000, text: "1.5".to_string() },
            FloatLiteral { width: 64, bits: 0x4000_0000_0000_0000, text: "2.0".to_string() },
        ]
    };
    assert_eq!(text_of_const(&cx, one_half, floats()), "1.5f32");
    assert_eq!(text_of_const(&cx, two, floats()), "2.0f64");
    assert_eq!(text_of_const(&cx, half, floats()), "spv.OpConstant<15360>: f16");
    // Without a literal, the instruction is printed.
    assert_eq!(text_of_const(&cx, one_half, vec![]), "spv.OpConstant<1069547520>: f32");
}

#[test]
fn vector_types_and_string_literals_have_short_forms() {
    let mut cx = Context::new();
    let f32_ty = float_type(&mut cx, 32);
    let vec4 = Type(intern(
        &mut cx,
        Interned::Type(TypeDef {
            attrs: AttrSet(0),
            ctor: TypeCtor::SpvInst(inst(spv::OP_TYPE_VECTOR, "OpTypeVector", &[4])),
            ctor_args: vec![TypeCtorArg::Type(f32_ty)],
        }),
    ));
    let string_ty = Type(intern(
        &mut cx,
        Interned::Type(TypeDef {
            attrs: AttrSet(0),
            ctor: TypeCtor::SpvStringLiteralForExtInst,
            ctor_args: vec![],
        }),
    ));
    let hello = intern_str(&mut cx, "he\"llo");
    let string = Const(intern(
        &mut cx,
        Interned::Const(ConstDef {
            attrs: AttrSet(0),
            ty: string_ty,
            ctor: ConstCtor::SpvStringLiteralForExtInst(hello),
            ctor_args: vec![],
        }),
    ));
    assert!(cx.check());
    let root = Root::Mismatch(ExpectedVsFound {
        expected: CxInterned::Type(vec4),
        found: CxInterned::Type(string_ty),
    });
    assert_eq!(
        text_of(&Plan::for_versions(&cx, &vec![("v".to_string(), root)])),
        "\n\nexpected: f32×4\nfound: type_of(spv.OpString)\n"
    );
    assert_eq!(text_of_const(&cx, string, vec![]), "spv.OpString<\"he\\\"llo\">");
}

#[test]
fn styles_are_as_specified() {
    let cx = Context::new();
    let plan = Plan::for_versions(&cx, &vec![]);
    let printer = Printer::new(&plan);
    assert!(std::ptr::eq(printer.cx(), &cx));
    let magenta = spirt_print::pretty::Rgb { r: 0xcc, g: 0x44, b: 0xcc };
    assert_eq!(printer.error_style().color, Some(magenta));
    assert_eq!(printer.error_style().thickness, None);
    assert_eq!(printer.imperative_keyword_style().color, Some(magenta));
    assert_eq!(printer.imperative_keyword_style().thickness, Some(2));
    let comment = printer.comment_style();
    assert_eq!((comment.color_opacity, comment.size), (Some(300), Some(-4)));
    assert_eq!(comment.color, Some(spirt_print::pretty::Rgb { r: 0x44, g: 0x44, b: 0x44 }));
    assert_eq!(printer.spv_op_style().thickness, Some(3));
    assert_eq!(printer.spv_op_style().color, printer.spv_base_style().color);
    let attr = printer.attr_style();
    assert_eq!((attr.color_opacity, attr.thickness, attr.size), (Some(600), Some(-2), None));
    assert_eq!(
        printer.numeric_literal_style().color,
        Some(spirt_print::pretty::Rgb { r: 0xcc, g: 0x99, b: 0x44 })
    );
    assert_eq!(
        printer.string_literal_style().color,
        Some(spirt_print::pretty::Rgb { r: 0xcc, g: 0x55, b: 0x55 })
    );
    assert_eq!(
        printer.declarative_keyword_style().color,
        Some(spirt_print::pretty::Rgb { r: 0x44, g: 0x66, b: 0xcc })
    );
    assert_eq!(
        printer.spv_enumerand_name_style().color,
        Some(spirt_print::pretty::Rgb { r: 0x44, g: 0x99, b: 0xcc })
    );
    // Demoting once and twice.
    let once = printer.demote_style_for_namespace_prefix(printer.spv_base_style());
    assert_eq!((once.color_opacity, once.size), (Some(600), Some(-4)));
    assert_eq!(once.color, printer.spv_base_style().color);
    let twice = printer.demote_style_for_namespace_prefix(once);
    assert_eq!((twice.color_opacity, twice.size), (Some(360), Some(-5)));
    let faint = printer.demote_style_for_namespace_prefix(printer.comment_style());
    assert_eq!((faint.color_opacity, faint.size), (Some(180), Some(-5)));
}

#[test]
fn root_is_last_and_referred_nodes_are_listed() {
    let mut cx = Context::new();
    let ty = int_type(&mut cx, 32, false);
    let caller = func(
        AttrSet(0),
        ty,
        vec![],
        region(0, vec![block(0, vec![call_inst(0, Func(1), ty, vec![])])], vec![]),
    );
    let callee = func(AttrSet(0), ty, vec![], region(0, vec![], vec![]));
    let unused = func(AttrSet(0), ty, vec![], region(0, vec![], vec![]));
    let m = module(&mut cx, vec![caller, callee, unused], &[0]);
    assert!(cx.check() && m.check(&cx));
    let plan = Plan::for_module(&cx, &m);
    let last = plan.use_counts.len() - 1;
    assert_eq!(plan.use_counts.key_at(last), Use::Node(Node::Root));
    assert_eq!(plan.use_counts.value_at(last), 1);
    // The function that is called is listed, before the one that calls it.
    assert!(
        position(&plan, Use::Node(Node::Func(Func(1))))
            < position(&plan, Use::Node(Node::Func(Func(0))))
    );
    // A function that nothing refers to is not.
    assert_eq!(count_of(&plan, Use::Node(Node::Func(Func(2)))), None);
    let text = text_of(&plan);
    assert!(!text.contains("func2"), "{}", text);
}

#[test]
fn printing_goes_through_one_interface() {
    let mut cx = Context::new();
    let (m, five, _, ty) = sum_module(&mut cx);
    assert!(cx.check() && m.check(&cx));
    let plan = Plan::for_module(&cx, &m);
    let printer = Printer::new(&plan);
    let text = |f: &spirt_print::pretty::Fragment| f.layout_with_max_line_width(120).to_text();
    assert_eq!(text(&ty.print(&printer)), "u32");
    assert_eq!(text(&five.print(&printer)), "5u32");
    assert_eq!(text(&Func(0).print(&printer)), "func0");
    assert_eq!(text(&Func(9).print(&printer)), "/* undefined func */_");
    assert_eq!(text(&GlobalVar(0).print(&printer)), "/* undefined global_var */_");
    assert_eq!(text(&Value::Const(five).print(&printer)), "5u32");
    assert_eq!(text(&Value::DataInstOutput(DataInst(0)).print(&printer)), "v0");
    assert_eq!(text(&Value::DataInstOutput(DataInst(7)).print(&printer)), "_");
    assert_eq!(text(&Use::Node(Node::ModuleDialect).print(&printer)), "module.dialect");
    assert_eq!(text(&Exportee::Func(Func(0)).print(&printer)), "func0");
    assert_eq!(text(&AttrSet(0).print(&printer)), "");
    let decl = m.funcs[0].print(&printer);
    assert_eq!(text(&decl.attrs), "");
    assert!(text(&decl.def_without_name).starts_with("() -> u32 {"));
    let whole = Print::print(&plan, &printer);
    assert!(matches!(whole, Versions::Single(_)));
    let as_def = Use::Node(Node::Func(Func(0))).print_as_def(&printer);
    match &as_def.nodes[0] {
        spirt_print::pretty::Node::StyledText(style, name) => {
            assert_eq!(name, "func0");
            assert_eq!(style.anchor.as_deref(), Some("func0"));
            assert!(style.anchor_is_def);
        }
        _ => panic!("a styled text expected"),
    }
    let param = FuncParam { attrs: AttrSet(0), ty }.print(&printer);
    assert_eq!(text(&param.def_without_name), ": u32");
}

#[test]
fn instructions_are_printed_with_their_operands() {
    let cx = Context::new();
    let plan = Plan::for_versions(&cx, &vec![]);
    let printer = Printer::new(&plan);
    let text = |f: &spirt_print::pretty::Fragment| f.layout_with_max_line_width(120).to_text();
    let word = |s: &str| Some(spirt_print::pretty::Fragment::text(s));
    let load = spv::Inst {
        opcode: spv::Opcode { number: 61, name: "OpLoad".into() },
        imms: vec![spv::Imm::Short(0, 2)],
        operands: vec![
            spv::Operand { tokens: vec![token("id", "")] },
            spv::Operand {
                tokens: vec![
                    token("prefix", "MemoryAccess"),
                    token("name", "Aligned"),
                    token("punct", "("),
                    token("num", "4"),
                    token("punct", ")"),
                ],
            },
            spv::Operand { tokens: vec![token("str", "\"s\"")] },
            spv::Operand { tokens: vec![token("error", "/* bad */")] },
        ],
    };
    let style = printer.spv_op_style();
    let out = printer.pretty_spv_inst(
        style,
        &load,
        &vec![word("p"), None, word("q")],
        spirt_print::pretty::Fragment::text("!"),
    );
    assert_eq!(text(&out), "spv.OpLoad<spv.MemoryAccess.Aligned(4), \"s\", /* bad */>(p, q)!");
    // No operands at all: neither brackets nor parentheses.
    let bare = inst(0, "OpNop", &[]);
    let out = printer.pretty_spv_inst(
        printer.spv_op_style(),
        &bare,
        &vec![None],
        spirt_print::pretty::Fragment::new(),
    );
    assert_eq!(text(&out), "spv.OpNop");
    // An ID inside an operand for which no ID is given.
    let lone = spv::Inst {
        opcode: spv::Opcode { number: 1, name: "OpX".into() },
        imms: vec![],
        operands: vec![spv::Operand { tokens: vec![token("punct", "["), token("id", "")] }],
    };
    let out = printer.pretty_spv_inst(
        printer.spv_op_style(),
        &lone,
        &vec![],
        spirt_print::pretty::Fragment::new(),
    );
    assert_eq!(text(&out), "spv.OpX<[/* #0 */>(/* #0 */ /* implicit ID */)");
    assert_eq!(text(&printer.pretty_spv_opcode(printer.spv_op_style(), "OpString")), "spv.OpString");
    let class = enumerand("StorageClass", "Input");
    assert_eq!(text(&printer.pretty_spv_imm(&class)), "spv.StorageClass.Input");
    assert_eq!(text(&printer.pretty_spv_operand_from_imms(&class)), "spv.StorageClass.Input");
    let prefix = printer.pretty_spv_imm(&class);
    match &prefix.nodes[0] {
        spirt_print::pretty::Node::StyledText(style, s) => {
            assert_eq!(s, "spv.");
            assert_eq!((style.color_opacity, style.size), (Some(360), Some(-5)));
        }
        _ => panic!("a styled text expected"),
    }
    let suffix =
        printer.pretty_type_ascription_suffix(spirt_print::pretty::Fragment::text("bool"));
    assert_eq!(text(&suffix), ": bool");
    assert_eq!(text(&printer.print_quoted("a\"b\n")), "\"a\\\"b\\n\"");
}

#[test]
fn a_variable_initialized_with_its_own_address_is_planned() {
    let mut cx = Context::new();
    let ty = int_type(&mut cx, 32, false);
    let ptr = ptr_type(&mut cx, ty);
    let addr = Const(intern(
        &mut cx,
        Interned::Const(ConstDef {
            attrs: AttrSet(0),
            ty: ptr,
            ctor: ConstCtor::PtrToGlobalVar(GlobalVar(0)),
            ctor_args: vec![],
        }),
    ));
    let f = func(AttrSet(0), ptr, vec![], region(0, vec![], vec![Value::Const(addr)]));
    let mut m = module(&mut cx, vec![f], &[0]);
    m.global_vars.push(GlobalVarDecl {
        attrs: AttrSet(0),
        type_of_ptr_to: ptr,
        addr_space: AddrSpace::SpvStorageClass(enumerand("StorageClass", "Private")),
        def: DeclDef::Present(GlobalVarDefBody { initializer: Some(addr) }),
    });
    assert!(cx.check() && m.check(&cx));
    let plan = Plan::for_module(&cx, &m);
    let constant = Use::CxInterned(CxInterned::Const(addr));
    let variable = Use::Node(Node::GlobalVar(GlobalVar(0)));
    // The constant is met again while the variable it points to is
    // visited; when its own visit ends, its count is 1.
    assert_eq!(count_of(&plan, constant), Some(1));
    assert_eq!(count_of(&plan, variable), Some(1));
    assert!(position(&plan, constant) < position(&plan, variable));
    let text = text_of(&plan);
    assert!(
        text.contains("global_var0 in spv.StorageClass.Private: u32 init=&global_var0"),
        "{}",
        text
    );
}

#[test]
fn mismatch_with_a_global_variable_has_no_module_to_find_it_in() {
    let mut cx = Context::new();
    let ty = int_type(&mut cx, 32, false);
    let ptr = ptr_type(&mut cx, ty);
    let addr = Const(intern(
        &mut cx,
        Interned::Const(ConstDef {
            attrs: AttrSet(0),
            ty: ptr,
            ctor: ConstCtor::PtrToGlobalVar(GlobalVar(0)),
            ctor_args: vec![],
        }),
    ));
    assert!(cx.check());
    let root = Root::Mismatch(ExpectedVsFound {
        expected: CxInterned::Const(addr),
        found: CxInterned::Type(ty),
    });
    let plan = Plan::for_root(&cx, root);
    assert_eq!(count_of(&plan, Use::Node(Node::GlobalVar(GlobalVar(0)))), None);
    assert_eq!(
        text_of_const(&cx, addr, vec![]),
        "&/* undefined global_var */_"
    );
}
