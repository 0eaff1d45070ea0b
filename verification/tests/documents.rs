use spirt_print::layout::{FragmentPostLayout, LaidOut};
use spirt_print::pretty::{join_comma_sep, join_space, Fragment, Node, Rgb, Styles};
use spirt_print::print::AttrsAndDef;
use spirt_print::text::{
    check_plain_path, concat2, concat3, format_hex_byte, format_i128, format_u128, format_u32,
    format_u64, format_usize, html_escape,
};

fn words(items: &[&str]) -> Vec<Fragment> {
    items.iter().map(|s| Fragment::text(s)).collect()
}

fn shape(f: &Fragment) -> String {
    f.nodes
        .iter()
        .map(|n| match n {
            Node::Text(s) => format!("'{}'", s),
            Node::StyledText(_, s) => format!("*{}*", s),
            Node::BlockStart => "{".to_string(),
            Node::BlockEnd => "}".to_string(),
            Node::GroupStart => "[".to_string(),
            Node::GroupEnd => "]".to_string(),
            Node::BreakingOnlySpace => "_".to_string(),
            Node::ForceLineSeparation => "/".to_string(),
            Node::IfBlockLayout(s) => format!("?{}", s),
        })
        .collect::<Vec<_>>()
        .join(" ")
}

fn text_at(f: &Fragment, width: usize) -> String {
    f.layout_with_max_line_width(width).to_text()
}

#[test]
fn numbers_are_written_in_decimal() {
    assert_eq!(format_u64(0), "0");
    assert_eq!(format_u64(9), "9");
    assert_eq!(format_u64(10), "10");
    assert_eq!(format_u64(u64::MAX), "18446744073709551615");
    assert_eq!(format_u32(4294967295), "4294967295");
    assert_eq!(format_usize(120), "120");
    assert_eq!(format_u128(u128::MAX), "340282366920938463463374607431768211455");
    assert_eq!(format_i128(0), "0");
    assert_eq!(format_i128(-1), "-1");
    assert_eq!(format_i128(-9223372036854775808), "-9223372036854775808");
    assert_eq!(format_i128(i128::MIN), "-170141183460469231731687303715884105728");
    assert_eq!(format_i128(i128::MAX), "170141183460469231731687303715884105727");
    assert_eq!(format_hex_byte(0), "00");
    assert_eq!(format_hex_byte(0x4c), "4c");
    assert_eq!(format_hex_byte(255), "ff");
}

#[test]
fn strings_are_concatenated_and_escaped() {
    assert_eq!(concat2("ab", "cd"), "abcd");
    assert_eq!(concat3("a", "", "c"), "ac");
    assert_eq!(html_escape("a<b> & \"c\" 'd' é"), "a&lt;b&gt; &amp; &quot;c&quot; 'd' é");
    assert_eq!(html_escape(""), "");
    assert_eq!(html_escape("&&"), "&amp;&amp;");
}

#[test]
fn plain_paths_have_only_visible_ascii_and_no_colon() {
    assert!(check_plain_path("src/main.rs"));
    assert!(check_plain_path(""));
    assert!(check_plain_path("!~"));
    assert!(!check_plain_path("a b"));
    assert!(!check_plain_path("c:/x"));
    assert!(!check_plain_path("é"));
    assert!(!check_plain_path("a\tb"));
    assert!(!check_plain_path("a\u{7f}"));
}

#[test]
fn comma_separated_lists_end_with_a_comma_only_as_blocks() {
    let list = join_comma_sep(Fragment::text("("), &words(&["a", "b", "c"]), Fragment::text(")"));
    assert_eq!(shape(&list), "'(' [ 'a' ',' _ 'b' ',' _ 'c' ?, ] ')'");
    assert_eq!(text_at(&list, 120), "(a, b, c)");
    assert_eq!(text_at(&list, 7), "(a, b, c)");
    assert_eq!(text_at(&list, 6), "(\n  a,\n  b,\n  c,\n)");
    let empty = join_comma_sep(Fragment::text("{"), &vec![], Fragment::text("}"));
    assert_eq!(shape(&empty), "'{' [ ] '}'");
    assert_eq!(text_at(&empty, 120), "{}");
    let one = join_comma_sep(Fragment::text("<"), &words(&["x"]), Fragment::text(">"));
    assert_eq!(shape(&one), "'<' [ 'x' ?, ] '>'");
}

#[test]
fn space_separated_lists_break_at_their_spaces() {
    let list = join_space(Fragment::text(":"), &words(&["long", "words"]));
    assert_eq!(shape(&list), "':' [ _ 'long' _ 'words' ]");
    assert_eq!(text_at(&list, 120), ": long words");
    assert_eq!(text_at(&list, 10), ":\n  long\n  words");
}

#[test]
fn joined_fragments_have_the_separator_between_them() {
    let joined = Fragment::join(words(&["a", "b", "c"]), Fragment::text("+"));
    assert_eq!(shape(&joined), "'a' '+' 'b' '+' 'c'");
    assert_eq!(shape(&Fragment::join(words(&["a"]), Fragment::text("+"))), "'a'");
    assert_eq!(shape(&Fragment::join(vec![], Fragment::text("+"))), "");
    assert_eq!(shape(&Fragment::concat(&words(&["a", "b"]))), "'a' 'b'");
}

#[test]
fn blocks_are_indented() {
    let mut doc = Fragment::text("f {");
    doc.append(Fragment::indented_block(words(&["a", "b"])));
    doc.push_text("}");
    assert_eq!(shape(&doc), "'f {' { 'a' / 'b' } '}'");
    assert_eq!(text_at(&doc, 120), "f {\n  a\n  b\n}");
    let mut nested = Fragment::text("g {");
    nested.append(Fragment::indented_block(vec![doc]));
    nested.push_text("}");
    assert_eq!(text_at(&nested, 120), "g {\n  f {\n    a\n    b\n  }\n}");
}

#[test]
fn line_breaks_that_follow_each_other_count_once() {
    let mut doc = Fragment::new();
    doc.push_line_sep();
    doc.push_text("a");
    doc.push_line_sep();
    doc.push_line_sep();
    doc.push_text("b");
    doc.push_line_sep();
    assert_eq!(text_at(&doc, 120), "a\nb");
    let gap = Fragment::join(words(&["a", "b"]), Fragment::text("\n\n"));
    assert_eq!(text_at(&gap, 120), "a\n\nb");
}

#[test]
fn a_group_with_a_block_inside_does_not_go_on_one_line() {
    let mut inner = Fragment::text("x");
    inner.append(Fragment::indented_block(words(&["y"])));
    let list = join_comma_sep(Fragment::text("("), &vec![inner], Fragment::text(")"));
    assert_eq!(text_at(&list, 120), "(\n  x\n    y\n  ,\n)");
}

#[test]
fn fragments_are_compared_by_value() {
    let a = Fragment::styled(Styles::color(Rgb { r: 1, g: 2, b: 3 }), "x");
    let b = Fragment::styled(Styles::color(Rgb { r: 1, g: 2, b: 3 }), "x");
    let c = Fragment::styled(Styles::color(Rgb { r: 1, g: 2, b: 4 }), "x");
    assert!(a.same(&b));
    assert!(!a.same(&c));
    assert!(!a.same(&Fragment::text("x")));
    assert!(a.clone().same(&a));
    assert!(Fragment::new().is_empty());
    assert!(!a.is_empty());
}

#[test]
fn anchor_is_defined_before_the_attributes() {
    let name = || {
        let mut style = Styles::default();
        style.anchor = Some("type0".to_string());
        style.anchor_is_def = true;
        Fragment::styled(style, "type0")
    };
    let with_attrs = AttrsAndDef {
        attrs: Fragment::text("#{a}"),
        def_without_name: Fragment::text(" = x"),
    }
    .insert_name_before_def(name());
    assert_eq!(shape(&with_attrs), "** '#{a}' *type0* ' = x'");
    match (&with_attrs.nodes[0], &with_attrs.nodes[2]) {
        (Node::StyledText(hoisted, _), Node::StyledText(kept, _)) => {
            assert_eq!(hoisted.anchor.as_deref(), Some("type0"));
            assert!(hoisted.anchor_is_def);
            assert_eq!(kept.anchor.as_deref(), Some("type0"));
            assert!(!kept.anchor_is_def);
        }
        _ => panic!("styled texts expected"),
    }
    let without_attrs =
        AttrsAndDef { attrs: Fragment::new(), def_without_name: Fragment::text(" = x") }
            .insert_name_before_def(name());
    assert_eq!(shape(&without_attrs), "*type0* ' = x'");
    match &without_attrs.nodes[0] {
        Node::StyledText(kept, _) => assert!(kept.anchor_is_def),
        _ => panic!("a styled text expected"),
    }
    let plain_name = AttrsAndDef::default().insert_name_before_def(Fragment::text("n"));
    assert_eq!(shape(&plain_name), "'n'");
}

#[test]
fn styled_text_in_html_has_its_css_and_anchor() {
    let mut style = Styles::color(Rgb { r: 0xcc, g: 0x44, b: 0xcc });
    style.color_opacity = Some(360);
    style.thickness = Some(-2);
    style.size = Some(-5);
    style.subscript = true;
    style.anchor = Some("a<b".to_string());
    style.anchor_is_def = true;
    let laid = FragmentPostLayout {
        nodes: vec![
            LaidOut::Text("1 < 2".to_string()),
            LaidOut::LineBreak { indent: 2 },
            LaidOut::StyledText(style, "x&y".to_string()),
            LaidOut::StyledText(Styles::default(), "plain".to_string()),
        ],
    };
    assert_eq!(laid.to_text(), "1 < 2\n    x&yplain");
    let html = laid.render_to_html();
    assert_eq!(
        html.body,
        "<pre class=\"spirt\">1 &lt; 2\n    <a id=\"a&lt;b\" href=\"#a&lt;b\"><span style=\"color:#cc44cc;opacity:calc(360/1000);font-weight:200;font-size:11px;vertical-align:sub;\">x&amp;y</span></a>plain</pre>"
    );
    assert_eq!(html.head_deduplicatable_elements.len(), 1);
    assert!(html.head_deduplicatable_elements[0].starts_with("<style>pre.spirt {"));
}
