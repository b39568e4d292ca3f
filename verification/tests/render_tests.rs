use treeview::render::RenderConfig;
use treeview::render::render_tree;
use treeview::value::DisplayNode;
use treeview::value::StructuredValue;
use treeview::value::build;

fn leaf(s: &str) -> DisplayNode {
    DisplayNode::leaf(String::from(s))
}

fn node(s: &str, children: Vec<DisplayNode>) -> DisplayNode {
    DisplayNode::node(String::from(s), children)
}

#[test]
fn single_node_renders_its_label() {
    let lines = render_tree(&leaf("only"), &RenderConfig::plain(4));
    assert_eq!(lines, vec![String::from("only")]);
}

#[test]
fn children_get_connectors_last_differs() {
    let t = node("root", vec![leaf("a"), leaf("b"), leaf("c")]);
    let lines = render_tree(&t, &RenderConfig::plain(4));
    assert_eq!(
        lines,
        vec![
            String::from("root"),
            String::from("├── a"),
            String::from("├── b"),
            String::from("└── c"),
        ]
    );
}

#[test]
fn nested_children_extend_the_prefix() {
    let t = node(
        "root",
        vec![node("a", vec![leaf("x")]), node("b", vec![leaf("y")])],
    );
    let lines = render_tree(&t, &RenderConfig::plain(4));
    assert_eq!(
        lines,
        vec![
            String::from("root"),
            String::from("├── a"),
            String::from("│   └── x"),
            String::from("└── b"),
            String::from("    └── y"),
        ]
    );
}

#[test]
fn indent_width_changes_connector_width() {
    let t = node("r", vec![node("a", vec![leaf("x")]), leaf("b")]);
    let lines = render_tree(&t, &RenderConfig::plain(2));
    assert_eq!(
        lines,
        vec![
            String::from("r"),
            String::from("├ a"),
            String::from("│ └ x"),
            String::from("└ b"),
        ]
    );
}

#[test]
fn unlabeled_root_contributes_no_text() {
    let t = node("", vec![leaf("a")]);
    let lines = render_tree(&t, &RenderConfig::plain(4));
    assert_eq!(lines, vec![String::from(""), String::from("└── a")]);
}

#[test]
fn layout_matches_reference_tree_printer() {
    // The unstyled layout must agree with ptree's writer on the same
    // tree and indent width.
    let ours_tree = node(
        "deps",
        vec![
            node("alpha", vec![leaf("one"), node("two", vec![leaf("deep")])]),
            leaf("beta"),
        ],
    );
    let lines = render_tree(&ours_tree, &RenderConfig::plain(4));
    let mut ours = String::new();
    for l in &lines {
        ours.push_str(l);
        ours.push('\n');
    }

    let theirs_tree = {
        let mut b = ptree::TreeBuilder::new(String::from("deps"));
        b.begin_child(String::from("alpha"));
        b.add_empty_child(String::from("one"));
        b.begin_child(String::from("two"));
        b.add_empty_child(String::from("deep"));
        b.end_child();
        b.end_child();
        b.add_empty_child(String::from("beta"));
        b.build()
    };
    let mut cfg = ptree::PrintConfig::default();
    cfg.indent = 4;
    let mut buf: Vec<u8> = Vec::new();
    ptree::write_tree_with(&theirs_tree, &mut buf, &cfg).unwrap();
    let theirs = String::from_utf8(buf).unwrap();

    assert_eq!(ours, theirs);
}

#[test]
fn classic_config_styles_branches_and_labels() {
    let t = node("", vec![leaf("a")]);
    let lines = render_tree(&t, &RenderConfig::classic());
    // Branch connectors are dimmed green, labels bold; the unlabeled root
    // paints two empty segments.
    let root_expected = format!(
        "{}{}",
        nu_ansi_term::Style::new()
            .dimmed()
            .fg(nu_ansi_term::Color::Green)
            .paint(""),
        nu_ansi_term::Style::new().bold().paint("")
    );
    let child_expected = format!(
        "{}{}",
        nu_ansi_term::Style::new()
            .dimmed()
            .fg(nu_ansi_term::Color::Green)
            .paint("└── "),
        nu_ansi_term::Style::new().bold().paint("a")
    );
    assert_eq!(lines, vec![root_expected, child_expected]);
}

#[test]
fn rendering_twice_is_byte_identical() {
    let v = StructuredValue::Record(vec![
        (String::from("a"), StructuredValue::Int(1)),
        (
            String::from("b"),
            StructuredValue::List(vec![StructuredValue::Bool(true)]),
        ),
    ]);
    let tree = build(&v);
    let cfg = RenderConfig::classic();
    let first = render_tree(&tree, &cfg);
    let second = render_tree(&tree, &cfg);
    assert_eq!(first, second);
}
