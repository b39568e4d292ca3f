use treeview::value::DisplayNode;
use treeview::value::StructuredValue;
use treeview::value::build;
use treeview::value::convert;

fn labels(nodes: &Vec<DisplayNode>) -> Vec<String> {
    let mut out = Vec::new();
    for n in nodes {
        out.push(n.label.clone());
    }
    out
}

#[test]
fn scalar_becomes_single_leaf() {
    let root = build(&StructuredValue::Int(42));
    assert_eq!(root.label, "");
    assert_eq!(root.children.len(), 1);
    assert_eq!(root.children[0].label, "42");
    assert_eq!(root.children[0].children.len(), 0);
}

#[test]
fn scalar_labels_exact() {
    assert_eq!(convert(&StructuredValue::Null)[0].label, "null");
    assert_eq!(convert(&StructuredValue::Bool(true))[0].label, "true");
    assert_eq!(convert(&StructuredValue::Bool(false))[0].label, "false");
    assert_eq!(convert(&StructuredValue::Int(-7))[0].label, "-7");
    assert_eq!(
        convert(&StructuredValue::Int(i64::MIN))[0].label,
        "-9223372036854775808"
    );
    assert_eq!(
        convert(&StructuredValue::Text(String::from("hi")))[0].label,
        "hi"
    );
    assert_eq!(
        convert(&StructuredValue::Scalar(String::from("2.5")))[0].label,
        "2.5"
    );
    assert_eq!(convert(&StructuredValue::Binary)[0].label, "binary");
    assert_eq!(convert(&StructuredValue::Custom)[0].label, "custom");
}

#[test]
fn empty_list_yields_node_with_no_children() {
    let root = build(&StructuredValue::List(Vec::new()));
    assert_eq!(root.label, "");
    assert_eq!(root.children.len(), 0);
}

#[test]
fn empty_record_yields_node_with_no_children() {
    let root = build(&StructuredValue::Record(Vec::new()));
    assert_eq!(root.children.len(), 0);
}

#[test]
fn record_key_with_empty_value_is_childless_node() {
    let v = StructuredValue::Record(vec![(
        String::from("key"),
        StructuredValue::List(Vec::new()),
    )]);
    let nodes = convert(&v);
    assert_eq!(nodes.len(), 1);
    assert_eq!(nodes[0].label, "key");
    assert_eq!(nodes[0].children.len(), 0);
}

#[test]
fn record_adds_one_level_per_key() {
    let v = StructuredValue::Record(vec![
        (String::from("a"), StructuredValue::Int(1)),
        (String::from("b"), StructuredValue::Int(2)),
    ]);
    let nodes = convert(&v);
    assert_eq!(nodes.len(), 2);
    assert_eq!(nodes[0].label, "a");
    assert_eq!(labels(&nodes[0].children), vec![String::from("1")]);
    assert_eq!(nodes[1].label, "b");
    assert_eq!(labels(&nodes[1].children), vec![String::from("2")]);
}

#[test]
fn sequence_elements_stay_siblings() {
    // [1, [2, 3], 4] flattens: the inner sequence adds no nesting level.
    let v = StructuredValue::List(vec![
        StructuredValue::Int(1),
        StructuredValue::List(vec![StructuredValue::Int(2), StructuredValue::Int(3)]),
        StructuredValue::Int(4),
    ]);
    let nodes = convert(&v);
    assert_eq!(
        labels(&nodes),
        vec![
            String::from("1"),
            String::from("2"),
            String::from("3"),
            String::from("4")
        ]
    );
    for n in &nodes {
        assert_eq!(n.children.len(), 0);
    }
}

#[test]
fn every_scalar_appears_as_one_leaf() {
    // A mixed nested value with four scalars and no empty containers.
    let v = StructuredValue::Record(vec![
        (
            String::from("list"),
            StructuredValue::List(vec![
                StructuredValue::Bool(true),
                StructuredValue::Text(String::from("x")),
            ]),
        ),
        (
            String::from("rec"),
            StructuredValue::Record(vec![(String::from("k"), StructuredValue::Int(9))]),
        ),
        (String::from("n"), StructuredValue::Null),
    ]);
    let nodes = convert(&v);
    let mut leaves = Vec::new();
    collect_leaves(&nodes, &mut leaves);
    assert_eq!(
        leaves,
        vec![
            String::from("true"),
            String::from("x"),
            String::from("9"),
            String::from("null")
        ]
    );
}

fn collect_leaves(nodes: &Vec<DisplayNode>, out: &mut Vec<String>) {
    for n in nodes {
        if n.children.len() == 0 {
            out.push(n.label.clone());
        } else {
            collect_leaves(&n.children, out);
        }
    }
}

#[test]
fn record_inside_list_keeps_keys() {
    let v = StructuredValue::List(vec![StructuredValue::Record(vec![(
        String::from("name"),
        StructuredValue::Text(String::from("tree")),
    )])]);
    let nodes = convert(&v);
    assert_eq!(nodes.len(), 1);
    assert_eq!(nodes[0].label, "name");
    assert_eq!(labels(&nodes[0].children), vec![String::from("tree")]);
}
