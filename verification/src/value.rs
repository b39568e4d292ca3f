//! The value-tree builder: converts one structured input value (scalars,
//! ordered sequences, and mappings with insertion-ordered text keys) into a
//! generic labeled tree of [`DisplayNode`]s.
//!
//! The conversion rules, stated once and proved below:
//! * a scalar becomes a single leaf node labeled with its textual form;
//! * a mapping entry becomes a node labeled with its key, whose children are
//!   the conversion of its value — one extra nesting level per key;
//! * the elements of a sequence become siblings at the current level — a
//!   sequence never introduces a nesting level of its own;
//! * the root of a full conversion is a synthetic unlabeled node wrapping
//!   the top-level value.

use vstd::prelude::*;

use crate::text::dec_seq_i64;

verus! {

/// One structured input value.
///
/// Scalars whose textual form this crate does not compute itself (dates,
/// durations, floating-point numbers, and other host-rendered values)
/// arrive pre-rendered as [`StructuredValue::Scalar`]; opaque payloads
/// arrive as [`StructuredValue::Binary`] or [`StructuredValue::Custom`] and
/// render as fixed placeholder labels.
pub enum StructuredValue {
    Null,
    Bool(bool),
    Int(i64),
    Text(String),
    Scalar(String),
    Binary,
    Custom,
    List(Vec<StructuredValue>),
    Record(Vec<(String, StructuredValue)>),
}

/// The generic tree node handed to the renderer: a text label plus an
/// ordered sequence of owned children.
pub struct DisplayNode {
    pub label: String,
    pub children: Vec<DisplayNode>,
}

/// Mathematical model of a [`DisplayNode`].
pub struct NodeModel {
    pub label: Seq<char>,
    pub children: Seq<NodeModel>,
}

/// Model of one node.
pub open spec fn node_view(n: DisplayNode) -> NodeModel
    decreases n,
{
    NodeModel { label: n.label@, children: nodes_view(n.children@) }
}

/// Model of a sequence of nodes.
pub open spec fn nodes_view(s: Seq<DisplayNode>) -> Seq<NodeModel>
    decreases s,
{
    if s.len() == 0 {
        Seq::empty()
    } else {
        seq![node_view(s[0])] + nodes_view(s.drop_first())
    }
}

/// The leaf label of a scalar value.
pub open spec fn scalar_label(v: StructuredValue) -> Seq<char> {
    match v {
        StructuredValue::Null => "null"@,
        StructuredValue::Bool(b) => if b {
            "true"@
        } else {
            "false"@
        },
        StructuredValue::Int(i) => dec_seq_i64(i as int),
        StructuredValue::Text(s) => s@,
        StructuredValue::Scalar(s) => s@,
        StructuredValue::Binary => "binary"@,
        StructuredValue::Custom => "custom"@,
        StructuredValue::List(_) => Seq::empty(),
        StructuredValue::Record(_) => Seq::empty(),
    }
}

/// The nodes that `v` contributes at the current tree level: one leaf for a
/// scalar, one node per key for a mapping, and the flattened conversions of
/// the elements for a sequence.
pub open spec fn spec_convert(v: StructuredValue) -> Seq<NodeModel>
    decreases v,
{
    match v {
        StructuredValue::List(vs) => convert_elems(vs@),
        StructuredValue::Record(es) => convert_entries(es@),
        _ => seq![NodeModel { label: scalar_label(v), children: Seq::empty() }],
    }
}

/// Conversion of sequence elements: siblings, concatenated in order.
pub open spec fn convert_elems(s: Seq<StructuredValue>) -> Seq<NodeModel>
    decreases s,
{
    if s.len() == 0 {
        Seq::empty()
    } else {
        spec_convert(s[0]) + convert_elems(s.drop_first())
    }
}

/// Conversion of mapping entries: one node per key, in insertion order.
pub open spec fn convert_entries(s: Seq<(String, StructuredValue)>) -> Seq<NodeModel>
    decreases s,
{
    if s.len() == 0 {
        Seq::empty()
    } else {
        seq![NodeModel { label: s[0].0@, children: spec_convert(s[0].1) }] + convert_entries(
            s.drop_first(),
        )
    }
}

/// The full conversion: a synthetic unlabeled root wrapping `v`.
pub open spec fn spec_build(v: StructuredValue) -> NodeModel {
    NodeModel { label: Seq::empty(), children: spec_convert(v) }
}

impl DisplayNode {
    /// A leaf node.
    pub fn leaf(label: String) -> (r: DisplayNode)
        ensures
            node_view(r) == (NodeModel { label: label@, children: Seq::<NodeModel>::empty() }),
    {
        let r = DisplayNode { label, children: Vec::new() };
        proof {
            assert(nodes_view(r.children@) =~= Seq::<NodeModel>::empty());
        }
        r
    }

    /// An inner node with the given children.
    pub fn node(label: String, children: Vec<DisplayNode>) -> (r: DisplayNode)
        ensures
            node_view(r) == (NodeModel { label: label@, children: nodes_view(children@) }),
    {
        DisplayNode { label, children }
    }
}

/// `nodes_view` of a singleton.
proof fn lemma_nodes_view_singleton(n: DisplayNode)
    ensures
        nodes_view(seq![n]) == seq![node_view(n)],
{
    assert(nodes_view(Seq::<DisplayNode>::empty()) == Seq::<NodeModel>::empty());
    assert(seq![n].drop_first() =~= Seq::<DisplayNode>::empty());
    assert(seq![n][0] == n);
    assert(nodes_view(seq![n]) =~= seq![node_view(n)]);
}

/// `nodes_view` distributes over `push`.
pub proof fn lemma_nodes_view_push(s: Seq<DisplayNode>, n: DisplayNode)
    ensures
        nodes_view(s.push(n)) == nodes_view(s) + seq![node_view(n)],
    decreases s,
{
    if s.len() == 0 {
        lemma_nodes_view_singleton(n);
        assert(s.push(n) =~= seq![n]);
        assert(nodes_view(s) + seq![node_view(n)] =~= seq![node_view(n)]);
    } else {
        assert(s.push(n).drop_first() =~= s.drop_first().push(n));
        lemma_nodes_view_push(s.drop_first(), n);
        assert(s.push(n)[0] == s[0]);
        assert(nodes_view(s.push(n)) =~= nodes_view(s) + seq![node_view(n)]);
    }
}

/// `nodes_view` preserves length.
pub proof fn lemma_nodes_view_len(s: Seq<DisplayNode>)
    ensures
        nodes_view(s).len() == s.len(),
    decreases s,
{
    if s.len() > 0 {
        lemma_nodes_view_len(s.drop_first());
    }
}

/// `nodes_view` is elementwise.
pub proof fn lemma_nodes_view_index(s: Seq<DisplayNode>, i: int)
    requires
        0 <= i < s.len(),
    ensures
        nodes_view(s).len() == s.len(),
        nodes_view(s)[i] == node_view(s[i]),
    decreases s,
{
    lemma_nodes_view_len(s);
    if i > 0 {
        lemma_nodes_view_index(s.drop_first(), i - 1);
        assert(s.drop_first()[i - 1] == s[i]);
    }
}

/// `nodes_view` commutes with dropping the last element.
pub proof fn lemma_nodes_view_drop_last(s: Seq<DisplayNode>)
    requires
        s.len() > 0,
    ensures
        nodes_view(s.drop_last()) == nodes_view(s).drop_last(),
{
    lemma_nodes_view_len(s);
    lemma_nodes_view_len(s.drop_last());
    assert forall|i: int| 0 <= i < s.len() - 1 implies nodes_view(s.drop_last())[i] == nodes_view(
        s,
    ).drop_last()[i] by {
        lemma_nodes_view_index(s.drop_last(), i);
        lemma_nodes_view_index(s, i);
        assert(s.drop_last()[i] == s[i]);
    }
    assert(nodes_view(s.drop_last()) =~= nodes_view(s).drop_last());
}

/// `nodes_view` distributes over concatenation.
proof fn lemma_nodes_view_concat(s1: Seq<DisplayNode>, s2: Seq<DisplayNode>)
    ensures
        nodes_view(s1 + s2) == nodes_view(s1) + nodes_view(s2),
    decreases s1,
{
    if s1.len() == 0 {
        assert(s1 + s2 =~= s2);
        assert(nodes_view(s1) + nodes_view(s2) =~= nodes_view(s2));
    } else {
        assert((s1 + s2).drop_first() =~= s1.drop_first() + s2);
        lemma_nodes_view_concat(s1.drop_first(), s2);
        assert((s1 + s2)[0] == s1[0]);
        assert(nodes_view(s1 + s2) =~= nodes_view(s1) + nodes_view(s2));
    }
}

/// `convert_elems` over a prefix extended by one element.
proof fn lemma_convert_elems_snoc(s: Seq<StructuredValue>, v: StructuredValue)
    ensures
        convert_elems(s.push(v)) == convert_elems(s) + spec_convert(v),
    decreases s,
{
    if s.len() == 0 {
        assert(convert_elems(Seq::<StructuredValue>::empty()) == Seq::<NodeModel>::empty());
        assert(s.push(v)[0] == v);
        assert(s.push(v).drop_first() =~= Seq::<StructuredValue>::empty());
        assert(convert_elems(s.push(v)) =~= spec_convert(v));
        assert(convert_elems(s) + spec_convert(v) =~= spec_convert(v));
    } else {
        assert(s.push(v).drop_first() =~= s.drop_first().push(v));
        lemma_convert_elems_snoc(s.drop_first(), v);
        assert(s.push(v)[0] == s[0]);
        assert(convert_elems(s.push(v)) =~= convert_elems(s) + spec_convert(v));
    }
}

/// `convert_entries` over a prefix extended by one entry.
proof fn lemma_convert_entries_snoc(s: Seq<(String, StructuredValue)>, e: (String, StructuredValue))
    ensures
        convert_entries(s.push(e)) == convert_entries(s) + seq![
            NodeModel { label: e.0@, children: spec_convert(e.1) },
        ],
    decreases s,
{
    if s.len() == 0 {
        assert(convert_entries(Seq::<(String, StructuredValue)>::empty())
            == Seq::<NodeModel>::empty());
        assert(s.push(e)[0] == e);
        assert(s.push(e).drop_first() =~= Seq::<(String, StructuredValue)>::empty());
        assert(convert_entries(s.push(e)) =~= convert_entries(s) + seq![
            NodeModel { label: e.0@, children: spec_convert(e.1) },
        ]);
    } else {
        assert(s.push(e).drop_first() =~= s.drop_first().push(e));
        lemma_convert_entries_snoc(s.drop_first(), e);
        assert(s.push(e)[0] == s[0]);
        assert(convert_entries(s.push(e)) =~= convert_entries(s) + seq![
            NodeModel { label: e.0@, children: spec_convert(e.1) },
        ]);
    }
}

/// Converts `v` into the nodes it contributes at the current level.
pub fn convert(v: &StructuredValue) -> (r: Vec<DisplayNode>)
    ensures
        nodes_view(r@) == spec_convert(*v),
    decreases *v,
{
    match v {
        StructuredValue::Null => {
            proof {
                reveal_strlit("null");
            }
            let mut r: Vec<DisplayNode> = Vec::new();
            r.push(DisplayNode::leaf(String::from_str("null")));
            proof {
                assert(r@ =~= seq![r@[0]]);
                lemma_nodes_view_singleton(r@[0]);
                assert(nodes_view(r@) =~= spec_convert(*v));
            }
            r
        },
        StructuredValue::Bool(b) => {
            proof {
                reveal_strlit("true");
                reveal_strlit("false");
            }
            let label = if *b {
                String::from_str("true")
            } else {
                String::from_str("false")
            };
            let mut r: Vec<DisplayNode> = Vec::new();
            r.push(DisplayNode::leaf(label));
            proof {
                assert(r@ =~= seq![r@[0]]);
                lemma_nodes_view_singleton(r@[0]);
                assert(nodes_view(r@) =~= spec_convert(*v));
            }
            r
        },
        StructuredValue::Int(i) => {
            let mut r: Vec<DisplayNode> = Vec::new();
            r.push(DisplayNode::leaf(crate::text::fmt_i64(*i)));
            proof {
                assert(r@ =~= seq![r@[0]]);
                lemma_nodes_view_singleton(r@[0]);
                assert(nodes_view(r@) =~= spec_convert(*v));
            }
            r
        },
        StructuredValue::Text(s) => {
            let mut r: Vec<DisplayNode> = Vec::new();
            r.push(DisplayNode::leaf(s.clone()));
            proof {
                assert(r@ =~= seq![r@[0]]);
                lemma_nodes_view_singleton(r@[0]);
                assert(nodes_view(r@) =~= spec_convert(*v));
            }
            r
        },
        StructuredValue::Scalar(s) => {
            let mut r: Vec<DisplayNode> = Vec::new();
            r.push(DisplayNode::leaf(s.clone()));
            proof {
                assert(r@ =~= seq![r@[0]]);
                lemma_nodes_view_singleton(r@[0]);
                assert(nodes_view(r@) =~= spec_convert(*v));
            }
            r
        },
        StructuredValue::Binary => {
            proof {
                reveal_strlit("binary");
            }
            let mut r: Vec<DisplayNode> = Vec::new();
            r.push(DisplayNode::leaf(String::from_str("binary")));
            proof {
                assert(r@ =~= seq![r@[0]]);
                lemma_nodes_view_singleton(r@[0]);
                assert(nodes_view(r@) =~= spec_convert(*v));
            }
            r
        },
        StructuredValue::Custom => {
            proof {
                reveal_strlit("custom");
            }
            let mut r: Vec<DisplayNode> = Vec::new();
            r.push(DisplayNode::leaf(String::from_str("custom")));
            proof {
                assert(r@ =~= seq![r@[0]]);
                lemma_nodes_view_singleton(r@[0]);
                assert(nodes_view(r@) =~= spec_convert(*v));
            }
            r
        },
        StructuredValue::List(vs) => {
            let mut r: Vec<DisplayNode> = Vec::new();
            let n = vs.len();
            assert(convert_elems(vs@.take(0)) =~= Seq::<NodeModel>::empty());
            assert(nodes_view(r@) =~= Seq::<NodeModel>::empty());
            let mut i: usize = 0;
            while i < n
                invariant
                    n == vs@.len(),
                    i <= n,
                    nodes_view(r@) == convert_elems(vs@.take(i as int)),
                    *v == StructuredValue::List(*vs),
                decreases n - i,
            {
                proof {
                    assert(decreases_to!(*v => (*v)->List_0));
                    assert((*v)->List_0 == *vs);
                    assert(decreases_to!(*vs => vs@));
                    assert(decreases_to!(vs@ => vs@[i as int]));
                    assert(decreases_to!(*v => vs@[i as int]));
                }
                let mut part = convert(&vs[i]);
                let ghost old_r = r@;
                let ghost old_part = part@;
                r.append(&mut part);
                proof {
                    lemma_nodes_view_concat(old_r, old_part);
                    lemma_convert_elems_snoc(vs@.take(i as int), vs@[i as int]);
                    assert(vs@.take(i as int).push(vs@[i as int]) =~= vs@.take(i + 1));
                }
                i = i + 1;
            }
            proof {
                assert(vs@.take(n as int) =~= vs@);
            }
            r
        },
        StructuredValue::Record(es) => {
            let mut r: Vec<DisplayNode> = Vec::new();
            let n = es.len();
            assert(convert_entries(es@.take(0)) =~= Seq::<NodeModel>::empty());
            assert(nodes_view(r@) =~= Seq::<NodeModel>::empty());
            let mut i: usize = 0;
            while i < n
                invariant
                    n == es@.len(),
                    i <= n,
                    nodes_view(r@) == convert_entries(es@.take(i as int)),
                    *v == StructuredValue::Record(*es),
                decreases n - i,
            {
                proof {
                    assert(decreases_to!(*v => (*v)->Record_0));
                    assert((*v)->Record_0 == *es);
                    assert(decreases_to!(*es => es@));
                    assert(decreases_to!(es@ => es@[i as int]));
                    assert(decreases_to!(es@[i as int] => es@[i as int].1));
                    assert(decreases_to!(*v => es@[i as int].1));
                }
                let children = convert(&es[i].1);
                let node = DisplayNode::node(es[i].0.clone(), children);
                let ghost old_r = r@;
                r.push(node);
                proof {
                    lemma_nodes_view_push(old_r, node);
                    lemma_convert_entries_snoc(es@.take(i as int), es@[i as int]);
                    assert(es@.take(i as int).push(es@[i as int]) =~= es@.take(i + 1));
                }
                i = i + 1;
            }
            proof {
                assert(es@.take(n as int) =~= es@);
            }
            r
        },
    }
}

/// Builds the full display tree for `v`: a synthetic unlabeled root whose
/// children are the conversion of `v`.
pub fn build(v: &StructuredValue) -> (r: DisplayNode)
    ensures
        node_view(r) == spec_build(*v),
{
    let children = convert(v);
    DisplayNode::node(String::new(), children)
}

// ------------------------------------------------------------------
// Laws of the conversion.
// ------------------------------------------------------------------

/// The labels of the leaves of a forest, left to right.
pub open spec fn leaf_labels(s: Seq<NodeModel>) -> Seq<Seq<char>>
    decreases s,
{
    if s.len() == 0 {
        Seq::empty()
    } else {
        (if s[0].children.len() == 0 {
            seq![s[0].label]
        } else {
            leaf_labels(s[0].children)
        }) + leaf_labels(s.drop_first())
    }
}

/// The labels of the scalars of a value, in conversion order.
pub open spec fn scalar_labels(v: StructuredValue) -> Seq<Seq<char>>
    decreases v,
{
    match v {
        StructuredValue::List(vs) => elems_scalar_labels(vs@),
        StructuredValue::Record(es) => entries_scalar_labels(es@),
        _ => seq![scalar_label(v)],
    }
}

/// The scalar labels of a sequence of values, concatenated.
pub open spec fn elems_scalar_labels(s: Seq<StructuredValue>) -> Seq<Seq<char>>
    decreases s,
{
    if s.len() == 0 {
        Seq::empty()
    } else {
        scalar_labels(s[0]) + elems_scalar_labels(s.drop_first())
    }
}

/// The scalar labels of the values of a sequence of mapping entries.
pub open spec fn entries_scalar_labels(s: Seq<(String, StructuredValue)>) -> Seq<Seq<char>>
    decreases s,
{
    if s.len() == 0 {
        Seq::empty()
    } else {
        scalar_labels(s[0].1) + entries_scalar_labels(s.drop_first())
    }
}

/// Whether every sequence and mapping inside `v` is non-empty.
///
/// An empty container converts to zero nodes, so a mapping key whose value
/// is empty becomes a childless node — a leaf that corresponds to no
/// scalar.  Outside that case, leaves and scalars correspond exactly.
pub open spec fn productive(v: StructuredValue) -> bool
    decreases v,
{
    match v {
        StructuredValue::List(vs) => vs@.len() > 0 && elems_productive(vs@),
        StructuredValue::Record(es) => es@.len() > 0 && entries_productive(es@),
        _ => true,
    }
}

/// Whether every value in the sequence is productive.
pub open spec fn elems_productive(s: Seq<StructuredValue>) -> bool
    decreases s,
{
    s.len() == 0 || (productive(s[0]) && elems_productive(s.drop_first()))
}

/// Whether every entry value in the sequence is productive.
pub open spec fn entries_productive(s: Seq<(String, StructuredValue)>) -> bool
    decreases s,
{
    s.len() == 0 || (productive(s[0].1) && entries_productive(s.drop_first()))
}

/// `leaf_labels` distributes over concatenation.
proof fn lemma_leaf_labels_concat(s1: Seq<NodeModel>, s2: Seq<NodeModel>)
    ensures
        leaf_labels(s1 + s2) == leaf_labels(s1) + leaf_labels(s2),
    decreases s1,
{
    if s1.len() == 0 {
        assert(s1 + s2 =~= s2);
        assert(leaf_labels(s1) + leaf_labels(s2) =~= leaf_labels(s2));
    } else {
        assert((s1 + s2).drop_first() =~= s1.drop_first() + s2);
        lemma_leaf_labels_concat(s1.drop_first(), s2);
        assert((s1 + s2)[0] == s1[0]);
        assert(leaf_labels(s1 + s2) =~= leaf_labels(s1) + leaf_labels(s2));
    }
}

/// Every scalar of a value with no empty containers appears as exactly one
/// leaf label of its conversion: the leaf labels, read left to right, are
/// exactly the scalar labels in conversion order.  The conversion of such
/// a value is also never empty.
pub proof fn lemma_scalar_leaves(v: StructuredValue)
    requires
        productive(v),
    ensures
        spec_convert(v).len() > 0,
        leaf_labels(spec_convert(v)) == scalar_labels(v),
    decreases v,
{
    match v {
        StructuredValue::List(vs) => {
            assert(decreases_to!(v => v->List_0));
            assert(decreases_to!(v->List_0 => vs@));
            lemma_scalar_leaves_elems(vs@);
        },
        StructuredValue::Record(es) => {
            assert(decreases_to!(v => v->Record_0));
            assert(decreases_to!(v->Record_0 => es@));
            lemma_scalar_leaves_entries(es@);
        },
        _ => {
            let n = NodeModel { label: scalar_label(v), children: Seq::empty() };
            assert(leaf_labels(Seq::<NodeModel>::empty()) == Seq::<Seq<char>>::empty());
            assert(seq![n].drop_first() =~= Seq::<NodeModel>::empty());
            assert(leaf_labels(spec_convert(v)) =~= scalar_labels(v));
        },
    }
}

proof fn lemma_scalar_leaves_elems(s: Seq<StructuredValue>)
    requires
        elems_productive(s),
        s.len() > 0,
    ensures
        convert_elems(s).len() > 0,
        leaf_labels(convert_elems(s)) == elems_scalar_labels(s),
    decreases s,
{
    assert(decreases_to!(s => s[0]));
    lemma_scalar_leaves(s[0]);
    lemma_leaf_labels_concat(spec_convert(s[0]), convert_elems(s.drop_first()));
    if s.len() == 1 {
        assert(convert_elems(s.drop_first()) == Seq::<NodeModel>::empty());
        assert(elems_scalar_labels(s.drop_first()) == Seq::<Seq<char>>::empty());
        assert(leaf_labels(Seq::<NodeModel>::empty()) == Seq::<Seq<char>>::empty());
        assert(leaf_labels(convert_elems(s)) =~= elems_scalar_labels(s));
    } else {
        lemma_scalar_leaves_elems(s.drop_first());
        assert(leaf_labels(convert_elems(s)) =~= elems_scalar_labels(s));
    }
}

proof fn lemma_scalar_leaves_entries(s: Seq<(String, StructuredValue)>)
    requires
        entries_productive(s),
        s.len() > 0,
    ensures
        convert_entries(s).len() > 0,
        leaf_labels(convert_entries(s)) == entries_scalar_labels(s),
    decreases s,
{
    assert(decreases_to!(s => s[0]));
    assert(decreases_to!(s[0] => s[0].1));
    lemma_scalar_leaves(s[0].1);
    let head = NodeModel { label: s[0].0@, children: spec_convert(s[0].1) };
    assert(head.children.len() > 0);
    lemma_leaf_labels_concat(seq![head], convert_entries(s.drop_first()));
    assert(seq![head].drop_first() =~= Seq::<NodeModel>::empty());
    assert(leaf_labels(Seq::<NodeModel>::empty()) == Seq::<Seq<char>>::empty());
    assert(leaf_labels(seq![head]) =~= leaf_labels(head.children));
    if s.len() == 1 {
        assert(convert_entries(s.drop_first()) == Seq::<NodeModel>::empty());
        assert(entries_scalar_labels(s.drop_first()) == Seq::<Seq<char>>::empty());
        assert(leaf_labels(convert_entries(s)) =~= entries_scalar_labels(s));
    } else {
        lemma_scalar_leaves_entries(s.drop_first());
        assert(leaf_labels(convert_entries(s)) =~= entries_scalar_labels(s));
    }
}

/// A mapping introduces exactly one level: its conversion has one node per
/// entry, labeled with the entry's key, whose children are the conversion
/// of the entry's value.  In particular, key count equals child count at
/// that level.
pub proof fn lemma_record_level(s: Seq<(String, StructuredValue)>)
    ensures
        convert_entries(s).len() == s.len(),
        forall|i: int|
            0 <= i < s.len() ==> convert_entries(s)[i] == (NodeModel {
                label: s[i].0@,
                children: spec_convert(s[i].1),
            }),
    decreases s,
{
    if s.len() > 0 {
        lemma_record_level(s.drop_first());
        assert forall|i: int| 0 <= i < s.len() implies convert_entries(s)[i] == (NodeModel {
            label: s[i].0@,
            children: spec_convert(s[i].1),
        }) by {
            if i > 0 {
                assert(convert_entries(s)[i] == convert_entries(s.drop_first())[i - 1]);
                assert(s.drop_first()[i - 1] == s[i]);
            }
        }
    }
}

/// A sequence introduces no level of its own: the conversion of the
/// concatenation of two sequences of elements is the concatenation of
/// their conversions, at the same level.
pub proof fn lemma_sequence_flat(s1: Seq<StructuredValue>, s2: Seq<StructuredValue>)
    ensures
        convert_elems(s1 + s2) == convert_elems(s1) + convert_elems(s2),
    decreases s1,
{
    if s1.len() == 0 {
        assert(s1 + s2 =~= s2);
        assert(convert_elems(s1) + convert_elems(s2) =~= convert_elems(s2));
    } else {
        assert((s1 + s2).drop_first() =~= s1.drop_first() + s2);
        lemma_sequence_flat(s1.drop_first(), s2);
        assert((s1 + s2)[0] == s1[0]);
        assert(convert_elems(s1 + s2) =~= convert_elems(s1) + convert_elems(s2));
    }
}

/// The nesting depth of one node: one more than that of its children.
pub open spec fn node_depth(n: NodeModel) -> nat
    decreases n,
{
    1 + forest_depth(n.children)
}

/// The nesting depth of a forest: the greatest depth among its nodes.
pub open spec fn forest_depth(s: Seq<NodeModel>) -> nat
    decreases s,
{
    if s.len() == 0 {
        0
    } else if node_depth(s[0]) >= forest_depth(s.drop_first()) {
        node_depth(s[0])
    } else {
        forest_depth(s.drop_first())
    }
}

/// The greatest conversion depth among the elements of a sequence.
pub open spec fn elems_depth(s: Seq<StructuredValue>) -> nat
    decreases s,
{
    if s.len() == 0 {
        0
    } else if forest_depth(spec_convert(s[0])) >= elems_depth(s.drop_first()) {
        forest_depth(spec_convert(s[0]))
    } else {
        elems_depth(s.drop_first())
    }
}

/// `forest_depth` of a concatenation is the greater of the two depths.
proof fn lemma_forest_depth_concat(s1: Seq<NodeModel>, s2: Seq<NodeModel>)
    ensures
        forest_depth(s1 + s2) == if forest_depth(s1) >= forest_depth(s2) {
            forest_depth(s1)
        } else {
            forest_depth(s2)
        },
    decreases s1,
{
    if s1.len() == 0 {
        assert(s1 + s2 =~= s2);
    } else {
        assert((s1 + s2).drop_first() =~= s1.drop_first() + s2);
        lemma_forest_depth_concat(s1.drop_first(), s2);
        assert((s1 + s2)[0] == s1[0]);
    }
}

/// A sequence never adds nesting depth: the depth of its conversion equals
/// the greatest depth among its elements' conversions.
pub proof fn lemma_sequence_adds_no_depth(s: Seq<StructuredValue>)
    ensures
        forest_depth(convert_elems(s)) == elems_depth(s),
    decreases s,
{
    if s.len() > 0 {
        lemma_sequence_adds_no_depth(s.drop_first());
        lemma_forest_depth_concat(spec_convert(s[0]), convert_elems(s.drop_first()));
    }
}

/// An empty mapping or sequence converts to zero nodes, so the full
/// conversion of an empty container is a present root node with an empty
/// child list; a mapping entry whose value converts to nothing is a
/// present, childless node labeled with its key.
pub proof fn lemma_empty_container_node(e: (String, StructuredValue))
    ensures
        convert_elems(Seq::empty()) == Seq::<NodeModel>::empty(),
        convert_entries(Seq::empty()) == Seq::<NodeModel>::empty(),
        spec_convert(e.1) == Seq::<NodeModel>::empty() ==> convert_entries(seq![e]) == seq![
            NodeModel { label: e.0@, children: Seq::empty() },
        ],
{
    assert(convert_elems(Seq::<StructuredValue>::empty()) == Seq::<NodeModel>::empty());
    assert(convert_entries(Seq::<(String, StructuredValue)>::empty()) == Seq::<NodeModel>::empty());
    if spec_convert(e.1) == Seq::<NodeModel>::empty() {
        assert(seq![e].drop_first() =~= Seq::<(String, StructuredValue)>::empty());
        assert(seq![e][0] == e);
        assert(convert_entries(seq![e]) =~= seq![
            NodeModel { label: e.0@, children: Seq::empty() },
        ]);
    }
}

} // verus!
