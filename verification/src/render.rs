//! The tree renderer: lays a [`DisplayNode`] tree out as indented lines
//! with branch connectors, one line per node, depth first, preserving
//! child order.
//!
//! A node's line is its connector prefix painted with the branch style,
//! followed by its label painted with the leaf style.  A child's prefix
//! extends its parent's continuation prefix with `├─... ` (or `└─... ` for
//! the last child); the continuation below a non-last child is `│ ... `,
//! below the last child blank.  The connector width is configurable; the
//! root is rendered with an empty prefix, so a synthetic unlabeled root
//! contributes no visible text of its own.

use vstd::prelude::*;

use crate::style::Color;
use crate::style::TextStyle;
use crate::style::paint;
use crate::style::painted;
use crate::text::repeat_seq;
use crate::text::repeat_str;
use crate::value::DisplayNode;
use crate::value::NodeModel;
use crate::value::node_view;
use crate::value::nodes_view;

verus! {

/// How to render a tree: connector width and the two styles.
#[derive(Clone, Copy, Debug)]
pub struct RenderConfig {
    /// Total width of one connector column, including the branch character
    /// and the single padding space before the label.
    pub indent: usize,
    /// Style of the connector prefixes.
    pub branch: TextStyle,
    /// Style of the node labels.
    pub leaf: TextStyle,
}

impl RenderConfig {
    /// Unstyled rendering with the given connector width.
    pub fn plain(indent: usize) -> (r: RenderConfig)
        ensures
            r.indent == indent,
            r.branch == (TextStyle {
                fg: None::<Color>,
                bold: false,
                dimmed: false,
                italic: false,
                underline: false,
            }),
            r.leaf == (TextStyle {
                fg: None::<Color>,
                bold: false,
                dimmed: false,
                italic: false,
                underline: false,
            }),
    {
        RenderConfig { indent, branch: TextStyle::plain(), leaf: TextStyle::plain() }
    }

    /// The classic pipeline style: four-column connectors painted dimmed
    /// green, labels painted bold.
    pub fn classic() -> (r: RenderConfig)
        ensures
            r.indent == 4,
            r.branch == (TextStyle {
                fg: Some(Color::Green),
                bold: false,
                dimmed: true,
                italic: false,
                underline: false,
            }),
            r.leaf == (TextStyle {
                fg: None::<Color>,
                bold: true,
                dimmed: false,
                italic: false,
                underline: false,
            }),
    {
        RenderConfig {
            indent: 4,
            branch: TextStyle {
                fg: Some(Color::Green),
                bold: false,
                dimmed: true,
                italic: false,
                underline: false,
            },
            leaf: TextStyle { fg: None, bold: true, dimmed: false, italic: false, underline: false },
        }
    }
}

/// The number of filler characters between the branch character and the
/// padding space.
pub open spec fn pad_width(indent: nat) -> nat {
    if indent > 2 {
        (indent - 2) as nat
    } else {
        0
    }
}

/// Connector of a non-last child: `├`, filler dashes, one space.
pub open spec fn regular_prefix(indent: nat) -> Seq<char> {
    seq!['├'] + repeat_seq(seq!['─'], pad_width(indent)) + seq![' ']
}

/// Continuation below a non-last child: `│`, filler spaces, one space.
pub open spec fn cont_prefix(indent: nat) -> Seq<char> {
    seq!['│'] + repeat_seq(seq![' '], pad_width(indent)) + seq![' ']
}

/// Connector of the last child: `└`, filler dashes, one space.
pub open spec fn last_prefix(indent: nat) -> Seq<char> {
    seq!['└'] + repeat_seq(seq!['─'], pad_width(indent)) + seq![' ']
}

/// Continuation below the last child: all blank.
pub open spec fn blank_prefix(indent: nat) -> Seq<char> {
    seq![' '] + repeat_seq(seq![' '], pad_width(indent)) + seq![' ']
}

/// The lines of one node rendered with the given connector prefix, and of
/// its descendants below it.
pub open spec fn spec_render_node(
    n: NodeModel,
    prefix: Seq<char>,
    below: Seq<char>,
    cfg: RenderConfig,
) -> Seq<Seq<char>>
    decreases n,
{
    seq![painted(cfg.branch, prefix) + painted(cfg.leaf, n.label)] + spec_render_children(
        n.children,
        below,
        cfg,
    )
}

/// The lines of a node's children: all but the last with regular
/// connectors, the last with the closing connector.
pub open spec fn spec_render_children(
    s: Seq<NodeModel>,
    below: Seq<char>,
    cfg: RenderConfig,
) -> Seq<Seq<char>>
    decreases s,
{
    if s.len() == 0 {
        Seq::empty()
    } else {
        spec_render_nonlast(s.drop_last(), below, cfg) + spec_render_node(
            s.last(),
            below + last_prefix(cfg.indent as nat),
            below + blank_prefix(cfg.indent as nat),
            cfg,
        )
    }
}

/// The lines of a run of non-last children.
pub open spec fn spec_render_nonlast(
    s: Seq<NodeModel>,
    below: Seq<char>,
    cfg: RenderConfig,
) -> Seq<Seq<char>>
    decreases s,
{
    if s.len() == 0 {
        Seq::empty()
    } else {
        spec_render_node(
            s[0],
            below + regular_prefix(cfg.indent as nat),
            below + cont_prefix(cfg.indent as nat),
            cfg,
        ) + spec_render_nonlast(s.drop_first(), below, cfg)
    }
}

/// The full rendering of a tree: the root with an empty prefix.
pub open spec fn spec_render_tree(n: NodeModel, cfg: RenderConfig) -> Seq<Seq<char>> {
    spec_render_node(n, Seq::empty(), Seq::empty(), cfg)
}

/// The text of a sequence of built lines.
pub open spec fn lines_view(s: Seq<String>) -> Seq<Seq<char>> {
    s.map_values(|x: String| x@)
}

/// `spec_render_nonlast` over a prefix extended by one node.
proof fn lemma_render_nonlast_snoc(
    s: Seq<NodeModel>,
    n: NodeModel,
    below: Seq<char>,
    cfg: RenderConfig,
)
    ensures
        spec_render_nonlast(s.push(n), below, cfg) == spec_render_nonlast(s, below, cfg)
            + spec_render_node(
            n,
            below + regular_prefix(cfg.indent as nat),
            below + cont_prefix(cfg.indent as nat),
            cfg,
        ),
    decreases s,
{
    let line = spec_render_node(
        n,
        below + regular_prefix(cfg.indent as nat),
        below + cont_prefix(cfg.indent as nat),
        cfg,
    );
    if s.len() == 0 {
        assert(spec_render_nonlast(Seq::<NodeModel>::empty(), below, cfg)
            == Seq::<Seq<char>>::empty());
        assert(s.push(n)[0] == n);
        assert(s.push(n).drop_first() =~= Seq::<NodeModel>::empty());
        assert(spec_render_nonlast(s.push(n), below, cfg) =~= line);
        assert(spec_render_nonlast(s, below, cfg) + line =~= line);
    } else {
        assert(s.push(n).drop_first() =~= s.drop_first().push(n));
        lemma_render_nonlast_snoc(s.drop_first(), n, below, cfg);
        assert(s.push(n)[0] == s[0]);
        assert(spec_render_nonlast(s.push(n), below, cfg) =~= spec_render_nonlast(s, below, cfg)
            + line);
    }
}

fn render_node(
    node: &DisplayNode,
    prefix: &str,
    below: &str,
    cfg: &RenderConfig,
    out: &mut Vec<String>,
)
    ensures
        lines_view(final(out)@) == lines_view(old(out)@) + spec_render_node(
            node_view(*node),
            prefix@,
            below@,
            *cfg,
        ),
    decreases *node,
{
    proof {
        reveal_strlit("├");
        reveal_strlit("│");
        reveal_strlit("└");
        reveal_strlit("─");
        reveal_strlit(" ");
    }
    let mut line = paint(&cfg.branch, prefix);
    line.append(paint(&cfg.leaf, node.label.as_str()).as_str());
    out.push(line);
    proof {
        assert(lines_view(out@) =~= lines_view(old(out)@) + seq![
            painted(cfg.branch, prefix@) + painted(cfg.leaf, node.label@),
        ]);
    }
    let n = node.children.len();
    if n == 0 {
        proof {
            assert(spec_render_children(nodes_view(node.children@), below@, *cfg)
                == Seq::<Seq<char>>::empty());
            assert(lines_view(out@) =~= lines_view(old(out)@) + spec_render_node(
                node_view(*node),
                prefix@,
                below@,
                *cfg,
            ));
        }
        return ;
    }
    let pad = if cfg.indent > 2 {
        cfg.indent - 2
    } else {
        0
    };
    let dash_fill = repeat_str("─", pad);
    let space_fill = repeat_str(" ", pad);
    let mut reg = String::from_str(below);
    reg.append("├");
    reg.append(dash_fill.as_str());
    reg.append(" ");
    let mut cont = String::from_str(below);
    cont.append("│");
    cont.append(space_fill.as_str());
    cont.append(" ");
    let mut last = String::from_str(below);
    last.append("└");
    last.append(dash_fill.as_str());
    last.append(" ");
    let mut blank = String::from_str(below);
    blank.append(" ");
    blank.append(space_fill.as_str());
    blank.append(" ");
    proof {
        reveal_strlit("├");
        reveal_strlit("│");
        reveal_strlit("└");
        reveal_strlit("─");
        reveal_strlit(" ");
        assert("├"@ =~= seq!['├']);
        assert("│"@ =~= seq!['│']);
        assert("└"@ =~= seq!['└']);
        assert("─"@ =~= seq!['─']);
        assert(" "@ =~= seq![' ']);
        assert(reg@ =~= below@ + regular_prefix(cfg.indent as nat));
        assert(cont@ =~= below@ + cont_prefix(cfg.indent as nat));
        assert(last@ =~= below@ + last_prefix(cfg.indent as nat));
        assert(blank@ =~= below@ + blank_prefix(cfg.indent as nat));
    }
    let ghost mid = out@;
    let mut i: usize = 0;
    while i < n - 1
        invariant
            n == node.children@.len(),
            n >= 1,
            i <= n - 1,
            reg@ == below@ + regular_prefix(cfg.indent as nat),
            cont@ == below@ + cont_prefix(cfg.indent as nat),
            lines_view(out@) == lines_view(mid) + spec_render_nonlast(
                nodes_view(node.children@.take(i as int)),
                below@,
                *cfg,
            ),
        decreases n - i,
    {
        proof {
            assert(decreases_to!(*node => node.children));
            assert(decreases_to!(node.children => node.children@));
            assert(decreases_to!(node.children@ => node.children@[i as int]));
        }
        render_node(&node.children[i], reg.as_str(), cont.as_str(), cfg, out);
        proof {
            let tk = node.children@.take(i as int);
            let ch = node.children@[i as int];
            crate::value::lemma_nodes_view_push(tk, ch);
            assert(nodes_view(tk).push(node_view(ch)) =~= nodes_view(tk) + seq![node_view(ch)]);
            lemma_render_nonlast_snoc(nodes_view(tk), node_view(ch), below@, *cfg);
            assert(tk.push(ch) =~= node.children@.take(i + 1));
            assert(nodes_view(node.children@.take(i + 1)) == nodes_view(tk) + seq![
                node_view(ch),
            ]);
            assert(spec_render_nonlast(nodes_view(node.children@.take(i + 1)), below@, *cfg)
                == spec_render_nonlast(nodes_view(tk), below@, *cfg) + spec_render_node(
                node_view(ch),
                below@ + regular_prefix(cfg.indent as nat),
                below@ + cont_prefix(cfg.indent as nat),
                *cfg,
            ));
            assert(lines_view(out@) =~= lines_view(mid) + spec_render_nonlast(
                nodes_view(node.children@.take(i + 1)),
                below@,
                *cfg,
            ));
        }
        i = i + 1;
    }
    proof {
        assert(decreases_to!(*node => node.children));
        assert(decreases_to!(node.children => node.children@));
        assert(decreases_to!(node.children@ => node.children@[n - 1]));
    }
    render_node(&node.children[n - 1], last.as_str(), blank.as_str(), cfg, out);
    proof {
        let cm = nodes_view(node.children@);
        assert(node.children@.take(n - 1) =~= node.children@.drop_last());
        crate::value::lemma_nodes_view_drop_last(node.children@);
        assert(cm.len() == node.children@.len()) by {
            crate::value::lemma_nodes_view_len(node.children@);
        }
        assert(cm.last() == node_view(node.children@[n - 1])) by {
            crate::value::lemma_nodes_view_index(node.children@, n - 1);
        }
        assert(lines_view(out@) =~= lines_view(old(out)@) + spec_render_node(
            node_view(*node),
            prefix@,
            below@,
            *cfg,
        ));
    }
}

/// Renders the whole tree, depth first, one line per node, starting with
/// the root itself under an empty prefix.
pub fn render_tree(node: &DisplayNode, cfg: &RenderConfig) -> (r: Vec<String>)
    ensures
        lines_view(r@) == spec_render_tree(node_view(*node), *cfg),
{
    let mut out: Vec<String> = Vec::new();
    let empty = String::new();
    render_node(node, empty.as_str(), empty.as_str(), cfg, &mut out);
    proof {
        assert(lines_view(Seq::<String>::empty()) =~= Seq::<Seq<char>>::empty());
        assert(lines_view(out@) =~= spec_render_tree(node_view(*node), *cfg));
    }
    out
}

/// Rendering is a function of the tree model and the configuration alone:
/// two renderings of equal trees under equal configurations are identical,
/// byte for byte.
pub proof fn lemma_render_deterministic(
    r1: Seq<Seq<char>>,
    r2: Seq<Seq<char>>,
    n1: NodeModel,
    n2: NodeModel,
    cfg1: RenderConfig,
    cfg2: RenderConfig,
)
    requires
        r1 == spec_render_tree(n1, cfg1),
        r2 == spec_render_tree(n2, cfg2),
        n1 == n2,
        cfg1 == cfg2,
    ensures
        r1 == r2,
{
}

} // verus!
