//! Styled tree: nodes with a title and children, leaves with lines of text,
//! drawn with connectors.
//!
//! [`rendered`] says what the drawing of a tree is; [`TreeNode::write`] and
//! [`TreeNode::write_indent`] produce it.

use vstd::prelude::*;
use crate::colors::{clear_code, fg, Color, ColorMode};
use crate::indent::{indented, spaces, spaces_string, write_indented};
use crate::sink::{
    delivered, lemma_interrupted_within, lemma_prefix_after, lemma_prefix_extend, write_part,
    TextSink, WriteError,
};
use crate::text::Text;

verus! {

const NONE: &'static str = "   ";

const EDGE: &'static str = " └─";

const PIPE: &'static str = " │ ";

const FORK: &'static str = " ├─";

/// The column under a last child: nothing is drawn.
pub open spec fn blank() -> Seq<char> {
    seq![' ', ' ', ' ']
}

/// The connector of a last child.
pub open spec fn corner() -> Seq<char> {
    seq![' ', '└', '─']
}

/// The column under a child that has later siblings.
pub open spec fn pipe() -> Seq<char> {
    seq![' ', '│', ' ']
}

/// The connector of a child that has later siblings.
pub open spec fn branch() -> Seq<char> {
    seq![' ', '├', '─']
}

/// One ancestor of the node that is being drawn, or the node itself: its
/// place among its siblings, and how their connectors are coloured.
#[derive(Debug, Copy, Clone)]
pub struct Level {
    /// How many siblings are left to draw, this one included: 1 for a last
    /// child.
    pub n: usize,
    /// The colour of the connectors at this depth, which the parent chose.
    pub color: Color,
    /// The colour mode of the parent.
    pub cm: ColorMode,
}

/// The three cells that a level fills in a line. On the line that a node
/// begins, its own level draws a connector; in every other place a level
/// draws only what runs past.
pub open spec fn cell(n: usize, connector: bool) -> Seq<char> {
    if n == 1 {
        if connector {
            corner()
        } else {
            blank()
        }
    } else {
        if connector {
            branch()
        } else {
            pipe()
        }
    }
}

/// The cells of a level in the level's colour, which is cleared right after.
pub open spec fn column(level: Level, connector: bool) -> Seq<char> {
    level.cm.sequence(fg(level.color)) + cell(level.n, connector) + level.cm.sequence(clear_code())
}

/// The columns of the first `upto` levels. With `connector`, the deepest of
/// all levels draws its connector.
pub open spec fn columns(levels: Seq<Level>, upto: int, connector: bool) -> Seq<char>
    decreases upto,
{
    if 0 < upto <= levels.len() {
        columns(levels, upto - 1, connector) + column(
            levels[upto - 1],
            connector && upto == levels.len(),
        )
    } else {
        Seq::empty()
    }
}

/// What stands before the first line of a node: the columns of its
/// ancestors, then its own connector.
pub open spec fn connector_prefix(levels: Seq<Level>) -> Seq<char> {
    columns(levels, levels.len() as int, true)
}

/// What stands before every further line of a leaf: the columns of its
/// ancestors and its own, none of them a connector.
pub open spec fn continuation_prefix(levels: Seq<Level>) -> Seq<char> {
    columns(levels, levels.len() as int, false)
}

/// A text as a line of the drawing: a space, the text, a line break.
pub open spec fn text_line(text: Seq<char>) -> Seq<char> {
    seq![' '] + text + seq!['\n']
}

/// What a tree is, apart from how it is stored.
pub enum TreeView {
    Node { title: Seq<char>, children: Seq<TreeView>, color: Color, mode: ColorMode },
    Leaf { lines: Seq<Seq<char>> },
}

/// The level of the child at `index` among `count` children: the first child
/// counts all of them, the last child counts 1.
pub open spec fn child_level(count: nat, index: int, color: Color, mode: ColorMode) -> Level {
    Level { n: (count - index) as usize, color, cm: mode }
}

/// The first `upto` lines of a leaf. The first line follows the connector
/// prefix; each further line begins with `continuation`.
pub open spec fn leaf_lines(lines: Seq<Seq<char>>, continuation: Seq<char>, upto: int) -> Seq<char>
    decreases upto,
{
    if 0 < upto <= lines.len() {
        leaf_lines(lines, continuation, upto - 1) + (if upto == 1 {
            Seq::empty()
        } else {
            continuation
        }) + text_line(lines[upto - 1])
    } else {
        Seq::empty()
    }
}

/// The drawings of the first `upto` children of a node that is drawn under
/// `levels`, one after the other.
pub open spec fn rendered_children(
    children: Seq<TreeView>,
    color: Color,
    mode: ColorMode,
    levels: Seq<Level>,
    upto: int,
) -> Seq<char>
    decreases children, upto,
{
    if 0 < upto <= children.len() {
        rendered_children(children, color, mode, levels, upto - 1) + rendered(
            children[upto - 1],
            levels.push(child_level(children.len(), upto - 1, color, mode)),
        )
    } else {
        Seq::empty()
    }
}

/// The drawing of a tree whose root stands under `levels`.
///
/// A node is its connector prefix, its title as a line, and its children in
/// the order in which they were given. A leaf is its connector prefix and its
/// lines; a leaf without lines is its connector prefix alone.
pub open spec fn rendered(tree: TreeView, levels: Seq<Level>) -> Seq<char>
    decreases tree,
{
    match tree {
        TreeView::Node { title, children, color, mode } => connector_prefix(levels) + text_line(
            title,
        ) + rendered_children(children, color, mode, levels, children.len() as int),
        TreeView::Leaf { lines } => connector_prefix(levels) + leaf_lines(
            lines,
            continuation_prefix(levels),
            lines.len() as int,
        ),
    }
}

/// A tree, or a part of one.
#[derive(Debug)]
pub enum TreeNode {
    /// A root or a node between root and leaves: a title, the children in
    /// their order, and the colour and colour mode of the connectors of the
    /// children.
    Node(Text, Vec<TreeNode>, Color, ColorMode),
    /// A leaf: lines of text, no children.
    Leaf(Vec<Text>),
}

/// The view of a tree.
pub open spec fn tree_view(node: TreeNode) -> TreeView
    decreases node,
{
    match node {
        TreeNode::Node(title, children, color, cm) => TreeView::Node {
            title: title@,
            children: tree_views(children@),
            color,
            mode: cm,
        },
        TreeNode::Leaf(lines) => TreeView::Leaf { lines: text_views(lines@) },
    }
}

/// The views of `nodes`, in order.
pub open spec fn tree_views(nodes: Seq<TreeNode>) -> Seq<TreeView>
    decreases nodes,
{
    Seq::new(
        nodes.len(),
        |i: int|
            if 0 <= i < nodes.len() {
                tree_view(nodes[i])
            } else {
                arbitrary()
            },
    )
}

/// The views of `texts`, in order.
pub open spec fn text_views(texts: Seq<Text>) -> Seq<Seq<char>> {
    Seq::new(texts.len(), |i: int| texts[i]@)
}

impl View for TreeNode {
    type V = TreeView;

    open spec fn view(&self) -> TreeView {
        tree_view(*self)
    }
}

impl Clone for TreeNode {
    /// A tree of its own with the same titles, lines, colours and children.
    fn clone(&self) -> (r: TreeNode)
        ensures
            r@ == self@,
        decreases self,
    {
        match self {
            TreeNode::Node(title, children, color, cm) => {
                let mut copies: Vec<TreeNode> = Vec::new();
                let mut i: usize = 0;
                while i < children.len()
                    invariant
                        i <= children.len(),
                        *self matches TreeNode::Node(_, c, _, _) && c == *children,
                        copies@.len() == i,
                        forall|j: int| 0 <= j < i ==> (#[trigger] copies@[j])@ == children@[j]@,
                    decreases children.len() - i,
                {
                    copies.push(children[i].clone());
                    i += 1;
                }
                assert(tree_views(copies@) =~= tree_views(children@));
                TreeNode::Node(title.clone(), copies, *color, *cm)
            },
            TreeNode::Leaf(lines) => {
                let mut copies: Vec<Text> = Vec::new();
                let mut i: usize = 0;
                while i < lines.len()
                    invariant
                        i <= lines.len(),
                        copies@.len() == i,
                        forall|j: int| 0 <= j < i ==> (#[trigger] copies@[j])@ == lines@[j]@,
                    decreases lines.len() - i,
                {
                    copies.push(lines[i].clone());
                    i += 1;
                }
                assert(text_views(copies@) =~= text_views(lines@));
                TreeNode::Leaf(copies)
            },
        }
    }
}

/// The columns of fewer levels begin the columns of more.
proof fn lemma_columns_grow(levels: Seq<Level>, a: int, b: int)
    requires
        0 <= a <= b <= levels.len(),
    ensures
        columns(levels, a, true).is_prefix_of(columns(levels, b, true)),
    decreases b - a,
{
    if a < b {
        lemma_columns_grow(levels, a, b - 1);
        lemma_prefix_extend(
            columns(levels, a, true),
            columns(levels, b - 1, true),
            column(levels[b - 1], b == levels.len()),
        );
    } else {
        assert(columns(levels, a, true) =~= columns(levels, b, true).subrange(
            0,
            columns(levels, a, true).len() as int,
        ));
    }
}

/// The drawings of fewer children begin the drawings of more.
proof fn lemma_children_grow(
    children: Seq<TreeView>,
    color: Color,
    mode: ColorMode,
    levels: Seq<Level>,
    a: int,
    b: int,
)
    requires
        0 <= a <= b <= children.len(),
    ensures
        rendered_children(children, color, mode, levels, a).is_prefix_of(
            rendered_children(children, color, mode, levels, b),
        ),
    decreases b - a,
{
    let fewer = rendered_children(children, color, mode, levels, a);
    if a < b {
        lemma_children_grow(children, color, mode, levels, a, b - 1);
        lemma_prefix_extend(
            fewer,
            rendered_children(children, color, mode, levels, b - 1),
            rendered(children[b - 1], levels.push(child_level(children.len(), b - 1, color, mode))),
        );
    } else {
        assert(fewer =~= fewer.subrange(0, fewer.len() as int));
    }
}

/// Fewer lines of a leaf begin more of them.
proof fn lemma_leaf_lines_grow(lines: Seq<Seq<char>>, continuation: Seq<char>, a: int, b: int)
    requires
        0 <= a <= b <= lines.len(),
    ensures
        leaf_lines(lines, continuation, a).is_prefix_of(leaf_lines(lines, continuation, b)),
    decreases b - a,
{
    let fewer = leaf_lines(lines, continuation, a);
    if a < b {
        lemma_leaf_lines_grow(lines, continuation, a, b - 1);
        let first = leaf_lines(lines, continuation, b - 1);
        let lead = if b == 1 {
            Seq::<char>::empty()
        } else {
            continuation
        };
        lemma_prefix_extend(fewer, first, lead);
        lemma_prefix_extend(fewer, first + lead, text_line(lines[b - 1]));
    } else {
        assert(fewer =~= fewer.subrange(0, fewer.len() as int));
    }
}

/// A drawing begins with the columns of the levels above it.
proof fn lemma_drawing_begins(tree: TreeView, levels: Seq<Level>, upto: int)
    requires
        0 <= upto <= levels.len(),
    ensures
        columns(levels, upto, true).is_prefix_of(rendered(tree, levels)),
{
    let prefix = connector_prefix(levels);
    lemma_columns_grow(levels, upto, levels.len() as int);
    match tree {
        TreeView::Node { title, children, color, mode } => {
            lemma_prefix_extend(columns(levels, upto, true), prefix, text_line(title));
            lemma_prefix_extend(
                columns(levels, upto, true),
                prefix + text_line(title),
                rendered_children(children, color, mode, levels, children.len() as int),
            );
        },
        TreeView::Leaf { lines } => {
            lemma_prefix_extend(
                columns(levels, upto, true),
                prefix,
                leaf_lines(lines, continuation_prefix(levels), lines.len() as int),
            );
        },
    }
}

/// The drawing of a node begins with its title and its first children.
proof fn lemma_node_begins(tree: TreeView, levels: Seq<Level>, upto: int)
    requires
        tree is Node,
        0 <= upto <= tree->children.len(),
    ensures
        (connector_prefix(levels) + text_line(tree->title) + rendered_children(
            tree->children,
            tree->color,
            tree->mode,
            levels,
            upto,
        )).is_prefix_of(rendered(tree, levels)),
{
    lemma_children_grow(
        tree->children,
        tree->color,
        tree->mode,
        levels,
        upto,
        tree->children.len() as int,
    );
    lemma_prefix_after(
        connector_prefix(levels) + text_line(tree->title),
        rendered_children(tree->children, tree->color, tree->mode, levels, upto),
        rendered_children(
            tree->children,
            tree->color,
            tree->mode,
            levels,
            tree->children.len() as int,
        ),
    );
}

/// The drawing of a leaf begins with its first lines.
proof fn lemma_leaf_begins(tree: TreeView, levels: Seq<Level>, upto: int)
    requires
        tree is Leaf,
        0 <= upto <= tree->lines.len(),
    ensures
        (connector_prefix(levels) + leaf_lines(
            tree->lines,
            continuation_prefix(levels),
            upto,
        )).is_prefix_of(rendered(tree, levels)),
{
    lemma_leaf_lines_grow(
        tree->lines,
        continuation_prefix(levels),
        upto,
        tree->lines.len() as int,
    );
    lemma_prefix_after(
        connector_prefix(levels),
        leaf_lines(tree->lines, continuation_prefix(levels), upto),
        leaf_lines(tree->lines, continuation_prefix(levels), tree->lines.len() as int),
    );
}

/// The cells of a level as a string.
fn cell_str(n: usize, connector: bool) -> (r: &'static str)
    ensures
        r@ == cell(n, connector),
{
    proof {
        reveal_strlit("   ");
        reveal_strlit(" └─");
        reveal_strlit(" │ ");
        reveal_strlit(" ├─");
    }
    if n == 1 {
        if !connector {
            NONE
        } else {
            EDGE
        }
    } else {
        if !connector {
            PIPE
        } else {
            FORK
        }
    }
}

/// The column of a level as a string.
fn column_string(level: &Level, connector: bool) -> (r: String)
    ensures
        r@ == column(*level, connector),
        r@.len() >= 3,
{
    let mut out = level.cm.color(level.color);
    out.append(cell_str(level.n, connector));
    out.append(level.cm.clear());
    out
}

/// A text as a line of the drawing, after `lead`.
fn line_string(lead: &str, text: &Text) -> (r: String)
    ensures
        r@ == lead@ + text_line(text@),
        r@.len() >= 2,
{
    proof {
        reveal_strlit(" ");
        reveal_strlit("\n");
    }
    let mut line = String::from_str(lead);
    line.append(" ");
    line.append(text.as_str());
    line.append("\n");
    assert(line@ =~= lead@ + text_line(text@));
    line
}

impl TreeNode {
    /// Writes the drawing of the tree to `f`.
    pub fn write<S: TextSink>(&self, f: &mut S) -> (r: Result<(), WriteError>)
        ensures
            delivered(*old(f), *final(f), rendered(self@, Seq::empty()), r is Ok),
    {
        Self::write_node(f, self, Vec::new())
    }

    /// Writes the drawing of the tree to `f`, moved to the right by `indent`
    /// spaces: the tree is drawn first, then every line of the drawing is
    /// written with the margin before it and a line break after it.
    pub fn write_indent<S: TextSink>(&self, f: &mut S, indent: usize) -> (r: Result<
        (),
        WriteError,
    >)
        ensures
            delivered(
                *old(f),
                *final(f),
                indented(rendered(self@, Seq::empty()), spaces(indent as nat)),
                r is Ok,
            ),
    {
        let mut tree = String::new();
        Self::write_node(&mut tree, self, Vec::new())?;
        let indent = spaces_string(indent);
        write_indented(f, tree.as_str(), indent.as_str())
    }

    /// The drawing of the tree as a string.
    pub fn to_string(&self) -> (r: String)
        ensures
            r@ == rendered(self@, Seq::empty()),
    {
        let mut tree = String::new();
        let _ = Self::write_node(&mut tree, self, Vec::new());
        tree
    }

    /// Writes the drawing of `node`, which stands under `levels`.
    fn write_node<S: TextSink>(f: &mut S, node: &TreeNode, levels: Vec<Level>) -> (r: Result<
        (),
        WriteError,
    >)
        ensures
            delivered(*old(f), *final(f), rendered(node@, levels@), r is Ok),
        decreases node,
    {
        let ghost start = *f;
        let ghost plan = rendered(node@, levels@);
        // display lines
        let max_pos = levels.len();
        let mut second_line = String::new();
        let mut pos: usize = 0;
        proof {
            assert(f.text() =~= start.text() + columns(levels@, 0, true));
        }
        while pos < max_pos
            invariant
                pos <= max_pos == levels@.len(),
                start == *old(f),
                plan == rendered(node@, levels@),
                f.text() == start.text() + columns(levels@, pos as int, true),
                second_line@ == columns(levels@, pos as int, false),
                start.reliable() ==> f.reliable(),
            decreases max_pos - pos,
        {
            let last_row = pos == max_pos - 1;
            let piece = column_string(&levels[pos], last_row);
            proof {
                lemma_drawing_begins(node@, levels@, pos as int + 1);
            }
            write_part(
                f,
                piece.as_str(),
                Ghost(start),
                Ghost(columns(levels@, pos as int, true)),
                Ghost(plan),
            )?;
            let rest = column_string(&levels[pos], false);
            second_line.append(rest.as_str());
            pos += 1;
        }
        let ghost prefix = connector_prefix(levels@);
        // traverse child nodes
        match node {
            TreeNode::Node(title, children, color, cm) => {
                let mut deep = children.len();
                let head = line_string("", title);
                let ghost kids = tree_views(children@);
                proof {
                    reveal_strlit("");
                    assert(head@ =~= text_line(title@));
                    lemma_node_begins(node@, levels@, 0);
                    assert(prefix + head@ =~= prefix + text_line(title@) + rendered_children(
                        kids,
                        *color,
                        *cm,
                        levels@,
                        0,
                    ));
                }
                write_part(f, head.as_str(), Ghost(start), Ghost(prefix), Ghost(plan))?;
                let mut i: usize = 0;
                while i < children.len()
                    invariant
                        i <= children.len(),
                        deep == children.len() - i,
                        *node matches TreeNode::Node(t, c, k, m) && t == *title && c == *children
                            && k == *color && m == *cm,
                        kids == tree_views(children@),
                        start == *old(f),
                        plan == rendered(node@, levels@),
                        f.text() == start.text() + (prefix + head@ + rendered_children(
                            kids,
                            *color,
                            *cm,
                            levels@,
                            i as int,
                        )),
                        head@ == text_line(title@),
                        prefix == connector_prefix(levels@),
                        start.reliable() ==> f.reliable(),
                    decreases children.len() - i,
                {
                    let mut level_next = levels.clone();
                    level_next.push(Level { n: deep, color: *color, cm: *cm });
                    deep -= 1;
                    let ghost done = prefix + head@ + rendered_children(
                        kids,
                        *color,
                        *cm,
                        levels@,
                        i as int,
                    );
                    let ghost piece = rendered(children@[i as int]@, level_next@);
                    proof {
                        assert(level_next@ =~= levels@.push(
                            child_level(kids.len(), i as int, *color, *cm),
                        ));
                        lemma_node_begins(node@, levels@, i as int + 1);
                        assert(done + piece =~= prefix + head@ + rendered_children(
                            kids,
                            *color,
                            *cm,
                            levels@,
                            i as int + 1,
                        ));
                    }
                    let r = Self::write_node(f, &children[i], level_next);
                    if r.is_err() {
                        proof {
                            lemma_interrupted_within(start.text(), done, piece, f.text(), plan);
                        }
                        return r;
                    }
                    proof {
                        assert(f.text() =~= start.text() + (done + piece));
                    }
                    i += 1;
                }
                proof {
                    assert(f.text() =~= start.text() + plan);
                }
            },
            TreeNode::Leaf(lines) => {
                let ghost texts = text_views(lines@);
                proof {
                    assert(f.text() =~= start.text() + (prefix + leaf_lines(
                        texts,
                        second_line@,
                        0,
                    )));
                }
                let mut i: usize = 0;
                while i < lines.len()
                    invariant
                        i <= lines.len(),
                        *node matches TreeNode::Leaf(l) && l == *lines,
                        texts == text_views(lines@),
                        start == *old(f),
                        plan == rendered(node@, levels@),
                        prefix == connector_prefix(levels@),
                        second_line@ == continuation_prefix(levels@),
                        f.text() == start.text() + (prefix + leaf_lines(
                            texts,
                            second_line@,
                            i as int,
                        )),
                        start.reliable() ==> f.reliable(),
                    decreases lines.len() - i,
                {
                    let line = match i {
                        0 => line_string("", &lines[i]),
                        _ => line_string(second_line.as_str(), &lines[i]),
                    };
                    let ghost done = prefix + leaf_lines(texts, second_line@, i as int);
                    proof {
                        reveal_strlit("");
                        lemma_leaf_begins(node@, levels@, i as int + 1);
                        assert(done + line@ =~= prefix + leaf_lines(
                            texts,
                            second_line@,
                            i as int + 1,
                        ));
                    }
                    write_part(f, line.as_str(), Ghost(start), Ghost(done), Ghost(plan))?;
                    i += 1;
                }
                proof {
                    assert(f.text() =~= start.text() + plan);
                }
            },
        }
        Ok(())
    }
}

} // verus!
