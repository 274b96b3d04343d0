//! Builders of trees: a tree is put together from the leaves up, each node
//! and each leaf by a builder of its own, and each title and line by a
//! builder that composes a styled text.

use vstd::prelude::*;
use crate::colors::{Color, ColorMode, RgbColor};
use crate::text::{StyledText, Text};
use crate::tree::{text_views, tree_views, TreeNode, TreeView};

verus! {

/// Starts a node whose children are connected in `color`.
pub fn node(color: Color, cm: ColorMode) -> (r: NodeBuilder)
    ensures
        r.title() == Seq::<char>::empty(),
        r.children() == Seq::<TreeView>::empty(),
        r.connector_color() == color,
        r.mode() == cm,
{
    NodeBuilder::new(color, cm)
}

/// Starts a leaf.
pub fn leaf(cm: ColorMode) -> (r: LeafBuilder)
    ensures
        r.lines() == Seq::<Seq<char>>::empty(),
        r.mode() == cm,
{
    LeafBuilder::new(cm)
}

/// Copies of `texts`.
fn clone_texts(texts: &Vec<Text>) -> (r: Vec<Text>)
    ensures
        text_views(r@) == text_views(texts@),
{
    let copies = texts.clone();
    assert(text_views(copies@) =~= text_views(texts@));
    copies
}

/// Copies of `nodes`.
fn clone_nodes(nodes: &Vec<TreeNode>) -> (r: Vec<TreeNode>)
    ensures
        tree_views(r@) == tree_views(nodes@),
{
    let copies = nodes.clone();
    assert(tree_views(copies@) =~= tree_views(nodes@));
    copies
}

/// Builder of a leaf: the lines are given one after the other.
#[derive(Debug)]
pub struct LeafBuilder {
    /// The colour mode in which the lines are composed.
    cm: ColorMode,
    /// The lines given so far.
    lines: Vec<Text>,
}

impl Clone for LeafBuilder {
    /// A builder of its own that holds the same lines.
    fn clone(&self) -> (r: Self)
        ensures
            r.lines() == self.lines(),
            r.mode() == self.mode(),
    {
        LeafBuilder { cm: self.cm, lines: clone_texts(&self.lines) }
    }
}

impl LeafBuilder {
    /// The colour mode in which the lines are composed.
    pub closed spec fn mode(&self) -> ColorMode {
        self.cm
    }

    /// The lines given so far.
    pub closed spec fn lines(&self) -> Seq<Seq<char>> {
        text_views(self.lines@)
    }

    /// A builder of a leaf without lines.
    pub fn new(cm: ColorMode) -> (r: Self)
        ensures
            r.lines() == Seq::<Seq<char>>::empty(),
            r.mode() == cm,
    {
        Self { cm, lines: Vec::new() }
    }

    /// Begins the next line.
    pub fn line(self) -> (r: LeafLineBuilder)
        ensures
            r.lines() == self.lines(),
            r.content() == Seq::<char>::empty(),
            r.mode() == self.mode(),
    {
        LeafLineBuilder { cm: self.cm, lines: self.lines, text: Text::new(self.cm) }
    }

    /// Adds a line.
    pub fn add_line(&mut self, line: Text)
        ensures
            final(self).lines() == old(self).lines().push(line@),
            final(self).mode() == old(self).mode(),
    {
        self.lines.push(line);
        assert(text_views(self.lines@) =~= text_views(old(self).lines@).push(line@));
    }

    /// The leaf with the lines given.
    pub fn end(self) -> (r: TreeNode)
        ensures
            r@ == (TreeView::Leaf { lines: self.lines() }),
    {
        TreeNode::Leaf(self.lines)
    }
}

/// Builder of one line of a leaf: the line is composed as a styled text.
#[derive(Debug)]
pub struct LeafLineBuilder {
    /// The colour mode of the leaf.
    cm: ColorMode,
    /// The lines of the leaf before this one.
    lines: Vec<Text>,
    /// The line composed so far.
    text: Text,
}

impl Clone for LeafLineBuilder {
    /// A builder of its own that holds the same lines and the same line
    /// under composition.
    fn clone(&self) -> (r: Self)
        ensures
            r.content() == self.content(),
            r.mode() == self.mode(),
            self.same_frame(&r),
    {
        proof {
            use_type_invariant(self);
        }
        LeafLineBuilder { cm: self.cm, lines: clone_texts(&self.lines), text: self.text.clone() }
    }
}

impl LeafLineBuilder {
    /// The line is composed in the colour mode of the leaf.
    #[verifier::type_invariant]
    spec fn composed_in_mode(&self) -> bool {
        self.text.color_mode() == self.cm
    }

    /// The lines of the leaf before the one that is being composed.
    pub closed spec fn lines(&self) -> Seq<Seq<char>> {
        text_views(self.lines@)
    }

    /// Ends the line: it is now the last line of the leaf.
    pub fn end(self) -> (r: LeafBuilder)
        ensures
            r.lines() == self.lines().push(self.content()),
            r.mode() == self.mode(),
    {
        let mut lines = self.lines;
        lines.push(self.text);
        assert(text_views(lines@) =~= text_views(self.lines@).push(self.text@));
        LeafBuilder { cm: self.cm, lines }
    }
}

impl StyledText for LeafLineBuilder {
    closed spec fn content(&self) -> Seq<char> {
        self.text@
    }

    closed spec fn mode(&self) -> ColorMode {
        self.cm
    }

    open spec fn same_frame(&self, other: &Self) -> bool {
        self.lines() == other.lines()
    }

    fn s(self, s: &str) -> (r: Self) {
        proof {
            use_type_invariant(&self);
        }
        LeafLineBuilder { cm: self.cm, lines: self.lines, text: self.text.s(s) }
    }

    fn nl(self) -> (r: Self) {
        proof {
            use_type_invariant(&self);
        }
        LeafLineBuilder { cm: self.cm, lines: self.lines, text: self.text.nl() }
    }

    fn space(self) -> (r: Self) {
        proof {
            use_type_invariant(&self);
        }
        LeafLineBuilder { cm: self.cm, lines: self.lines, text: self.text.space() }
    }

    fn spaces(self, n: usize) -> (r: Self) {
        proof {
            use_type_invariant(&self);
        }
        LeafLineBuilder { cm: self.cm, lines: self.lines, text: self.text.spaces(n) }
    }

    fn dot(self) -> (r: Self) {
        proof {
            use_type_invariant(&self);
        }
        LeafLineBuilder { cm: self.cm, lines: self.lines, text: self.text.dot() }
    }

    fn colon(self) -> (r: Self) {
        proof {
            use_type_invariant(&self);
        }
        LeafLineBuilder { cm: self.cm, lines: self.lines, text: self.text.colon() }
    }

    fn slash(self) -> (r: Self) {
        proof {
            use_type_invariant(&self);
        }
        LeafLineBuilder { cm: self.cm, lines: self.lines, text: self.text.slash() }
    }

    fn dots(self) -> (r: Self) {
        proof {
            use_type_invariant(&self);
        }
        LeafLineBuilder { cm: self.cm, lines: self.lines, text: self.text.dots() }
    }

    fn plural(self, s: &str, n: usize) -> (r: Self) {
        proof {
            use_type_invariant(&self);
        }
        LeafLineBuilder { cm: self.cm, lines: self.lines, text: self.text.plural(s, n) }
    }

    fn black(self) -> (r: Self) {
        proof {
            use_type_invariant(&self);
        }
        LeafLineBuilder { cm: self.cm, lines: self.lines, text: self.text.black() }
    }

    fn red(self) -> (r: Self) {
        proof {
            use_type_invariant(&self);
        }
        LeafLineBuilder { cm: self.cm, lines: self.lines, text: self.text.red() }
    }

    fn green(self) -> (r: Self) {
        proof {
            use_type_invariant(&self);
        }
        LeafLineBuilder { cm: self.cm, lines: self.lines, text: self.text.green() }
    }

    fn yellow(self) -> (r: Self) {
        proof {
            use_type_invariant(&self);
        }
        LeafLineBuilder { cm: self.cm, lines: self.lines, text: self.text.yellow() }
    }

    fn blue(self) -> (r: Self) {
        proof {
            use_type_invariant(&self);
        }
        LeafLineBuilder { cm: self.cm, lines: self.lines, text: self.text.blue() }
    }

    fn magenta(self) -> (r: Self) {
        proof {
            use_type_invariant(&self);
        }
        LeafLineBuilder { cm: self.cm, lines: self.lines, text: self.text.magenta() }
    }

    fn cyan(self) -> (r: Self) {
        proof {
            use_type_invariant(&self);
        }
        LeafLineBuilder { cm: self.cm, lines: self.lines, text: self.text.cyan() }
    }

    fn white(self) -> (r: Self) {
        proof {
            use_type_invariant(&self);
        }
        LeafLineBuilder { cm: self.cm, lines: self.lines, text: self.text.white() }
    }

    fn bg_black(self) -> (r: Self) {
        proof {
            use_type_invariant(&self);
        }
        LeafLineBuilder { cm: self.cm, lines: self.lines, text: self.text.bg_black() }
    }

    fn bg_red(self) -> (r: Self) {
        proof {
            use_type_invariant(&self);
        }
        LeafLineBuilder { cm: self.cm, lines: self.lines, text: self.text.bg_red() }
    }

    fn bg_green(self) -> (r: Self) {
        proof {
            use_type_invariant(&self);
        }
        LeafLineBuilder { cm: self.cm, lines: self.lines, text: self.text.bg_green() }
    }

    fn bg_yellow(self) -> (r: Self) {
        proof {
            use_type_invariant(&self);
        }
        LeafLineBuilder { cm: self.cm, lines: self.lines, text: self.text.bg_yellow() }
    }

    fn bg_blue(self) -> (r: Self) {
        proof {
            use_type_invariant(&self);
        }
        LeafLineBuilder { cm: self.cm, lines: self.lines, text: self.text.bg_blue() }
    }

    fn bg_magenta(self) -> (r: Self) {
        proof {
            use_type_invariant(&self);
        }
        LeafLineBuilder { cm: self.cm, lines: self.lines, text: self.text.bg_magenta() }
    }

    fn bg_cyan(self) -> (r: Self) {
        proof {
            use_type_invariant(&self);
        }
        LeafLineBuilder { cm: self.cm, lines: self.lines, text: self.text.bg_cyan() }
    }

    fn bg_white(self) -> (r: Self) {
        proof {
            use_type_invariant(&self);
        }
        LeafLineBuilder { cm: self.cm, lines: self.lines, text: self.text.bg_white() }
    }

    fn color(self, c: Color) -> (r: Self) {
        proof {
            use_type_invariant(&self);
        }
        LeafLineBuilder { cm: self.cm, lines: self.lines, text: self.text.color(c) }
    }

    fn bg_color(self, c: Color) -> (r: Self) {
        proof {
            use_type_invariant(&self);
        }
        LeafLineBuilder { cm: self.cm, lines: self.lines, text: self.text.bg_color(c) }
    }

    fn color_8(self, c: u8) -> (r: Self) {
        proof {
            use_type_invariant(&self);
        }
        LeafLineBuilder { cm: self.cm, lines: self.lines, text: self.text.color_8(c) }
    }

    fn bg_color_8(self, c: u8) -> (r: Self) {
        proof {
            use_type_invariant(&self);
        }
        LeafLineBuilder { cm: self.cm, lines: self.lines, text: self.text.bg_color_8(c) }
    }

    fn color_256(self, c: u8) -> (r: Self) {
        proof {
            use_type_invariant(&self);
        }
        LeafLineBuilder { cm: self.cm, lines: self.lines, text: self.text.color_256(c) }
    }

    fn bg_color_256(self, c: u8) -> (r: Self) {
        proof {
            use_type_invariant(&self);
        }
        LeafLineBuilder { cm: self.cm, lines: self.lines, text: self.text.bg_color_256(c) }
    }

    fn color_rgb(self, c: RgbColor) -> (r: Self) {
        proof {
            use_type_invariant(&self);
        }
        LeafLineBuilder { cm: self.cm, lines: self.lines, text: self.text.color_rgb(c) }
    }

    fn bg_color_rgb(self, c: RgbColor) -> (r: Self) {
        proof {
            use_type_invariant(&self);
        }
        LeafLineBuilder { cm: self.cm, lines: self.lines, text: self.text.bg_color_rgb(c) }
    }

    fn bold(self) -> (r: Self) {
        proof {
            use_type_invariant(&self);
        }
        LeafLineBuilder { cm: self.cm, lines: self.lines, text: self.text.bold() }
    }

    fn italic(self) -> (r: Self) {
        proof {
            use_type_invariant(&self);
        }
        LeafLineBuilder { cm: self.cm, lines: self.lines, text: self.text.italic() }
    }

    fn underline(self) -> (r: Self) {
        proof {
            use_type_invariant(&self);
        }
        LeafLineBuilder { cm: self.cm, lines: self.lines, text: self.text.underline() }
    }

    fn clear(self) -> (r: Self) {
        proof {
            use_type_invariant(&self);
        }
        LeafLineBuilder { cm: self.cm, lines: self.lines, text: self.text.clear() }
    }
}

/// Builder of a node: a title, and the children one after the other.
#[derive(Debug)]
pub struct NodeBuilder {
    /// The colour of the connectors of the children.
    color: Color,
    /// The colour mode of the connectors and of the title.
    cm: ColorMode,
    /// The title.
    line: Text,
    /// The children given so far.
    children: Vec<TreeNode>,
}

impl Clone for NodeBuilder {
    /// A builder of its own that holds the same title and copies of the
    /// children.
    fn clone(&self) -> (r: Self)
        ensures
            r.title() == self.title(),
            r.children() == self.children(),
            r.connector_color() == self.connector_color(),
            r.mode() == self.mode(),
    {
        NodeBuilder {
            color: self.color,
            cm: self.cm,
            line: self.line.clone(),
            children: clone_nodes(&self.children),
        }
    }
}

impl NodeBuilder {
    /// The colour of the connectors of the children.
    pub closed spec fn connector_color(&self) -> Color {
        self.color
    }

    /// The colour mode of the connectors, in which the title is composed
    /// too.
    pub closed spec fn mode(&self) -> ColorMode {
        self.cm
    }

    /// The title given so far.
    pub closed spec fn title(&self) -> Seq<char> {
        self.line@
    }

    /// The children given so far.
    pub closed spec fn children(&self) -> Seq<TreeView> {
        tree_views(self.children@)
    }

    /// A builder of a node with an empty title and without children.
    pub fn new(color: Color, cm: ColorMode) -> (r: Self)
        ensures
            r.title() == Seq::<char>::empty(),
            r.children() == Seq::<TreeView>::empty(),
            r.connector_color() == color,
            r.mode() == cm,
    {
        Self { color, cm, line: Text::new(cm), children: Vec::new() }
    }

    /// Begins the title anew.
    pub fn line(self) -> (r: NodeLineBuilder)
        ensures
            r.content() == Seq::<char>::empty(),
            r.children() == self.children(),
            r.connector_color() == self.connector_color(),
            r.mode() == self.mode(),
    {
        NodeLineBuilder {
            color: self.color,
            cm: self.cm,
            children: self.children,
            text: Text::new(self.cm),
        }
    }

    /// Sets the title.
    pub fn set_line(&mut self, line: Text)
        ensures
            final(self).title() == line@,
            final(self).children() == old(self).children(),
            final(self).connector_color() == old(self).connector_color(),
            final(self).mode() == old(self).mode(),
    {
        self.line = line;
    }

    /// Adds a child after those given before.
    pub fn child(self, child: TreeNode) -> (r: Self)
        ensures
            r.children() == self.children().push(child@),
            r.title() == self.title(),
            r.connector_color() == self.connector_color(),
            r.mode() == self.mode(),
    {
        let mut builder = self;
        builder.add_child(child);
        builder
    }

    /// Adds a child after those given before.
    pub fn add_child(&mut self, child: TreeNode)
        ensures
            final(self).children() == old(self).children().push(child@),
            final(self).title() == old(self).title(),
            final(self).connector_color() == old(self).connector_color(),
            final(self).mode() == old(self).mode(),
    {
        self.children.push(child);
        assert(tree_views(self.children@) =~= tree_views(old(self).children@).push(child@));
    }

    /// Adds a child if there is one.
    pub fn opt_child(self, opt_child: Option<TreeNode>) -> (r: Self)
        ensures
            r.children() == (match opt_child {
                Some(child) => self.children().push(child@),
                None => self.children(),
            }),
            r.title() == self.title(),
            r.connector_color() == self.connector_color(),
            r.mode() == self.mode(),
    {
        let mut builder = self;
        builder.add_opt_child(opt_child);
        builder
    }

    /// Adds a child if there is one.
    pub fn add_opt_child(&mut self, opt_child: Option<TreeNode>)
        ensures
            final(self).children() == (match opt_child {
                Some(child) => old(self).children().push(child@),
                None => old(self).children(),
            }),
            final(self).title() == old(self).title(),
            final(self).connector_color() == old(self).connector_color(),
            final(self).mode() == old(self).mode(),
    {
        if let Some(child) = opt_child {
            self.add_child(child);
        }
    }

    /// The node with the title and the children given.
    pub fn end(self) -> (r: TreeNode)
        ensures
            r@ == (TreeView::Node {
                title: self.title(),
                children: self.children(),
                color: self.connector_color(),
                mode: self.mode(),
            }),
    {
        TreeNode::Node(self.line, self.children, self.color, self.cm)
    }
}

/// Builder of the title of a node: the title is composed as a styled text.
#[derive(Debug)]
pub struct NodeLineBuilder {
    /// The colour of the connectors of the children.
    color: Color,
    /// The colour mode of the node.
    cm: ColorMode,
    /// The children given so far.
    children: Vec<TreeNode>,
    /// The title composed so far.
    text: Text,
}

impl Clone for NodeLineBuilder {
    /// A builder of its own that holds copies of the children and the same
    /// title under composition.
    fn clone(&self) -> (r: Self)
        ensures
            r.content() == self.content(),
            r.mode() == self.mode(),
            self.same_frame(&r),
    {
        proof {
            use_type_invariant(self);
        }
        NodeLineBuilder {
            color: self.color,
            cm: self.cm,
            children: clone_nodes(&self.children),
            text: self.text.clone(),
        }
    }
}

impl NodeLineBuilder {
    /// The title is composed in the colour mode of the node.
    #[verifier::type_invariant]
    spec fn composed_in_mode(&self) -> bool {
        self.text.color_mode() == self.cm
    }

    /// The colour of the connectors of the children.
    pub closed spec fn connector_color(&self) -> Color {
        self.color
    }

    /// The children given so far.
    pub closed spec fn children(&self) -> Seq<TreeView> {
        tree_views(self.children@)
    }

    /// Ends the title.
    pub fn end(self) -> (r: NodeBuilder)
        ensures
            r.title() == self.content(),
            r.children() == self.children(),
            r.connector_color() == self.connector_color(),
            r.mode() == self.mode(),
    {
        NodeBuilder { color: self.color, cm: self.cm, line: self.text, children: self.children }
    }
}

impl StyledText for NodeLineBuilder {
    closed spec fn content(&self) -> Seq<char> {
        self.text@
    }

    closed spec fn mode(&self) -> ColorMode {
        self.cm
    }

    open spec fn same_frame(&self, other: &Self) -> bool {
        self.children() == other.children() && self.connector_color() == other.connector_color()
    }

    fn s(self, s: &str) -> (r: Self) {
        proof {
            use_type_invariant(&self);
        }
        NodeLineBuilder { color: self.color, cm: self.cm, children: self.children, text: self.text.s(s) }
    }

    fn nl(self) -> (r: Self) {
        proof {
            use_type_invariant(&self);
        }
        NodeLineBuilder { color: self.color, cm: self.cm, children: self.children, text: self.text.nl() }
    }

    fn space(self) -> (r: Self) {
        proof {
            use_type_invariant(&self);
        }
        NodeLineBuilder { color: self.color, cm: self.cm, children: self.children, text: self.text.space() }
    }

    fn spaces(self, n: usize) -> (r: Self) {
        proof {
            use_type_invariant(&self);
        }
        NodeLineBuilder { color: self.color, cm: self.cm, children: self.children, text: self.text.spaces(n) }
    }

    fn dot(self) -> (r: Self) {
        proof {
            use_type_invariant(&self);
        }
        NodeLineBuilder { color: self.color, cm: self.cm, children: self.children, text: self.text.dot() }
    }

    fn colon(self) -> (r: Self) {
        proof {
            use_type_invariant(&self);
        }
        NodeLineBuilder { color: self.color, cm: self.cm, children: self.children, text: self.text.colon() }
    }

    fn slash(self) -> (r: Self) {
        proof {
            use_type_invariant(&self);
        }
        NodeLineBuilder { color: self.color, cm: self.cm, children: self.children, text: self.text.slash() }
    }

    fn dots(self) -> (r: Self) {
        proof {
            use_type_invariant(&self);
        }
        NodeLineBuilder { color: self.color, cm: self.cm, children: self.children, text: self.text.dots() }
    }

    fn plural(self, s: &str, n: usize) -> (r: Self) {
        proof {
            use_type_invariant(&self);
        }
        NodeLineBuilder { color: self.color, cm: self.cm, children: self.children, text: self.text.plural(s, n) }
    }

    fn black(self) -> (r: Self) {
        proof {
            use_type_invariant(&self);
        }
        NodeLineBuilder { color: self.color, cm: self.cm, children: self.children, text: self.text.black() }
    }

    fn red(self) -> (r: Self) {
        proof {
            use_type_invariant(&self);
        }
        NodeLineBuilder { color: self.color, cm: self.cm, children: self.children, text: self.text.red() }
    }

    fn green(self) -> (r: Self) {
        proof {
            use_type_invariant(&self);
        }
        NodeLineBuilder { color: self.color, cm: self.cm, children: self.children, text: self.text.green() }
    }

    fn yellow(self) -> (r: Self) {
        proof {
            use_type_invariant(&self);
        }
        NodeLineBuilder { color: self.color, cm: self.cm, children: self.children, text: self.text.yellow() }
    }

    fn blue(self) -> (r: Self) {
        proof {
            use_type_invariant(&self);
        }
        NodeLineBuilder { color: self.color, cm: self.cm, children: self.children, text: self.text.blue() }
    }

    fn magenta(self) -> (r: Self) {
        proof {
            use_type_invariant(&self);
        }
        NodeLineBuilder { color: self.color, cm: self.cm, children: self.children, text: self.text.magenta() }
    }

    fn cyan(self) -> (r: Self) {
        proof {
            use_type_invariant(&self);
        }
        NodeLineBuilder { color: self.color, cm: self.cm, children: self.children, text: self.text.cyan() }
    }

    fn white(self) -> (r: Self) {
        proof {
            use_type_invariant(&self);
        }
        NodeLineBuilder { color: self.color, cm: self.cm, children: self.children, text: self.text.white() }
    }

    fn bg_black(self) -> (r: Self) {
        proof {
            use_type_invariant(&self);
        }
        NodeLineBuilder { color: self.color, cm: self.cm, children: self.children, text: self.text.bg_black() }
    }

    fn bg_red(self) -> (r: Self) {
        proof {
            use_type_invariant(&self);
        }
        NodeLineBuilder { color: self.color, cm: self.cm, children: self.children, text: self.text.bg_red() }
    }

    fn bg_green(self) -> (r: Self) {
        proof {
            use_type_invariant(&self);
        }
        NodeLineBuilder { color: self.color, cm: self.cm, children: self.children, text: self.text.bg_green() }
    }

    fn bg_yellow(self) -> (r: Self) {
        proof {
            use_type_invariant(&self);
        }
        NodeLineBuilder { color: self.color, cm: self.cm, children: self.children, text: self.text.bg_yellow() }
    }

    fn bg_blue(self) -> (r: Self) {
        proof {
            use_type_invariant(&self);
        }
        NodeLineBuilder { color: self.color, cm: self.cm, children: self.children, text: self.text.bg_blue() }
    }

    fn bg_magenta(self) -> (r: Self) {
        proof {
            use_type_invariant(&self);
        }
        NodeLineBuilder { color: self.color, cm: self.cm, children: self.children, text: self.text.bg_magenta() }
    }

    fn bg_cyan(self) -> (r: Self) {
        proof {
            use_type_invariant(&self);
        }
        NodeLineBuilder { color: self.color, cm: self.cm, children: self.children, text: self.text.bg_cyan() }
    }

    fn bg_white(self) -> (r: Self) {
        proof {
            use_type_invariant(&self);
        }
        NodeLineBuilder { color: self.color, cm: self.cm, children: self.children, text: self.text.bg_white() }
    }

    fn color(self, c: Color) -> (r: Self) {
        proof {
            use_type_invariant(&self);
        }
        NodeLineBuilder { color: self.color, cm: self.cm, children: self.children, text: self.text.color(c) }
    }

    fn bg_color(self, c: Color) -> (r: Self) {
        proof {
            use_type_invariant(&self);
        }
        NodeLineBuilder { color: self.color, cm: self.cm, children: self.children, text: self.text.bg_color(c) }
    }

    fn color_8(self, c: u8) -> (r: Self) {
        proof {
            use_type_invariant(&self);
        }
        NodeLineBuilder { color: self.color, cm: self.cm, children: self.children, text: self.text.color_8(c) }
    }

    fn bg_color_8(self, c: u8) -> (r: Self) {
        proof {
            use_type_invariant(&self);
        }
        NodeLineBuilder { color: self.color, cm: self.cm, children: self.children, text: self.text.bg_color_8(c) }
    }

    fn color_256(self, c: u8) -> (r: Self) {
        proof {
            use_type_invariant(&self);
        }
        NodeLineBuilder { color: self.color, cm: self.cm, children: self.children, text: self.text.color_256(c) }
    }

    fn bg_color_256(self, c: u8) -> (r: Self) {
        proof {
            use_type_invariant(&self);
        }
        NodeLineBuilder { color: self.color, cm: self.cm, children: self.children, text: self.text.bg_color_256(c) }
    }

    fn color_rgb(self, c: RgbColor) -> (r: Self) {
        proof {
            use_type_invariant(&self);
        }
        NodeLineBuilder { color: self.color, cm: self.cm, children: self.children, text: self.text.color_rgb(c) }
    }

    fn bg_color_rgb(self, c: RgbColor) -> (r: Self) {
        proof {
            use_type_invariant(&self);
        }
        NodeLineBuilder { color: self.color, cm: self.cm, children: self.children, text: self.text.bg_color_rgb(c) }
    }

    fn bold(self) -> (r: Self) {
        proof {
            use_type_invariant(&self);
        }
        NodeLineBuilder { color: self.color, cm: self.cm, children: self.children, text: self.text.bold() }
    }

    fn italic(self) -> (r: Self) {
        proof {
            use_type_invariant(&self);
        }
        NodeLineBuilder { color: self.color, cm: self.cm, children: self.children, text: self.text.italic() }
    }

    fn underline(self) -> (r: Self) {
        proof {
            use_type_invariant(&self);
        }
        NodeLineBuilder { color: self.color, cm: self.cm, children: self.children, text: self.text.underline() }
    }

    fn clear(self) -> (r: Self) {
        proof {
            use_type_invariant(&self);
        }
        NodeLineBuilder { color: self.color, cm: self.cm, children: self.children, text: self.text.clear() }
    }
}

} // verus!
