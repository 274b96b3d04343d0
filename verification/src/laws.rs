//! What holds of every drawing of a tree.

use vstd::prelude::*;
use crate::colors::{
    clear_code, fg, lemma_sequences_are_control, sequence_char, sequence_text, Color, ColorMode,
};
use crate::indent::{
    all_unbroken, breaks, indented, lemma_breaks_concat, lemma_breaks_unbroken,
    lemma_indent_by_nothing, lemma_indent_keeps_lines, lemma_lines_count, lemma_lines_of_unlines,
    lemma_spaces_unbroken, lemma_unbroken_concat, lemma_unlines_push, lines, spaces, unbroken,
    unlines, with_margin,
};
use crate::sink::{delivered, lemma_prefix_extend, TextSink};
use crate::tree::{
    blank, branch, cell, child_level, column, columns, connector_prefix, continuation_prefix,
    corner, leaf_lines, pipe, rendered, rendered_children, text_line, Level, TreeView,
};

verus! {

/// The number of lines that a tree draws: one for the title of a node, and
/// those of its children; for a leaf, its lines.
pub open spec fn line_count(tree: TreeView) -> nat
    decreases tree,
{
    match tree {
        TreeView::Node { title, children, color, mode } => 1 + children_line_count(
            children,
            children.len() as int,
        ),
        TreeView::Leaf { lines } => lines.len(),
    }
}

/// The number of lines that the first `upto` of `children` draw.
pub open spec fn children_line_count(children: Seq<TreeView>, upto: int) -> nat
    decreases children, upto,
{
    if 0 < upto <= children.len() {
        children_line_count(children, upto - 1) + line_count(children[upto - 1])
    } else {
        0
    }
}

/// No title and no line of the tree holds a line break.
pub open spec fn plain(tree: TreeView) -> bool
    decreases tree,
{
    match tree {
        TreeView::Node { title, children, color, mode } => unbroken(title) && forall|i: int|
            0 <= i < children.len() ==> plain(#[trigger] children[i]),
        TreeView::Leaf { lines } => all_unbroken(lines),
    }
}

/// One of the characters that only a connector holds.
pub open spec fn connector_char(c: char) -> bool {
    c == '└' || c == '├' || c == '─'
}

/// The lines that a leaf draws under `levels`: the first one after the
/// connector prefix, every further one after the continuation prefix.
pub open spec fn leaf_rows(texts: Seq<Seq<char>>, levels: Seq<Level>) -> Seq<Seq<char>> {
    Seq::new(
        texts.len(),
        |j: int|
            (if j == 0 {
                connector_prefix(levels)
            } else {
                continuation_prefix(levels)
            }) + seq![' '] + texts[j],
    )
}

/// A text as a line holds one line break, if the text holds none.
pub proof fn lemma_breaks_text_line(text: Seq<char>)
    requires
        unbroken(text),
    ensures
        breaks(text_line(text)) == 1,
{
    let line = text_line(text);
    assert(line.drop_last() =~= seq![' '] + text);
    assert(unbroken(seq![' '] + text)) by {
        assert forall|i: int| 0 <= i < (seq![' '] + text).len() implies (seq![' '] + text)[i]
            != '\n' by {
            if i > 0 {
                assert((seq![' '] + text)[i] == text[i - 1]);
            }
        }
    }
    lemma_breaks_unbroken(seq![' '] + text);
}

/// The column of a level holds neither a line break nor, where it is drawn
/// without connector, a connector's character.
pub proof fn lemma_column_chars(level: Level, connector: bool)
    ensures
        unbroken(column(level, connector)),
        !connector ==> forall|i: int|
            0 <= i < column(level, connector).len() ==> !connector_char(
                #[trigger] column(level, connector)[i],
            ),
{
    lemma_sequences_are_control(level.color);
    let on = level.cm.sequence(fg(level.color));
    let off = level.cm.sequence(clear_code());
    let glyph = cell(level.n, connector);
    let whole = column(level, connector);
    assert(sequence_text(on));
    assert(sequence_text(off));
    assert forall|i: int| 0 <= i < whole.len() implies whole[i] != '\n' && (!connector
        ==> !connector_char(#[trigger] whole[i])) by {
        if i < on.len() {
            assert(whole[i] == on[i]);
            assert(sequence_char(on[i]));
        } else if i < on.len() + glyph.len() {
            assert(whole[i] == glyph[i - on.len()]);
        } else {
            assert(whole[i] == off[i - on.len() - glyph.len()]);
            assert(sequence_char(off[i - on.len() - glyph.len()]));
        }
    }
}

/// What stands before a line holds no line break; what stands before a
/// further line of a leaf holds no character of a connector either.
pub proof fn lemma_columns_chars(levels: Seq<Level>, upto: int, connector: bool)
    requires
        0 <= upto <= levels.len(),
    ensures
        unbroken(columns(levels, upto, connector)),
        !connector ==> forall|i: int|
            0 <= i < columns(levels, upto, connector).len() ==> !connector_char(
                #[trigger] columns(levels, upto, connector)[i],
            ),
    decreases upto,
{
    if upto > 0 {
        let before = columns(levels, upto - 1, connector);
        let last = column(levels[upto - 1], connector && upto == levels.len());
        lemma_columns_chars(levels, upto - 1, connector);
        lemma_column_chars(levels[upto - 1], connector && upto == levels.len());
        lemma_unbroken_concat(before, last);
        if !connector {
            assert forall|i: int| 0 <= i < (before + last).len() implies !connector_char(
                #[trigger] (before + last)[i],
            ) by {
                if i < before.len() {
                    assert((before + last)[i] == before[i]);
                } else {
                    assert((before + last)[i] == last[i - before.len()]);
                }
            }
        }
    }
}

/// The first `upto` lines of a leaf hold `upto` line breaks, if the lines
/// themselves hold none.
proof fn lemma_leaf_breaks(lines: Seq<Seq<char>>, continuation: Seq<char>, upto: int)
    requires
        0 <= upto <= lines.len(),
        all_unbroken(lines),
        unbroken(continuation),
    ensures
        breaks(leaf_lines(lines, continuation, upto)) == upto,
    decreases upto,
{
    if upto > 0 {
        lemma_leaf_breaks(lines, continuation, upto - 1);
        let before = leaf_lines(lines, continuation, upto - 1);
        let lead = if upto == 1 {
            Seq::<char>::empty()
        } else {
            continuation
        };
        lemma_breaks_unbroken(lead);
        lemma_breaks_text_line(lines[upto - 1]);
        lemma_breaks_concat(before, lead);
        lemma_breaks_concat(before + lead, text_line(lines[upto - 1]));
    }
}

/// The drawing of a tree holds as many line breaks as the tree has lines:
/// one for each node, and one for each line of each leaf. This holds of
/// every tree whose titles and lines hold no line break of their own.
pub proof fn lemma_line_count(tree: TreeView, levels: Seq<Level>)
    requires
        plain(tree),
    ensures
        breaks(rendered(tree, levels)) == line_count(tree),
    decreases tree,
{
    let prefix = connector_prefix(levels);
    lemma_columns_chars(levels, levels.len() as int, true);
    lemma_columns_chars(levels, levels.len() as int, false);
    lemma_breaks_unbroken(prefix);
    match tree {
        TreeView::Node { title, children, color, mode } => {
            lemma_children_line_count(children, color, mode, levels, children.len() as int);
            lemma_breaks_text_line(title);
            lemma_breaks_concat(prefix, text_line(title));
            lemma_breaks_concat(
                prefix + text_line(title),
                rendered_children(children, color, mode, levels, children.len() as int),
            );
        },
        TreeView::Leaf { lines } => {
            lemma_leaf_breaks(lines, continuation_prefix(levels), lines.len() as int);
            lemma_breaks_concat(
                prefix,
                leaf_lines(lines, continuation_prefix(levels), lines.len() as int),
            );
        },
    }
}

/// The drawings of the first `upto` children hold as many line breaks as
/// these children have lines.
pub proof fn lemma_children_line_count(
    children: Seq<TreeView>,
    color: Color,
    mode: ColorMode,
    levels: Seq<Level>,
    upto: int,
)
    requires
        0 <= upto <= children.len(),
        forall|i: int| 0 <= i < children.len() ==> plain(#[trigger] children[i]),
    ensures
        breaks(rendered_children(children, color, mode, levels, upto)) == children_line_count(
            children,
            upto,
        ),
    decreases children, upto,
{
    if upto > 0 {
        lemma_children_line_count(children, color, mode, levels, upto - 1);
        let under = levels.push(child_level(children.len(), upto - 1, color, mode));
        lemma_line_count(children[upto - 1], under);
        lemma_breaks_concat(
            rendered_children(children, color, mode, levels, upto - 1),
            rendered(children[upto - 1], under),
        );
    }
}

/// One level more leaves the columns of the levels above as they are drawn
/// where something runs past.
pub proof fn lemma_columns_under(levels: Seq<Level>, level: Level, upto: int, connector: bool)
    requires
        0 <= upto <= levels.len(),
    ensures
        columns(levels.push(level), upto, connector) == columns(levels, upto, false),
    decreases upto,
{
    if upto > 0 {
        lemma_columns_under(levels, level, upto - 1, connector);
        assert(levels.push(level)[upto - 1] == levels[upto - 1]);
    }
}

/// Among the children of a node, the last one in the order in which they were
/// given, and no other, is drawn with the corner, and nothing is drawn under
/// it; every earlier one is drawn with the branch, and the pipe runs on under
/// it. The connector stands after the columns of the ancestors, none of which
/// is drawn as a connector, and a child's drawing begins with it.
pub proof fn lemma_child_connector(
    children: Seq<TreeView>,
    color: Color,
    mode: ColorMode,
    levels: Seq<Level>,
    index: int,
)
    requires
        0 <= index < children.len() <= usize::MAX,
    ensures
        ({
            let level = child_level(children.len(), index, color, mode);
            let last = index == children.len() - 1;
            &&& cell(level.n, true) == if last {
                corner()
            } else {
                branch()
            }
            &&& cell(level.n, false) == if last {
                blank()
            } else {
                pipe()
            }
            &&& connector_prefix(levels.push(level)) == continuation_prefix(levels) + column(
                level,
                true,
            )
            &&& continuation_prefix(levels.push(level)) == continuation_prefix(levels) + column(
                level,
                false,
            )
            &&& connector_prefix(levels.push(level)).is_prefix_of(
                rendered(children[index], levels.push(level)),
            )
        }),
{
    let level = child_level(children.len(), index, color, mode);
    let under = levels.push(level);
    lemma_columns_under(levels, level, levels.len() as int, true);
    lemma_columns_under(levels, level, levels.len() as int, false);
    assert(under[levels.len() as int] == level);
    let prefix = connector_prefix(under);
    assert(prefix.is_prefix_of(prefix)) by {
        assert(prefix =~= prefix.subrange(0, prefix.len() as int));
    }
    match children[index] {
        TreeView::Node { title, children: below, color: c, mode: m } => {
            lemma_prefix_extend(prefix, prefix, text_line(title));
            lemma_prefix_extend(
                prefix,
                prefix + text_line(title),
                rendered_children(below, c, m, under, below.len() as int),
            );
        },
        TreeView::Leaf { lines } => {
            lemma_prefix_extend(
                prefix,
                prefix,
                leaf_lines(lines, continuation_prefix(under), lines.len() as int),
            );
        },
    }
}

/// The first `upto` lines of a leaf are its first `upto` rows, each ended by
/// a line break.
proof fn lemma_leaf_lines_are_rows(texts: Seq<Seq<char>>, levels: Seq<Level>, upto: int)
    requires
        0 <= upto <= texts.len(),
    ensures
        connector_prefix(levels) + leaf_lines(texts, continuation_prefix(levels), upto) == (if upto
            == 0 {
            connector_prefix(levels)
        } else {
            unlines(leaf_rows(texts, levels).take(upto))
        }),
    decreases upto,
{
    let rows = leaf_rows(texts, levels);
    let first = connector_prefix(levels);
    let further = continuation_prefix(levels);
    if upto == 0 {
        assert(first + leaf_lines(texts, further, 0) =~= first);
    } else {
        lemma_leaf_lines_are_rows(texts, levels, upto - 1);
        lemma_unlines_push(rows.take(upto - 1), rows[upto - 1]);
        assert(rows.take(upto) =~= rows.take(upto - 1).push(rows[upto - 1]));
        if upto == 1 {
            assert(unlines(rows.take(0)) =~= Seq::<char>::empty());
            assert(first + leaf_lines(texts, further, 1) =~= unlines(rows.take(0)) + rows[0]
                + seq!['\n']);
        } else {
            assert(first + leaf_lines(texts, further, upto) =~= (first + leaf_lines(
                texts,
                further,
                upto - 1,
            )) + rows[upto - 1] + seq!['\n']);
        }
    }
}

/// A leaf with lines draws one row for each: the first line after the
/// connector prefix, every further line after the continuation prefix, which
/// is the columns of all levels as they are drawn where something runs past,
/// and which holds no character of a connector. Where the lines hold no line
/// break, the rows are the lines of the drawing.
pub proof fn lemma_leaf_rows(texts: Seq<Seq<char>>, levels: Seq<Level>)
    requires
        texts.len() > 0,
    ensures
        rendered(TreeView::Leaf { lines: texts }, levels) == unlines(leaf_rows(texts, levels)),
        forall|i: int|
            0 <= i < continuation_prefix(levels).len() ==> !connector_char(
                #[trigger] continuation_prefix(levels)[i],
            ),
        all_unbroken(texts) ==> lines(rendered(TreeView::Leaf { lines: texts }, levels))
            == leaf_rows(texts, levels),
{
    let rows = leaf_rows(texts, levels);
    lemma_leaf_lines_are_rows(texts, levels, texts.len() as int);
    assert(rows.take(texts.len() as int) =~= rows);
    lemma_columns_chars(levels, levels.len() as int, false);
    lemma_columns_chars(levels, levels.len() as int, true);
    if all_unbroken(texts) {
        assert forall|j: int| 0 <= j < rows.len() implies unbroken(#[trigger] rows[j]) by {
            let lead = if j == 0 {
                connector_prefix(levels)
            } else {
                continuation_prefix(levels)
            };
            assert(unbroken(seq![' ']));
            lemma_unbroken_concat(lead, seq![' ']);
            lemma_unbroken_concat(lead + seq![' '], texts[j]);
        }
        lemma_lines_of_unlines(rows, Seq::empty());
        assert(unlines(rows) + Seq::<char>::empty() =~= unlines(rows));
        assert(rows + lines(Seq::<char>::empty()) =~= rows);
    }
}

/// A node without children draws its title and nothing else.
pub proof fn lemma_childless_node(title: Seq<char>, color: Color, mode: ColorMode, levels: Seq<Level>)
    ensures
        rendered(TreeView::Node { title, children: Seq::empty(), color, mode }, levels)
            == connector_prefix(levels) + text_line(title),
        line_count(TreeView::Node { title, children: Seq::empty(), color, mode }) == 1,
{
    assert(connector_prefix(levels) + text_line(title) + Seq::<char>::empty()
        =~= connector_prefix(levels) + text_line(title));
}

/// A leaf without lines draws no line: under a parent its connector prefix
/// is all there is of it, and as a root it draws nothing, so that writing it
/// never fails and leaves the sink as it was.
pub proof fn lemma_empty_leaf<S: TextSink>(levels: Seq<Level>, before: S, after: S, ok: bool)
    ensures
        rendered(TreeView::Leaf { lines: Seq::empty() }, levels) == connector_prefix(levels),
        line_count(TreeView::Leaf { lines: Seq::empty() }) == 0,
        rendered(TreeView::Leaf { lines: Seq::empty() }, Seq::empty()) == Seq::<char>::empty(),
        delivered(before, after, rendered(TreeView::Leaf { lines: Seq::empty() }, Seq::empty()), ok)
            ==> ok && after.text() == before.text(),
{
    assert(connector_prefix(levels) + Seq::<char>::empty() =~= connector_prefix(levels));
    assert(connector_prefix(Seq::empty()) =~= Seq::<char>::empty());
    assert(before.text() + Seq::<char>::empty() =~= before.text());
}

/// The drawing of the tree ends its last line: the tree is no leaf without
/// lines, and the last of its children, and of their children, is none.
pub open spec fn finished(tree: TreeView) -> bool
    decreases tree,
{
    match tree {
        TreeView::Node { title, children, color, mode } => children.len() == 0 || finished(
            children.last(),
        ),
        TreeView::Leaf { lines } => lines.len() > 0,
    }
}

/// A drawing that ends its last line ends with a line break.
pub proof fn lemma_finished_drawing(tree: TreeView, levels: Seq<Level>)
    requires
        finished(tree),
    ensures
        rendered(tree, levels).len() > 0,
        rendered(tree, levels).last() == '\n',
    decreases tree,
{
    match tree {
        TreeView::Node { title, children, color, mode } => {
            if children.len() > 0 {
                let under = levels.push(
                    child_level(children.len(), children.len() - 1, color, mode),
                );
                lemma_finished_drawing(children.last(), under);
            }
        },
        TreeView::Leaf { lines } => {},
    }
}

/// The lines of a drawing are as many as the tree has lines, if the drawing
/// ends its last line and no title and no line holds a line break.
pub proof fn lemma_drawn_lines(tree: TreeView, levels: Seq<Level>)
    requires
        plain(tree),
        finished(tree),
    ensures
        lines(rendered(tree, levels)).len() == line_count(tree),
{
    lemma_line_count(tree, levels);
    lemma_finished_drawing(tree, levels);
    lemma_lines_count(rendered(tree, levels));
}

/// An indented drawing is the drawing with the margin of spaces before every
/// line: it has the same number of lines, and each line of it is the margin
/// and then the line of the drawing.
pub proof fn lemma_indented_drawing(tree: TreeView, indent: nat)
    ensures
        lines(indented(rendered(tree, Seq::empty()), spaces(indent))) == with_margin(
            lines(rendered(tree, Seq::empty())),
            spaces(indent),
        ),
        lines(indented(rendered(tree, Seq::empty()), spaces(indent))).len() == lines(
            rendered(tree, Seq::empty()),
        ).len(),
        spaces(indent).len() == indent,
        forall|i: int| 0 <= i < indent ==> spaces(indent)[i] == ' ',
{
    lemma_spaces_unbroken(indent);
    lemma_indent_keeps_lines(rendered(tree, Seq::empty()), spaces(indent));
}

/// Indenting by no space at all leaves a drawing as it is, if the drawing
/// ends its last line.
pub proof fn lemma_indent_by_nothing_keeps_drawing(tree: TreeView)
    requires
        finished(tree),
    ensures
        indented(rendered(tree, Seq::empty()), spaces(0)) == rendered(tree, Seq::empty()),
{
    lemma_finished_drawing(tree, Seq::empty());
    lemma_indent_by_nothing(rendered(tree, Seq::empty()));
}

/// A root has no connector: the drawing of a tree that stands under nothing
/// begins with its title or its first line.
pub proof fn lemma_root_has_no_connector(tree: TreeView)
    ensures
        connector_prefix(Seq::empty()) == Seq::<char>::empty(),
        continuation_prefix(Seq::empty()) == Seq::<char>::empty(),
        tree matches TreeView::Node { title, children, color, mode } ==> text_line(
            title,
        ).is_prefix_of(rendered(tree, Seq::empty())),
        tree matches TreeView::Leaf { lines } ==> lines.len() > 0 ==> text_line(
            lines[0],
        ).is_prefix_of(rendered(tree, Seq::empty())),
{
    let none = Seq::<Level>::empty();
    let nothing = Seq::<char>::empty();
    match tree {
        TreeView::Node { title, children, color, mode } => {
            let head = text_line(title);
            assert(nothing + head =~= head);
            assert(head.is_prefix_of(head)) by {
                assert(head =~= head.subrange(0, head.len() as int));
            }
            lemma_prefix_extend(
                head,
                head,
                rendered_children(children, color, mode, none, children.len() as int),
            );
        },
        TreeView::Leaf { lines } => {
            if lines.len() > 0 {
                let head = text_line(lines[0]);
                lemma_leaf_first_line(lines, nothing, lines.len() as int);
                assert(nothing + leaf_lines(lines, nothing, lines.len() as int) =~= leaf_lines(
                    lines,
                    nothing,
                    lines.len() as int,
                ));
            }
        },
    }
}

/// The lines of a leaf begin with the first of them.
proof fn lemma_leaf_first_line(lines: Seq<Seq<char>>, continuation: Seq<char>, upto: int)
    requires
        1 <= upto <= lines.len(),
    ensures
        text_line(lines[0]).is_prefix_of(leaf_lines(lines, continuation, upto)),
    decreases upto,
{
    let head = text_line(lines[0]);
    if upto == 1 {
        assert(leaf_lines(lines, continuation, 0) =~= Seq::<char>::empty());
        assert(leaf_lines(lines, continuation, 1) =~= head);
        assert(head =~= head.subrange(0, head.len() as int));
    } else {
        lemma_leaf_first_line(lines, continuation, upto - 1);
        let before = leaf_lines(lines, continuation, upto - 1);
        lemma_prefix_extend(head, before, continuation);
        lemma_prefix_extend(head, before + continuation, text_line(lines[upto - 1]));
    }
}

/// Each level fills three cells. Without colour, its column is its cells and
/// nothing else, so that the prefixes of a line are three characters wide for
/// each level.
pub proof fn lemma_widths(levels: Seq<Level>, upto: int, connector: bool)
    requires
        0 <= upto <= levels.len(),
        forall|i: int| 0 <= i < levels.len() ==> (#[trigger] levels[i]).cm == ColorMode::Off,
    ensures
        forall|n: usize, c: bool| (#[trigger] cell(n, c)).len() == 3,
        forall|i: int|
            0 <= i < levels.len() ==> column(#[trigger] levels[i], connector) == cell(
                levels[i].n,
                connector,
            ),
        columns(levels, upto, connector).len() == 3 * upto,
    decreases upto,
{
    assert forall|i: int| 0 <= i < levels.len() implies column(
        #[trigger] levels[i],
        connector,
    ) == cell(levels[i].n, connector) by {
        assert(column(levels[i], connector) =~= cell(levels[i].n, connector));
    }
    if upto > 0 {
        lemma_widths(levels, upto - 1, connector);
        let last = column(levels[upto - 1], connector && upto == levels.len());
        assert(last =~= cell(levels[upto - 1].n, connector && upto == levels.len()));
    }
}

} // verus!
