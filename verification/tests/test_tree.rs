use antex::{leaf, node, Color, ColorMode, Recorded, StyledText, Text, TreeNode, WriteError, Writer};

const EXPECTED: &str = r#"
 node 1
 ├─ node 1_1
 │  ├─ line 1_1_1
 │  │  line 1_1_2
 │  │  line 1_1_3
 │  │  line 1_1_4
 │  └─ only one line
 ├─ node 1_2
 │  ├─ only one line
 │  ├─ line 1_2_1
 │  │  line 1_2_2
 │  │  line 1_2_3
 │  │  line 1_2_4
 │  └─ only one line
 └─ node 1_3
    ├─ node 1_3_1
    │  ├─ line 1_3_1_1
    │  │  line 1_3_1_2
    │  │  line 1_3_1_3
    │  │  line 1_3_1_4
    │  └─ only one line
    ├─ line 1_3_1
    │  line 1_3_2
    │  line 1_3_3
    │  line 1_3_4
    └─ only one line
"#;

#[test]
fn building_tree_should_work() {
  let cm = ColorMode::Off;
  let root = node(Color::Yellow, cm)
    .line()
    .s("node 1")
    .end()
    .child(
      node(Color::Yellow, cm)
        .line()
        .s("node 1_1")
        .end()
        .child(
          leaf(cm)
            .line()
            .s("line 1_1_1")
            .end()
            .line()
            .s("line 1_1_2")
            .end()
            .line()
            .s("line 1_1_3")
            .end()
            .line()
            .s("line 1_1_4")
            .end()
            .end(),
        )
        .child(leaf(cm).line().s("only one line").end().end())
        .end(),
    )
    .child(
      node(Color::Yellow, cm)
        .line()
        .s("node 1_2")
        .end()
        .child(leaf(cm).line().s("only one line").end().end())
        .child(
          leaf(cm)
            .line()
            .s("line 1_2_1")
            .end()
            .line()
            .s("line 1_2_2")
            .end()
            .line()
            .s("line 1_2_3")
            .end()
            .line()
            .s("line 1_2_4")
            .end()
            .end(),
        )
        .child(leaf(cm).line().s("only one line").end().end())
        .end(),
    )
    .child(
      node(Color::Yellow, cm)
        .line()
        .s("node 1_3")
        .end()
        .child(
          node(Color::Yellow, cm)
            .line()
            .s("node 1_3_1")
            .end()
            .child(
              leaf(cm)
                .line()
                .s("line 1_3_1_1")
                .end()
                .line()
                .s("line 1_3_1_2")
                .end()
                .line()
                .s("line 1_3_1_3")
                .end()
                .line()
                .s("line 1_3_1_4")
                .end()
                .end(),
            )
            .child(leaf(cm).line().s("only one line").end().end())
            .end(),
        )
        .child(
          leaf(cm)
            .line()
            .s("line 1_3_1")
            .end()
            .line()
            .s("line 1_3_2")
            .end()
            .line()
            .s("line 1_3_3")
            .end()
            .line()
            .s("line 1_3_4")
            .end()
            .end(),
        )
        .child(leaf(cm).line().s("only one line").end().end())
        .end(),
    )
    .end();

  let mut output = String::new();
  output.push('\n');
  let _ = root.write(&mut output);
  assert_eq!(EXPECTED, output);
}


fn four_lines(cm: ColorMode, stem: &str) -> TreeNode {
  let mut builder = leaf(cm);
  for i in 1..5 {
    builder = builder.line().s(stem).s("_").s(&format!("{}", i)).end();
  }
  builder.end()
}

fn sample(cm: ColorMode) -> TreeNode {
  node(Color::Yellow, cm)
    .line()
    .s("top")
    .end()
    .child(
      node(Color::Yellow, cm)
        .line()
        .s("first")
        .end()
        .child(four_lines(cm, "a"))
        .child(leaf(cm).line().s("single").end().end())
        .end(),
    )
    .child(four_lines(cm, "b"))
    .child(leaf(cm).line().s("last").end().end())
    .end()
}

/// A writer that takes a limited number of characters and then fails.
struct Limited {
  taken: String,
  room: usize,
}

impl Limited {
  fn with_room(room: usize) -> Recorded<Limited> {
    Recorded::new(Limited { taken: String::new(), room })
  }
}

impl Writer for Limited {
  fn write_str(&mut self, s: &str) -> Result<(), WriteError> {
    for c in s.chars() {
      if self.room == 0 {
        return Err(WriteError);
      }
      self.taken.push(c);
      self.room -= 1;
    }
    Ok(())
  }
}

#[test]
fn sample_tree_is_drawn_line_by_line() {
  let expected = concat_lines(&[
    " top",
    " ├─ first",
    " │  ├─ a_1",
    " │  │  a_2",
    " │  │  a_3",
    " │  │  a_4",
    " │  └─ single",
    " ├─ b_1",
    " │  b_2",
    " │  b_3",
    " │  b_4",
    " └─ last",
  ]);
  assert_eq!(expected, sample(ColorMode::Off).to_string());
}

fn concat_lines(lines: &[&str]) -> String {
  let mut out = String::new();
  for line in lines {
    out.push_str(line);
    out.push('\n');
  }
  out
}

#[test]
fn line_count_is_one_per_node_and_one_per_leaf_line() {
  // two nodes, and leaves of 4, 1, 4 and 1 lines
  let drawing = sample(ColorMode::Off).to_string();
  assert_eq!(2 + 4 + 1 + 4 + 1, drawing.matches('\n').count());
  assert_eq!(12, drawing.lines().count());
}

#[test]
fn only_the_last_child_gets_the_corner() {
  let cm = ColorMode::Off;
  let root = node(Color::Yellow, cm)
    .line()
    .s("r")
    .end()
    .child(leaf(cm).line().s("one").end().end())
    .child(leaf(cm).line().s("two").end().end())
    .child(leaf(cm).line().s("three").end().end())
    .end();
  assert_eq!(" r\n ├─ one\n ├─ two\n └─ three\n", root.to_string());
}

#[test]
fn a_single_child_is_the_last_child() {
  let cm = ColorMode::Off;
  let root = node(Color::Yellow, cm).line().s("r").end().child(leaf(cm).line().s("one").end().end()).end();
  assert_eq!(" r\n └─ one\n", root.to_string());
}

#[test]
fn continuation_lines_repeat_the_columns_without_connectors() {
  let cm = ColorMode::Off;
  let deep = node(Color::Yellow, cm)
    .line()
    .s("r")
    .end()
    .child(
      node(Color::Yellow, cm)
        .line()
        .s("n")
        .end()
        .child(leaf(cm).line().s("x").end().line().s("y").end().line().s("z").end().end())
        .end(),
    )
    .child(leaf(cm).line().s("p").end().line().s("q").end().end())
    .end();
  let expected = concat_lines(&[
    " r",
    " ├─ n",
    " │  └─ x",
    " │     y",
    " │     z",
    " └─ p",
    "    q",
  ]);
  assert_eq!(expected, deep.to_string());
}

#[test]
fn connectors_are_coloured_by_the_parent_of_each_depth() {
  let cm = ColorMode::On;
  let root = node(Color::Red, cm)
    .line()
    .s("r")
    .end()
    .child(
      node(Color::Long(124), cm)
        .line()
        .s("a")
        .end()
        .child(leaf(cm).line().s("x").end().line().s("y").end().end())
        .end(),
    )
    .child(leaf(cm).line().s("z").end().end())
    .end();
  let expected = concat_lines(&[
    " r",
    "\u{1b}[31m ├─\u{1b}[0m a",
    "\u{1b}[31m │ \u{1b}[0m\u{1b}[38;5;124m └─\u{1b}[0m x",
    "\u{1b}[31m │ \u{1b}[0m\u{1b}[38;5;124m   \u{1b}[0m y",
    "\u{1b}[31m └─\u{1b}[0m z",
  ]);
  assert_eq!(expected, root.to_string());
}

#[test]
fn colouring_off_leaves_no_escape_character() {
  let drawing = sample(ColorMode::Off).to_string();
  assert!(!drawing.contains('\u{1b}'));
}

#[test]
fn connector_colour_mode_is_that_of_the_node_not_of_the_text() {
  let root = node(Color::Green, ColorMode::On)
    .line()
    .s("r")
    .end()
    .child(leaf(ColorMode::Off).line().red().s("x").end().end())
    .end();
  assert_eq!(" r\n\u{1b}[32m └─\u{1b}[0m x\n", root.to_string());
}

#[test]
fn node_without_children_draws_its_title_only() {
  let root = node(Color::Yellow, ColorMode::Off).line().s("alone").end().end();
  assert_eq!(" alone\n", root.to_string());
}

#[test]
fn node_without_title_draws_an_empty_title() {
  let root = node(Color::Yellow, ColorMode::Off).end();
  assert_eq!(" \n", root.to_string());
}

#[test]
fn leaf_as_root_draws_its_lines_without_connector() {
  let root = leaf(ColorMode::Off).line().s("x").end().line().s("y").end().end();
  assert_eq!(" x\n y\n", root.to_string());
}

#[test]
fn leaf_without_lines_draws_nothing_and_does_not_fail() {
  let root = leaf(ColorMode::Off).end();
  let mut output = String::new();
  assert_eq!(Ok(()), root.write(&mut output));
  assert_eq!("", output);
  let mut refusing = Limited::with_room(0);
  assert_eq!(Ok(()), root.write(&mut refusing));
  assert_eq!(Ok(()), root.write_indent(&mut refusing, 4));
  assert_eq!("", refusing.into_inner().taken);
}

#[test]
fn leaf_without_lines_under_a_node_leaves_its_connector_unfinished() {
  let cm = ColorMode::Off;
  let root = node(Color::Yellow, cm)
    .line()
    .s("r")
    .end()
    .child(leaf(cm).end())
    .child(leaf(cm).line().s("x").end().end())
    .end();
  assert_eq!(" r\n ├─ └─ x\n", root.to_string());
}

#[test]
fn a_writer_that_takes_everything_gets_the_whole_drawing() {
  let root = sample(ColorMode::On);
  let mut sink = Limited::with_room(usize::MAX);
  assert_eq!(Ok(()), root.write(&mut sink));
  assert_eq!(root.to_string(), sink.into_inner().taken);
}

/// A writer that refuses the piece with the given number and counts the pieces handed to it.
struct Refusing {
  refused: usize,
  handed: usize,
}

impl Writer for Refusing {
  fn write_str(&mut self, _s: &str) -> Result<(), WriteError> {
    self.handed += 1;
    if self.handed == self.refused {
      Err(WriteError)
    } else {
      Ok(())
    }
  }
}

#[test]
fn write_stops_at_the_first_refusal() {
  let root = sample(ColorMode::Off);
  let mut sink = Recorded::new(Refusing { refused: 5, handed: 0 });
  assert_eq!(Err(WriteError), root.write(&mut sink));
  assert_eq!(5, sink.into_inner().handed);
}

#[test]
fn write_appends_to_what_the_sink_holds() {
  let mut output = String::from("before");
  let root = leaf(ColorMode::Off).line().s("x").end().end();
  assert_eq!(Ok(()), root.write(&mut output));
  assert_eq!("before x\n", output);
}

#[test]
fn write_reports_a_failing_sink_and_leaves_a_beginning() {
  let root = sample(ColorMode::Off);
  let whole = root.to_string();
  let total = whole.chars().count();
  for room in 0..total {
    let mut sink = Limited::with_room(room);
    assert_eq!(Err(WriteError), root.write(&mut sink));
    let taken = sink.into_inner().taken;
    assert!(whole.starts_with(&taken));
    assert_eq!(room, taken.chars().count());
  }
  let mut sink = Limited::with_room(total);
  assert_eq!(Ok(()), root.write(&mut sink));
  assert_eq!(whole, sink.into_inner().taken);
}

#[test]
fn write_indent_reports_a_failing_sink_and_leaves_a_beginning() {
  let root = sample(ColorMode::Off);
  let mut whole = String::new();
  assert_eq!(Ok(()), root.write_indent(&mut whole, 2));
  let mut sink = Limited::with_room(17);
  assert_eq!(Err(WriteError), root.write_indent(&mut sink, 2));
  let taken = sink.into_inner().taken;
  assert_eq!(17, taken.chars().count());
  assert!(whole.starts_with(&taken));
}

#[test]
fn write_indent_puts_the_margin_before_every_line() {
  let root = sample(ColorMode::Off);
  let plain = root.to_string();
  for k in [0usize, 1, 3, 30] {
    let mut expected = String::new();
    for line in plain.lines() {
      expected.push_str(&" ".repeat(k));
      expected.push_str(line);
      expected.push('\n');
    }
    let mut output = String::new();
    assert_eq!(Ok(()), root.write_indent(&mut output, k));
    assert_eq!(expected, output);
    assert_eq!(plain.lines().count(), output.lines().count());
  }
}

#[test]
fn write_indent_by_nothing_is_write() {
  let root = sample(ColorMode::Off);
  let mut output = String::new();
  assert_eq!(Ok(()), root.write_indent(&mut output, 0));
  assert_eq!(root.to_string(), output);
}

#[test]
fn write_indent_exact_output() {
  let cm = ColorMode::Off;
  let root = node(Color::Yellow, cm).line().s("r").end().child(leaf(cm).line().s("x").end().line().s("y").end().end()).end();
  let mut output = String::from(">");
  assert_eq!(Ok(()), root.write_indent(&mut output, 2));
  assert_eq!(">   r\n   └─ x\n      y\n", output);
}

#[test]
fn write_indent_ends_an_unfinished_last_line() {
  let cm = ColorMode::Off;
  let root = node(Color::Yellow, cm).line().s("r").end().child(leaf(cm).end()).end();
  assert_eq!(" r\n └─", root.to_string());
  let mut output = String::new();
  assert_eq!(Ok(()), root.write_indent(&mut output, 1));
  assert_eq!("  r\n  └─\n", output);
}

#[test]
fn write_indent_indents_the_lines_within_a_text_too() {
  let root = leaf(ColorMode::Off).line().s("x").nl().s("y").end().end();
  assert_eq!(" x\ny\n", root.to_string());
  let mut output = String::new();
  assert_eq!(Ok(()), root.write_indent(&mut output, 2));
  assert_eq!("   x\n  y\n", output);
}

#[test]
fn write_indent_keeps_empty_lines_and_carriage_returns() {
  let root = leaf(ColorMode::Off).line().s("x\r").nl().nl().s("y").end().end();
  let mut output = String::new();
  assert_eq!(Ok(()), root.write_indent(&mut output, 1));
  assert_eq!("  x\r\n \n y\n", output);
}

#[test]
fn opt_child_adds_a_child_only_if_there_is_one() {
  let cm = ColorMode::Off;
  let with = node(Color::Yellow, cm).line().s("r").end().opt_child(Some(leaf(cm).line().s("x").end().end())).end();
  let without = node(Color::Yellow, cm).line().s("r").end().opt_child(None).end();
  assert_eq!(" r\n └─ x\n", with.to_string());
  assert_eq!(" r\n", without.to_string());
}

#[test]
fn builders_can_be_filled_in_place() {
  let cm = ColorMode::Off;
  let mut lines = leaf(cm);
  lines.add_line(Text::new(cm).s("x"));
  lines.add_line(Text::new(cm).s("y"));
  let mut builder = node(Color::Yellow, cm);
  builder.set_line(Text::new(cm).s("r"));
  builder.add_child(lines.end());
  builder.add_opt_child(None);
  builder.add_opt_child(Some(leaf(cm).line().s("z").end().end()));
  assert_eq!(" r\n ├─ x\n │  y\n └─ z\n", builder.end().to_string());
}

#[test]
fn line_begins_the_title_anew() {
  let cm = ColorMode::Off;
  let root = node(Color::Yellow, cm).line().s("first").end().line().s("second").end().end();
  assert_eq!(" second\n", root.to_string());
}

#[test]
fn children_are_drawn_in_the_order_given() {
  let cm = ColorMode::Off;
  let root = node(Color::Yellow, cm)
    .child(leaf(cm).line().s("b").end().end())
    .child(leaf(cm).line().s("a").end().end())
    .line()
    .s("r")
    .end()
    .end();
  assert_eq!(" r\n ├─ b\n └─ a\n", root.to_string());
}

#[test]
fn tree_nodes_can_be_made_directly() {
  let cm = ColorMode::Off;
  let root = TreeNode::Node(
    Text::new(cm).s("r"),
    vec![TreeNode::Leaf(vec![Text::new(cm).s("x"), Text::new(cm).s("y")]), TreeNode::Leaf(vec![])],
    Color::Blue,
    cm,
  );
  assert_eq!(" r\n ├─ x\n │  y\n └─", root.to_string());
}

#[test]
fn a_clone_draws_the_same() {
  let root = sample(ColorMode::On);
  assert_eq!(root.to_string(), root.clone().to_string());
  let builder = node(Color::Red, ColorMode::On).line().s("r").end().child(sample(ColorMode::On));
  assert_eq!(builder.clone().end().to_string(), builder.end().to_string());
  let line = leaf(ColorMode::On).line().s("x").end().line().red().s("y");
  assert_eq!(line.clone().end().end().to_string(), line.end().end().to_string());
  let title = node(Color::Red, ColorMode::On).child(leaf(ColorMode::On).end()).line().bold().s("t");
  assert_eq!(title.clone().end().end().to_string(), title.end().end().to_string());
  let lines = leaf(ColorMode::Off).line().s("x").end();
  assert_eq!(lines.clone().end().to_string(), lines.end().to_string());
}

#[test]
fn deep_trees_keep_one_column_for_each_ancestor() {
  let cm = ColorMode::Off;
  let mut tree = leaf(cm).line().s("bottom").end().line().s("line").end().end();
  for _ in 0..4 {
    tree = node(Color::Yellow, cm).line().s("n").end().child(tree).end();
  }
  let expected = concat_lines(&[
    " n",
    " └─ n",
    "    └─ n",
    "       └─ n",
    "          └─ bottom",
    "             line",
  ]);
  assert_eq!(expected, tree.to_string());
}
