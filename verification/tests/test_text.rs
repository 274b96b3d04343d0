use antex::{Color, ColorMode, StyledText, Text};

#[test]
fn new_text_is_empty() {
  assert_eq!("", Text::new(ColorMode::On).as_str());
  assert_eq!(ColorMode::On, Text::new(ColorMode::On).color_mode());
  assert_eq!(ColorMode::Off, Text::new(ColorMode::Off).color_mode());
  assert_eq!("", Text::from(ColorMode::Off).as_str());
  assert_eq!(ColorMode::Off, Text::from(ColorMode::Off).color_mode());
}

#[test]
fn pieces_are_appended_in_order() {
  let text = Text::new(ColorMode::Off).s("Hello").space().s("world").dot().nl().s("a").colon().slash().spaces(4).dots();
  assert_eq!("Hello world.\na:/    ...", text.as_str());
  assert_eq!("Hello world.\na:/    ...", text.to_string());
}

#[test]
fn spaces_of_any_number() {
  assert_eq!("", Text::new(ColorMode::Off).spaces(0).as_str());
  assert_eq!(" ", Text::new(ColorMode::Off).spaces(1).as_str());
  assert_eq!("x   y", Text::new(ColorMode::Off).s("x").spaces(3).s("y").as_str());
}

#[test]
fn plural_unless_one() {
  assert_eq!("nodes", Text::new(ColorMode::Off).plural("node", 0).as_str());
  assert_eq!("node", Text::new(ColorMode::Off).plural("node", 1).as_str());
  assert_eq!("nodes", Text::new(ColorMode::Off).plural("node", 2).as_str());
  assert_eq!("My nodes", Text::new(ColorMode::Off).s("My ").plural("node", 4).as_str());
}

#[test]
fn colours_are_sequences_among_the_pieces() {
  let text = Text::new(ColorMode::On).s("Hello ").red().s("world!").clear();
  assert_eq!("Hello \u{1b}[31mworld!\u{1b}[0m", text.as_str());
}

#[test]
fn every_basic_colour() {
  let text = Text::new(ColorMode::On).black().red().green().yellow().blue().magenta().cyan().white();
  assert_eq!("\u{1b}[30m\u{1b}[31m\u{1b}[32m\u{1b}[33m\u{1b}[34m\u{1b}[35m\u{1b}[36m\u{1b}[37m", text.as_str());
  let text = Text::new(ColorMode::On)
    .bg_black()
    .bg_red()
    .bg_green()
    .bg_yellow()
    .bg_blue()
    .bg_magenta()
    .bg_cyan()
    .bg_white();
  assert_eq!("\u{1b}[40m\u{1b}[41m\u{1b}[42m\u{1b}[43m\u{1b}[44m\u{1b}[45m\u{1b}[46m\u{1b}[47m", text.as_str());
}

#[test]
fn every_encoding_of_a_colour() {
  let text = Text::new(ColorMode::On)
    .color(Color::Magenta)
    .bg_color(Color::Long(17))
    .color_8(2)
    .bg_color_8(9)
    .color_256(69)
    .bg_color_256(255)
    .color_rgb((100, 230, 100))
    .bg_color_rgb((120, 120, 120));
  assert_eq!(
    "\u{1b}[35m\u{1b}[48;5;17m\u{1b}[32m\u{1b}[47m\u{1b}[38;5;69m\u{1b}[48;5;255m\u{1b}[38;2;100;230;100m\u{1b}[48;2;120;120;120m",
    text.as_str()
  );
}

#[test]
fn every_style() {
  let text = Text::new(ColorMode::On).bold().s("b").italic().s("i").underline().s("u").clear();
  assert_eq!("\u{1b}[1mb\u{1b}[3mi\u{1b}[4mu\u{1b}[0m", text.as_str());
}

#[test]
fn colouring_off_drops_every_sequence() {
  let text = Text::new(ColorMode::Off)
    .red()
    .bg_blue()
    .s("a")
    .color(Color::Rgb((1, 2, 3)))
    .bg_color(Color::Long(4))
    .color_8(1)
    .bg_color_8(2)
    .color_256(3)
    .bg_color_256(4)
    .color_rgb((5, 6, 7))
    .bg_color_rgb((8, 9, 10))
    .bold()
    .italic()
    .underline()
    .s("b")
    .clear();
  assert_eq!("ab", text.as_str());
}

#[test]
fn cleared_ends_with_the_clearing_sequence() {
  assert_eq!("\u{1b}[31mx\u{1b}[0m", Text::new(ColorMode::On).red().s("x").cleared());
  assert_eq!("x", Text::new(ColorMode::Off).red().s("x").cleared());
}

#[test]
fn sum_of_two_texts() {
  let sum = Text::new(ColorMode::On).bold() + Text::new(ColorMode::Off).red().s("x");
  assert_eq!("\u{1b}[1mx", sum.as_str());
  assert_eq!(ColorMode::On, sum.color_mode());
  assert_eq!("\u{1b}[1mx\u{1b}[32m", sum.green().as_str());
}

#[test]
fn a_clone_of_a_text_is_the_same_text() {
  let text = Text::new(ColorMode::On).red().s("x");
  let copy = text.clone();
  assert_eq!(text.as_str(), copy.as_str());
  assert_eq!(text.color_mode(), copy.color_mode());
  assert_eq!("\u{1b}[31mx\u{1b}[1m", copy.bold().as_str());
}

#[test]
fn text_with_characters_beyond_ascii() {
  let text = Text::new(ColorMode::Off).s("łódź").space().s("└─").plural("ż", 2);
  assert_eq!("łódź └─żs", text.as_str());
}
