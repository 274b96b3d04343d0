use antex::{Color, ColorMode};

#[test]
fn basic_foreground_colours() {
  let cm = ColorMode::On;
  assert_eq!("\u{1b}[30m", cm.black());
  assert_eq!("\u{1b}[31m", cm.red());
  assert_eq!("\u{1b}[32m", cm.green());
  assert_eq!("\u{1b}[33m", cm.yellow());
  assert_eq!("\u{1b}[34m", cm.blue());
  assert_eq!("\u{1b}[35m", cm.magenta());
  assert_eq!("\u{1b}[36m", cm.cyan());
  assert_eq!("\u{1b}[37m", cm.white());
}

#[test]
fn basic_background_colours() {
  let cm = ColorMode::On;
  assert_eq!("\u{1b}[40m", cm.bg_black());
  assert_eq!("\u{1b}[41m", cm.bg_red());
  assert_eq!("\u{1b}[42m", cm.bg_green());
  assert_eq!("\u{1b}[43m", cm.bg_yellow());
  assert_eq!("\u{1b}[44m", cm.bg_blue());
  assert_eq!("\u{1b}[45m", cm.bg_magenta());
  assert_eq!("\u{1b}[46m", cm.bg_cyan());
  assert_eq!("\u{1b}[47m", cm.bg_white());
}

#[test]
fn basic_colour_index_above_seven_counts_as_seven() {
  let cm = ColorMode::On;
  assert_eq!("\u{1b}[30m", cm.color_8(0));
  assert_eq!("\u{1b}[37m", cm.color_8(7));
  assert_eq!("\u{1b}[37m", cm.color_8(8));
  assert_eq!("\u{1b}[37m", cm.color_8(255));
  assert_eq!("\u{1b}[40m", cm.bg_color_8(0));
  assert_eq!("\u{1b}[47m", cm.bg_color_8(7));
  assert_eq!("\u{1b}[47m", cm.bg_color_8(200));
}

#[test]
fn palette_colours_are_written_in_decimal() {
  let cm = ColorMode::On;
  assert_eq!("\u{1b}[38;5;0m", cm.color_256(0));
  assert_eq!("\u{1b}[38;5;7m", cm.color_256(7));
  assert_eq!("\u{1b}[38;5;10m", cm.color_256(10));
  assert_eq!("\u{1b}[38;5;69m", cm.color_256(69));
  assert_eq!("\u{1b}[38;5;100m", cm.color_256(100));
  assert_eq!("\u{1b}[38;5;109m", cm.color_256(109));
  assert_eq!("\u{1b}[38;5;124m", cm.color_256(124));
  assert_eq!("\u{1b}[38;5;255m", cm.color_256(255));
  assert_eq!("\u{1b}[48;5;0m", cm.bg_color_256(0));
  assert_eq!("\u{1b}[48;5;99m", cm.bg_color_256(99));
  assert_eq!("\u{1b}[48;5;200m", cm.bg_color_256(200));
}

#[test]
fn every_palette_colour_agrees_with_formatting() {
  let cm = ColorMode::On;
  for c in 0..=255u8 {
    assert_eq!(format!("\u{1b}[38;5;{}m", c), cm.color_256(c));
    assert_eq!(format!("\u{1b}[48;5;{}m", c), cm.bg_color_256(c));
    assert_eq!(format!("\u{1b}[{}m", 30 + c.clamp(0, 7)), cm.color_8(c));
    assert_eq!(format!("\u{1b}[{}m", 40 + c.clamp(0, 7)), cm.bg_color_8(c));
  }
}

#[test]
fn true_colours() {
  let cm = ColorMode::On;
  assert_eq!("\u{1b}[38;2;100;230;100m", cm.color_rgb((100, 230, 100)));
  assert_eq!("\u{1b}[38;2;0;0;0m", cm.color_rgb((0, 0, 0)));
  assert_eq!("\u{1b}[38;2;255;9;10m", cm.color_rgb((255, 9, 10)));
  assert_eq!("\u{1b}[48;2;120;120;120m", cm.bg_color_rgb((120, 120, 120)));
  assert_eq!("\u{1b}[48;2;1;22;213m", cm.bg_color_rgb((1, 22, 213)));
}

#[test]
fn any_colour_in_foreground() {
  let cm = ColorMode::On;
  assert_eq!("\u{1b}[30m", cm.color(Color::Black));
  assert_eq!("\u{1b}[31m", cm.color(Color::Red));
  assert_eq!("\u{1b}[32m", cm.color(Color::Green));
  assert_eq!("\u{1b}[33m", cm.color(Color::Yellow));
  assert_eq!("\u{1b}[34m", cm.color(Color::Blue));
  assert_eq!("\u{1b}[35m", cm.color(Color::Magenta));
  assert_eq!("\u{1b}[36m", cm.color(Color::Cyan));
  assert_eq!("\u{1b}[37m", cm.color(Color::White));
  assert_eq!("\u{1b}[38;5;3m", cm.color(Color::Long(3)));
  assert_eq!("\u{1b}[38;5;124m", cm.color(Color::Long(124)));
  assert_eq!("\u{1b}[38;2;1;2;3m", cm.color(Color::Rgb((1, 2, 3))));
}

#[test]
fn any_colour_in_background() {
  let cm = ColorMode::On;
  assert_eq!("\u{1b}[40m", cm.bg_color(Color::Black));
  assert_eq!("\u{1b}[41m", cm.bg_color(Color::Red));
  assert_eq!("\u{1b}[42m", cm.bg_color(Color::Green));
  assert_eq!("\u{1b}[43m", cm.bg_color(Color::Yellow));
  assert_eq!("\u{1b}[44m", cm.bg_color(Color::Blue));
  assert_eq!("\u{1b}[45m", cm.bg_color(Color::Magenta));
  assert_eq!("\u{1b}[46m", cm.bg_color(Color::Cyan));
  assert_eq!("\u{1b}[47m", cm.bg_color(Color::White));
  assert_eq!("\u{1b}[48;5;201m", cm.bg_color(Color::Long(201)));
  assert_eq!("\u{1b}[48;2;10;20;30m", cm.bg_color(Color::Rgb((10, 20, 30))));
}

#[test]
fn styles() {
  let cm = ColorMode::On;
  assert_eq!("\u{1b}[1m", cm.bold());
  assert_eq!("\u{1b}[3m", cm.italic());
  assert_eq!("\u{1b}[4m", cm.underline());
  assert_eq!("\u{1b}[0m", cm.clear());
}

#[test]
fn colouring_off_gives_empty_sequences() {
  let cm = ColorMode::Off;
  assert_eq!("", cm.black());
  assert_eq!("", cm.white());
  assert_eq!("", cm.bg_red());
  assert_eq!("", cm.color(Color::Red));
  assert_eq!("", cm.color(Color::Long(9)));
  assert_eq!("", cm.color(Color::Rgb((1, 2, 3))));
  assert_eq!("", cm.bg_color(Color::Blue));
  assert_eq!("", cm.color_8(1));
  assert_eq!("", cm.bg_color_8(1));
  assert_eq!("", cm.color_256(1));
  assert_eq!("", cm.bg_color_256(1));
  assert_eq!("", cm.color_rgb((1, 2, 3)));
  assert_eq!("", cm.bg_color_rgb((1, 2, 3)));
  assert_eq!("", cm.bold());
  assert_eq!("", cm.italic());
  assert_eq!("", cm.underline());
  assert_eq!("", cm.clear());
}

#[test]
fn colour_of_a_number() {
  assert_eq!(Color::Black, Color::from(0));
  assert_eq!(Color::Red, Color::from(1));
  assert_eq!(Color::Green, Color::from(2));
  assert_eq!(Color::Yellow, Color::from(3));
  assert_eq!(Color::Blue, Color::from(4));
  assert_eq!(Color::Magenta, Color::from(5));
  assert_eq!(Color::Cyan, Color::from(6));
  assert_eq!(Color::White, Color::from(7));
  assert_eq!(Color::Long(8), Color::from(8));
  assert_eq!(Color::Long(255), Color::from(255));
}

#[test]
fn colour_of_three_components() {
  assert_eq!(Color::Rgb((1, 2, 3)), Color::from((1, 2, 3)));
}

#[test]
fn mode_of_a_keyword() {
  assert_eq!(ColorMode::Off, ColorMode::new("never", true));
  assert_eq!(ColorMode::Off, ColorMode::new("never", false));
  assert_eq!(ColorMode::On, ColorMode::new("always", true));
  assert_eq!(ColorMode::On, ColorMode::new("always", false));
  assert_eq!(ColorMode::On, ColorMode::new("auto", true));
  assert_eq!(ColorMode::Off, ColorMode::new("auto", false));
  assert_eq!(ColorMode::On, ColorMode::new("", true));
  assert_eq!(ColorMode::Off, ColorMode::new("", false));
}

#[test]
fn mode_of_a_keyword_disregards_case() {
  assert_eq!(ColorMode::Off, ColorMode::new("NEVER", true));
  assert_eq!(ColorMode::Off, ColorMode::new("Never", true));
  assert_eq!(ColorMode::On, ColorMode::new("ALWAYS", false));
  assert_eq!(ColorMode::On, ColorMode::new("aLwAyS", false));
}

#[test]
fn mode_of_a_keyword_disregards_white_space_around_it() {
  assert_eq!(ColorMode::Off, ColorMode::new("  never", true));
  assert_eq!(ColorMode::Off, ColorMode::new("never\n", true));
  assert_eq!(ColorMode::On, ColorMode::new("\t always  ", false));
  assert_eq!(ColorMode::On, ColorMode::new("ne ver", true));
  assert_eq!(ColorMode::Off, ColorMode::new("al ways", false));
}

#[test]
fn mode_of_a_keyword_taken_as_it_stands() {
  assert_eq!(ColorMode::Off, ColorMode::from_keyword("never", true));
  assert_eq!(ColorMode::On, ColorMode::from_keyword("always", false));
  assert_eq!(ColorMode::On, ColorMode::from_keyword("NEVER", true));
  assert_eq!(ColorMode::Off, ColorMode::from_keyword(" always", false));
  assert_eq!(ColorMode::Off, ColorMode::from_keyword("nevers", false));
  assert_eq!(ColorMode::On, ColorMode::from_keyword("neve", true));
}

#[test]
fn mode_for_a_terminal() {
  assert_eq!(ColorMode::On, ColorMode::for_terminal(true));
  assert_eq!(ColorMode::Off, ColorMode::for_terminal(false));
}
