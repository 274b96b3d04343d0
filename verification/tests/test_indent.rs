use antex::indent::{spaces_string, write_indented};
use antex::{TextSink, WriteError};

fn indent(text: &str, margin: &str) -> String {
  let mut out = String::new();
  assert_eq!(Ok(()), write_indented(&mut out, text, margin));
  out
}

#[test]
fn spaces_string_has_the_length_asked_for() {
  assert_eq!("", spaces_string(0));
  assert_eq!(" ", spaces_string(1));
  assert_eq!("     ", spaces_string(5));
  assert_eq!(" ".repeat(300), spaces_string(300));
}

#[test]
fn every_line_gets_the_margin() {
  assert_eq!("  a\n  b\n", indent("a\nb\n", "  "));
  assert_eq!("> a\n> b\n", indent("a\nb\n", "> "));
}

#[test]
fn an_empty_text_stays_empty() {
  assert_eq!("", indent("", "  "));
}

#[test]
fn a_last_line_without_line_break_gets_one() {
  assert_eq!("  a\n  b\n", indent("a\nb", "  "));
  assert_eq!("  a\n", indent("a", "  "));
}

#[test]
fn empty_lines_get_the_margin_too() {
  assert_eq!("  \n", indent("\n", "  "));
  assert_eq!("  \n  \n  a\n  \n", indent("\n\na\n\n", "  "));
}

#[test]
fn an_empty_margin_changes_nothing_but_the_end() {
  assert_eq!("a\n\nb\n", indent("a\n\nb\n", ""));
  assert_eq!("a\n\nb\n", indent("a\n\nb", ""));
}

#[test]
fn carriage_returns_belong_to_their_line() {
  assert_eq!(" a\r\n b\n", indent("a\r\nb", " "));
}

#[test]
fn characters_beyond_ascii_are_kept() {
  assert_eq!("   ├─ ż\n   └─ ó\n", indent(" ├─ ż\n └─ ó\n", "  "));
}

#[test]
fn a_string_takes_everything() {
  let mut out = String::from("a");
  assert_eq!(Ok(()), TextSink::write_str(&mut out, "b"));
  assert_eq!(Ok(()), TextSink::write_str(&mut out, ""));
  assert_eq!(Ok(()), TextSink::write_str(&mut out, "└─\n"));
  assert_eq!("ab└─\n", out);
}

#[test]
fn write_error_is_one_value() {
  assert_eq!(WriteError, WriteError);
  assert_eq!("WriteError", format!("{:?}", WriteError));
}
