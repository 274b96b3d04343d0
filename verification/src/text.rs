//! Styled text: a string that is composed piece by piece, colour and style
//! sequences among the pieces.

use vstd::prelude::*;
use vstd::std_specs::convert::FromSpecImpl;
use vstd::std_specs::ops::AddSpecImpl;
use crate::colors::{
    bg, bg_256, bg_8, bg_rgb, bold_code, clear_code, fg, fg_256, fg_8, fg_rgb, italic_code,
    underline_code, Color, ColorMode, RgbColor,
};
use crate::indent::{spaces, spaces_string};

verus! {

/// What is put after a word to make its plural, `n` being the number of the
/// things that the word stands for.
pub open spec fn plural_ending(n: usize) -> Seq<char> {
    if n == 1 {
        Seq::empty()
    } else {
        seq!['s']
    }
}

/// Composition of a styled text, piece by piece.
///
/// Every method appends one piece to the text that is being composed and
/// changes nothing else. A colour or style is a control sequence, which the
/// colour mode of the text lets through or drops.
pub trait StyledText: Sized {
    /// The text composed so far.
    spec fn content(&self) -> Seq<char>;

    /// The colour mode that decides on the control sequences.
    spec fn mode(&self) -> ColorMode;

    /// Whatever `self` holds beside its text and its colour mode, `other`
    /// holds the same.
    spec fn same_frame(&self, other: &Self) -> bool;

    /// Appends a text.
    fn s(self, s: &str) -> (r: Self)
        ensures
            r.content() == self.content() + s@,
            r.mode() == self.mode(),
            self.same_frame(&r),
    ;

    /// Appends a line break.
    fn nl(self) -> (r: Self)
        ensures
            r.content() == self.content() + seq!['\n'],
            r.mode() == self.mode(),
            self.same_frame(&r),
    ;

    /// Appends a space.
    fn space(self) -> (r: Self)
        ensures
            r.content() == self.content() + seq![' '],
            r.mode() == self.mode(),
            self.same_frame(&r),
    ;

    /// Appends `n` spaces.
    fn spaces(self, n: usize) -> (r: Self)
        ensures
            r.content() == self.content() + spaces(n as nat),
            r.mode() == self.mode(),
            self.same_frame(&r),
    ;

    /// Appends a dot.
    fn dot(self) -> (r: Self)
        ensures
            r.content() == self.content() + seq!['.'],
            r.mode() == self.mode(),
            self.same_frame(&r),
    ;

    /// Appends a colon.
    fn colon(self) -> (r: Self)
        ensures
            r.content() == self.content() + seq![':'],
            r.mode() == self.mode(),
            self.same_frame(&r),
    ;

    /// Appends a slash.
    fn slash(self) -> (r: Self)
        ensures
            r.content() == self.content() + seq!['/'],
            r.mode() == self.mode(),
            self.same_frame(&r),
    ;

    /// Appends three dots.
    fn dots(self) -> (r: Self)
        ensures
            r.content() == self.content() + seq!['.', '.', '.'],
            r.mode() == self.mode(),
            self.same_frame(&r),
    ;

    /// Appends a word, in the plural unless `n` is 1.
    fn plural(self, s: &str, n: usize) -> (r: Self)
        ensures
            r.content() == self.content() + s@ + plural_ending(n),
            r.mode() == self.mode(),
            self.same_frame(&r),
    ;

    /// Switches the foreground to black.
    fn black(self) -> (r: Self)
        ensures
            r.content() == self.content() + self.mode().sequence(fg_8(0)),
            r.mode() == self.mode(),
            self.same_frame(&r),
    ;

    /// Switches the foreground to red.
    fn red(self) -> (r: Self)
        ensures
            r.content() == self.content() + self.mode().sequence(fg_8(1)),
            r.mode() == self.mode(),
            self.same_frame(&r),
    ;

    /// Switches the foreground to green.
    fn green(self) -> (r: Self)
        ensures
            r.content() == self.content() + self.mode().sequence(fg_8(2)),
            r.mode() == self.mode(),
            self.same_frame(&r),
    ;

    /// Switches the foreground to yellow.
    fn yellow(self) -> (r: Self)
        ensures
            r.content() == self.content() + self.mode().sequence(fg_8(3)),
            r.mode() == self.mode(),
            self.same_frame(&r),
    ;

    /// Switches the foreground to blue.
    fn blue(self) -> (r: Self)
        ensures
            r.content() == self.content() + self.mode().sequence(fg_8(4)),
            r.mode() == self.mode(),
            self.same_frame(&r),
    ;

    /// Switches the foreground to magenta.
    fn magenta(self) -> (r: Self)
        ensures
            r.content() == self.content() + self.mode().sequence(fg_8(5)),
            r.mode() == self.mode(),
            self.same_frame(&r),
    ;

    /// Switches the foreground to cyan.
    fn cyan(self) -> (r: Self)
        ensures
            r.content() == self.content() + self.mode().sequence(fg_8(6)),
            r.mode() == self.mode(),
            self.same_frame(&r),
    ;

    /// Switches the foreground to white.
    fn white(self) -> (r: Self)
        ensures
            r.content() == self.content() + self.mode().sequence(fg_8(7)),
            r.mode() == self.mode(),
            self.same_frame(&r),
    ;

    /// Switches the background to black.
    fn bg_black(self) -> (r: Self)
        ensures
            r.content() == self.content() + self.mode().sequence(bg_8(0)),
            r.mode() == self.mode(),
            self.same_frame(&r),
    ;

    /// Switches the background to red.
    fn bg_red(self) -> (r: Self)
        ensures
            r.content() == self.content() + self.mode().sequence(bg_8(1)),
            r.mode() == self.mode(),
            self.same_frame(&r),
    ;

    /// Switches the background to green.
    fn bg_green(self) -> (r: Self)
        ensures
            r.content() == self.content() + self.mode().sequence(bg_8(2)),
            r.mode() == self.mode(),
            self.same_frame(&r),
    ;

    /// Switches the background to yellow.
    fn bg_yellow(self) -> (r: Self)
        ensures
            r.content() == self.content() + self.mode().sequence(bg_8(3)),
            r.mode() == self.mode(),
            self.same_frame(&r),
    ;

    /// Switches the background to blue.
    fn bg_blue(self) -> (r: Self)
        ensures
            r.content() == self.content() + self.mode().sequence(bg_8(4)),
            r.mode() == self.mode(),
            self.same_frame(&r),
    ;

    /// Switches the background to magenta.
    fn bg_magenta(self) -> (r: Self)
        ensures
            r.content() == self.content() + self.mode().sequence(bg_8(5)),
            r.mode() == self.mode(),
            self.same_frame(&r),
    ;

    /// Switches the background to cyan.
    fn bg_cyan(self) -> (r: Self)
        ensures
            r.content() == self.content() + self.mode().sequence(bg_8(6)),
            r.mode() == self.mode(),
            self.same_frame(&r),
    ;

    /// Switches the background to white.
    fn bg_white(self) -> (r: Self)
        ensures
            r.content() == self.content() + self.mode().sequence(bg_8(7)),
            r.mode() == self.mode(),
            self.same_frame(&r),
    ;

    /// Switches the foreground to a colour.
    fn color(self, c: Color) -> (r: Self)
        ensures
            r.content() == self.content() + self.mode().sequence(fg(c)),
            r.mode() == self.mode(),
            self.same_frame(&r),
    ;

    /// Switches the background to a colour.
    fn bg_color(self, c: Color) -> (r: Self)
        ensures
            r.content() == self.content() + self.mode().sequence(bg(c)),
            r.mode() == self.mode(),
            self.same_frame(&r),
    ;

    /// Switches the foreground to one of the eight basic colours.
    fn color_8(self, c: u8) -> (r: Self)
        ensures
            r.content() == self.content() + self.mode().sequence(fg_8(c)),
            r.mode() == self.mode(),
            self.same_frame(&r),
    ;

    /// Switches the background to one of the eight basic colours.
    fn bg_color_8(self, c: u8) -> (r: Self)
        ensures
            r.content() == self.content() + self.mode().sequence(bg_8(c)),
            r.mode() == self.mode(),
            self.same_frame(&r),
    ;

    /// Switches the foreground to a colour of the palette of 256.
    fn color_256(self, c: u8) -> (r: Self)
        ensures
            r.content() == self.content() + self.mode().sequence(fg_256(c)),
            r.mode() == self.mode(),
            self.same_frame(&r),
    ;

    /// Switches the background to a colour of the palette of 256.
    fn bg_color_256(self, c: u8) -> (r: Self)
        ensures
            r.content() == self.content() + self.mode().sequence(bg_256(c)),
            r.mode() == self.mode(),
            self.same_frame(&r),
    ;

    /// Switches the foreground to a true colour.
    fn color_rgb(self, c: RgbColor) -> (r: Self)
        ensures
            r.content() == self.content() + self.mode().sequence(fg_rgb(c)),
            r.mode() == self.mode(),
            self.same_frame(&r),
    ;

    /// Switches the background to a true colour.
    fn bg_color_rgb(self, c: RgbColor) -> (r: Self)
        ensures
            r.content() == self.content() + self.mode().sequence(bg_rgb(c)),
            r.mode() == self.mode(),
            self.same_frame(&r),
    ;

    /// Switches to bold.
    fn bold(self) -> (r: Self)
        ensures
            r.content() == self.content() + self.mode().sequence(bold_code()),
            r.mode() == self.mode(),
            self.same_frame(&r),
    ;

    /// Switches to italic.
    fn italic(self) -> (r: Self)
        ensures
            r.content() == self.content() + self.mode().sequence(italic_code()),
            r.mode() == self.mode(),
            self.same_frame(&r),
    ;

    /// Switches to underline.
    fn underline(self) -> (r: Self)
        ensures
            r.content() == self.content() + self.mode().sequence(underline_code()),
            r.mode() == self.mode(),
            self.same_frame(&r),
    ;

    /// Switches back to the terminal's defaults.
    fn clear(self) -> (r: Self)
        ensures
            r.content() == self.content() + self.mode().sequence(clear_code()),
            r.mode() == self.mode(),
            self.same_frame(&r),
    ;
}

/// A piece of text under composition, together with the colour mode that
/// decides whether the sequences asked for are written into it.
#[derive(Debug)]
pub struct Text {
    color_mode: ColorMode,
    content: String,
}

impl View for Text {
    type V = Seq<char>;

    /// The characters composed so far.
    closed spec fn view(&self) -> Seq<char> {
        self.content@
    }
}

impl Clone for Text {
    /// A text of its own with the same characters and the same colour mode.
    fn clone(&self) -> (r: Text)
        ensures
            r@ == self@,
            r.color_mode() == self.color_mode(),
    {
        Text { color_mode: self.color_mode, content: self.content.clone() }
    }
}

impl From<ColorMode> for Text {
    /// An empty text.
    fn from(cm: ColorMode) -> (r: Text)
        ensures
            r@ == Seq::<char>::empty(),
            r.color_mode() == cm,
    {
        Self::new(cm)
    }
}

/// No spec function can make a text, so it is the contract of `from` that
/// says what the conversion gives, and `from_spec` says nothing.
impl FromSpecImpl<ColorMode> for Text {
    open spec fn obeys_from_spec() -> bool {
        false
    }

    open spec fn from_spec(cm: ColorMode) -> Text {
        arbitrary()
    }
}

impl Text {
    /// The colour mode that the text was made with.
    pub closed spec fn spec_color_mode(&self) -> ColorMode {
        self.color_mode
    }

    /// An empty text.
    pub fn new(color_mode: ColorMode) -> (r: Text)
        ensures
            r@ == Seq::<char>::empty(),
            r.color_mode() == color_mode,
    {
        Text { color_mode, content: String::new() }
    }

    /// The colour mode that the text was made with.
    #[verifier::when_used_as_spec(spec_color_mode)]
    pub fn color_mode(&self) -> (r: ColorMode)
        ensures
            r == self.spec_color_mode(),
    {
        self.color_mode
    }

    /// The characters composed so far.
    pub fn as_str(&self) -> (r: &str)
        ensures
            r@ == self@,
    {
        self.content.as_str()
    }

    /// The characters composed so far, as a string of its own.
    pub fn to_string(&self) -> (r: String)
        ensures
            r@ == self@,
    {
        self.content.clone()
    }

    /// The characters composed so far, followed by the sequence that
    /// switches back to the terminal's defaults.
    pub fn cleared(&self) -> (r: String)
        ensures
            r@ == self@ + self.color_mode().sequence(clear_code()),
    {
        let mut out = self.content.clone();
        out.append(self.color_mode.clear());
        out
    }
}

impl StyledText for Text {
    open spec fn content(&self) -> Seq<char> {
        self@
    }

    open spec fn mode(&self) -> ColorMode {
        self.color_mode()
    }

    open spec fn same_frame(&self, other: &Self) -> bool {
        true
    }

    fn s(self, s: &str) -> (r: Self) {
        let mut text = self;
        text.content.append(s);
        text
    }

    fn nl(self) -> (r: Self) {
        proof {
            reveal_strlit("\n");
        }
        self.s("\n")
    }

    fn space(self) -> (r: Self) {
        proof {
            reveal_strlit(" ");
        }
        self.s(" ")
    }

    fn spaces(self, n: usize) -> (r: Self) {
        let margin = spaces_string(n);
        self.s(margin.as_str())
    }

    fn dot(self) -> (r: Self) {
        proof {
            reveal_strlit(".");
        }
        self.s(".")
    }

    fn colon(self) -> (r: Self) {
        proof {
            reveal_strlit(":");
        }
        self.s(":")
    }

    fn slash(self) -> (r: Self) {
        proof {
            reveal_strlit("/");
        }
        self.s("/")
    }

    fn dots(self) -> (r: Self) {
        proof {
            reveal_strlit("...");
        }
        self.s("...")
    }

    fn plural(self, s: &str, n: usize) -> (r: Self) {
        proof {
            reveal_strlit("s");
        }
        if n == 1 {
            let r = self.s(s);
            assert(r@ =~= self@ + (s@ + plural_ending(n)));
            r
        } else {
            let r = self.s(s).s("s");
            assert(r@ =~= self@ + (s@ + plural_ending(n)));
            r
        }
    }

    fn black(self) -> (r: Self) {
        let code = self.color_mode.black();
        self.s(code.as_str())
    }

    fn red(self) -> (r: Self) {
        let code = self.color_mode.red();
        self.s(code.as_str())
    }

    fn green(self) -> (r: Self) {
        let code = self.color_mode.green();
        self.s(code.as_str())
    }

    fn yellow(self) -> (r: Self) {
        let code = self.color_mode.yellow();
        self.s(code.as_str())
    }

    fn blue(self) -> (r: Self) {
        let code = self.color_mode.blue();
        self.s(code.as_str())
    }

    fn magenta(self) -> (r: Self) {
        let code = self.color_mode.magenta();
        self.s(code.as_str())
    }

    fn cyan(self) -> (r: Self) {
        let code = self.color_mode.cyan();
        self.s(code.as_str())
    }

    fn white(self) -> (r: Self) {
        let code = self.color_mode.white();
        self.s(code.as_str())
    }

    fn bg_black(self) -> (r: Self) {
        let code = self.color_mode.bg_black();
        self.s(code.as_str())
    }

    fn bg_red(self) -> (r: Self) {
        let code = self.color_mode.bg_red();
        self.s(code.as_str())
    }

    fn bg_green(self) -> (r: Self) {
        let code = self.color_mode.bg_green();
        self.s(code.as_str())
    }

    fn bg_yellow(self) -> (r: Self) {
        let code = self.color_mode.bg_yellow();
        self.s(code.as_str())
    }

    fn bg_blue(self) -> (r: Self) {
        let code = self.color_mode.bg_blue();
        self.s(code.as_str())
    }

    fn bg_magenta(self) -> (r: Self) {
        let code = self.color_mode.bg_magenta();
        self.s(code.as_str())
    }

    fn bg_cyan(self) -> (r: Self) {
        let code = self.color_mode.bg_cyan();
        self.s(code.as_str())
    }

    fn bg_white(self) -> (r: Self) {
        let code = self.color_mode.bg_white();
        self.s(code.as_str())
    }

    fn color(self, c: Color) -> (r: Self) {
        let code = self.color_mode.color(c);
        self.s(code.as_str())
    }

    fn bg_color(self, c: Color) -> (r: Self) {
        let code = self.color_mode.bg_color(c);
        self.s(code.as_str())
    }

    fn color_8(self, c: u8) -> (r: Self) {
        let code = self.color_mode.color_8(c);
        self.s(code.as_str())
    }

    fn bg_color_8(self, c: u8) -> (r: Self) {
        let code = self.color_mode.bg_color_8(c);
        self.s(code.as_str())
    }

    fn color_256(self, c: u8) -> (r: Self) {
        let code = self.color_mode.color_256(c);
        self.s(code.as_str())
    }

    fn bg_color_256(self, c: u8) -> (r: Self) {
        let code = self.color_mode.bg_color_256(c);
        self.s(code.as_str())
    }

    fn color_rgb(self, c: RgbColor) -> (r: Self) {
        let code = self.color_mode.color_rgb(c);
        self.s(code.as_str())
    }

    fn bg_color_rgb(self, c: RgbColor) -> (r: Self) {
        let code = self.color_mode.bg_color_rgb(c);
        self.s(code.as_str())
    }

    fn bold(self) -> (r: Self) {
        let mode = self.color_mode;
        self.s(mode.bold())
    }

    fn italic(self) -> (r: Self) {
        let mode = self.color_mode;
        self.s(mode.italic())
    }

    fn underline(self) -> (r: Self) {
        let mode = self.color_mode;
        self.s(mode.underline())
    }

    fn clear(self) -> (r: Self) {
        let mode = self.color_mode;
        self.s(mode.clear())
    }
}

impl core::ops::Add for Text {
    type Output = Text;

    /// The two texts one after the other, in the colour mode of the first.
    fn add(self, rhs: Text) -> (r: Text)
        ensures
            r@ == self@ + rhs@,
            r.color_mode() == self.color_mode(),
    {
        let mut content = self.content;
        content.append(rhs.content.as_str());
        Text { color_mode: self.color_mode, content }
    }
}

/// No spec function can make a text, so it is the contract of `add` that
/// says what the sum is, and `add_spec` says nothing.
impl AddSpecImpl for Text {
    open spec fn obeys_add_spec() -> bool {
        false
    }

    open spec fn add_req(self, rhs: Text) -> bool {
        true
    }

    open spec fn add_spec(self, rhs: Text) -> Text {
        arbitrary()
    }
}

} // verus!
