//! Terminal colour sequences.
//!
//! Every sequence is a "select graphic rendition" control: the escape
//! character, an opening bracket, parameters written in decimal and separated
//! by semicolons, and a closing `m`. The spec functions of this module say
//! which characters each sequence is made of; [`ColorMode`] decides whether a
//! sequence is emitted at all.

use vstd::prelude::*;
use vstd::std_specs::convert::FromSpecImpl;

verus! {

/// Red, green and blue components of a true colour.
pub type RgbColor = (u8, u8, u8);

/// A colour, in one of three encodings.
#[derive(Debug, Copy, Clone, PartialEq, Eq, Hash)]
pub enum Color {
    Black,
    Red,
    Green,
    Yellow,
    Blue,
    Magenta,
    Cyan,
    White,
    /// An index into the palette of 256 colours.
    Long(u8),
    /// A true colour.
    Rgb(RgbColor),
}

/// The colour of a number: one of the eight basic colours for 0 to 7, a
/// colour of the palette of 256 for anything above.
pub open spec fn color_of_index(n: u8) -> Color {
    if n == 0 {
        Color::Black
    } else if n == 1 {
        Color::Red
    } else if n == 2 {
        Color::Green
    } else if n == 3 {
        Color::Yellow
    } else if n == 4 {
        Color::Blue
    } else if n == 5 {
        Color::Magenta
    } else if n == 6 {
        Color::Cyan
    } else if n == 7 {
        Color::White
    } else {
        Color::Long(n)
    }
}

impl From<u8> for Color {
    /// The colour of a number.
    fn from(n: u8) -> (r: Color) {
        match n {
            0 => Self::Black,
            1 => Self::Red,
            2 => Self::Green,
            3 => Self::Yellow,
            4 => Self::Blue,
            5 => Self::Magenta,
            6 => Self::Cyan,
            7 => Self::White,
            _ => Self::Long(n),
        }
    }
}

impl FromSpecImpl<u8> for Color {
    open spec fn obeys_from_spec() -> bool {
        true
    }

    open spec fn from_spec(n: u8) -> Color {
        color_of_index(n)
    }
}

impl From<RgbColor> for Color {
    /// The true colour of three components.
    fn from(n: RgbColor) -> (r: Color) {
        Self::Rgb(n)
    }
}

impl FromSpecImpl<RgbColor> for Color {
    open spec fn obeys_from_spec() -> bool {
        true
    }

    open spec fn from_spec(n: RgbColor) -> Color {
        Color::Rgb(n)
    }
}

/// Switches terminal colouring on or off.
#[derive(Debug, Copy, Clone, PartialEq, Eq, Hash, Structural)]
pub enum ColorMode {
    /// Colouring is on: every sequence is emitted.
    On,
    /// Colouring is off: every sequence is the empty string.
    Off,
}

/// The character that stands for the digit `d`.
pub open spec fn digit(d: nat) -> char {
    if d == 0 {
        '0'
    } else if d == 1 {
        '1'
    } else if d == 2 {
        '2'
    } else if d == 3 {
        '3'
    } else if d == 4 {
        '4'
    } else if d == 5 {
        '5'
    } else if d == 6 {
        '6'
    } else if d == 7 {
        '7'
    } else if d == 8 {
        '8'
    } else {
        '9'
    }
}

/// `n` written in decimal, without leading zeros.
pub open spec fn decimal(n: nat) -> Seq<char>
    decreases n,
{
    if n < 10 {
        seq![digit(n)]
    } else {
        decimal(n / 10).push(digit(n % 10))
    }
}

/// The control sequence with the given parameters.
pub open spec fn sgr(params: Seq<char>) -> Seq<char> {
    seq!['\u{1b}', '['] + params + seq!['m']
}

/// The index of one of the eight basic colours: anything above 7 counts as 7.
pub open spec fn basic_index(c: u8) -> nat {
    if c > 7 {
        7
    } else {
        c as nat
    }
}

/// Foreground in one of the eight basic colours.
pub open spec fn fg_8(c: u8) -> Seq<char> {
    sgr(decimal(30 + basic_index(c)))
}

/// Background in one of the eight basic colours.
pub open spec fn bg_8(c: u8) -> Seq<char> {
    sgr(decimal(40 + basic_index(c)))
}

/// Foreground in a colour of the palette of 256.
pub open spec fn fg_256(c: u8) -> Seq<char> {
    sgr(seq!['3', '8', ';', '5', ';'] + decimal(c as nat))
}

/// Background in a colour of the palette of 256.
pub open spec fn bg_256(c: u8) -> Seq<char> {
    sgr(seq!['4', '8', ';', '5', ';'] + decimal(c as nat))
}

/// The three components of a true colour, separated by semicolons.
pub open spec fn rgb_params(c: RgbColor) -> Seq<char> {
    decimal(c.0 as nat) + seq![';'] + decimal(c.1 as nat) + seq![';'] + decimal(c.2 as nat)
}

/// Foreground in a true colour.
pub open spec fn fg_rgb(c: RgbColor) -> Seq<char> {
    sgr(seq!['3', '8', ';', '2', ';'] + rgb_params(c))
}

/// Background in a true colour.
pub open spec fn bg_rgb(c: RgbColor) -> Seq<char> {
    sgr(seq!['4', '8', ';', '2', ';'] + rgb_params(c))
}

/// Foreground in any colour.
pub open spec fn fg(c: Color) -> Seq<char> {
    match c {
        Color::Black => fg_8(0),
        Color::Red => fg_8(1),
        Color::Green => fg_8(2),
        Color::Yellow => fg_8(3),
        Color::Blue => fg_8(4),
        Color::Magenta => fg_8(5),
        Color::Cyan => fg_8(6),
        Color::White => fg_8(7),
        Color::Long(value) => fg_256(value),
        Color::Rgb(value) => fg_rgb(value),
    }
}

/// Background in any colour.
pub open spec fn bg(c: Color) -> Seq<char> {
    match c {
        Color::Black => bg_8(0),
        Color::Red => bg_8(1),
        Color::Green => bg_8(2),
        Color::Yellow => bg_8(3),
        Color::Blue => bg_8(4),
        Color::Magenta => bg_8(5),
        Color::Cyan => bg_8(6),
        Color::White => bg_8(7),
        Color::Long(value) => bg_256(value),
        Color::Rgb(value) => bg_rgb(value),
    }
}

/// Bold.
pub open spec fn bold_code() -> Seq<char> {
    sgr(seq!['1'])
}

/// Italic.
pub open spec fn italic_code() -> Seq<char> {
    sgr(seq!['3'])
}

/// Underline.
pub open spec fn underline_code() -> Seq<char> {
    sgr(seq!['4'])
}

/// Back to the terminal's defaults.
pub open spec fn clear_code() -> Seq<char> {
    sgr(seq!['0'])
}

/// The characters that a control sequence is made of: the escape character,
/// the opening bracket, digits, the semicolon between parameters, and the
/// closing `m`.
pub open spec fn sequence_char(c: char) -> bool {
    c == '\u{1b}' || c == '[' || c == ';' || c == 'm' || exists|d: nat| d < 10 && c == digit(d)
}

/// Every character of `s` is one of a control sequence.
pub open spec fn sequence_text(s: Seq<char>) -> bool {
    forall|i: int| 0 <= i < s.len() ==> sequence_char(#[trigger] s[i])
}

/// A number in decimal is made of digits.
pub proof fn lemma_decimal_digits(n: nat)
    ensures
        sequence_text(decimal(n)),
        decimal(n).len() >= 1,
    decreases n,
{
    if n < 10 {
        assert(sequence_char(digit(n)));
    } else {
        lemma_decimal_digits(n / 10);
        assert(sequence_char(digit(n % 10)));
    }
}

/// Parameters between the opening and the closing of a control sequence make
/// a text of sequence characters.
pub proof fn lemma_sgr_chars(params: Seq<char>)
    requires
        sequence_text(params),
    ensures
        sequence_text(sgr(params)),
{
    let s = sgr(params);
    assert forall|i: int| 0 <= i < s.len() implies sequence_char(#[trigger] s[i]) by {
        if 2 <= i < 2 + params.len() {
            assert(s[i] == params[i - 2]);
        }
    }
}

/// Two texts of sequence characters make one.
pub proof fn lemma_sequence_text_concat(a: Seq<char>, b: Seq<char>)
    requires
        sequence_text(a),
        sequence_text(b),
    ensures
        sequence_text(a + b),
{
    assert forall|i: int| 0 <= i < (a + b).len() implies sequence_char(#[trigger] (a + b)[i]) by {
        if i < a.len() {
            assert((a + b)[i] == a[i]);
        } else {
            assert((a + b)[i] == b[i - a.len()]);
        }
    }
}

/// The parameters of a true colour are digits and semicolons.
pub proof fn lemma_rgb_params_chars(c: RgbColor)
    ensures
        sequence_text(rgb_params(c)),
{
    lemma_decimal_digits(c.0 as nat);
    lemma_decimal_digits(c.1 as nat);
    lemma_decimal_digits(c.2 as nat);
    let semicolon = seq![';'];
    assert(sequence_text(semicolon));
    lemma_sequence_text_concat(decimal(c.0 as nat), semicolon);
    lemma_sequence_text_concat(decimal(c.0 as nat) + semicolon, decimal(c.1 as nat));
    lemma_sequence_text_concat(decimal(c.0 as nat) + semicolon + decimal(c.1 as nat), semicolon);
    lemma_sequence_text_concat(
        decimal(c.0 as nat) + semicolon + decimal(c.1 as nat) + semicolon,
        decimal(c.2 as nat),
    );
}

/// Whatever the colour, in foreground or background, and whatever the style:
/// a control sequence holds sequence characters only. No text character, no
/// line break and no connector of a tree is among them.
pub proof fn lemma_sequences_are_control(c: Color)
    ensures
        sequence_text(fg(c)),
        sequence_text(bg(c)),
        sequence_text(bold_code()),
        sequence_text(italic_code()),
        sequence_text(underline_code()),
        sequence_text(clear_code()),
{
    let long_fg = seq!['3', '8', ';', '5', ';'];
    let long_bg = seq!['4', '8', ';', '5', ';'];
    let true_fg = seq!['3', '8', ';', '2', ';'];
    let true_bg = seq!['4', '8', ';', '2', ';'];
    assert(sequence_char(digit(0)) && sequence_char(digit(1)) && sequence_char(digit(2))
        && sequence_char(digit(3)) && sequence_char(digit(4)) && sequence_char(digit(5))
        && sequence_char(digit(8)));
    assert(sequence_text(long_fg));
    assert(sequence_text(long_bg));
    assert(sequence_text(true_fg));
    assert(sequence_text(true_bg));
    match c {
        Color::Long(value) => {
            lemma_decimal_digits(value as nat);
            lemma_sequence_text_concat(long_fg, decimal(value as nat));
            lemma_sequence_text_concat(long_bg, decimal(value as nat));
            lemma_sgr_chars(long_fg + decimal(value as nat));
            lemma_sgr_chars(long_bg + decimal(value as nat));
        },
        Color::Rgb(value) => {
            lemma_rgb_params_chars(value);
            lemma_sequence_text_concat(true_fg, rgb_params(value));
            lemma_sequence_text_concat(true_bg, rgb_params(value));
            lemma_sgr_chars(true_fg + rgb_params(value));
            lemma_sgr_chars(true_bg + rgb_params(value));
        },
        _ => {
            let index: u8 = match c {
                Color::Black => 0,
                Color::Red => 1,
                Color::Green => 2,
                Color::Yellow => 3,
                Color::Blue => 4,
                Color::Magenta => 5,
                Color::Cyan => 6,
                _ => 7,
            };
            lemma_decimal_digits(30 + basic_index(index));
            lemma_decimal_digits(40 + basic_index(index));
            lemma_sgr_chars(decimal(30 + basic_index(index)));
            lemma_sgr_chars(decimal(40 + basic_index(index)));
        },
    }
    assert(sequence_text(seq!['1']));
    assert(sequence_text(seq!['3']));
    assert(sequence_text(seq!['4']));
    assert(sequence_text(seq!['0']));
    lemma_sgr_chars(seq!['1']);
    lemma_sgr_chars(seq!['3']);
    lemma_sgr_chars(seq!['4']);
    lemma_sgr_chars(seq!['0']);
}

/// One decimal digit as a string.
fn digit_str(d: u8) -> (r: &'static str)
    requires
        d < 10,
    ensures
        r@ == seq![digit(d as nat)],
{
    proof {
        reveal_strlit("0");
        reveal_strlit("1");
        reveal_strlit("2");
        reveal_strlit("3");
        reveal_strlit("4");
        reveal_strlit("5");
        reveal_strlit("6");
        reveal_strlit("7");
        reveal_strlit("8");
        reveal_strlit("9");
    }
    match d {
        0 => "0",
        1 => "1",
        2 => "2",
        3 => "3",
        4 => "4",
        5 => "5",
        6 => "6",
        7 => "7",
        8 => "8",
        _ => "9",
    }
}

/// Appends `n` in decimal to `out`.
fn push_decimal(out: &mut String, n: u8)
    ensures
        final(out)@ == old(out)@ + decimal(n as nat),
{
    proof {
        reveal_with_fuel(decimal, 3);
    }
    if n >= 100 {
        out.append(digit_str(n / 100));
    }
    if n >= 10 {
        out.append(digit_str((n / 10) % 10));
    }
    out.append(digit_str(n % 10));
}

/// The control sequence whose parameters are `prefix` followed by `n` in
/// decimal.
fn sgr_number(prefix: &str, n: u8) -> (r: String)
    ensures
        r@ == sgr(prefix@ + decimal(n as nat)),
{
    proof {
        reveal_strlit("\u{1b}[");
        reveal_strlit("m");
    }
    let mut out = String::from_str("\u{1b}[");
    out.append(prefix);
    push_decimal(&mut out, n);
    out.append("m");
    out
}

/// The control sequence whose parameters are `prefix` followed by the three
/// components of `c`.
fn sgr_rgb(prefix: &str, c: RgbColor) -> (r: String)
    ensures
        r@ == sgr(prefix@ + rgb_params(c)),
{
    proof {
        reveal_strlit("\u{1b}[");
        reveal_strlit(";");
        reveal_strlit("m");
    }
    let mut out = String::from_str("\u{1b}[");
    out.append(prefix);
    push_decimal(&mut out, c.0);
    out.append(";");
    push_decimal(&mut out, c.1);
    out.append(";");
    push_decimal(&mut out, c.2);
    out.append("m");
    out
}

/// What `str::to_lowercase` makes of a text.
pub uninterp spec fn lowercased(s: Seq<char>) -> Seq<char>;

/// What `str::trim` leaves of a text.
pub uninterp spec fn trimmed(s: Seq<char>) -> Seq<char>;

/// `str::to_lowercase`: the lowercase equivalent of the text, as a new
/// string. Nothing is claimed of it but that it depends on the text alone.
#[verifier::external_body]
fn to_lowercase(s: &str) -> (r: String)
    ensures
        r@ == lowercased(s@),
{
    s.to_lowercase()
}

/// `str::trim`: the text without the white space at its beginning and its
/// end. Nothing is claimed of it but that it depends on the text alone.
#[verifier::external_body]
fn trim(s: &str) -> (r: &str)
    ensures
        r@ == trimmed(s@),
{
    s.trim()
}

/// The word that switches colouring off.
pub open spec fn never_keyword() -> Seq<char> {
    seq!['n', 'e', 'v', 'e', 'r']
}

/// The word that switches colouring on.
pub open spec fn always_keyword() -> Seq<char> {
    seq!['a', 'l', 'w', 'a', 'y', 's']
}

/// The mode that a keyword asks for: off for "never", on for "always", and
/// for anything else on exactly if the output goes to a terminal.
pub open spec fn keyword_mode(keyword: Seq<char>, terminal: bool) -> ColorMode {
    if keyword == never_keyword() {
        ColorMode::Off
    } else if keyword == always_keyword() {
        ColorMode::On
    } else if terminal {
        ColorMode::On
    } else {
        ColorMode::Off
    }
}

impl ColorMode {
    /// What this mode makes of a control sequence: the sequence itself when
    /// colouring is on, nothing when it is off.
    pub open spec fn sequence(self, code: Seq<char>) -> Seq<char> {
        match self {
            ColorMode::On => code,
            ColorMode::Off => Seq::empty(),
        }
    }

    /// The mode that a user's choice asks for. The choice is read without
    /// regard to case and to white space around it; `terminal` says whether
    /// the output goes to a terminal, which decides where the choice is
    /// neither "never" nor "always".
    pub fn new(s: &str, terminal: bool) -> (r: ColorMode)
        ensures
            r == keyword_mode(trimmed(lowercased(s@)), terminal),
    {
        let lowercase = to_lowercase(s);
        Self::from_keyword(trim(lowercase.as_str()), terminal)
    }

    /// The mode that a keyword asks for, where the keyword is taken as it
    /// stands.
    pub fn from_keyword(keyword: &str, terminal: bool) -> (r: ColorMode)
        ensures
            r == keyword_mode(keyword@, terminal),
    {
        proof {
            reveal_strlit("never");
            reveal_strlit("always");
            assert("never"@ =~= never_keyword());
            assert("always"@ =~= always_keyword());
        }
        let word = String::from_str(keyword);
        if word == String::from_str("never") {
            ColorMode::Off
        } else if word == String::from_str("always") {
            ColorMode::On
        } else {
            Self::for_terminal(terminal)
        }
    }

    /// The mode for an output of which nothing else is known: on for a
    /// terminal, off for anything else.
    pub fn for_terminal(terminal: bool) -> (r: ColorMode)
        ensures
            r == (if terminal {
                ColorMode::On
            } else {
                ColorMode::Off
            }),
    {
        if terminal {
            ColorMode::On
        } else {
            ColorMode::Off
        }
    }

    /// Foreground in black.
    pub fn black(&self) -> (r: String)
        ensures
            r@ == self.sequence(fg_8(0)),
    {
        self.color_8(0)
    }

    /// Foreground in red.
    pub fn red(&self) -> (r: String)
        ensures
            r@ == self.sequence(fg_8(1)),
    {
        self.color_8(1)
    }

    /// Foreground in green.
    pub fn green(&self) -> (r: String)
        ensures
            r@ == self.sequence(fg_8(2)),
    {
        self.color_8(2)
    }

    /// Foreground in yellow.
    pub fn yellow(&self) -> (r: String)
        ensures
            r@ == self.sequence(fg_8(3)),
    {
        self.color_8(3)
    }

    /// Foreground in blue.
    pub fn blue(&self) -> (r: String)
        ensures
            r@ == self.sequence(fg_8(4)),
    {
        self.color_8(4)
    }

    /// Foreground in magenta.
    pub fn magenta(&self) -> (r: String)
        ensures
            r@ == self.sequence(fg_8(5)),
    {
        self.color_8(5)
    }

    /// Foreground in cyan.
    pub fn cyan(&self) -> (r: String)
        ensures
            r@ == self.sequence(fg_8(6)),
    {
        self.color_8(6)
    }

    /// Foreground in white.
    pub fn white(&self) -> (r: String)
        ensures
            r@ == self.sequence(fg_8(7)),
    {
        self.color_8(7)
    }

    /// Background in black.
    pub fn bg_black(&self) -> (r: String)
        ensures
            r@ == self.sequence(bg_8(0)),
    {
        self.bg_color_8(0)
    }

    /// Background in red.
    pub fn bg_red(&self) -> (r: String)
        ensures
            r@ == self.sequence(bg_8(1)),
    {
        self.bg_color_8(1)
    }

    /// Background in green.
    pub fn bg_green(&self) -> (r: String)
        ensures
            r@ == self.sequence(bg_8(2)),
    {
        self.bg_color_8(2)
    }

    /// Background in yellow.
    pub fn bg_yellow(&self) -> (r: String)
        ensures
            r@ == self.sequence(bg_8(3)),
    {
        self.bg_color_8(3)
    }

    /// Background in blue.
    pub fn bg_blue(&self) -> (r: String)
        ensures
            r@ == self.sequence(bg_8(4)),
    {
        self.bg_color_8(4)
    }

    /// Background in magenta.
    pub fn bg_magenta(&self) -> (r: String)
        ensures
            r@ == self.sequence(bg_8(5)),
    {
        self.bg_color_8(5)
    }

    /// Background in cyan.
    pub fn bg_cyan(&self) -> (r: String)
        ensures
            r@ == self.sequence(bg_8(6)),
    {
        self.bg_color_8(6)
    }

    /// Background in white.
    pub fn bg_white(&self) -> (r: String)
        ensures
            r@ == self.sequence(bg_8(7)),
    {
        self.bg_color_8(7)
    }

    /// Foreground in any colour.
    pub fn color(&self, c: Color) -> (r: String)
        ensures
            r@ == self.sequence(fg(c)),
    {
        match c {
            Color::Black => self.color_8(0),
            Color::Red => self.color_8(1),
            Color::Green => self.color_8(2),
            Color::Yellow => self.color_8(3),
            Color::Blue => self.color_8(4),
            Color::Magenta => self.color_8(5),
            Color::Cyan => self.color_8(6),
            Color::White => self.color_8(7),
            Color::Long(value) => self.color_256(value),
            Color::Rgb(value) => self.color_rgb(value),
        }
    }

    /// Background in any colour.
    pub fn bg_color(&self, c: Color) -> (r: String)
        ensures
            r@ == self.sequence(bg(c)),
    {
        match c {
            Color::Black => self.bg_color_8(0),
            Color::Red => self.bg_color_8(1),
            Color::Green => self.bg_color_8(2),
            Color::Yellow => self.bg_color_8(3),
            Color::Blue => self.bg_color_8(4),
            Color::Magenta => self.bg_color_8(5),
            Color::Cyan => self.bg_color_8(6),
            Color::White => self.bg_color_8(7),
            Color::Long(value) => self.bg_color_256(value),
            Color::Rgb(value) => self.bg_color_rgb(value),
        }
    }

    /// Foreground in one of the eight basic colours; an index above 7 is
    /// taken as 7.
    pub fn color_8(&self, c: u8) -> (r: String)
        ensures
            r@ == self.sequence(fg_8(c)),
    {
        match self {
            ColorMode::On => {
                let index: u8 = if c > 7 {
                    7
                } else {
                    c
                };
                let r = sgr_number("", 30 + index);
                proof {
                    reveal_strlit("");
                    assert(""@ + decimal((30 + index) as nat) =~= decimal(30 + basic_index(c)));
                }
                r
            },
            ColorMode::Off => String::new(),
        }
    }

    /// Background in one of the eight basic colours; an index above 7 is
    /// taken as 7.
    pub fn bg_color_8(&self, c: u8) -> (r: String)
        ensures
            r@ == self.sequence(bg_8(c)),
    {
        match self {
            ColorMode::On => {
                let index: u8 = if c > 7 {
                    7
                } else {
                    c
                };
                let r = sgr_number("", 40 + index);
                proof {
                    reveal_strlit("");
                    assert(""@ + decimal((40 + index) as nat) =~= decimal(40 + basic_index(c)));
                }
                r
            },
            ColorMode::Off => String::new(),
        }
    }

    /// Foreground in a colour of the palette of 256.
    pub fn color_256(&self, c: u8) -> (r: String)
        ensures
            r@ == self.sequence(fg_256(c)),
    {
        match self {
            ColorMode::On => {
                proof {
                    reveal_strlit("38;5;");
                }
                sgr_number("38;5;", c)
            },
            ColorMode::Off => String::new(),
        }
    }

    /// Background in a colour of the palette of 256.
    pub fn bg_color_256(&self, c: u8) -> (r: String)
        ensures
            r@ == self.sequence(bg_256(c)),
    {
        match self {
            ColorMode::On => {
                proof {
                    reveal_strlit("48;5;");
                }
                sgr_number("48;5;", c)
            },
            ColorMode::Off => String::new(),
        }
    }

    /// Foreground in a true colour.
    pub fn color_rgb(&self, c: RgbColor) -> (r: String)
        ensures
            r@ == self.sequence(fg_rgb(c)),
    {
        match self {
            ColorMode::On => {
                proof {
                    reveal_strlit("38;2;");
                }
                sgr_rgb("38;2;", c)
            },
            ColorMode::Off => String::new(),
        }
    }

    /// Background in a true colour.
    pub fn bg_color_rgb(&self, c: RgbColor) -> (r: String)
        ensures
            r@ == self.sequence(bg_rgb(c)),
    {
        match self {
            ColorMode::On => {
                proof {
                    reveal_strlit("48;2;");
                }
                sgr_rgb("48;2;", c)
            },
            ColorMode::Off => String::new(),
        }
    }

    /// Bold.
    pub fn bold(&self) -> (r: &str)
        ensures
            r@ == self.sequence(bold_code()),
    {
        proof {
            reveal_strlit("\u{1b}[1m");
            reveal_strlit("");
        }
        match self {
            ColorMode::On => "\u{1b}[1m",
            ColorMode::Off => "",
        }
    }

    /// Italic.
    pub fn italic(&self) -> (r: &str)
        ensures
            r@ == self.sequence(italic_code()),
    {
        proof {
            reveal_strlit("\u{1b}[3m");
            reveal_strlit("");
        }
        match self {
            ColorMode::On => "\u{1b}[3m",
            ColorMode::Off => "",
        }
    }

    /// Underline.
    pub fn underline(&self) -> (r: &str)
        ensures
            r@ == self.sequence(underline_code()),
    {
        proof {
            reveal_strlit("\u{1b}[4m");
            reveal_strlit("");
        }
        match self {
            ColorMode::On => "\u{1b}[4m",
            ColorMode::Off => "",
        }
    }

    /// Back to the terminal's defaults.
    pub fn clear(&self) -> (r: &str)
        ensures
            r@ == self.sequence(clear_code()),
    {
        proof {
            reveal_strlit("\u{1b}[0m");
            reveal_strlit("");
        }
        match self {
            ColorMode::On => "\u{1b}[0m",
            ColorMode::Off => "",
        }
    }
}

} // verus!
