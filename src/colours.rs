use vstd::prelude::*;
use vstd::string::*;
use vstd::utf8::*;

use crate::text::{decimal, push_decimal};

verus! {

/// One of the eight colours of the terminal palette.
#[derive(Clone, Copy, Debug, PartialEq, Eq, Structural)]
pub enum Colour {
    Black,
    Red,
    Green,
    Yellow,
    Blue,
    Purple,
    Cyan,
    White,
}

/// The fields of a decorated style.
#[derive(Clone, Copy, Debug, PartialEq, Eq, Structural)]
pub struct StyleStruct {
    pub foreground: Colour,
    pub background: Option<Colour>,
    pub bold: bool,
    pub underline: bool,
}

/// How a piece of text is drawn: as it is, in a foreground colour, or with
/// decorations.
#[derive(Clone, Copy, Debug, PartialEq, Eq, Structural)]
pub enum Style {
    Plain,
    Foreground(Colour),
    CustomStyle(StyleStruct),
}

/// Painting failed: the bytes are not valid UTF-8.
#[derive(Clone, Copy, Debug, PartialEq, Eq, Structural)]
pub struct EncodingError;

/// The control sequence introducer `ESC [`.
pub open spec fn csi() -> Seq<char> {
    seq!['\x1b', '[']
}

/// The sequence `ESC [ 0 m` that resets all attributes.
pub open spec fn reset() -> Seq<char> {
    seq!['\x1b', '[', '0', 'm']
}

/// `text` between the SGR sequence with parameters `params` and a reset.
pub open spec fn sgr_wrap(params: Seq<char>, text: Seq<char>) -> Seq<char> {
    csi() + params + seq!['m'] + text + reset()
}

/// The SGR parameters of a decorated style: bold, underline, background and
/// foreground, in that order.
pub open spec fn custom_params(st: StyleStruct) -> Seq<char> {
    (if st.bold {
        seq!['1', ';']
    } else {
        Seq::<char>::empty()
    }) + (if st.underline {
        seq!['4', ';']
    } else {
        Seq::<char>::empty()
    }) + (match st.background {
        Some(b) => decimal(b.code() + 10).push(';'),
        None => Seq::<char>::empty(),
    }) + decimal(st.foreground.code())
}

impl Colour {
    /// The SGR foreground code of the colour.
    pub open spec fn code(self) -> nat {
        match self {
            Colour::Black => 30,
            Colour::Red => 31,
            Colour::Green => 32,
            Colour::Yellow => 33,
            Colour::Blue => 34,
            Colour::Purple => 35,
            Colour::Cyan => 36,
            Colour::White => 37,
        }
    }

    /// `text` drawn in this colour.
    pub open spec fn painted(self, text: Seq<char>) -> Seq<char> {
        sgr_wrap(decimal(self.code()), text)
    }

    /// The decorated style with this foreground and the given fields.
    pub open spec fn custom(self, background: Option<Colour>, bold: bool, underline: bool) -> Style {
        Style::CustomStyle(
            StyleStruct { foreground: self, background: background, bold: bold, underline: underline },
        )
    }

    pub fn code_num(&self) -> (r: u64)
        ensures
            r == self.code(),
    {
        match self {
            Colour::Black => 30,
            Colour::Red => 31,
            Colour::Green => 32,
            Colour::Yellow => 33,
            Colour::Blue => 34,
            Colour::Purple => 35,
            Colour::Cyan => 36,
            Colour::White => 37,
        }
    }

    /// `text` wrapped in this colour's escape sequence and a reset.
    pub fn paint_str(&self, text: &str) -> (r: String)
        ensures
            r@ == self.painted(text@),
    {
        let mut params = String::new();
        push_decimal(&mut params, self.code_num());
        wrap_sgr(params.as_str(), text)
    }

    /// The bytes `input`, decoded as UTF-8, drawn in this colour.
    pub fn paint(&self, input: &[u8]) -> (r: Result<String, EncodingError>)
        ensures
            valid_utf8(input@) <==> r is Ok,
            r matches Ok(s) ==> s@ == self.painted(decode_utf8(input@)),
    {
        match decode_text(input) {
            Some(text) => Ok(self.paint_str(text)),
            None => Err(EncodingError),
        }
    }

    pub fn underline(&self) -> (r: Style)
        ensures
            r == self.custom(None, false, true),
    {
        Style::CustomStyle(
            StyleStruct { foreground: *self, background: None, bold: false, underline: true },
        )
    }

    pub fn bold(&self) -> (r: Style)
        ensures
            r == self.custom(None, true, false),
    {
        Style::CustomStyle(
            StyleStruct { foreground: *self, background: None, bold: true, underline: false },
        )
    }

    pub fn normal(&self) -> (r: Style)
        ensures
            r == self.custom(None, false, false),
    {
        Style::CustomStyle(
            StyleStruct { foreground: *self, background: None, bold: false, underline: false },
        )
    }

    pub fn on(&self, background: Colour) -> (r: Style)
        ensures
            r == self.custom(Some(background), false, false),
    {
        Style::CustomStyle(
            StyleStruct {
                foreground: *self,
                background: Some(background),
                bold: false,
                underline: false,
            },
        )
    }
}

/// Relies on std::str::from_utf8: it succeeds exactly on valid UTF-8 and then
/// holds the decoded characters.
#[verifier::external_body]
fn decode_text(bytes: &[u8]) -> (r: Option<&str>)
    ensures
        r is Some <==> valid_utf8(bytes@),
        r matches Some(s) ==> s@ == decode_utf8(bytes@),
{
    std::str::from_utf8(bytes).ok()
}

/// `text` between the SGR sequence with parameters `params` and a reset.
fn wrap_sgr(params: &str, text: &str) -> (r: String)
    ensures
        r@ == sgr_wrap(params@, text@),
{
    let mut r = String::new();
    let open = "\x1b[";
    let end = "m";
    let close = "\x1b[0m";
    proof {
        reveal_strlit("\x1b[");
        reveal_strlit("m");
        reveal_strlit("\x1b[0m");
    }
    r.append(open);
    r.append(params);
    r.append(end);
    r.append(text);
    r.append(close);
    assert(r@ =~= sgr_wrap(params@, text@));
    r
}

impl Style {
    /// The fields that a modifier starts from: a plain style is white, a
    /// foreground style carries its colour, a decorated style its fields.
    pub open spec fn fields(self) -> StyleStruct {
        match self {
            Style::Plain => StyleStruct {
                foreground: Colour::White,
                background: None,
                bold: false,
                underline: false,
            },
            Style::Foreground(c) => StyleStruct {
                foreground: c,
                background: None,
                bold: false,
                underline: false,
            },
            Style::CustomStyle(st) => st,
        }
    }

    /// `text` drawn in this style.
    pub open spec fn painted(self, text: Seq<char>) -> Seq<char> {
        match self {
            Style::Plain => text,
            Style::Foreground(c) => sgr_wrap(decimal(c.code()), text),
            Style::CustomStyle(st) => sgr_wrap(custom_params(st), text),
        }
    }

    /// `text` drawn in this style.
    pub fn paint_str(&self, text: &str) -> (r: String)
        ensures
            r@ == self.painted(text@),
    {
        match self {
            Style::Plain => {
                let mut r = String::new();
                r.append(text);
                r
            },
            Style::Foreground(c) => c.paint_str(text),
            Style::CustomStyle(st) => {
                let mut params = String::new();
                let semi = ";";
                proof {
                    reveal_strlit(";");
                }
                if st.bold {
                    let b = "1;";
                    proof {
                        reveal_strlit("1;");
                    }
                    params.append(b);
                }
                if st.underline {
                    let u = "4;";
                    proof {
                        reveal_strlit("4;");
                    }
                    params.append(u);
                }
                match st.background {
                    Some(b) => {
                        push_decimal(&mut params, b.code_num() + 10);
                        params.append(semi);
                    },
                    None => {},
                }
                push_decimal(&mut params, st.foreground.code_num());
                assert(params@ =~= custom_params(*st));
                wrap_sgr(params.as_str(), text)
            },
        }
    }

    /// The bytes `input`, decoded as UTF-8, drawn in this style.
    pub fn paint(&self, input: &[u8]) -> (r: Result<String, EncodingError>)
        ensures
            valid_utf8(input@) <==> r is Ok,
            r matches Ok(s) ==> s@ == self.painted(decode_utf8(input@)),
    {
        match decode_text(input) {
            Some(text) => Ok(self.paint_str(text)),
            None => Err(EncodingError),
        }
    }

    /// This style made bold; the other fields are kept.
    pub fn bold(&self) -> (r: Style)
        ensures
            r == (Style::CustomStyle(StyleStruct { bold: true, ..self.fields() })),
    {
        let st = self.start();
        Style::CustomStyle(StyleStruct { bold: true, ..st })
    }

    /// This style underlined; the other fields are kept.
    pub fn underline(&self) -> (r: Style)
        ensures
            r == (Style::CustomStyle(StyleStruct { underline: true, ..self.fields() })),
    {
        let st = self.start();
        Style::CustomStyle(StyleStruct { underline: true, ..st })
    }

    /// This style on the background `background`; the other fields are kept.
    pub fn on(&self, background: Colour) -> (r: Style)
        ensures
            r == (Style::CustomStyle(StyleStruct { background: Some(background), ..self.fields() })),
    {
        let st = self.start();
        Style::CustomStyle(StyleStruct { background: Some(background), ..st })
    }

    /// This style without bold or underline; its colours are kept.
    pub fn normal(&self) -> (r: Style)
        ensures
            r == (Style::CustomStyle(
                StyleStruct { bold: false, underline: false, ..self.fields() },
            )),
            r matches Style::CustomStyle(st) && !st.bold && !st.underline,
    {
        let st = self.start();
        Style::CustomStyle(StyleStruct { bold: false, underline: false, ..st })
    }

    fn start(&self) -> (r: StyleStruct)
        ensures
            r == self.fields(),
    {
        match self {
            Style::Plain => StyleStruct {
                foreground: Colour::White,
                background: None,
                bold: false,
                underline: false,
            },
            Style::Foreground(c) => StyleStruct {
                foreground: *c,
                background: None,
                bold: false,
                underline: false,
            },
            Style::CustomStyle(st) => *st,
        }
    }
}

/// A foreground style paints exactly as its colour does, on every input.
pub proof fn foreground_paints_as_colour(c: Colour, input: Seq<u8>)
    requires
        valid_utf8(input),
    ensures
        Style::Foreground(c).painted(decode_utf8(input)) == c.painted(decode_utf8(input)),
{
}

} // verus!
