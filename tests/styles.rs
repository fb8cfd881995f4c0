use colour_ls::colours::{Colour, EncodingError, Style, StyleStruct};

#[test]
fn colour_paint_wraps_in_code_and_reset() {
    assert_eq!(Colour::Red.paint(b"hi"), Ok("\x1b[31mhi\x1b[0m".to_string()));
    assert_eq!(Colour::White.paint(b""), Ok("\x1b[37m\x1b[0m".to_string()));
}

#[test]
fn foreground_paints_like_its_colour() {
    let colours = [
        Colour::Black,
        Colour::Red,
        Colour::Green,
        Colour::Yellow,
        Colour::Blue,
        Colour::Purple,
        Colour::Cyan,
        Colour::White,
    ];
    for c in colours.iter() {
        for s in [&b"abc"[..], &b""[..], "héllo".as_bytes()].iter() {
            assert_eq!(Style::Foreground(*c).paint(s), c.paint(s));
        }
    }
    assert_eq!(
        Style::Foreground(Colour::Cyan).paint(b"-"),
        Ok("\x1b[36m-\x1b[0m".to_string())
    );
}

#[test]
fn plain_paint_returns_text() {
    assert_eq!(Style::Plain.paint(b"name.txt"), Ok("name.txt".to_string()));
    assert_eq!(Style::Plain.paint(b""), Ok(String::new()));
}

#[test]
fn multibyte_text_is_decoded() {
    let bytes = "h\u{e9}llo \u{1f600}".as_bytes();
    assert_eq!(bytes.len(), 11);
    assert_eq!(
        Colour::Blue.paint(bytes),
        Ok("\x1b[34mh\u{e9}llo \u{1f600}\x1b[0m".to_string())
    );
    assert_eq!(
        Style::Plain.paint(bytes).map(|s| s.chars().count()),
        Ok(7)
    );
}

#[test]
fn invalid_utf8_is_an_encoding_error() {
    assert_eq!(Style::Plain.paint(&[0xff, 0xfe]), Err(EncodingError));
    assert_eq!(Colour::Green.paint(&[b'a', 0xc3]), Err(EncodingError));
    assert_eq!(Colour::Green.bold().paint(&[0x80]), Err(EncodingError));
}

#[test]
fn custom_style_parameter_order() {
    let s = Colour::Red.bold().underline().on(Colour::Blue);
    assert_eq!(s.paint(b"x"), Ok("\x1b[1;4;44;31mx\x1b[0m".to_string()));
    assert_eq!(
        Colour::Black.bold().paint(b"a~"),
        Ok("\x1b[1;30ma~\x1b[0m".to_string())
    );
    assert_eq!(
        Colour::Yellow.on(Colour::White).paint(b"y"),
        Ok("\x1b[47;33my\x1b[0m".to_string())
    );
    assert_eq!(
        Colour::Purple.underline().paint(b"u"),
        Ok("\x1b[4;35mu\x1b[0m".to_string())
    );
}

#[test]
fn modifiers_on_plain_default_to_white() {
    let s = Style::Plain.bold();
    assert_eq!(
        s,
        Style::CustomStyle(StyleStruct {
            foreground: Colour::White,
            background: None,
            bold: true,
            underline: false,
        })
    );
    assert_eq!(s.paint(b"w"), Ok("\x1b[1;37mw\x1b[0m".to_string()));
}

#[test]
fn modifiers_on_foreground_keep_colour() {
    assert_eq!(
        Style::Foreground(Colour::Cyan).on(Colour::Black),
        Colour::Cyan.on(Colour::Black)
    );
    assert_eq!(
        Style::Foreground(Colour::Cyan).underline(),
        Colour::Cyan.underline()
    );
}

#[test]
fn modifiers_on_custom_keep_other_fields() {
    let s = Colour::Green.on(Colour::Red).underline().bold();
    assert_eq!(
        s,
        Style::CustomStyle(StyleStruct {
            foreground: Colour::Green,
            background: Some(Colour::Red),
            bold: true,
            underline: true,
        })
    );
}

#[test]
fn normal_clears_decorations() {
    let styles = [
        Style::Plain,
        Style::Foreground(Colour::Blue),
        Colour::Red.bold().underline(),
        Colour::Red.bold().underline().on(Colour::Yellow).bold(),
    ];
    for s in styles.iter() {
        match s.normal() {
            Style::CustomStyle(st) => {
                assert!(!st.bold);
                assert!(!st.underline);
            }
            _ => panic!("normal must give a decorated style"),
        }
    }
    assert_eq!(
        Colour::Red.bold().on(Colour::Yellow).normal(),
        Colour::Red.on(Colour::Yellow)
    );
    assert_eq!(Style::Plain.normal(), Colour::White.normal());
}
