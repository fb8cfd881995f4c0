use colour_ls::colours::{Colour, EncodingError, Style};
use colour_ls::entry::{
    bit, file_colour, permissions, render_entry, size_colour, type_char, FileKind, RenderError,
};
use colour_ls::size::FormatBoundsError;

fn strip_escapes(s: &str) -> String {
    let mut out = String::new();
    let mut in_escape = false;
    for c in s.chars() {
        if in_escape {
            if c == 'm' {
                in_escape = false;
            }
        } else if c == '\x1b' {
            in_escape = true;
        } else {
            out.push(c);
        }
    }
    out
}

#[test]
fn full_mask_shows_all_letters() {
    assert_eq!(strip_escapes(&permissions(FileKind::Regular, 0o777)), ".rwxrwxrwx");
    assert_eq!(strip_escapes(&permissions(FileKind::Directory, 0o777)), "drwxrwxrwx");
}

#[test]
fn empty_mask_shows_dashes() {
    assert_eq!(strip_escapes(&permissions(FileKind::Regular, 0)), ".---------");
    assert_eq!(strip_escapes(&permissions(FileKind::Symlink, 0)), "l---------");
}

#[test]
fn mask_bits_read_owner_first() {
    assert_eq!(strip_escapes(&permissions(FileKind::Regular, 0o644)), ".rw-r--r--");
    assert_eq!(strip_escapes(&permissions(FileKind::Regular, 0o751)), ".rwxr-x--x");
    assert_eq!(strip_escapes(&permissions(FileKind::Regular, 0o100)), ".--x------");
    assert_eq!(strip_escapes(&permissions(FileKind::Regular, 0o1)), ".--------x");
}

#[test]
fn glyph_string_escapes_are_exact() {
    let expected = [
        "\x1b[34md\x1b[0m",
        "\x1b[1;33mr\x1b[0m",
        "\x1b[1;31mw\x1b[0m",
        "\x1b[1;32mx\x1b[0m",
        "\x1b[1;33mr\x1b[0m",
        "\x1b[36m-\x1b[0m",
        "\x1b[1;32mx\x1b[0m",
        "\x1b[36m-\x1b[0m",
        "\x1b[36m-\x1b[0m",
        "\x1b[36m-\x1b[0m",
    ]
    .concat();
    assert_eq!(permissions(FileKind::Directory, 0o750), expected);
}

#[test]
fn type_characters() {
    assert_eq!(type_char(FileKind::Directory), "\x1b[34md\x1b[0m");
    assert_eq!(type_char(FileKind::Regular), ".");
    assert_eq!(type_char(FileKind::Symlink), "\x1b[36ml\x1b[0m");
    assert_eq!(type_char(FileKind::BlockDevice), "\x1b[35ms\x1b[0m");
    assert_eq!(type_char(FileKind::CharDevice), "\x1b[33m|\x1b[0m");
    assert_eq!(type_char(FileKind::Fifo), "f");
    assert_eq!(type_char(FileKind::Other), "?");
}

#[test]
fn bit_paints_letter_or_dash() {
    assert_eq!(bit(0o400, 0o400, "r", Colour::Yellow.bold()), "\x1b[1;33mr\x1b[0m");
    assert_eq!(bit(0o377, 0o400, "r", Colour::Yellow.bold()), "\x1b[36m-\x1b[0m");
    assert_eq!(bit(0o111, 0o111, "x", Style::Plain), "x");
    assert_eq!(bit(0o110, 0o111, "x", Style::Plain), "\x1b[36m-\x1b[0m");
}

#[test]
fn executable_directory_is_classified_as_directory() {
    assert_eq!(file_colour(true, 0o755, b"bin"), Colour::Blue.normal());
    assert_eq!(file_colour(true, 0o777, b"old~"), Colour::Blue.normal());
}

#[test]
fn classifier_rules_in_order() {
    assert_eq!(file_colour(false, 0o755, b"run~"), Colour::Green.normal());
    assert_eq!(file_colour(false, 0o754, b"run~"), Colour::Black.bold());
    assert_eq!(file_colour(false, 0o644, b"notes.txt"), Style::Plain);
    assert_eq!(file_colour(false, 0o644, b""), Style::Plain);
    assert_eq!(file_colour(false, 0o644, b"~x"), Style::Plain);
}

#[test]
fn size_colour_is_bold_for_files_only() {
    assert_eq!(size_colour(false), Colour::Green.bold());
    assert_eq!(size_colour(true), Colour::Green.normal());
}

#[test]
fn entry_line_is_exact() {
    let glyphs = permissions(FileKind::Regular, 0o644);
    let expected = format!("{} \x1b[1;32m1.0000 KiB\x1b[0m a.txt", glyphs);
    assert_eq!(
        render_entry(FileKind::Regular, 0o644, 1536, b"a.txt"),
        Ok(expected)
    );
    let dir = render_entry(FileKind::Directory, 0o755, 4096, b"src").unwrap();
    assert!(dir.ends_with(" \x1b[32m4.0000 KiB\x1b[0m \x1b[34msrc\x1b[0m"));
}

#[test]
fn entry_errors() {
    assert_eq!(
        render_entry(FileKind::Regular, 0o644, u64::MAX, b"big"),
        Err(RenderError::FormatBounds(FormatBoundsError))
    );
    assert_eq!(
        render_entry(FileKind::Regular, 0o644, 10, &[0xff]),
        Err(RenderError::Encoding(EncodingError))
    );
    assert_eq!(
        render_entry(FileKind::Regular, 0o644, u64::MAX, &[0xff]),
        Err(RenderError::FormatBounds(FormatBoundsError))
    );
    let largest = render_entry(FileKind::Regular, 0o644, 1024u64.pow(5), b"ok").unwrap();
    assert!(largest.contains("1024.0000 TiB"));
    assert_eq!(
        render_entry(FileKind::Regular, 0o644, 1024u64.pow(5) * 1025, b"ok"),
        Err(RenderError::FormatBounds(FormatBoundsError))
    );
}
