use vstd::prelude::*;
use vstd::string::*;
use vstd::utf8::*;

use crate::colours::{Colour, EncodingError, Style, StyleStruct};
use crate::escapes::{esc, strip, strip_painted};
use crate::size::{format_bytes, prefix_index, size_text, FormatBoundsError};

verus! {

/// The type of a file, as the listing tells them apart.
#[derive(Clone, Copy, Debug, PartialEq, Eq, Structural)]
pub enum FileKind {
    Regular,
    Directory,
    Symlink,
    BlockDevice,
    CharDevice,
    Fifo,
    Other,
}

/// One character of output together with the style it is drawn in.
pub type Cell = (Style, char);

/// The styled character that shows a file's type.
pub open spec fn type_cell(kind: FileKind) -> Cell {
    match kind {
        FileKind::Directory => (Style::Foreground(Colour::Blue), 'd'),
        FileKind::Regular => (Style::Plain, '.'),
        FileKind::Symlink => (Style::Foreground(Colour::Cyan), 'l'),
        FileKind::BlockDevice => (Style::Foreground(Colour::Purple), 's'),
        FileKind::CharDevice => (Style::Foreground(Colour::Yellow), '|'),
        FileKind::Fifo => (Style::Plain, 'f'),
        FileKind::Other => (Style::Plain, '?'),
    }
}

/// The mode bit of permission `j` (0 to 8): owner read, write, execute, then
/// the same for group and for others.
pub open spec fn mode_bit(j: nat) -> u32 {
    0o400u32 >> (j as u32)
}

/// The letter of permission kind `k`: read, write or execute.
pub open spec fn perm_letter(k: nat) -> char {
    seq!['r', 'w', 'x'][k as int]
}

/// The bold style of a granted permission of kind `k`: read is yellow, write
/// red, execute green.
pub open spec fn perm_style(k: nat) -> Style {
    Style::CustomStyle(
        StyleStruct {
            foreground: seq![Colour::Yellow, Colour::Red, Colour::Green][k as int],
            background: None,
            bold: true,
            underline: false,
        },
    )
}

/// The styled character of permission `j` under `mode`: its letter when the
/// bit is set, a cyan dash when it is not.
pub open spec fn perm_cell(mode: u32, j: nat) -> Cell {
    if mode & mode_bit(j) == mode_bit(j) {
        (perm_style(j % 3), perm_letter(j % 3))
    } else {
        (Style::Foreground(Colour::Cyan), '-')
    }
}

/// The ten styled characters of the glyph string: the type, then the nine
/// permissions.
pub open spec fn glyph_cells(kind: FileKind, mode: u32) -> Seq<Cell> {
    seq![type_cell(kind)] + Seq::new(9, |j: int| perm_cell(mode, j as nat))
}

/// The characters that cells show, without their styles.
pub open spec fn visible(cells: Seq<Cell>) -> Seq<char> {
    cells.map_values(|c: Cell| c.1)
}

/// The text of a sequence of cells, each drawn in its own style.
pub open spec fn render(cells: Seq<Cell>) -> Seq<char>
    decreases cells.len(),
{
    if cells.len() == 0 {
        Seq::<char>::empty()
    } else {
        render(cells.drop_last()) + cells.last().0.painted(seq![cells.last().1])
    }
}

/// The style of an entry's name: directories blue, files executable by all
/// green, backup files (ending in `~`) bold black, and the rest plain; the
/// first rule that applies decides.
pub open spec fn name_style(is_dir: bool, mode: u32, name: Seq<u8>) -> Style {
    if is_dir {
        Colour::Blue.custom(None, false, false)
    } else if mode & 0o111u32 == 0o111u32 {
        Colour::Green.custom(None, false, false)
    } else if name.len() > 0 && name.last() == 0x7eu8 {
        Colour::Black.custom(None, true, false)
    } else {
        Style::Plain
    }
}

/// The style of an entry's size: green, bold for files and normal for
/// directories.
pub open spec fn size_style(is_dir: bool) -> Style {
    Colour::Green.custom(None, !is_dir, false)
}

/// The unit labels of sizes, from bytes up.
pub open spec fn unit_labels() -> Seq<Seq<char>> {
    seq![seq!['B'], seq!['K', 'i', 'B'], seq!['M', 'i', 'B'], seq!['G', 'i', 'B'], seq!['T', 'i', 'B']]
}

/// The line of an entry: glyph string, styled size and styled name, apart by
/// single spaces.
pub open spec fn entry_line(kind: FileKind, mode: u32, size: u64, name: Seq<u8>) -> Seq<char> {
    let is_dir = kind == FileKind::Directory;
    render(glyph_cells(kind, mode)) + seq![' '] + size_style(is_dir).painted(
        size_text(size as nat, 1024, unit_labels()),
    ) + seq![' '] + name_style(is_dir, mode, name).painted(decode_utf8(name))
}

/// Rendering an entry failed.
#[derive(Clone, Copy, Debug, PartialEq, Eq, Structural)]
pub enum RenderError {
    /// The size is beyond the largest unit label.
    FormatBounds(FormatBoundsError),
    /// The name is not valid UTF-8.
    Encoding(EncodingError),
}

/// Why an entry cannot be rendered, if it cannot: a size beyond the largest
/// unit label first, then a name that is not valid UTF-8.
pub open spec fn entry_error(kind: FileKind, mode: u32, size: u64, name: Seq<u8>) -> Option<
    RenderError,
> {
    if prefix_index(size as nat, 1024) >= 5 {
        Some(RenderError::FormatBounds(FormatBoundsError))
    } else if !valid_utf8(name) {
        Some(RenderError::Encoding(EncodingError))
    } else {
        None
    }
}

proof fn lemma_render_push(cells: Seq<Cell>, i: int)
    requires
        0 <= i < cells.len(),
    ensures
        render(cells.take(i + 1)) == render(cells.take(i)) + cells[i].0.painted(seq![cells[i].1]),
{
    assert(cells.take(i + 1).drop_last() =~= cells.take(i));
}

/// The type character of `kind`, styled.
pub fn type_char(kind: FileKind) -> (r: String)
    ensures
        r@ == type_cell(kind).0.painted(seq![type_cell(kind).1]),
{
    let s: &str;
    match kind {
        FileKind::Directory => {
            s = "d";
            proof {
                reveal_strlit("d");
            }
        },
        FileKind::Regular => {
            s = ".";
            proof {
                reveal_strlit(".");
            }
        },
        FileKind::Symlink => {
            s = "l";
            proof {
                reveal_strlit("l");
            }
        },
        FileKind::BlockDevice => {
            s = "s";
            proof {
                reveal_strlit("s");
            }
        },
        FileKind::CharDevice => {
            s = "|";
            proof {
                reveal_strlit("|");
            }
        },
        FileKind::Fifo => {
            s = "f";
            proof {
                reveal_strlit("f");
            }
        },
        FileKind::Other => {
            s = "?";
            proof {
                reveal_strlit("?");
            }
        },
    }
    let style = match kind {
        FileKind::Directory => Style::Foreground(Colour::Blue),
        FileKind::Symlink => Style::Foreground(Colour::Cyan),
        FileKind::BlockDevice => Style::Foreground(Colour::Purple),
        FileKind::CharDevice => Style::Foreground(Colour::Yellow),
        _ => Style::Plain,
    };
    assert(s@ =~= seq![type_cell(kind).1]);
    style.paint_str(s)
}

/// `other` in `style` when every bit of `mask` is set in `permission`, else a
/// cyan dash.
pub fn bit(permission: u32, mask: u32, other: &str, style: Style) -> (r: String)
    ensures
        permission & mask == mask ==> r@ == style.painted(other@),
        permission & mask != mask ==> r@ == Colour::Cyan.painted(seq!['-']),
{
    if permission & mask == mask {
        style.paint_str(other)
    } else {
        let dash = "-";
        proof {
            reveal_strlit("-");
        }
        Colour::Cyan.paint_str(dash)
    }
}

/// The letter and style of permission kind `k`.
fn perm_parts(k: usize) -> (r: (&'static str, Style))
    requires
        k < 3,
    ensures
        r.0@ == seq![perm_letter(k as nat)],
        r.1 == perm_style(k as nat),
{
    let s: &'static str;
    if k == 0 {
        s = "r";
        proof {
            reveal_strlit("r");
        }
        assert(s@ =~= seq![perm_letter(k as nat)]);
        (s, Colour::Yellow.bold())
    } else if k == 1 {
        s = "w";
        proof {
            reveal_strlit("w");
        }
        assert(s@ =~= seq![perm_letter(k as nat)]);
        (s, Colour::Red.bold())
    } else {
        s = "x";
        proof {
            reveal_strlit("x");
        }
        assert(s@ =~= seq![perm_letter(k as nat)]);
        (s, Colour::Green.bold())
    }
}

/// The glyph string of a file: its type character, then its nine permission
/// characters, owner first.
pub fn permissions(kind: FileKind, mode: u32) -> (r: String)
    ensures
        r@ == render(glyph_cells(kind, mode)),
{
    let ghost cells = glyph_cells(kind, mode);
    let mut r = type_char(kind);
    proof {
        lemma_render_push(cells, 0);
        assert(cells.take(0) =~= Seq::<Cell>::empty());
    }
    let mut j: usize = 0;
    while j < 9
        invariant
            j <= 9,
            cells == glyph_cells(kind, mode),
            r@ == render(cells.take(j + 1)),
        decreases 9 - j,
    {
        let (letter, style) = perm_parts(j % 3);
        let mask: u32 = 0o400u32 >> (j as u32);
        let cell = bit(mode, mask, letter, style);
        r.append(cell.as_str());
        proof {
            lemma_render_push(cells, j + 1);
            assert(cells[j + 1] == perm_cell(mode, j as nat));
        }
        j = j + 1;
    }
    assert(cells.take(10) =~= cells);
    r
}

/// The style of an entry's name.
pub fn file_colour(is_dir: bool, mode: u32, name: &[u8]) -> (r: Style)
    ensures
        r == name_style(is_dir, mode, name@),
{
    if is_dir {
        Colour::Blue.normal()
    } else if mode & 0o111 == 0o111 {
        Colour::Green.normal()
    } else if name.len() > 0 && name[name.len() - 1] == 0x7e {
        Colour::Black.bold()
    } else {
        Style::Plain
    }
}

/// The style of an entry's size.
pub fn size_colour(is_dir: bool) -> (r: Style)
    ensures
        r == size_style(is_dir),
{
    if is_dir {
        Colour::Green.normal()
    } else {
        Colour::Green.bold()
    }
}

/// The output line of one entry: glyph string, styled size and styled name.
/// A size beyond the largest unit label is refused first, then a name that
/// is not valid UTF-8.
pub fn render_entry(kind: FileKind, mode: u32, size: u64, name: &[u8]) -> (r: Result<
    String,
    RenderError,
>)
    ensures
        prefix_index(size as nat, 1024) >= 5 <==> r == Err::<String, RenderError>(
            RenderError::FormatBounds(FormatBoundsError),
        ),
        prefix_index(size as nat, 1024) < 5 && !valid_utf8(name@) <==> r == Err::<
            String,
            RenderError,
        >(RenderError::Encoding(EncodingError)),
        r matches Ok(line) ==> line@ == entry_line(kind, mode, size, name@),
        r matches Err(e) ==> entry_error(kind, mode, size, name@) == Some(e),
        r is Ok <==> entry_error(kind, mode, size, name@) is None,
{
    let is_dir = kind == FileKind::Directory;
    let labels: [&str; 5] = ["B", "KiB", "MiB", "GiB", "TiB"];
    proof {
        reveal_strlit("B");
        reveal_strlit("KiB");
        reveal_strlit("MiB");
        reveal_strlit("GiB");
        reveal_strlit("TiB");
        assert(labels@.len() == 5);
        assert(labels@[0]@ =~= seq!['B']);
        assert(labels@[1]@ =~= seq!['K', 'i', 'B']);
        assert(labels@[2]@ =~= seq!['M', 'i', 'B']);
        assert(labels@[3]@ =~= seq!['G', 'i', 'B']);
        assert(labels@[4]@ =~= seq!['T', 'i', 'B']);
        assert(labels@.map_values(|p: &str| p@) =~= unit_labels());
    }
    let size_text = match format_bytes(size, 1024, labels.as_slice()) {
        Ok(t) => t,
        Err(e) => {
            return Err(RenderError::FormatBounds(e));
        },
    };
    let painted_name = match file_colour(is_dir, mode, name).paint(name) {
        Ok(t) => t,
        Err(e) => {
            return Err(RenderError::Encoding(e));
        },
    };
    let mut line = permissions(kind, mode);
    let space = " ";
    proof {
        reveal_strlit(" ");
    }
    line.append(space);
    line.append(size_colour(is_dir).paint_str(size_text.as_str()).as_str());
    line.append(space);
    line.append(painted_name.as_str());
    assert(line@ =~= entry_line(kind, mode, size, name@));
    Ok(line)
}

/// What a terminal shows of rendered cells is their characters, provided no
/// cell holds the escape character.
pub proof fn strip_render(cells: Seq<Cell>, rest: Seq<char>)
    requires
        forall|i: int| 0 <= i < cells.len() ==> (#[trigger] cells[i]).1 != esc(),
    ensures
        strip(render(cells) + rest) == visible(cells) + strip(rest),
    decreases cells.len(),
{
    if cells.len() == 0 {
        assert(render(cells) + rest =~= rest);
        assert(visible(cells) + strip(rest) =~= strip(rest));
    } else {
        let last = cells.last();
        let init = cells.drop_last();
        assert forall|i: int| 0 <= i < init.len() implies (#[trigger] init[i]).1 != esc() by {
            assert(init[i] == cells[i]);
        }
        assert(render(cells) + rest =~= render(init) + (last.0.painted(seq![last.1]) + rest));
        strip_render(init, last.0.painted(seq![last.1]) + rest);
        assert(cells[cells.len() - 1].1 != esc());
        strip_painted(last.0, seq![last.1], rest);
        assert(visible(cells) =~= visible(init) + seq![last.1]);
        assert(visible(init) + (seq![last.1] + strip(rest)) =~= visible(cells) + strip(rest));
    }
}

/// With all nine permission bits set the glyph string shows `rwxrwxrwx` after
/// the type character, once its escape sequences are taken out; with none set
/// it shows nine dashes.
pub proof fn full_and_empty_masks(kind: FileKind)
    ensures
        strip(render(glyph_cells(kind, 0o777))) == visible(glyph_cells(kind, 0o777)),
        strip(render(glyph_cells(kind, 0))) == visible(glyph_cells(kind, 0)),
        visible(glyph_cells(kind, 0o777)) == seq![
            type_cell(kind).1,
            'r',
            'w',
            'x',
            'r',
            'w',
            'x',
            'r',
            'w',
            'x',
        ],
        visible(glyph_cells(kind, 0)) == seq![
            type_cell(kind).1,
            '-',
            '-',
            '-',
            '-',
            '-',
            '-',
            '-',
            '-',
            '-',
        ],
{
    assert forall|j: nat| j < 9 implies 0o777u32 & mode_bit(j) == mode_bit(j) && 0u32 & mode_bit(
        j,
    ) != mode_bit(j) by {
        let b = j as u32;
        assert(0o777u32 & (0o400u32 >> b) == (0o400u32 >> b) && 0u32 & (0o400u32 >> b) != (0o400u32
            >> b)) by (bit_vector)
            requires
                b < 9,
        ;
    }
    assert forall|m: u32, i: int| 0 <= i < glyph_cells(kind, m).len() implies (#[trigger] glyph_cells(
        kind,
        m,
    )[i]).1 != esc() by {
        if i > 0 {
            assert(glyph_cells(kind, m)[i] == perm_cell(m, (i - 1) as nat));
        }
    }
    strip_render(glyph_cells(kind, 0o777), Seq::<char>::empty());
    strip_render(glyph_cells(kind, 0), Seq::<char>::empty());
    assert(render(glyph_cells(kind, 0o777)) + Seq::<char>::empty() =~= render(glyph_cells(kind, 0o777)));
    assert(render(glyph_cells(kind, 0)) + Seq::<char>::empty() =~= render(glyph_cells(kind, 0)));
    assert(strip(Seq::<char>::empty()) =~= Seq::<char>::empty());
    assert(visible(glyph_cells(kind, 0o777)) + Seq::<char>::empty() =~= visible(glyph_cells(kind, 0o777)));
    assert(visible(glyph_cells(kind, 0)) + Seq::<char>::empty() =~= visible(glyph_cells(kind, 0)));
    assert(visible(glyph_cells(kind, 0o777)) =~= seq![
        type_cell(kind).1,
        'r',
        'w',
        'x',
        'r',
        'w',
        'x',
        'r',
        'w',
        'x',
    ]);
    assert(visible(glyph_cells(kind, 0)) =~= seq![
        type_cell(kind).1,
        '-',
        '-',
        '-',
        '-',
        '-',
        '-',
        '-',
        '-',
        '-',
    ]);
}

/// A directory's name is drawn by the directory rule even when every
/// execute bit is set and whatever the name.
pub proof fn directory_rule_first(mode: u32, name: Seq<u8>)
    ensures
        name_style(true, mode, name) == Colour::Blue.custom(None, false, false),
{
}

} // verus!
