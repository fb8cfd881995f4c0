use colour_ls::entry::{permissions, FileKind, RenderError};
use colour_ls::listing::{compare_names, render_lines, sort_by_name, Entry};
use colour_ls::size::FormatBoundsError;

fn entry(name: &[u8], kind: FileKind, mode: u32, size: u64) -> Entry {
    Entry {
        name: name.to_vec(),
        kind,
        mode,
        size,
    }
}

#[test]
fn listing_three_entries_sorted_and_coloured() {
    let entries = vec![
        entry(b"sub", FileKind::Directory, 0o755, 4096),
        entry(b"run.sh", FileKind::Regular, 0o755, 20),
        entry(b"note~", FileKind::Regular, 0o644, 5),
    ];
    let sorted = sort_by_name(entries);
    let names: Vec<&[u8]> = sorted.iter().map(|e| e.name.as_slice()).collect();
    assert_eq!(names, vec![&b"note~"[..], &b"run.sh"[..], &b"sub"[..]]);
    let lines = render_lines(&sorted).unwrap();
    assert_eq!(lines.len(), 3);
    assert_eq!(
        lines[0],
        format!(
            "{} \x1b[1;32m5.0000 B\x1b[0m \x1b[1;30mnote~\x1b[0m",
            permissions(FileKind::Regular, 0o644)
        )
    );
    assert_eq!(
        lines[1],
        format!(
            "{} \x1b[1;32m20.0000 B\x1b[0m \x1b[32mrun.sh\x1b[0m",
            permissions(FileKind::Regular, 0o755)
        )
    );
    assert_eq!(
        lines[2],
        format!(
            "{} \x1b[32m4.0000 KiB\x1b[0m \x1b[34msub\x1b[0m",
            permissions(FileKind::Directory, 0o755)
        )
    );
}

#[test]
fn names_compare_bytewise() {
    assert!(compare_names(b"a", b"b"));
    assert!(!compare_names(b"b", b"a"));
    assert!(compare_names(b"", b""));
    assert!(compare_names(b"ab", b"abc"));
    assert!(!compare_names(b"abc", b"ab"));
    assert!(compare_names(b"Z", b"a"));
    assert!(compare_names(b"same", b"same"));
}

#[test]
fn sort_keeps_every_entry() {
    let sorted = sort_by_name(vec![
        entry(b"b", FileKind::Regular, 0o644, 1),
        entry(b"a", FileKind::Regular, 0o644, 2),
        entry(b"b", FileKind::Fifo, 0o600, 3),
        entry(b"", FileKind::Other, 0, 4),
    ]);
    let names: Vec<&[u8]> = sorted.iter().map(|e| e.name.as_slice()).collect();
    assert_eq!(names, vec![&b""[..], &b"a"[..], &b"b"[..], &b"b"[..]]);
    let mut sizes: Vec<u64> = sorted.iter().map(|e| e.size).collect();
    sizes.sort();
    assert_eq!(sizes, vec![1, 2, 3, 4]);
    assert!(sort_by_name(Vec::new()).is_empty());
}

#[test]
fn render_lines_stops_at_first_fault() {
    let entries = vec![
        entry(b"fine", FileKind::Regular, 0o644, 1),
        entry(b"huge", FileKind::Regular, 0o644, u64::MAX),
        entry(&[0xff], FileKind::Regular, 0o644, 1),
    ];
    assert_eq!(
        render_lines(&entries),
        Err(RenderError::FormatBounds(FormatBoundsError))
    );
    assert_eq!(render_lines(&Vec::new()), Ok(Vec::new()));
}
