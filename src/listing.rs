use vstd::prelude::*;
use vstd::multiset::Multiset;
use vstd::seq_lib::*;

use crate::entry::{entry_error, entry_line, render_entry, FileKind, RenderError};

verus! {

/// What the listing knows of one directory entry.
#[derive(Debug)]
pub struct Entry {
    pub name: Vec<u8>,
    pub kind: FileKind,
    pub mode: u32,
    pub size: u64,
}

/// Why an entry cannot be rendered, if it cannot.
pub open spec fn entry_fault(e: Entry) -> Option<RenderError> {
    entry_error(e.kind, e.mode, e.size, e.name@)
}

/// Byte-wise lexicographic order of names: `a` comes no later than `b`.
pub open spec fn name_le(a: Seq<u8>, b: Seq<u8>) -> bool
    decreases a.len(),
{
    if a.len() == 0 {
        true
    } else if b.len() == 0 {
        false
    } else if a[0] != b[0] {
        a[0] < b[0]
    } else {
        name_le(a.drop_first(), b.drop_first())
    }
}

/// Each entry's name comes no later than the next one's.
pub open spec fn sorted_by_name(s: Seq<Entry>) -> bool {
    forall|i: int| 0 <= i < s.len() - 1 ==> #[trigger] name_le(s[i].name@, s[i + 1].name@)
}

/// Of two names, one comes no later than the other.
pub proof fn lemma_name_le_total(a: Seq<u8>, b: Seq<u8>)
    ensures
        name_le(a, b) || name_le(b, a),
    decreases a.len(),
{
    if a.len() > 0 && b.len() > 0 && a[0] == b[0] {
        lemma_name_le_total(a.drop_first(), b.drop_first());
    }
}

proof fn lemma_name_le_skip(a: Seq<u8>, b: Seq<u8>, i: int)
    requires
        0 <= i < a.len(),
        i < b.len(),
        a[i] == b[i],
    ensures
        name_le(a.skip(i), b.skip(i)) == name_le(a.skip(i + 1), b.skip(i + 1)),
{
    assert(a.skip(i).drop_first() =~= a.skip(i + 1));
    assert(b.skip(i).drop_first() =~= b.skip(i + 1));
}

/// Whether name `a` comes no later than name `b`.
pub fn compare_names(a: &[u8], b: &[u8]) -> (r: bool)
    ensures
        r == name_le(a@, b@),
{
    let mut i: usize = 0;
    proof {
        assert(a@.skip(0) =~= a@);
        assert(b@.skip(0) =~= b@);
    }
    while i < a.len() && i < b.len()
        invariant
            i <= a@.len(),
            i <= b@.len(),
            name_le(a@, b@) == name_le(a@.skip(i as int), b@.skip(i as int)),
        decreases a.len() - i,
    {
        if a[i] != b[i] {
            return a[i] < b[i];
        }
        proof {
            lemma_name_le_skip(a@, b@, i as int);
        }
        i = i + 1;
    }
    i == a.len()
}

/// `entries` reordered by name, byte-wise: the same entries, each name no
/// later than the next.
pub fn sort_by_name(entries: Vec<Entry>) -> (r: Vec<Entry>)
    ensures
        r@.to_multiset() == entries@.to_multiset(),
        sorted_by_name(r@),
{
    broadcast use group_to_multiset_ensures;

    let mut rest = entries;
    let mut out: Vec<Entry> = Vec::new();
    proof {
        assert(out@.to_multiset() =~= Multiset::<Entry>::empty());
    }
    while rest.len() > 0
        invariant
            out@.to_multiset().add(rest@.to_multiset()) == entries@.to_multiset(),
            sorted_by_name(out@),
        decreases rest.len(),
    {
        let ghost before = rest@;
        let e = rest.pop().unwrap();
        proof {
            assert(before =~= rest@.push(e));
        }
        let ghost prev = out@;
        let mut p: usize = 0;
        while p < out.len() && compare_names(out[p].name.as_slice(), e.name.as_slice())
            invariant
                out@ == prev,
                p <= out@.len(),
                forall|k: int| 0 <= k < p ==> name_le(#[trigger] out@[k].name@, e.name@),
            decreases out.len() - p,
        {
            p = p + 1;
        }
        proof {
            if p < out@.len() {
                lemma_name_le_total(e.name@, out@[p as int].name@);
            }
        }
        out.insert(p, e);
        proof {
            assert(out@ == prev.insert(p as int, e));
            assert forall|i: int| 0 <= i < out@.len() - 1 implies #[trigger] name_le(
                out@[i].name@,
                out@[i + 1].name@,
            ) by {
                if i < p - 1 {
                    assert(name_le(prev[i].name@, prev[i + 1].name@));
                } else if i == p - 1 {
                } else if i == p {
                } else {
                    assert(out@[i] == prev[i - 1]);
                    assert(out@[i + 1] == prev[i]);
                    let j = i - 1;
                    assert(name_le(prev[j].name@, prev[j + 1].name@));
                }
            }
            to_multiset_insert(prev, p as int, e);
            to_multiset_build(rest@, e);
            assert(out@.to_multiset().add(rest@.to_multiset()) =~= entries@.to_multiset());
        }
    }
    out
}

/// The output lines of `entries`, in their order; the first entry that
/// cannot be rendered decides the error.
pub fn render_lines(entries: &Vec<Entry>) -> (r: Result<Vec<String>, RenderError>)
    ensures
        r matches Ok(lines) ==> lines@.len() == entries@.len() && forall|i: int|
            0 <= i < entries@.len() ==> #[trigger] lines@[i]@ == entry_line(
                entries@[i].kind,
                entries@[i].mode,
                entries@[i].size,
                entries@[i].name@,
            ),
        r matches Err(e) ==> exists|i: int|
            0 <= i < entries@.len() && entry_fault(#[trigger] entries@[i]) == Some(e) && forall|k: int|
                0 <= k < i ==> (#[trigger] entry_fault(entries@[k])) is None,
        (forall|i: int| 0 <= i < entries@.len() ==> (#[trigger] entry_fault(entries@[i])) is None)
            <==> r is Ok,
{
    let mut lines: Vec<String> = Vec::new();
    let mut i: usize = 0;
    while i < entries.len()
        invariant
            i <= entries@.len(),
            lines@.len() == i,
            forall|k: int|
                0 <= k < i ==> #[trigger] lines@[k]@ == entry_line(
                    entries@[k].kind,
                    entries@[k].mode,
                    entries@[k].size,
                    entries@[k].name@,
                ),
            forall|k: int| 0 <= k < i ==> (#[trigger] entry_fault(entries@[k])) is None,
        decreases entries.len() - i,
    {
        let e = &entries[i];
        match render_entry(e.kind, e.mode, e.size, e.name.as_slice()) {
            Ok(line) => {
                lines.push(line);
            },
            Err(err) => {
                assert(entry_fault(entries@[i as int]) == Some(err));
                return Err(err);
            },
        }
        i = i + 1;
    }
    Ok(lines)
}

} // verus!
