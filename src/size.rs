use vstd::prelude::*;
use vstd::string::*;

use crate::text::{decimal, push_decimal};

verus! {

/// The size needs a unit further along than the list of unit labels holds.
#[derive(Clone, Copy, Debug, PartialEq, Eq, Structural)]
pub struct FormatBoundsError;

/// How many times `size` is divided by `base` before it no longer exceeds it.
pub open spec fn prefix_index(size: nat, base: nat) -> nat
    recommends
        base > 1,
    decreases size,
{
    if base > 1 && size > base {
        proof {
            lemma_quotient_smaller(size, base);
        }
        prefix_index(size / base, base) + 1
    } else {
        0
    }
}

/// What is left of `size` after those integer divisions by `base`.
pub open spec fn scaled_size(size: nat, base: nat) -> nat
    recommends
        base > 1,
    decreases size,
{
    if base > 1 && size > base {
        proof {
            lemma_quotient_smaller(size, base);
        }
        scaled_size(size / base, base)
    } else {
        size
    }
}

/// The text of `size` scaled by `base`: the quotient with four (zero) decimal
/// places, a space and the unit label of its magnitude.
pub open spec fn size_text(size: nat, base: nat, labels: Seq<Seq<char>>) -> Seq<char> {
    decimal(scaled_size(size, base)) + seq!['.', '0', '0', '0', '0', ' '] + labels[prefix_index(
        size,
        base,
    ) as int]
}

/// Dividing a number above a base of at least two makes it smaller.
pub proof fn lemma_quotient_smaller(size: nat, base: nat)
    requires
        size > base,
        base > 1,
    ensures
        size / base < size,
{
    assert(size / base < size) by (nonlinear_arith)
        requires
            size > base,
            base > 1,
    ;
}

proof fn lemma_prefix_index_bounded(size: nat, base: nat)
    requires
        base > 1,
    ensures
        prefix_index(size, base) <= size,
    decreases size,
{
    if size > base {
        lemma_quotient_smaller(size, base);
        lemma_prefix_index_bounded(size / base, base);
    }
}

/// A size up to the base keeps the first unit label; one strictly above it
/// moves to a later one.
pub proof fn first_unit_up_to_base(size: nat, base: nat)
    requires
        base > 1,
    ensures
        prefix_index(size, base) == 0 <==> size <= base,
        size <= base ==> scaled_size(size, base) == size,
{
}

/// `size` divided by `kilo` (integer division) while it exceeds `kilo`,
/// written with four decimal places and the unit label of the number of
/// divisions. A base below two is only meaningful for a size that does not
/// exceed it, which is then written as it is.
pub fn format_bytes(size: u64, kilo: u64, prefixes: &[&str]) -> (r: Result<
    String,
    FormatBoundsError,
>)
    requires
        kilo > 1 || size <= kilo,
    ensures
        r is Err <==> prefix_index(size as nat, kilo as nat) >= prefixes@.len(),
        r matches Ok(s) ==> s@ == size_text(
            size as nat,
            kilo as nat,
            prefixes@.map_values(|p: &str| p@),
        ),
{
    let mut n: u64 = size;
    let mut prefix: u64 = 0;
    proof {
        if kilo > 1 {
            lemma_prefix_index_bounded(size as nat, kilo as nat);
        }
    }
    while n > kilo
        invariant
            kilo > 1 || n <= kilo,
            prefix + prefix_index(n as nat, kilo as nat) == prefix_index(size as nat, kilo as nat),
            scaled_size(n as nat, kilo as nat) == scaled_size(size as nat, kilo as nat),
            prefix_index(size as nat, kilo as nat) <= size,
        decreases n,
    {
        n = n / kilo;
        prefix = prefix + 1;
    }
    if prefix >= prefixes.len() as u64 {
        return Err(FormatBoundsError);
    }
    let label: &str = prefixes[prefix as usize];
    let mut out = String::new();
    push_decimal(&mut out, n);
    let point = ".0000 ";
    proof {
        reveal_strlit(".0000 ");
    }
    out.append(point);
    out.append(label);
    assert(out@ =~= size_text(size as nat, kilo as nat, prefixes@.map_values(|p: &str| p@)));
    Ok(out)
}

} // verus!
