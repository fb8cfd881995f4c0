use vstd::prelude::*;

use crate::colours::{csi, custom_params, reset, sgr_wrap, Style};
use crate::text::{decimal, digit_char};

verus! {

/// The escape character that starts every SGR sequence.
pub open spec fn esc() -> char {
    '\x1b'
}

/// What follows the first `m` of `s` (the end of an escape sequence).
pub open spec fn after_m(s: Seq<char>) -> Seq<char>
    decreases s.len(),
{
    if s.len() == 0 {
        s
    } else if s[0] == 'm' {
        s.drop_first()
    } else {
        after_m(s.drop_first())
    }
}

/// Skipping to the end of an escape sequence never lengthens the text.
pub proof fn lemma_after_m_shorter(s: Seq<char>)
    ensures
        after_m(s).len() <= s.len(),
    decreases s.len(),
{
    if s.len() > 0 && s[0] != 'm' {
        lemma_after_m_shorter(s.drop_first());
    }
}

/// `s` with every escape sequence, from the escape character up to and
/// including the next `m`, taken out: what a terminal shows of it.
pub open spec fn strip(s: Seq<char>) -> Seq<char>
    decreases s.len(),
{
    if s.len() == 0 {
        s
    } else if s[0] == esc() {
        proof {
            lemma_after_m_shorter(s.drop_first());
        }
        strip(after_m(s.drop_first()))
    } else {
        seq![s[0]] + strip(s.drop_first())
    }
}

/// No escape character and no `m` occurs in `s`.
pub open spec fn plain_params(s: Seq<char>) -> bool {
    forall|i: int| 0 <= i < s.len() ==> s[i] != 'm' && s[i] != esc()
}

/// No escape character occurs in `s`.
pub open spec fn no_escape(s: Seq<char>) -> bool {
    forall|i: int| 0 <= i < s.len() ==> s[i] != esc()
}

proof fn lemma_decimal_plain(n: nat)
    ensures
        plain_params(decimal(n)),
    decreases n,
{
    if n >= 10 {
        lemma_decimal_plain(n / 10);
        assert(digit_char(n % 10) != 'm' && digit_char(n % 10) != esc());
    } else {
        assert(digit_char(n) != 'm' && digit_char(n) != esc());
    }
}

proof fn lemma_after_plain(p: Seq<char>, t: Seq<char>)
    requires
        plain_params(p),
    ensures
        after_m(p + seq!['m'] + t) == t,
    decreases p.len(),
{
    if p.len() == 0 {
        assert((p + seq!['m'] + t).drop_first() =~= t);
    } else {
        assert((p + seq!['m'] + t).drop_first() =~= p.drop_first() + seq!['m'] + t);
        lemma_after_plain(p.drop_first(), t);
    }
}

proof fn lemma_strip_text(text: Seq<char>, t: Seq<char>)
    requires
        no_escape(text),
    ensures
        strip(text + t) == text + strip(t),
    decreases text.len(),
{
    if text.len() == 0 {
        assert(text + t =~= t);
        assert(text + strip(t) =~= strip(t));
    } else {
        assert((text + t).drop_first() =~= text.drop_first() + t);
        lemma_strip_text(text.drop_first(), t);
        assert(text + strip(t) =~= seq![text[0]] + (text.drop_first() + strip(t)));
    }
}

proof fn lemma_strip_sgr(params: Seq<char>, t: Seq<char>)
    requires
        plain_params(params),
    ensures
        strip(csi() + params + seq!['m'] + t) == strip(t),
{
    let s = csi() + params + seq!['m'] + t;
    assert(s.drop_first() =~= seq!['['] + params + seq!['m'] + t);
    assert(plain_params(seq!['['] + params));
    assert(seq!['['] + params + seq!['m'] + t =~= (seq!['['] + params) + seq!['m'] + t);
    lemma_after_plain(seq!['['] + params, t);
}

proof fn lemma_custom_params_plain(s: Style)
    requires
        s is CustomStyle,
    ensures
        plain_params(custom_params(s->CustomStyle_0)),
{
    let st = s->CustomStyle_0;
    lemma_decimal_plain(st.foreground.code());
    let a = if st.bold {
        seq!['1', ';']
    } else {
        Seq::<char>::empty()
    };
    let b = if st.underline {
        seq!['4', ';']
    } else {
        Seq::<char>::empty()
    };
    let c = match st.background {
        Some(bg) => decimal(bg.code() + 10).push(';'),
        None => Seq::<char>::empty(),
    };
    if let Some(bg) = st.background {
        lemma_decimal_plain(bg.code() + 10);
    }
    assert(plain_params(a));
    assert(plain_params(b));
    assert(plain_params(c));
    let d = decimal(st.foreground.code());
    assert(custom_params(st) == a + b + c + d);
    assert forall|i: int| 0 <= i < (a + b + c + d).len() implies (a + b + c + d)[i] != 'm' && (a
        + b + c + d)[i] != esc() by {
        if i < a.len() {
        } else if i < a.len() + b.len() {
            assert((a + b + c + d)[i] == b[i - a.len()]);
        } else if i < a.len() + b.len() + c.len() {
            assert((a + b + c + d)[i] == c[i - a.len() - b.len()]);
        } else {
            assert((a + b + c + d)[i] == d[i - a.len() - b.len() - c.len()]);
        }
    }
}

/// What a terminal shows of painted text is the text itself, whatever the
/// style: the escape sequences that painting adds are all taken out again.
pub proof fn strip_painted(s: Style, text: Seq<char>, rest: Seq<char>)
    requires
        no_escape(text),
    ensures
        strip(s.painted(text) + rest) == text + strip(rest),
{
    let reset_tail = seq!['0'];
    assert(plain_params(reset_tail));
    match s {
        Style::Plain => {
            lemma_strip_text(text, rest);
        },
        _ => {
            let params = match s {
                Style::Foreground(c) => decimal(c.code()),
                Style::CustomStyle(st) => custom_params(st),
                Style::Plain => Seq::<char>::empty(),
            };
            match s {
                Style::Foreground(c) => lemma_decimal_plain(c.code()),
                _ => lemma_custom_params_plain(s),
            }
            assert(s.painted(text) == sgr_wrap(params, text));
            assert(sgr_wrap(params, text) + rest =~= csi() + params + seq!['m'] + (text + (reset()
                + rest)));
            lemma_strip_sgr(params, text + (reset() + rest));
            lemma_strip_text(text, reset() + rest);
            assert(reset() + rest =~= csi() + reset_tail + seq!['m'] + rest);
            lemma_strip_sgr(reset_tail, rest);
        },
    }
}

} // verus!
