use vstd::prelude::*;
use vstd::slice::*;
use vstd::string::*;
use vstd::utf8::*;

verus! {

/// What the listing was asked to do by its flags.
#[derive(Clone, Copy, Debug, PartialEq, Eq, Structural)]
pub struct Options {
    pub show_invisible: bool,
}

/// Whether a flag takes a value, and which values it allows.
#[derive(Clone, Copy, Debug)]
pub enum TakesValue {
    Necessary(Option<&'static [&'static str]>),
    Forbidden,
    Optional(Option<&'static [&'static str]>),
}

/// A flag: its optional one-byte short name, its long name and its values.
#[derive(Clone, Copy, Debug)]
pub struct Arg {
    pub short: Option<u8>,
    pub long: &'static str,
    pub args: TakesValue,
}

/// The table of flags that a command line is read against.
#[derive(Debug)]
pub struct Args(pub Vec<Arg>);

/// The flags found, as positions in the table, and the free arguments.
#[derive(Debug)]
pub struct Matches<'args> {
    pub flags: Vec<usize>,
    pub frees: Vec<&'args [u8]>,
}

/// A command line that could not be read.
#[derive(Debug, PartialEq, Eq)]
pub enum ParseError {
    /// A flag was given a value that it does not take.
    ForbiddenValue,
    /// A long flag (`--name`) that the table does not hold.
    UnknownLong(Vec<u8>),
    /// A short flag (`-n`) that the table does not hold.
    UnknownShort(u8),
}

/// A refused command line, as the contracts speak of it.
pub enum ParseFault {
    ForbiddenValue,
    UnknownLong(Seq<u8>),
    UnknownShort(u8),
}

impl View for ParseError {
    type V = ParseFault;

    open spec fn view(&self) -> ParseFault {
        match self {
            ParseError::ForbiddenValue => ParseFault::ForbiddenValue,
            ParseError::UnknownLong(name) => ParseFault::UnknownLong(name@),
            ParseError::UnknownShort(b) => ParseFault::UnknownShort(*b),
        }
    }
}

/// Reading the options failed.
#[derive(Debug, PartialEq, Eq)]
pub enum OptionsError {
    Parse(ParseError),
}

/// The options and free arguments of a command line, or why it was refused.
#[derive(Debug)]
pub enum OptionsResult<'args> {
    Parsed(Options, Vec<&'args [u8]>),
    InvalidOptions(OptionsError),
}

/// The names of a flag: its short name and its long name.
pub type FlagName = (Option<u8>, Seq<char>);

/// The names of each flag of a table, in order.
pub open spec fn flag_names(args: Seq<Arg>) -> Seq<FlagName> {
    args.map_values(|a: Arg| (a.short, a.long@))
}

/// The names of the table that holds only `-a` / `--all`.
pub open spec fn all_names() -> Seq<FlagName> {
    seq![(Some(0x61u8), seq!['a', 'l', 'l'])]
}

/// The byte of `-`.
pub open spec fn dash() -> u8 {
    0x2du8
}

/// The terminator `--`, after which every argument is free.
pub open spec fn is_terminator(a: Seq<u8>) -> bool {
    a == seq![dash(), dash()]
}

/// A long flag: `--` followed by a name.
pub open spec fn is_long(a: Seq<u8>) -> bool {
    a.len() > 2 && a[0] == dash() && a[1] == dash()
}

/// A cluster of short flags: `-` followed by at least one byte, not `--`.
pub open spec fn is_short_cluster(a: Seq<u8>) -> bool {
    a.len() > 1 && a[0] == dash() && !(a.len() == 2 && a[1] == dash())
}

/// The first position at or after `i` whose flag has the long name `name`.
pub open spec fn find_long(table: Seq<FlagName>, name: Seq<u8>, i: int) -> Option<nat>
    decreases table.len() - i,
{
    if i < 0 || i >= table.len() {
        None
    } else if encode_utf8(table[i].1) == name {
        Some(i as nat)
    } else {
        find_long(table, name, i + 1)
    }
}

/// The first position at or after `i` whose flag has the short name `b`.
pub open spec fn find_short(table: Seq<FlagName>, b: u8, i: int) -> Option<nat>
    decreases table.len() - i,
{
    if i < 0 || i >= table.len() {
        None
    } else if table[i].0 == Some(b) {
        Some(i as nat)
    } else {
        find_short(table, b, i + 1)
    }
}

/// The positions of a cluster of short flag names, or the first unknown one.
pub open spec fn shorts(table: Seq<FlagName>, names: Seq<u8>) -> Result<Seq<nat>, ParseFault>
    decreases names.len(),
{
    if names.len() == 0 {
        Ok(Seq::empty())
    } else {
        match shorts(table, names.drop_last()) {
            Err(e) => Err(e),
            Ok(found) => match find_short(table, names.last(), 0) {
                None => Err(ParseFault::UnknownShort(names.last())),
                Some(i) => Ok(found.push(i)),
            },
        }
    }
}

/// What one argument contributes: flag positions, free arguments, and
/// whether flags are still read after it.
pub open spec fn step(table: Seq<FlagName>, a: Seq<u8>, parsing: bool) -> Result<
    (Seq<nat>, Seq<Seq<u8>>, bool),
    ParseFault,
> {
    if !parsing {
        Ok((Seq::empty(), seq![a], false))
    } else if is_terminator(a) {
        Ok((Seq::empty(), Seq::empty(), false))
    } else if is_long(a) {
        match find_long(table, a.skip(2), 0) {
            None => Err(ParseFault::UnknownLong(a.skip(2))),
            Some(i) => Ok((seq![i], Seq::empty(), true)),
        }
    } else if is_short_cluster(a) {
        match shorts(table, a.skip(1)) {
            Err(e) => Err(e),
            Ok(found) => Ok((found, Seq::empty(), true)),
        }
    } else {
        Ok((Seq::empty(), seq![a], true))
    }
}

/// The flags and free arguments of `inputs`, read in order; the first
/// argument that cannot be read decides the error.
pub open spec fn parse_args(table: Seq<FlagName>, inputs: Seq<Seq<u8>>) -> Result<
    (Seq<nat>, Seq<Seq<u8>>, bool),
    ParseFault,
>
    decreases inputs.len(),
{
    if inputs.len() == 0 {
        Ok((Seq::empty(), Seq::empty(), true))
    } else {
        match parse_args(table, inputs.drop_last()) {
            Err(e) => Err(e),
            Ok((flags, frees, parsing)) => match step(table, inputs.last(), parsing) {
                Err(e) => Err(e),
                Ok((f, r, p)) => Ok((flags + f, frees + r, p)),
            },
        }
    }
}

/// The byte strings that a sequence of slices holds.
pub open spec fn views<'a>(s: Seq<&'a [u8]>) -> Seq<Seq<u8>> {
    s.map_values(|a: &[u8]| a@)
}

/// The positions that a vector of indices holds.
pub open spec fn positions(s: Seq<usize>) -> Seq<nat> {
    s.map_values(|i: usize| i as nat)
}

proof fn lemma_shorts_error_stays(table: Seq<FlagName>, names: Seq<u8>, k: int)
    requires
        0 <= k <= names.len(),
        shorts(table, names.take(k)) is Err,
    ensures
        shorts(table, names) == shorts(table, names.take(k)),
    decreases names.len() - k,
{
    if k < names.len() {
        assert(names.take(k + 1).drop_last() =~= names.take(k));
        lemma_shorts_error_stays(table, names, k + 1);
    } else {
        assert(names.take(k) =~= names);
    }
}

proof fn lemma_parse_error_stays(table: Seq<FlagName>, inputs: Seq<Seq<u8>>, k: int)
    requires
        0 <= k <= inputs.len(),
        parse_args(table, inputs.take(k)) is Err,
    ensures
        parse_args(table, inputs) == parse_args(table, inputs.take(k)),
    decreases inputs.len() - k,
{
    if k < inputs.len() {
        assert(inputs.take(k + 1).drop_last() =~= inputs.take(k));
        lemma_parse_error_stays(table, inputs, k + 1);
    } else {
        assert(inputs.take(k) =~= inputs);
    }
}

/// The flag `-a` / `--all`, which takes no value.
pub open spec fn is_all_flag(a: Arg) -> bool {
    &&& a.short == Some(0x61u8)
    &&& a.long@ == seq!['a', 'l', 'l']
    &&& a.args is Forbidden
}

/// The flag `-a` / `--all`.
pub fn all() -> (r: Arg)
    ensures
        is_all_flag(r),
{
    let long = "all";
    proof {
        reveal_strlit("all");
    }
    assert(long@ =~= seq!['a', 'l', 'l']);
    Arg { short: Some(0x61u8), long: long, args: TakesValue::Forbidden }
}

/// Whether two byte strings are equal.
fn bytes_equal(a: &[u8], b: &[u8]) -> (r: bool)
    ensures
        r == (a@ == b@),
{
    if a.len() != b.len() {
        return false;
    }
    let mut i: usize = 0;
    while i < a.len()
        invariant
            a@.len() == b@.len(),
            i <= a@.len(),
            a@.take(i as int) == b@.take(i as int),
        decreases a.len() - i,
    {
        if a[i] != b[i] {
            assert(a@[i as int] != b@[i as int]);
            return false;
        }
        assert(a@.take(i + 1) =~= a@.take(i as int).push(a@[i as int]));
        assert(b@.take(i + 1) =~= b@.take(i as int).push(b@[i as int]));
        i = i + 1;
    }
    assert(a@ =~= a@.take(i as int));
    assert(b@ =~= b@.take(i as int));
    true
}

impl Args {
    /// The table holding only `-a` / `--all`.
    pub fn all_args() -> (r: Args)
        ensures
            r.0@.len() == 1,
            is_all_flag(r.0@[0]),
            flag_names(r.0@) == all_names(),
    {
        let r = Args(vec![all()]);
        assert(flag_names(r.0@) =~= all_names());
        r
    }

    /// Reads a command line: after `--` every argument is free; `--name` is
    /// the flag of that long name; `-abc` are the flags of those short
    /// names; anything else, `-` included, is free. A flag name that the
    /// table does not hold is refused.
    pub fn parse<'args>(&self, inputs: &[&'args [u8]]) -> (r: Result<Matches<'args>, ParseError>)
        ensures
            match parse_args(flag_names(self.0@), views(inputs@)) {
                Ok((flags, frees, _)) => r matches Ok(m) && positions(m.flags@) == flags && views(
                    m.frees@,
                ) == frees,
                Err(e) => r matches Err(err) && err@ == e,
            },
    {
        let ghost table = flag_names(self.0@);
        let ghost all_in = views(inputs@);
        let mut parsing = true;
        let mut flags: Vec<usize> = Vec::new();
        let mut frees: Vec<&'args [u8]> = Vec::new();
        let mut i: usize = 0;
        proof {
            assert(all_in.take(0) =~= Seq::<Seq<u8>>::empty());
            assert(positions(flags@) =~= Seq::<nat>::empty());
            assert(views(frees@) =~= Seq::<Seq<u8>>::empty());
        }
        while i < inputs.len()
            invariant
                table == flag_names(self.0@),
                all_in == views(inputs@),
                i <= inputs@.len(),
                parse_args(table, all_in.take(i as int)) == Ok::<
                    (Seq<nat>, Seq<Seq<u8>>, bool),
                    ParseFault,
                >((positions(flags@), views(frees@), parsing)),
            decreases inputs.len() - i,
        {
            let arg: &'args [u8] = inputs[i];
            let ghost a = arg@;
            let ghost before_flags = positions(flags@);
            let ghost before_frees = views(frees@);
            let ghost before_parsing = parsing;
            proof {
                assert(all_in.take(i + 1).drop_last() =~= all_in.take(i as int));
                assert(all_in.take(i + 1).last() == a);
            }
            let n = arg.len();
            if !parsing {
                frees.push(arg);
            } else if n == 2 && arg[0] == 0x2d && arg[1] == 0x2d {
                assert(a =~= seq![dash(), dash()]);
                parsing = false;
            } else if n > 2 && arg[0] == 0x2d && arg[1] == 0x2d {
                let name = slice_subrange(arg, 2, n);
                assert(name@ =~= a.skip(2));
                match self.lookup_long(name) {
                    None => {
                        proof {
                            lemma_parse_error_stays(table, all_in, i + 1);
                        }
                        return Err(ParseError::UnknownLong(slice_to_vec(name)));
                    },
                    Some(k) => {
                        flags.push(k);
                    },
                }
            } else if n > 1 && arg[0] == 0x2d {
                let ghost names = a.skip(1);
                let ghost base = positions(flags@);
                let mut j: usize = 1;
                proof {
                    assert(is_short_cluster(a));
                    assert(!is_long(a));
                    assert(!is_terminator(a));
                    assert(names.take(0) =~= Seq::<u8>::empty());
                    assert(base + Seq::<nat>::empty() =~= base);
                }
                while j < n
                    invariant
                        1 <= j <= n,
                        n == arg@.len(),
                        a == arg@,
                        names == a.skip(1),
                        table == flag_names(self.0@),
                        all_in == views(inputs@),
                        i < inputs@.len(),
                        parsing,
                        is_short_cluster(a),
                        !is_long(a),
                        !is_terminator(a),
                        all_in.take(i + 1).drop_last() == all_in.take(i as int),
                        all_in.take(i + 1).last() == a,
                        parse_args(table, all_in.take(i as int)) == Ok::<
                            (Seq<nat>, Seq<Seq<u8>>, bool),
                            ParseFault,
                        >((base, views(frees@), parsing)),
                        shorts(table, names.take(j - 1)) matches Ok(found) && positions(flags@)
                            == base + found,
                    decreases n - j,
                {
                    let b = arg[j];
                    let ghost found = shorts(table, names.take(j - 1))->Ok_0;
                    proof {
                        assert(names.take(j as int).drop_last() =~= names.take(j - 1));
                        assert(names.take(j as int).last() == b);
                    }
                    match self.lookup_short(b) {
                        None => {
                            proof {
                                assert(shorts(table, names.take(j as int)) == Err::<Seq<nat>, ParseFault>(
                                    ParseFault::UnknownShort(b),
                                ));
                                lemma_shorts_error_stays(table, names, j as int);
                                assert(step(table, a, parsing) == Err::<
                                    (Seq<nat>, Seq<Seq<u8>>, bool),
                                    ParseFault,
                                >(ParseFault::UnknownShort(b)));
                                lemma_parse_error_stays(table, all_in, i + 1);
                            }
                            return Err(ParseError::UnknownShort(b));
                        },
                        Some(k) => {
                            let ghost prev = flags@;
                            flags.push(k);
                            assert(flags@ =~= prev.push(k));
                            assert(positions(flags@) =~= positions(prev).push(k as nat));
                            assert(positions(flags@) =~= base + found.push(k as nat));
                        },
                    }
                    j = j + 1;
                }
                proof {
                    assert(names.take(n - 1) =~= names);
                }
            } else {
                frees.push(arg);
            }
            proof {
                assert(positions(flags@) =~= before_flags + step(
                    table,
                    a,
                    before_parsing,
                )->Ok_0.0);
                assert(views(frees@) =~= before_frees + step(table, a, before_parsing)->Ok_0.1);
            }
            i = i + 1;
        }
        proof {
            assert(all_in.take(i as int) =~= all_in);
        }
        Ok(Matches { flags, frees })
    }

    /// The position of the flag with long name `name`.
    fn lookup_long(&self, name: &[u8]) -> (r: Option<usize>)
        ensures
            r matches Some(i) ==> find_long(flag_names(self.0@), name@, 0) == Some(i as nat),
            r is None ==> find_long(flag_names(self.0@), name@, 0) is None,
    {
        let mut i: usize = 0;
        while i < self.0.len()
            invariant
                i <= self.0@.len(),
                find_long(flag_names(self.0@), name@, 0) == find_long(flag_names(self.0@), name@, i as int),
            decreases self.0.len() - i,
        {
            if bytes_equal(self.0[i].long.as_bytes(), name) {
                return Some(i);
            }
            i = i + 1;
        }
        None
    }

    /// The position of the flag with short name `b`.
    fn lookup_short(&self, b: u8) -> (r: Option<usize>)
        ensures
            r matches Some(i) ==> find_short(flag_names(self.0@), b, 0) == Some(i as nat),
            r is None ==> find_short(flag_names(self.0@), b, 0) is None,
    {
        let mut i: usize = 0;
        while i < self.0.len()
            invariant
                i <= self.0@.len(),
                find_short(flag_names(self.0@), b, 0) == find_short(flag_names(self.0@), b, i as int),
            decreases self.0.len() - i,
        {
            if self.0[i].short == Some(b) {
                return Some(i);
            }
            i = i + 1;
        }
        None
    }
}

/// Whether position `i` is among `flags`.
fn has_flag(flags: &Vec<usize>, i: usize) -> (r: bool)
    ensures
        r == positions(flags@).contains(i as nat),
{
    let mut j: usize = 0;
    while j < flags.len()
        invariant
            j <= flags@.len(),
            forall|k: int| 0 <= k < j ==> flags@[k] != i,
        decreases flags.len() - j,
    {
        if flags[j] == i {
            assert(positions(flags@)[j as int] == i as nat);
            return true;
        }
        j = j + 1;
    }
    proof {
        if positions(flags@).contains(i as nat) {
            let k = choose|k: int| 0 <= k < positions(flags@).len() && positions(flags@)[k] == i as nat;
            assert(flags@[k] == i);
        }
    }
    false
}

impl Options {
    /// Reads a command line against the table of `-a` / `--all`: the flag
    /// asks for hidden entries to be shown.
    pub fn parse<'args>(inputs: &[&'args [u8]]) -> (r: OptionsResult<'args>)
        ensures
            match parse_args(all_names(), views(inputs@)) {
                Ok((flags, frees, _)) => r matches OptionsResult::Parsed(o, fr) && o.show_invisible
                    == flags.contains(0) && views(fr@) == frees,
                Err(e) => r matches OptionsResult::InvalidOptions(OptionsError::Parse(err)) && err@
                    == e,
            },
    {
        let table = Args::all_args();
        match table.parse(inputs) {
            Ok(m) => {
                let show = has_flag(&m.flags, 0);
                OptionsResult::Parsed(Options { show_invisible: show }, m.frees)
            },
            Err(e) => OptionsResult::InvalidOptions(OptionsError::Parse(e)),
        }
    }
}

} // verus!
