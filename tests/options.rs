use colour_ls::option::{all, Args, Options, OptionsError, OptionsResult, ParseError, TakesValue};

#[test]
fn all_flag_names() {
    let a = all();
    assert_eq!(a.short, Some(b'a'));
    assert_eq!(a.long, "all");
    assert!(matches!(a.args, TakesValue::Forbidden));
}

#[test]
fn short_long_and_free_arguments() {
    let table = Args::all_args();
    let m = table.parse(&[&b"-a"[..], b"dir", b"--all", b"-", b"-aa"]).unwrap();
    assert_eq!(m.flags, vec![0, 0, 0, 0]);
    assert_eq!(m.frees, vec![&b"dir"[..], &b"-"[..]]);
}

#[test]
fn terminator_makes_the_rest_free() {
    let table = Args::all_args();
    let m = table.parse(&[&b"x"[..], b"--", b"-a", b"--all", b"--"]).unwrap();
    assert!(m.flags.is_empty());
    assert_eq!(m.frees, vec![&b"x"[..], &b"-a"[..], &b"--all"[..], &b"--"[..]]);
}

#[test]
fn unknown_flags_are_refused() {
    let table = Args::all_args();
    assert_eq!(
        table.parse(&[&b"--nope"[..], b"-z"]).unwrap_err(),
        ParseError::UnknownLong(b"nope".to_vec())
    );
    assert_eq!(
        table.parse(&[&b"dir"[..], b"-ab"]).unwrap_err(),
        ParseError::UnknownShort(b'b')
    );
    assert!(table.parse(&[&b"--"[..], b"--nope"]).is_ok());
}

#[test]
fn options_from_command_line() {
    match Options::parse(&[&b"-a"[..], b"dir"]) {
        OptionsResult::Parsed(o, frees) => {
            assert!(o.show_invisible);
            assert_eq!(frees, vec![&b"dir"[..]]);
        }
        OptionsResult::InvalidOptions(_) => panic!("expected options"),
    }
    match Options::parse(&[&b"dir"[..]]) {
        OptionsResult::Parsed(o, _) => assert!(!o.show_invisible),
        OptionsResult::InvalidOptions(_) => panic!("expected options"),
    }
    match Options::parse(&[&b"-x"[..]]) {
        OptionsResult::InvalidOptions(e) => {
            assert_eq!(e, OptionsError::Parse(ParseError::UnknownShort(b'x')))
        }
        OptionsResult::Parsed(_, _) => panic!("expected an error"),
    }
}
