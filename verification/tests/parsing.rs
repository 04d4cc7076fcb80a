use gsc_client::errors::ErrorKind;
use gsc_client::parse::{parse_cp_arg, parse_hw, parse_hw_file, parse_hw_opt_file, parse_remote_dest};
use gsc_client::paths::CpArg;

#[test]
fn parse_round_trip_named_file() {
    let rpat = parse_hw_opt_file("hw3:foo.c").unwrap();
    assert_eq!(rpat.hw, 3);
    assert_eq!(rpat.name, "foo.c");
    assert_eq!(rpat.to_text(), "hw3:foo.c");
}

#[test]
fn parse_round_trip_whole_homework_normalizes() {
    let with_colon = parse_hw_opt_file("hw10:").unwrap();
    assert_eq!(with_colon.to_text(), "hw10:");
    let without_colon = parse_hw_opt_file("hw10").unwrap();
    assert_eq!(without_colon.to_text(), "hw10:");
}

#[test]
fn parse_round_trip_name_with_colon() {
    let rpat = parse_hw_opt_file("hw2:a:b").unwrap();
    assert_eq!(rpat.hw, 2);
    assert_eq!(rpat.name, "a:b");
    assert_eq!(rpat.to_text(), "hw2:a:b");
}

#[test]
fn whole_homework_predicate() {
    assert!(parse_hw_opt_file("hw3:").unwrap().is_whole_hw());
    assert!(!parse_hw_opt_file("hw3:foo.c").unwrap().is_whole_hw());
}

#[test]
fn parse_hw_accepts_bare_and_colon_forms() {
    assert_eq!(parse_hw("hw7").unwrap(), 7);
    assert_eq!(parse_hw("hw7:").unwrap(), 7);
}

#[test]
fn parse_hw_rejects_named_files_and_junk() {
    assert!(matches!(
        parse_hw("hw7:foo").unwrap_err().kind,
        ErrorKind::SyntaxError(_, _)
    ));
    assert!(matches!(parse_hw("hw").unwrap_err().kind, ErrorKind::SyntaxError(_, _)));
    assert!(matches!(parse_hw("7").unwrap_err().kind, ErrorKind::SyntaxError(_, _)));
    assert!(matches!(parse_hw("hwx").unwrap_err().kind, ErrorKind::SyntaxError(_, _)));
}

#[test]
fn parse_hw_rejects_overflowing_numbers() {
    let err = parse_hw("hw99999999999999999999999999").unwrap_err();
    assert!(matches!(err.kind, ErrorKind::SyntaxError(_, _)));
}

#[test]
fn parse_hw_file_requires_colon() {
    let rpat = parse_hw_file("hw3:notes.txt").unwrap();
    assert_eq!((rpat.hw, rpat.name.as_str()), (3, "notes.txt"));
    let err = parse_hw_file("hw3").unwrap_err();
    match err.kind {
        ErrorKind::SyntaxError(class, literal) => {
            assert_eq!(class, "remote file or homework spec");
            assert_eq!(literal, "hw3");
        },
        other => panic!("unexpected error kind: {:?}", other),
    }
}

#[test]
fn parse_cp_arg_classifies_tokens() {
    match parse_cp_arg(":lab.c").unwrap() {
        CpArg::Local(path) => assert_eq!(path, "lab.c"),
        other => panic!("expected local, got {:?}", other),
    }
    match parse_cp_arg("lab.c").unwrap() {
        CpArg::Local(path) => assert_eq!(path, "lab.c"),
        other => panic!("expected local, got {:?}", other),
    }
    match parse_cp_arg("hw3:lab.c").unwrap() {
        CpArg::Remote(rpat) => assert_eq!((rpat.hw, rpat.name.as_str()), (3, "lab.c")),
        other => panic!("expected remote, got {:?}", other),
    }
}

#[test]
fn parse_cp_arg_rejects_empty_and_bad_remote() {
    match parse_cp_arg("").unwrap_err().kind {
        ErrorKind::SyntaxError(class, _) => assert_eq!(class, "file name"),
        other => panic!("unexpected error kind: {:?}", other),
    }
    assert!(matches!(
        parse_cp_arg(":").unwrap_err().kind,
        ErrorKind::SyntaxError(_, _)
    ));
    assert!(matches!(
        parse_cp_arg("bad:stuff").unwrap_err().kind,
        ErrorKind::SyntaxError(_, _)
    ));
}

#[test]
fn parse_remote_dest_forms() {
    let hw_only = parse_remote_dest("hw4").unwrap();
    assert_eq!(hw_only.hw, Some(4));
    assert_eq!(hw_only.name, "");
    assert_eq!(hw_only.to_text(), "hw4:");

    let qualified = parse_remote_dest("hw4:new.c").unwrap();
    assert_eq!(qualified.hw, Some(4));
    assert_eq!(qualified.name, "new.c");

    let bare = parse_remote_dest("new.c").unwrap();
    assert_eq!(bare.hw, None);
    assert_eq!(bare.name, "new.c");
    assert_eq!(bare.to_text(), ":new.c");

    assert!(matches!(
        parse_remote_dest("").unwrap_err().kind,
        ErrorKind::SyntaxError(_, _)
    ));
}

#[test]
fn destination_fills_in_from_default() {
    let source = gsc_client::paths::RemotePattern::hw_name(3, String::from("old.c"));
    let name_only = parse_remote_dest("new.c").unwrap();
    let filled = name_only.unwrap_or(source);
    assert_eq!((filled.hw, filled.name.as_str()), (3, "new.c"));

    let source = gsc_client::paths::RemotePattern::hw_name(3, String::from("old.c"));
    let hw_only = parse_remote_dest("hw5").unwrap();
    let filled = hw_only.unwrap_or(source);
    assert_eq!((filled.hw, filled.name.as_str()), (5, "old.c"));
}

#[test]
fn homework_zero_round_trips() {
    let rpat = parse_hw_opt_file("hw0:").unwrap();
    assert_eq!(rpat.hw, 0);
    assert_eq!(rpat.to_text(), "hw0:");
}

#[test]
fn digits_render() {
    assert_eq!(gsc_client::digits::usize_to_string(0), "0");
    assert_eq!(gsc_client::digits::usize_to_string(12345), "12345");
}
