use memfs::cli::{checked_input, parse_id, Command, Operation, Outcome, CLI};
use memfs::display::{push_decimal, FileDisplay};
use memfs::error::FileError;
use memfs::file::File;

#[test]
fn operations_and_aliases() {
    let cases = [
        ("create", Operation::Create),
        ("c", Operation::Create),
        ("  Write ", Operation::Write),
        ("W", Operation::Write),
        ("read", Operation::Read),
        ("r", Operation::Read),
        ("LIST", Operation::List),
        ("l", Operation::List),
        ("ls", Operation::List),
        ("delete", Operation::Delete),
        ("d", Operation::Delete),
        ("del", Operation::Delete),
        ("info", Operation::Info),
        ("i", Operation::Info),
        ("help", Operation::Help),
        ("h", Operation::Help),
        ("?", Operation::Help),
        ("stats", Operation::Stats),
        ("s", Operation::Stats),
        ("quit", Operation::Quit),
        ("q", Operation::Quit),
        ("Exit\n", Operation::Quit),
    ];
    for (line, op) in cases {
        assert_eq!(Operation::from_str(line).unwrap(), op, "{line:?}");
    }
}

#[test]
fn unknown_operation_is_rejected() {
    assert!(matches!(Operation::from_str("bogus"), Err(FileError::InvalidInput(_))));
    assert!(matches!(Operation::from_str(""), Err(FileError::InvalidInput(_))));
    assert!(matches!(Operation::from_word("LS"), Err(FileError::InvalidInput(_))));
    assert_eq!(Operation::from_word("ls").unwrap(), Operation::List);
}

#[test]
fn inputs_are_trimmed_and_must_not_be_empty() {
    assert_eq!(checked_input("  notes.txt \n"), Ok("notes.txt".to_string()));
    assert!(matches!(checked_input("   \n"), Err(FileError::InvalidInput(_))));
    assert!(matches!(checked_input(""), Err(FileError::InvalidInput(_))));
}

#[test]
fn identifiers_parse_like_u32() {
    assert_eq!(parse_id("12"), Some(12));
    assert_eq!(parse_id("+7"), Some(7));
    assert_eq!(parse_id("007"), Some(7));
    assert_eq!(parse_id("4294967295"), Some(u32::MAX));
    assert_eq!(parse_id("4294967296"), None);
    assert_eq!(parse_id("99999999999999999999"), None);
    assert_eq!(parse_id(""), None);
    assert_eq!(parse_id("+"), None);
    assert_eq!(parse_id("-1"), None);
    assert_eq!(parse_id("1a"), None);
    assert_eq!(parse_id("a.txt"), None);
}

#[test]
fn decimal_rendering() {
    let mut s = String::from("n=");
    push_decimal(&mut s, 0);
    push_decimal(&mut s, 305);
    push_decimal(&mut s, u64::MAX);
    assert_eq!(s, format!("n=0305{}", u64::MAX));
}

#[test]
fn summary_and_detailed_views() {
    let f = File::new(3, "a.txt".to_string(), "hello".to_string()).unwrap();
    assert_eq!(f.display_summary(), "[3] a.txt (5 bytes)");
    assert_eq!(
        f.display_detailed("2s"),
        "ID: 3\nName: a.txt\nSize: 5 bytes\nCreated: 2s ago\nPreview: hello"
    );
    let g = File::new(10, "g".to_string(), "y".repeat(51)).unwrap();
    assert_eq!(
        g.display_detailed("1ms"),
        format!("ID: 10\nName: g\nSize: 51 bytes\nCreated: 1ms ago\nPreview: {}...", "y".repeat(50))
    );
}

#[test]
fn dispatch_runs_commands() {
    let mut cli = CLI::new();
    let r = cli.execute_operation(Command::Create { name: "a.txt".to_string(), content: "hello".to_string() });
    assert!(matches!(r, Ok(Outcome::Created(1))));
    let r = cli.execute_operation(Command::Create { name: "a.txt".to_string(), content: "x".to_string() });
    assert_eq!(r.unwrap_err(), FileError::AlreadyExists("a.txt".to_string()));
    let r = cli.execute_operation(Command::Write { name: "a.txt".to_string(), content: "bye".to_string() });
    assert!(matches!(r, Ok(Outcome::Written)));
    match cli.execute_operation(Command::Read { name: "a.txt".to_string() }) {
        Ok(Outcome::Content(c)) => assert_eq!(c, "bye"),
        other => panic!("{other:?}"),
    }
    assert!(matches!(cli.execute_operation(Command::List), Ok(Outcome::Listed)));
    assert!(matches!(cli.execute_operation(Command::Info { target: "a.txt".to_string() }), Ok(Outcome::Found(1))));
    assert!(matches!(cli.execute_operation(Command::Info { target: "1".to_string() }), Ok(Outcome::Found(1))));
    assert_eq!(
        cli.execute_operation(Command::Info { target: "9".to_string() }).unwrap_err(),
        FileError::InvalidId(9)
    );
    match cli.execute_operation(Command::Stats) {
        Ok(Outcome::Stats(st)) => {
            assert_eq!((st.file_count, st.total_size, st.average_size), (1, 3, Some(3)));
        }
        other => panic!("{other:?}"),
    }
    assert!(matches!(cli.execute_operation(Command::Delete { target: "1".to_string() }), Ok(Outcome::Deleted)));
    assert_eq!(
        cli.execute_operation(Command::Delete { target: "a.txt".to_string() }).unwrap_err(),
        FileError::NotFound("a.txt".to_string())
    );
    assert!(matches!(cli.execute_operation(Command::Help), Ok(Outcome::Help)));
    assert!(matches!(cli.execute_operation(Command::Quit), Ok(Outcome::Quit)));
    assert_eq!(cli.filesystem().file_count(), 0);
}

#[test]
fn dispatch_deletes_by_name_when_not_a_number() {
    let mut cli = CLI::new();
    cli.execute_operation(Command::Create { name: "12x".to_string(), content: String::new() }).unwrap();
    assert!(matches!(cli.execute_operation(Command::Delete { target: "12x".to_string() }), Ok(Outcome::Deleted)));
    assert_eq!(cli.filesystem().file_count(), 0);
}

