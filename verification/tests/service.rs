use gsc_client::config::{
    classify_answer, Config, Dotfile, OverwritePolicy, PolicyDecision, PromptAnswer, PromptOutcome,
};
use gsc_client::credentials::{check_api_key, parse_cookie_file, Credentials};
use gsc_client::errors::{status_is_success, ErrorKind};
use gsc_client::listing::{
    exact_file_name, matching_file_list, nonempty_matching_file_list, submission_uri_table,
    uri_for_submission,
};
use gsc_client::messages::{
    FileMeta, FilePurpose, SubmissionEvalStatus, SubmissionStatus, UserRole,
};
use gsc_client::paths::RemotePattern;
use gsc_client::table::{parse_format_string, FormatSpec, Row, TextTable};

fn meta(hw: usize, name: &str, purpose: FilePurpose) -> FileMeta {
    FileMeta {
        hw,
        byte_count: 10,
        media_type: String::from("text/plain"),
        name: String::from(name),
        purpose,
        upload_time: String::from("2019-03-01T12:00:00Z"),
        uri: format!("/api/submissions/{}/files/{}", hw, name),
    }
}

#[test]
fn empty_pattern_selects_every_file() {
    let listing = vec![
        meta(1, "a.c", FilePurpose::Source),
        meta(1, "b.txt", FilePurpose::Test),
        meta(1, "odd/name", FilePurpose::Resource),
    ];
    let all = matching_file_list(&listing, &RemotePattern::hw_name(1, String::new())).unwrap();
    assert_eq!(all.len(), 3);
}

#[test]
fn invalid_glob_is_a_pattern_error() {
    let listing = vec![meta(1, "a.c", FilePurpose::Source)];
    let err = matching_file_list(&listing, &RemotePattern::hw_name(1, String::from("[")))
        .unwrap_err();
    match err.kind {
        ErrorKind::PatternError(pat) => assert_eq!(pat, "["),
        other => panic!("unexpected error kind: {:?}", other),
    }
}

#[test]
fn empty_match_demands_are_errors() {
    let listing = vec![meta(1, "a.c", FilePurpose::Source)];
    let err = nonempty_matching_file_list(&listing, &RemotePattern::hw_name(1, String::from("*.rs")))
        .unwrap_err();
    match err.kind {
        ErrorKind::NoSuchRemoteFile(pat) => assert_eq!(pat.to_text(), "hw1:*.rs"),
        other => panic!("unexpected error kind: {:?}", other),
    }
}

#[test]
fn exact_name_lookup() {
    let listing = vec![
        meta(1, "a.c", FilePurpose::Source),
        meta(1, "b.c", FilePurpose::Source),
    ];
    assert_eq!(exact_file_name(&listing, 1, "b.c").unwrap().name, "b.c");
    let err = exact_file_name(&listing, 1, "z.c").unwrap_err();
    assert!(matches!(err.kind, ErrorKind::NoSuchRemoteFile(_)));
}

#[test]
fn submission_table_and_lookup() {
    let subs = vec![
        (1usize, String::from("/api/submissions/11")),
        (3usize, String::from("/api/submissions/33")),
    ];
    let table = submission_uri_table(&subs, "http://e");
    assert_eq!(table.len(), 4);
    assert_eq!(table[0], None);
    assert_eq!(table[1].as_deref(), Some("http://e/api/submissions/11"));
    assert_eq!(table[2], None);
    assert_eq!(table[3].as_deref(), Some("http://e/api/submissions/33"));

    assert_eq!(uri_for_submission(&table, 3).unwrap(), "http://e/api/submissions/33");
    let err = uri_for_submission(&table, 2).unwrap_err();
    assert!(matches!(err.kind, ErrorKind::UnknownHomework(2)));
    let err = uri_for_submission(&table, 9).unwrap_err();
    assert!(matches!(err.kind, ErrorKind::UnknownHomework(9)));
}

#[test]
fn overwrite_policy_machine() {
    let policy = OverwritePolicy::Always;
    assert_eq!(policy.precheck("f"), PolicyDecision::Proceed);

    let policy = OverwritePolicy::Never;
    match policy.precheck("f") {
        PolicyDecision::Refuse(e) => match e.kind {
            ErrorKind::DestinationFileExists(f) => assert_eq!(f, "f"),
            other => panic!("unexpected error kind: {:?}", other),
        },
        other => panic!("unexpected decision: {:?}", other),
    }

    let mut policy = OverwritePolicy::Ask;
    assert_eq!(policy.precheck("f"), PolicyDecision::AskUser);
    assert_eq!(policy.apply_answer(PromptAnswer::Yes), PromptOutcome::Overwrite);
    assert_eq!(policy, OverwritePolicy::Ask);
    assert_eq!(policy.apply_answer(PromptAnswer::No), PromptOutcome::Skip);
    assert_eq!(policy, OverwritePolicy::Ask);
    assert_eq!(policy.apply_answer(PromptAnswer::Unrecognized), PromptOutcome::Reprompt);
    assert_eq!(policy.apply_answer(PromptAnswer::All), PromptOutcome::Overwrite);
    assert_eq!(policy, OverwritePolicy::Always);
    assert_eq!(policy.apply_answer(PromptAnswer::Cancel), PromptOutcome::Terminate);
    assert_eq!(policy, OverwritePolicy::Always);
}

#[test]
fn prompt_answers_classify_by_first_letter() {
    assert_eq!(classify_answer("y\n"), PromptAnswer::Yes);
    assert_eq!(classify_answer("Yes"), PromptAnswer::Yes);
    assert_eq!(classify_answer("n"), PromptAnswer::No);
    assert_eq!(classify_answer("All"), PromptAnswer::All);
    assert_eq!(classify_answer("cancel"), PromptAnswer::Cancel);
    assert_eq!(classify_answer(""), PromptAnswer::ClosedStream);
    assert_eq!(classify_answer("maybe"), PromptAnswer::Unrecognized);
}

#[test]
fn config_defaults_and_dotfile() {
    let mut config = Config::new();
    assert_eq!(config.endpoint, "https://stewie.cs.northwestern.edu");
    assert_eq!(config.verbosity, 1);
    assert_eq!(config.overwrite, OverwritePolicy::Ask);
    assert!(!config.json_output());
    assert!(matches!(
        config.get_cookie_file().unwrap_err().kind,
        ErrorKind::NoCookieFileGiven
    ));

    config.load_dotfile(Some(Dotfile { endpoint: String::new(), verbosity: Some(3) }));
    assert_eq!(config.endpoint, "https://stewie.cs.northwestern.edu");
    assert_eq!(config.get_verbosity(), 3);

    config.load_dotfile(Some(Dotfile {
        endpoint: String::from("http://localhost:8080"),
        verbosity: None,
    }));
    assert_eq!(config.get_endpoint(), "http://localhost:8080");
    assert_eq!(config.get_verbosity(), 3);

    config.set_on_behalf(String::from("them"));
    assert_eq!(config.get_on_behalf().map(String::as_str), Some("them"));
    config.set_cookie_file(Some(String::from("/home/u/.gscauth")));
    assert_eq!(config.get_cookie_file().unwrap(), "/home/u/.gscauth");
}

#[test]
fn cookie_lines_parse_and_render() {
    let (user, key, value) = parse_cookie_file("alice:gsc_api_key=0123abcd").unwrap();
    assert_eq!(user, "alice");
    assert_eq!(key, "gsc_api_key");
    assert_eq!(value, "0123abcd");

    assert!(parse_cookie_file("no separators here").is_none());
    assert!(parse_cookie_file("equals=first:colon").is_none());

    let creds = Credentials::new(
        String::from("alice"),
        String::from("gsc_api_key"),
        String::from("0123abcd"),
    );
    assert_eq!(creds.to_line(), "alice:gsc_api_key=0123abcd");
    assert_eq!(creds.cookie_string(), "gsc_api_key=0123abcd");
    let round = parse_cookie_file(creds.to_line().as_str()).unwrap();
    assert_eq!(round, (String::from("alice"), String::from("gsc_api_key"), String::from("0123abcd")));
}

#[test]
fn api_keys_are_checked_and_folded() {
    let config = Config::new();
    let key = "  0123456789ABCDEF0123456789abcdef01234567\n";
    let folded = check_api_key(key, &config).unwrap();
    assert_eq!(folded, "0123456789abcdef0123456789abcdef01234567");

    let err = check_api_key("", &config).unwrap_err();
    assert!(matches!(err.kind, ErrorKind::NotAnApiKey(_)));
    let err = check_api_key("   \t\n", &config).unwrap_err();
    assert!(matches!(err.kind, ErrorKind::NotAnApiKey(_)));
    let err = check_api_key("0123", &config).unwrap_err();
    assert!(matches!(err.kind, ErrorKind::NotAnApiKey(_)));
    let err = check_api_key("0123456789ABCDEF0123456789abcdef0123456z", &config).unwrap_err();
    assert!(matches!(err.kind, ErrorKind::NotAnApiKey(_)));
}

#[test]
fn message_labels() {
    assert_eq!(UserRole::Student.as_str(), "student");
    assert_eq!(UserRole::Admin.as_str(), "admin");
    assert_eq!(SubmissionStatus::Open.to_str(), "open for submission");
    assert_eq!(SubmissionStatus::ExtendedEval.to_str(), "open for self evaluation (extended)");
    assert!(SubmissionStatus::Overtime.is_self_eval());
    assert!(!SubmissionStatus::Closed.is_self_eval());
    assert_eq!(SubmissionEvalStatus::Overdue.to_str(), "overdue");
    assert_eq!(FilePurpose::Source.to_char(), 's');
    assert_eq!(FilePurpose::Forbidden.to_char(), 'F');
    assert_eq!(FilePurpose::Test.to_dir(), "test");
    assert_eq!(FilePurpose::Resource.to_dir(), "Resources");
    assert!(FilePurpose::Log.is_automatically_deletable());
    assert!(FilePurpose::Source.is_line_numbered());
    assert!(!FilePurpose::Resource.is_line_numbered());
    let file = meta(3, "lab.c", FilePurpose::Source);
    assert_eq!(file.to_text(), "hw3:lab.c");
}

#[test]
fn http_status_classification() {
    assert!(status_is_success(200));
    assert!(status_is_success(204));
    assert!(!status_is_success(199));
    assert!(!status_is_success(301));
    assert!(!status_is_success(401));
}

#[test]
fn tables_track_columns_and_widths() {
    let (items, count) = parse_format_string("  %l  [%r] %% ");
    assert_eq!(count, 2);
    let directives: Vec<&FormatSpec> = items
        .iter()
        .filter(|i| matches!(i, FormatSpec::Left | FormatSpec::Right))
        .collect();
    assert_eq!(directives.len(), 2);

    let mut table = TextTable::new("%l  %r");
    assert_eq!(table.n_columns, 2);
    let row = Row::new().add_cell(String::from("abc")).add_cell(String::from("x"));
    table.add_row(row);
    let row = Row::new().add_cell(String::from("a")).add_cell(String::from("xyzw"));
    table.add_row(row);
    assert_eq!(table.rows.len(), 2);
    assert_eq!(table.column_widths, vec![3, 4]);
}

#[test]
fn tables_render_padded_columns() {
    let mut table = TextTable::new("%l | %r\n");
    let row = Row::new().add_cell(String::from("abc")).add_cell(String::from("x"));
    table.add_row(row);
    let row = Row::new().add_cell(String::from("a")).add_cell(String::from("xyzw"));
    table.add_row(row);
    assert_eq!(table.render(), "abc |    x\na   | xyzw\n");
}
