use gsc_client::config::{OverwritePolicy, PolicyDecision, PromptAnswer, PromptOutcome};
use gsc_client::copy::{
    base_filename, dir_download_actions, download_hw_actions, plan_download, plan_mv, plan_upload,
    resolve_copy, single_file_action, CopyDirection, DownloadPlan, DstType, MvPlan, UploadPlan,
};
use gsc_client::errors::{exit_code, ErrorKind};
use gsc_client::listing::{matching_file_list, nonempty_matching_file_list, one_matching_file};
use gsc_client::messages::{FileMeta, FilePurpose};
use gsc_client::paths::{CpArg, RemoteDestination, RemotePattern};

fn meta(hw: usize, name: &str, purpose: FilePurpose) -> FileMeta {
    FileMeta {
        hw,
        byte_count: 10,
        media_type: String::from("text/plain"),
        name: String::from(name),
        purpose,
        upload_time: String::from("2019-03-01T12:00:00Z"),
        uri: format!("/api/submissions/{}/files/{}", hw, name),
    }
}

fn rpat(hw: usize, name: &str) -> RemotePattern {
    RemotePattern::hw_name(hw, String::from(name))
}

#[test]
fn local_to_local_is_rejected() {
    let srcs = vec![CpArg::Local(String::from("a"))];
    let dst = CpArg::Local(String::from("b"));
    let err = resolve_copy(&srcs, &dst).unwrap_err();
    match err.kind {
        ErrorKind::CannotCopyLocalToLocal(src, dst) => {
            assert_eq!(src, "a");
            assert_eq!(dst, "b");
        },
        other => panic!("unexpected error kind: {:?}", other),
    }
}

#[test]
fn local_to_local_hints_at_missing_colon() {
    let srcs = vec![CpArg::Local(String::from("a"))];
    let dst = CpArg::Local(String::from("hw3"));
    let err = resolve_copy(&srcs, &dst).unwrap_err();
    match err.kind {
        ErrorKind::CannotCopyLocalToLocalExtra(_, dst, extra) => {
            assert_eq!(dst, "hw3");
            assert_eq!(extra, "Did you leave out the colon (hw3:)?");
        },
        other => panic!("unexpected error kind: {:?}", other),
    }
}

#[test]
fn remote_to_remote_is_rejected() {
    let srcs = vec![CpArg::Remote(rpat(2, "x"))];
    let dst = CpArg::Remote(rpat(3, "y"));
    let err = resolve_copy(&srcs, &dst).unwrap_err();
    match err.kind {
        ErrorKind::CannotCopyRemoteToRemote(src, dst) => {
            assert_eq!((src.hw, src.name.as_str()), (2, "x"));
            assert_eq!((dst.hw, dst.name.as_str()), (3, "y"));
        },
        other => panic!("unexpected error kind: {:?}", other),
    }
}

#[test]
fn mixed_download_rejects_first_local_source() {
    let srcs = vec![
        CpArg::Remote(rpat(2, "x")),
        CpArg::Local(String::from("y")),
        CpArg::Local(String::from("z")),
    ];
    let dst = CpArg::Local(String::from("out"));
    let err = resolve_copy(&srcs, &dst).unwrap_err();
    match err.kind {
        ErrorKind::CannotCopyLocalToLocal(src, _) => assert_eq!(src, "y"),
        other => panic!("unexpected error kind: {:?}", other),
    }
}

#[test]
fn whole_homework_onto_file_is_rejected() {
    let srcs = vec![rpat(2, "")];
    let err = plan_download(srcs, String::from("existing_file.txt"), DstType::File).unwrap_err();
    match err.kind {
        ErrorKind::SourceHwToDestinationFile(hw, dst) => {
            assert_eq!(hw, 2);
            assert_eq!(dst, "existing_file.txt");
        },
        other => panic!("unexpected error kind: {:?}", other),
    }
}

#[test]
fn multiple_sources_one_plain_destination_is_rejected() {
    let srcs = vec![rpat(2, "x"), rpat(2, "y")];
    let err = plan_download(srcs, String::from("out"), DstType::DoesNotExist).unwrap_err();
    assert!(matches!(err.kind, ErrorKind::MultipleSourcesOneDestination));

    let srcs = vec![rpat(2, "x"), rpat(2, "y")];
    let err = plan_download(srcs, String::from("out"), DstType::File).unwrap_err();
    assert!(matches!(err.kind, ErrorKind::MultipleSourcesOneDestination));
}

#[test]
fn trailing_separator_forces_directory_semantics() {
    let srcs = vec![rpat(2, "x"), rpat(2, "y")];
    match plan_download(srcs, String::from("out/"), DstType::DoesNotExist).unwrap() {
        DownloadPlan::IntoDirectory { rpats, dst, create_first } => {
            assert_eq!(rpats.len(), 2);
            assert_eq!(dst, "out/");
            assert!(create_first);
        },
        other => panic!("unexpected plan: {:?}", other),
    }
}

#[test]
fn single_fresh_file_needs_no_overwrite_check() {
    let srcs = vec![rpat(3, "lab.c")];
    match plan_download(srcs, String::from("copy.c"), DstType::DoesNotExist).unwrap() {
        DownloadPlan::SingleFile { rpat: source, dst, check_overwrite } => {
            assert_eq!((source.hw, source.name.as_str()), (3, "lab.c"));
            assert_eq!(dst, "copy.c");
            assert!(!check_overwrite);
        },
        other => panic!("unexpected plan: {:?}", other),
    }
}

#[test]
fn existing_file_destination_checks_overwrite() {
    let srcs = vec![rpat(3, "lab.c")];
    match plan_download(srcs, String::from("existing.c"), DstType::File).unwrap() {
        DownloadPlan::SingleFile { check_overwrite, .. } => assert!(check_overwrite),
        other => panic!("unexpected plan: {:?}", other),
    }
}

#[test]
fn ambiguous_destination_pattern_refuses_upload() {
    // The server already has two files matching *.c.
    let listing = vec![
        meta(3, "alpha.c", FilePurpose::Source),
        meta(3, "beta.c", FilePurpose::Source),
        meta(3, "notes.txt", FilePurpose::Source),
    ];
    let dst = rpat(3, "*.c");
    let matching = matching_file_list(&listing, &dst).unwrap();
    assert_eq!(matching.len(), 2);
    let err = gsc_client::copy::upload_target(&dst, &matching).unwrap_err();
    match err.kind {
        ErrorKind::DestinationPatternIsMultiple(pat, files) => {
            assert_eq!(pat.to_text(), "hw3:*.c");
            assert_eq!(files.0, vec![String::from("alpha.c"), String::from("beta.c")]);
        },
        other => panic!("unexpected error kind: {:?}", other),
    }
}

#[test]
fn upload_whole_homework_creates_fresh_name() {
    // End to end: the server has no hw3:lab.c; uploading local lab.c to
    // hw3: files it under its own base name, with nothing to confirm.
    let srcs = vec![CpArg::Local(String::from("work/lab.c"))];
    let dst = CpArg::Remote(rpat(3, ""));
    let direction = resolve_copy(&srcs, &dst).unwrap();
    let (locals, remote) = match direction {
        CopyDirection::Upload { srcs, dst } => (srcs, dst),
        other => panic!("unexpected direction: {:?}", other),
    };
    assert_eq!(plan_upload(&locals, &remote).unwrap(), UploadPlan::WholeHw);
    let base = base_filename(locals[0].as_str()).unwrap();
    assert_eq!(base, "lab.c");
    let slot = remote.with_name(base);
    assert_eq!(slot.to_text(), "hw3:lab.c");
    assert_eq!(gsc_client::encode::encoded_upload_name(slot.name.as_str()), "lab.c");
}

#[test]
fn upload_onto_unique_match_overwrites_that_name() {
    // End to end: exactly one remote file matches hw3:*.txt, so the
    // upload overwrites that name rather than creating a new one.
    let listing = vec![
        meta(3, "notes.txt", FilePurpose::Source),
        meta(3, "lab.c", FilePurpose::Source),
    ];
    let srcs = vec![CpArg::Local(String::from("draft.txt"))];
    let dst = CpArg::Remote(rpat(3, "*.txt"));
    let direction = resolve_copy(&srcs, &dst).unwrap();
    let (locals, remote) = match direction {
        CopyDirection::Upload { srcs, dst } => (srcs, dst),
        other => panic!("unexpected direction: {:?}", other),
    };
    assert_eq!(plan_upload(&locals, &remote).unwrap(), UploadPlan::SingleNamed);
    let matching = matching_file_list(&listing, &remote).unwrap();
    let target = gsc_client::copy::upload_target(&remote, &matching).unwrap();
    assert_eq!(target, "notes.txt");
}

#[test]
fn whole_homework_download_fans_out_by_purpose() {
    // End to end: downloading hw3: into a directory that does not exist
    // creates it and files sources and tests under their own
    // subdirectories; log files stay behind.
    let srcs = vec![rpat(3, "")];
    let plan = plan_download(srcs, String::from("out/"), DstType::DoesNotExist).unwrap();
    let rpats = match plan {
        DownloadPlan::IntoDirectory { rpats, dst, create_first } => {
            assert_eq!(dst, "out/");
            assert!(create_first);
            rpats
        },
        other => panic!("unexpected plan: {:?}", other),
    };
    assert_eq!(rpats.len(), 1);
    assert!(rpats[0].is_whole_hw());

    let listing = vec![
        meta(3, "lab.c", FilePurpose::Source),
        meta(3, "tests.txt", FilePurpose::Test),
        meta(3, "run.log", FilePurpose::Log),
    ];
    let full = matching_file_list(&listing, &rpats[0]).unwrap();
    assert_eq!(full.len(), 3);
    let actions = download_hw_actions(&full, 3, "out");
    assert_eq!(actions.len(), 2);
    assert_eq!(actions[0].local_path, "out/src/lab.c");
    assert_eq!(actions[0].mkdir.as_deref(), Some("out/src"));
    assert_eq!(actions[1].local_path, "out/test/tests.txt");
    assert_eq!(actions[1].mkdir.as_deref(), Some("out/test"));
    assert!(actions.iter().all(|a| a.check_overwrite));
}

#[test]
fn skipping_one_conflicting_file_is_no_warning() {
    // End to end: downloading hw3: into an existing directory where one
    // target name already exists; the user answers no for that file and
    // yes for the rest. The one file is skipped, nothing is a warning,
    // and the process exits cleanly.
    let listing = vec![
        meta(3, "lab.c", FilePurpose::Source),
        meta(3, "tests.txt", FilePurpose::Test),
    ];
    let srcs = vec![rpat(3, "")];
    let plan = plan_download(srcs, String::from("out"), DstType::Dir).unwrap();
    let rpats = match plan {
        DownloadPlan::IntoDirectory { rpats, create_first, .. } => {
            assert!(!create_first);
            rpats
        },
        other => panic!("unexpected plan: {:?}", other),
    };
    let full = matching_file_list(&listing, &rpats[0]).unwrap();
    let actions = download_hw_actions(&full, 3, "out");
    assert_eq!(actions.len(), 2);

    let mut policy = OverwritePolicy::Ask;
    let mut transferred = Vec::new();
    let mut had_warning = false;
    for action in &actions {
        // Only out/src/lab.c already exists on disk in this scenario.
        let already_exists = action.local_path == "out/src/lab.c";
        let proceed = if action.check_overwrite && already_exists {
            match policy.precheck(action.local_path.as_str()) {
                PolicyDecision::Proceed => true,
                PolicyDecision::Refuse(_) => {
                    had_warning = true;
                    false
                },
                PolicyDecision::AskUser => {
                    let answer = PromptAnswer::No;
                    matches!(policy.apply_answer(answer), PromptOutcome::Overwrite)
                },
            }
        } else {
            true
        };
        if proceed {
            transferred.push(action.name.clone());
        }
    }
    assert_eq!(transferred, vec![String::from("tests.txt")]);
    assert!(!had_warning);
    assert_eq!(exit_code(false, had_warning), 0);
}

#[test]
fn pattern_download_into_directory_keeps_names_flat() {
    let listing = vec![
        meta(3, "alpha.c", FilePurpose::Source),
        meta(3, "beta.c", FilePurpose::Source),
        meta(3, "notes.txt", FilePurpose::Source),
    ];
    let matches = nonempty_matching_file_list(&listing, &rpat(3, "*.c")).unwrap();
    let actions = dir_download_actions(&matches, 3, "out");
    assert_eq!(actions.len(), 2);
    assert_eq!(actions[0].local_path, "out/alpha.c");
    assert!(actions[0].mkdir.is_none());
    assert_eq!(actions[1].local_path, "out/beta.c");
}

#[test]
fn single_file_download_resolves_exactly_one() {
    let listing = vec![
        meta(3, "alpha.c", FilePurpose::Source),
        meta(3, "notes.txt", FilePurpose::Source),
    ];
    let found = one_matching_file(&listing, &rpat(3, "*.txt")).unwrap();
    assert_eq!(found.name, "notes.txt");
    let action = single_file_action(3, &found, "local.txt", true);
    assert_eq!(action.local_path, "local.txt");
    assert_eq!(action.uri, "/api/submissions/3/files/notes.txt");

    let err = one_matching_file(&listing, &rpat(3, "*.rs")).unwrap_err();
    assert!(matches!(err.kind, ErrorKind::NoSuchRemoteFile(_)));
    let err = one_matching_file(&listing, &rpat(3, "*")).unwrap_err();
    assert!(matches!(err.kind, ErrorKind::MultipleSourcesOneDestination));
}

#[test]
fn base_filename_reads_the_final_component() {
    assert_eq!(base_filename("dir/file.c").unwrap(), "file.c");
    assert_eq!(base_filename("file.c").unwrap(), "file.c");
    // Trailing separators and lone dot components are ignored, as
    // std::path::Path::file_name reads them.
    assert_eq!(base_filename("dir/").unwrap(), "dir");
    assert_eq!(base_filename("x/.").unwrap(), "x");
    assert_eq!(base_filename("x/./").unwrap(), "x");
    assert_eq!(base_filename("a/../b").unwrap(), "b");
}

#[test]
fn base_filename_rejects_pathless_arguments() {
    assert!(matches!(base_filename("/").unwrap_err().kind, ErrorKind::BadLocalPath(_)));
    assert!(matches!(base_filename(".").unwrap_err().kind, ErrorKind::BadLocalPath(_)));
    assert!(matches!(base_filename("./").unwrap_err().kind, ErrorKind::BadLocalPath(_)));
    assert!(matches!(base_filename("..").unwrap_err().kind, ErrorKind::BadLocalPath(_)));
    assert!(matches!(
        base_filename("a/..").unwrap_err().kind,
        ErrorKind::BadLocalPath(_)
    ));
    assert!(matches!(base_filename("").unwrap_err().kind, ErrorKind::BadLocalPath(_)));
}

#[test]
fn mv_plans() {
    let source = meta(3, "old.c", FilePurpose::Source);

    let same = RemoteDestination { hw: Some(3), name: String::from("old.c") };
    assert_eq!(plan_mv(&source, &same), MvPlan::Identical);

    let renamed = RemoteDestination { hw: None, name: String::from("new.c") };
    match plan_mv(&source, &renamed) {
        MvPlan::Move { dst, message } => {
            assert_eq!((dst.hw, dst.name.as_str()), (3, "new.c"));
            assert_eq!(message.hw, None);
            assert_eq!(message.name.as_deref(), Some("new.c"));
            assert!(!message.overwrite);
        },
        other => panic!("unexpected plan: {:?}", other),
    }

    let moved = RemoteDestination { hw: Some(5), name: String::new() };
    match plan_mv(&source, &moved) {
        MvPlan::Move { dst, message } => {
            assert_eq!((dst.hw, dst.name.as_str()), (5, "old.c"));
            assert_eq!(message.hw, Some(5));
            assert_eq!(message.name, None);
        },
        other => panic!("unexpected plan: {:?}", other),
    }
}

#[test]
fn config_purpose_files_under_the_current_directory() {
    let listing = vec![meta(3, "settings.yml", FilePurpose::Config)];
    let actions = download_hw_actions(&listing, 3, "out");
    assert_eq!(actions.len(), 1);
    assert_eq!(actions[0].mkdir.as_deref(), Some("out/."));
    assert_eq!(actions[0].local_path, "out/./settings.yml");
}

#[test]
fn exit_codes_follow_the_contract() {
    assert_eq!(exit_code(true, false), 1);
    assert_eq!(exit_code(true, true), 1);
    assert_eq!(exit_code(false, true), 2);
    assert_eq!(exit_code(false, false), 0);
}

#[test]
fn percent_encoding_of_upload_names() {
    assert_eq!(gsc_client::encode::encoded_upload_name("plain.c"), "plain.c");
    assert_eq!(gsc_client::encode::encoded_upload_name("a b/c%"), "a%20b%2Fc%25");
    assert_eq!(gsc_client::encode::encoded_upload_name("x+y?z"), "x%2By%3Fz");
    // Non-ASCII characters are escaped byte by byte of their UTF-8 form.
    assert_eq!(gsc_client::encode::encoded_upload_name("u\u{00FC}.c"), "u%C3%BC.c");
    assert_eq!(gsc_client::encode::encoded_upload_name("\u{20AC}"), "%E2%82%AC");
    assert_eq!(gsc_client::encode::encoded_upload_name("\u{1F600}"), "%F0%9F%98%80");
}
