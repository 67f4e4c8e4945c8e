use save_report::{
    report_cloud_changes, Backup, BackupInfo, CloudChange, CloudChangeOutput, DuplicateDetector,
    OperationStepDecision, OperationStatus, Os, Reporter, ScanChange, ScanInfo, ScannedFile,
    ScannedRegistry,
};

fn s(text: &str) -> String {
    text.to_string()
}

fn file(path: &str, size: u64, hash: &str) -> ScannedFile {
    ScannedFile::new(s(path), size, s(hash))
}

#[test]
fn skipping_an_empty_scan_returns_true_and_changes_nothing() {
    let mut reporter = Reporter::standard();
    let before = reporter.render(&s("/dev/null"));
    let ok = reporter.add_game(
        "foo",
        &ScanInfo::default(),
        &BackupInfo::default(),
        &OperationStepDecision::Processed,
        &DuplicateDetector::default(),
    );
    assert!(ok);
    assert_eq!(before, reporter.render(&s("/dev/null")));

    let mut json = Reporter::json();
    let json_before = json.render(&s("/dev/null"));
    let ok = json.add_game(
        "foo",
        &ScanInfo::default(),
        &BackupInfo::default(),
        &OperationStepDecision::Processed,
        &DuplicateDetector::default(),
    );
    assert!(ok);
    assert_eq!(json_before, json.render(&s("/dev/null")));
}

#[test]
fn a_failed_entry_flips_the_result_and_sets_the_concern() {
    let mut reporter = Reporter::json();
    let ok = reporter.add_game(
        "foo",
        &ScanInfo {
            game_name: s("foo"),
            found_files: vec![file("/file1", 102_400, "1"), file("/file2", 51_200, "2")],
            found_registry_keys: vec![
                ScannedRegistry::new(s("HKEY_CURRENT_USER/Key1")),
                ScannedRegistry::new(s("HKEY_CURRENT_USER/Key2")).with_value_same(s("Value1")),
            ],
        },
        &BackupInfo {
            failed_files: vec![file("/file2", 51_200, "2")],
            failed_registry: vec![s("HKEY_CURRENT_USER/Key1")],
        },
        &OperationStepDecision::Processed,
        &DuplicateDetector::default(),
    );
    assert!(!ok);
    let rendered = reporter.render(&s("/dev/null"));
    let expected = r#"{
  "errors": {
    "someGamesFailed": true
  },
  "overall": {
    "totalGames": 1,
    "totalBytes": 153600,
    "processedGames": 1,
    "processedBytes": 102400,
    "changedGames": {
      "new": 0,
      "different": 0,
      "same": 1
    }
  },
  "games": {
    "foo": {
      "decision": "Processed",
      "change": "Same",
      "files": {
        "/file1": {
          "change": "Unknown",
          "bytes": 102400
        },
        "/file2": {
          "failed": true,
          "change": "Unknown",
          "bytes": 51200
        }
      },
      "registry": {
        "HKEY_CURRENT_USER/Key1": {
          "failed": true,
          "change": "Unknown"
        },
        "HKEY_CURRENT_USER/Key2": {
          "change": "Unknown",
          "values": {
            "Value1": {
              "change": "Same"
            }
          }
        }
      }
    }
  }
}"#;
    assert_eq!(expected, rendered);
}

#[test]
fn found_titles_render_as_lines_and_markers() {
    let mut reporter = Reporter::standard();
    // The listing is a set: order and repetition of the input do not matter.
    reporter.add_found_titles(&vec![s("Y"), s("X"), s("X")]);
    assert_eq!(
        "X\nY\nOverall:\n  Games: 0\n  Size: 0 B\n  Location: /dev/null",
        reporter.render(&s("/dev/null"))
    );

    let mut json = Reporter::json();
    json.add_found_titles(&vec![s("Y"), s("X"), s("X")]);
    let expected = r#"{
  "overall": {
    "totalGames": 0,
    "totalBytes": 0,
    "processedGames": 0,
    "processedBytes": 0,
    "changedGames": {
      "new": 0,
      "different": 0,
      "same": 0
    }
  },
  "games": {
    "X": {},
    "Y": {}
  }
}"#;
    assert_eq!(expected, json.render(&s("/dev/null")));
}

#[test]
fn redirects_surface_as_exactly_one_path_field() {
    // Restoring through a redirect: the alternate path is the original one.
    let mut restore = Reporter::json();
    restore.add_game(
        "foo",
        &ScanInfo {
            game_name: s("foo"),
            found_files: vec![ScannedFile {
                path: s("/backup/f"),
                size: 1,
                hash: s("1"),
                original_path: Some(s("/orig/f")),
                ignored: false,
                change: ScanChange::Same,
                redirected: Some(s("/redir/f")),
            }],
            found_registry_keys: vec![],
        },
        &BackupInfo::default(),
        &OperationStepDecision::Processed,
        &DuplicateDetector::default(),
    );
    let rendered = restore.render(&s("/dev/null"));
    assert!(rendered.contains("\"/redir/f\""));
    assert!(rendered.contains("\"originalPath\": \"/orig/f\""));
    assert!(!rendered.contains("redirectedPath"));

    // Backing up through a redirect: the alternate path is the target.
    let mut backup = Reporter::json();
    backup.add_game(
        "foo",
        &ScanInfo {
            game_name: s("foo"),
            found_files: vec![ScannedFile {
                path: s("/f"),
                size: 1,
                hash: s("1"),
                original_path: None,
                ignored: false,
                change: ScanChange::Same,
                redirected: Some(s("/r")),
            }],
            found_registry_keys: vec![],
        },
        &BackupInfo::default(),
        &OperationStepDecision::Processed,
        &DuplicateDetector::default(),
    );
    let rendered = backup.render(&s("/dev/null"));
    assert!(rendered.contains("\"/f\""));
    assert!(rendered.contains("\"redirectedPath\": \"/r\""));
    assert!(!rendered.contains("originalPath"));
}

#[test]
fn stored_backups_render_with_raw_utc_timestamps() {
    let mut reporter = Reporter::json();
    reporter.add_backups(
        "foo",
        &vec![
            Backup {
                name: s("b1"),
                year: 2023,
                month: 1,
                day: 2,
                hour: 3,
                minute: 4,
                second: 5,
                os: Some(Os::Windows),
                comment: Some(s("note")),
                locked: true,
            },
            Backup {
                name: s("b2"),
                year: 2024,
                month: 12,
                day: 31,
                hour: 23,
                minute: 59,
                second: 58,
                os: None,
                comment: None,
                locked: false,
            },
        ],
    );
    let expected = r#"{
  "overall": {
    "totalGames": 0,
    "totalBytes": 0,
    "processedGames": 0,
    "processedBytes": 0,
    "changedGames": {
      "new": 0,
      "different": 0,
      "same": 0
    }
  },
  "games": {
    "foo": {
      "backups": [
        {
          "name": "b1",
          "when": "2023-01-02T03:04:05Z",
          "os": "Windows",
          "comment": "note",
          "locked": true
        },
        {
          "name": "b2",
          "when": "2024-12-31T23:59:58Z",
          "locked": false
        }
      ]
    }
  }
}"#;
    assert_eq!(expected, reporter.render(&s("/dev/null")));
}

#[test]
fn locked_backups_carry_the_padlock_marker() {
    let mut reporter = Reporter::standard();
    reporter.add_backups(
        "foo",
        &vec![Backup {
            name: s("b1"),
            year: 2023,
            month: 1,
            day: 2,
            hour: 3,
            minute: 4,
            second: 5,
            os: None,
            comment: None,
            locked: true,
        }],
    );
    let rendered = reporter.render(&s("/dev/null"));
    assert!(rendered.contains("foo:"));
    assert!(rendered.contains("  - \"b1\" ("));
    assert!(rendered.contains(" [\u{1f512}]"));
}

#[test]
fn empty_backup_list_changes_nothing() {
    let mut reporter = Reporter::json();
    let before = reporter.render(&s("/dev/null"));
    reporter.add_backups("foo", &vec![]);
    assert_eq!(before, reporter.render(&s("/dev/null")));
}

#[test]
fn suppressing_the_overall_block_omits_it() {
    let mut standard = Reporter::standard();
    standard.suppress_overall();
    standard.add_found_titles(&vec![s("X")]);
    assert_eq!("X", standard.render(&s("/dev/null")));

    let mut json = Reporter::json();
    json.suppress_overall();
    assert_eq!("{\n  \"games\": {}\n}", json.render(&s("/dev/null")));
}

#[test]
fn tripped_concerns_render_in_fixed_order() {
    let mut standard = Reporter::standard();
    standard.trip_cloud_sync_failed();
    standard.trip_cloud_conflict();
    // Tripping a concern again has no further effect.
    standard.trip_cloud_conflict();
    let rendered = standard.render(&s("/dev/null"));
    let expected = "\nOverall:\n  Games: 0\n  Size: 0 B\n  Location: /dev/null\n\n[WARNING] Your local and cloud backups are in conflict. Perform an upload or download to resolve it.\n\n[WARNING] Unable to synchronize with the cloud.";
    assert_eq!(expected, rendered);

    let mut json = Reporter::json();
    json.trip_unknown_games(vec![s("mystery")]);
    json.trip_cloud_conflict();
    json.trip_cloud_sync_failed();
    json.suppress_overall();
    let expected = r#"{
  "errors": {
    "unknownGames": [
      "mystery"
    ],
    "cloudConflict": {},
    "cloudSyncFailed": {}
  },
  "games": {}
}"#;
    assert_eq!(expected, json.render(&s("/dev/null")));
}

#[test]
fn warning_messages_follow_the_set_concerns() {
    let errors = save_report::ApiErrors::default();
    assert!(errors.messages().is_empty());

    let errors = save_report::ApiErrors {
        some_games_failed: Some(true),
        unknown_games: Some(vec![s("x")]),
        cloud_conflict: Some(save_report::CloudConflict {}),
        cloud_sync_failed: None,
    };
    let messages = errors.messages();
    assert_eq!(1, messages.len());
    assert!(messages[0].starts_with("[WARNING]"));
}

#[test]
fn json_strings_are_escaped() {
    let mut reporter = Reporter::json();
    reporter.add_found_titles(&vec![s("a\"b\\c\nd")]);
    reporter.suppress_overall();
    assert_eq!(
        "{\n  \"games\": {\n    \"a\\\"b\\\\c\\nd\": {}\n  }\n}",
        reporter.render(&s("/dev/null"))
    );
}

#[test]
fn sizes_use_binary_units() {
    let mut reporter = Reporter::standard();
    reporter.add_game(
        "foo",
        &ScanInfo {
            game_name: s("foo"),
            found_files: vec![file("/f", 1024, "1")],
            found_registry_keys: vec![],
        },
        &BackupInfo::default(),
        &OperationStepDecision::Processed,
        &DuplicateDetector::default(),
    );
    let rendered = reporter.render(&s("/dev/null"));
    assert!(rendered.contains("foo [1.00 KiB]:"));

    let mut reporter = Reporter::standard();
    reporter.add_game(
        "foo",
        &ScanInfo {
            game_name: s("foo"),
            found_files: vec![file("/f", 1023, "1")],
            found_registry_keys: vec![],
        },
        &BackupInfo::default(),
        &OperationStepDecision::Processed,
        &DuplicateDetector::default(),
    );
    let rendered = reporter.render(&s("/dev/null"));
    assert!(rendered.contains("foo [1023 B]:"));
}

#[test]
fn ignored_games_carry_a_marker() {
    let mut reporter = Reporter::standard();
    reporter.add_game(
        "foo",
        &ScanInfo {
            game_name: s("foo"),
            found_files: vec![file("/f", 1, "1")],
            found_registry_keys: vec![],
        },
        &BackupInfo::default(),
        &OperationStepDecision::Ignored,
        &DuplicateDetector::default(),
    );
    let rendered = reporter.render(&s("/dev/null"));
    assert!(rendered.contains("foo [1 B] [IGNORED]:"));
}

#[test]
fn cloud_changes_render_sorted_by_change_then_path() {
    let changes = vec![
        CloudChange { path: s("/b"), change: ScanChange::Different },
        CloudChange { path: s("/a"), change: ScanChange::New },
        CloudChange { path: s("/c"), change: ScanChange::New },
    ];
    match report_cloud_changes(&changes, false) {
        CloudChangeOutput::Lines { lines } => {
            assert_eq!(vec![s("[+] /a"), s("[+] /c"), s("[\u{0394}] /b")], lines);
        },
        _ => panic!("expected console lines"),
    }
}

#[test]
fn cloud_changes_render_a_message_when_empty() {
    match report_cloud_changes(&vec![], false) {
        CloudChangeOutput::NoChanges { message } => {
            assert_eq!("No cloud changes.", message);
        },
        _ => panic!("expected the no-changes message"),
    }
}

#[test]
fn cloud_changes_render_a_document_in_api_mode() {
    let changes = vec![
        CloudChange { path: s("/b"), change: ScanChange::Different },
        CloudChange { path: s("/a"), change: ScanChange::New },
    ];
    match report_cloud_changes(&changes, true) {
        CloudChangeOutput::Structured { document } => {
            let expected = r#"{
  "cloud": {
    "/a": {
      "change": "New"
    },
    "/b": {
      "change": "Different"
    }
  }
}"#;
            assert_eq!(expected, document);
        },
        _ => panic!("expected a structured document"),
    }
}

#[test]
fn a_later_entry_for_a_name_replaces_the_earlier_one() {
    let mut reporter = Reporter::json();
    reporter.suppress_overall();
    reporter.add_found_titles(&vec![s("foo")]);
    reporter.add_game(
        "foo",
        &ScanInfo {
            game_name: s("foo"),
            found_files: vec![file("/f", 1, "1")],
            found_registry_keys: vec![],
        },
        &BackupInfo::default(),
        &OperationStepDecision::Processed,
        &DuplicateDetector::default(),
    );
    let rendered = reporter.render(&s("/dev/null"));
    assert!(rendered.contains("\"decision\": \"Processed\""));
    assert!(!rendered.contains("\"foo\": {}"));
}

#[test]
fn totals_fold_one_game_at_a_time() {
    let scan = ScanInfo {
        game_name: s("foo"),
        found_files: vec![file("/a", 100, "1").change_as(ScanChange::New), file("/b", 50, "2").change_as(ScanChange::New)],
        found_registry_keys: vec![],
    };
    let backup = BackupInfo { failed_files: vec![file("/b", 50, "2").change_as(ScanChange::New)], failed_registry: vec![] };
    let mut status = OperationStatus::new();
    status.add_game(&scan, Some(&backup), true);
    assert_eq!(1, status.total_games);
    assert_eq!(150, status.total_bytes);
    assert_eq!(1, status.processed_games);
    assert_eq!(100, status.processed_bytes);
    assert_eq!(1, status.changed_games.new);
    assert_eq!(0, status.changed_games.different);
    assert_eq!(0, status.changed_games.same);
    status.add_game(&scan, None, false);
    assert_eq!(2, status.total_games);
    assert_eq!(300, status.total_bytes);
    assert_eq!(1, status.processed_games);
    assert_eq!(100, status.processed_bytes);
    assert!(status.processed_bytes <= status.total_bytes);
}

#[test]
fn duplicate_queries_follow_the_shared_entries() {
    let mut det = DuplicateDetector::default();
    det.add_game(
        &ScanInfo {
            game_name: s("foo"),
            found_files: vec![file("/shared", 1, "1")],
            found_registry_keys: vec![],
        },
        true,
    );
    assert!(det.is_file_duplicated(&file("/shared", 1, "1")).resolved());
    assert!(det.is_game_duplicated(&s("foo")).resolved());
    det.add_game(
        &ScanInfo {
            game_name: s("bar"),
            found_files: vec![file("/shared", 1, "1")],
            found_registry_keys: vec![],
        },
        true,
    );
    assert!(!det.is_file_duplicated(&file("/shared", 1, "1")).resolved());
    assert!(!det.is_game_duplicated(&s("foo")).resolved());
    let sharers = det.file(&file("/shared", 1, "1"));
    assert_eq!(vec![s("foo"), s("bar")], sharers);
    // Disabling one sharer resolves the conflict without removing it.
    det.add_game(
        &ScanInfo {
            game_name: s("bar"),
            found_files: vec![file("/shared", 1, "1")],
            found_registry_keys: vec![],
        },
        false,
    );
    assert!(det.is_file_duplicated(&file("/shared", 1, "1")).resolved());
}
