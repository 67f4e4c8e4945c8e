use save_report::{
    BackupInfo, DuplicateDetector, OperationStepDecision, Reporter, ScanChange, ScanInfo,
    ScannedFile, ScannedRegistry,
};

fn s(text: &str) -> String {
    text.to_string()
}

fn file(path: &str, size: u64, hash: &str) -> ScannedFile {
    ScannedFile::new(s(path), size, s(hash))
}

#[test]
fn can_render_in_standard_mode_with_minimal_input() {
    let mut reporter = Reporter::standard();
    reporter.add_game(
        "foo",
        &ScanInfo::default(),
        &BackupInfo::default(),
        &OperationStepDecision::Processed,
        &DuplicateDetector::default(),
    );
    assert_eq!(
        "\nOverall:\n  Games: 0\n  Size: 0 B\n  Location: /dev/null",
        reporter.render(&s("/dev/null"))
    );
}

#[test]
fn can_render_in_standard_mode_with_one_game_in_backup_mode() {
    let mut reporter = Reporter::standard();
    reporter.add_game(
        "foo",
        &ScanInfo {
            game_name: s("foo"),
            found_files: vec![file("/file1", 102_400, "1"), file("/file2", 51_200, "2")],
            found_registry_keys: vec![
                ScannedRegistry::new(s("HKEY_CURRENT_USER/Key1")),
                ScannedRegistry::new(s("HKEY_CURRENT_USER/Key2")),
                ScannedRegistry::new(s("HKEY_CURRENT_USER/Key3")).with_value_same(s("Value1")),
            ],
        },
        &BackupInfo {
            failed_files: vec![file("/file2", 51_200, "2")],
            failed_registry: vec![s("HKEY_CURRENT_USER/Key1")],
        },
        &OperationStepDecision::Processed,
        &DuplicateDetector::default(),
    );
    let expected = "foo [100.00 KiB]:\n  - /file1\n  - [FAILED] /file2\n  - [FAILED] HKEY_CURRENT_USER/Key1\n  - HKEY_CURRENT_USER/Key2\n  - HKEY_CURRENT_USER/Key3\n    - Value1\n\nOverall:\n  Games: 1\n  Size: 100.00 KiB / 150.00 KiB\n  Location: /dev/null";
    assert_eq!(expected, reporter.render(&s("/dev/null")));
}

#[test]
fn can_render_in_standard_mode_with_multiple_games_in_backup_mode() {
    let mut reporter = Reporter::standard();
    reporter.add_game(
        "foo",
        &ScanInfo {
            game_name: s("foo"),
            found_files: vec![file("/file1", 1, "1").change_as(ScanChange::Same)],
            found_registry_keys: vec![],
        },
        &BackupInfo::default(),
        &OperationStepDecision::Processed,
        &DuplicateDetector::default(),
    );
    reporter.add_game(
        "bar",
        &ScanInfo {
            game_name: s("bar"),
            found_files: vec![file("/file2", 3, "2")],
            found_registry_keys: vec![],
        },
        &BackupInfo::default(),
        &OperationStepDecision::Processed,
        &DuplicateDetector::default(),
    );
    let expected = "foo [1 B]:\n  - /file1\n\nbar [3 B]:\n  - /file2\n\nOverall:\n  Games: 2\n  Size: 4 B\n  Location: /dev/null";
    assert_eq!(expected, reporter.render(&s("/dev/null")));
}

#[test]
fn can_render_in_standard_mode_with_one_game_in_restore_mode() {
    let mut reporter = Reporter::standard();
    reporter.add_game(
        "foo",
        &ScanInfo {
            game_name: s("foo"),
            found_files: vec![
                ScannedFile {
                    path: s("/backup/file1"),
                    size: 102_400,
                    hash: s("1"),
                    original_path: Some(s("/original/file1")),
                    ignored: false,
                    change: ScanChange::Unknown,
                    redirected: None,
                },
                ScannedFile {
                    path: s("/backup/file2"),
                    size: 51_200,
                    hash: s("2"),
                    original_path: Some(s("/original/file2")),
                    ignored: false,
                    change: ScanChange::Unknown,
                    redirected: None,
                },
            ],
            found_registry_keys: vec![],
        },
        &BackupInfo::default(),
        &OperationStepDecision::Processed,
        &DuplicateDetector::default(),
    );
    let expected = "foo [150.00 KiB]:\n  - /original/file1\n  - /original/file2\n\nOverall:\n  Games: 1\n  Size: 150.00 KiB\n  Location: /dev/null";
    assert_eq!(expected, reporter.render(&s("/dev/null")));
}

#[test]
fn can_render_in_standard_mode_with_duplicated_entries() {
    let mut reporter = Reporter::standard();

    let mut duplicate_detector = DuplicateDetector::default();
    for name in &["foo", "bar"] {
        duplicate_detector.add_game(
            &ScanInfo {
                game_name: s(name),
                found_files: vec![file("/file1", 102_400, "1").change_as(ScanChange::New)],
                found_registry_keys: vec![
                    ScannedRegistry::new(s("HKEY_CURRENT_USER/Key1")).change_as(ScanChange::New),
                ],
            },
            true,
        );
    }

    reporter.add_game(
        "foo",
        &ScanInfo {
            game_name: s("foo"),
            found_files: vec![file("/file1", 102_400, "1")],
            found_registry_keys: vec![ScannedRegistry::new(s("HKEY_CURRENT_USER/Key1"))],
        },
        &BackupInfo::default(),
        &OperationStepDecision::Processed,
        &duplicate_detector,
    );
    let expected = "foo [100.00 KiB] [DUPLICATES]:\n  - [DUPLICATED] /file1\n  - [DUPLICATED] HKEY_CURRENT_USER/Key1\n\nOverall:\n  Games: 1\n  Size: 100.00 KiB\n  Location: /dev/null";
    assert_eq!(expected, reporter.render(&s("/dev/null")));
}

#[test]
fn can_render_in_standard_mode_with_different_file_changes() {
    let mut reporter = Reporter::standard();
    reporter.add_game(
        "foo",
        &ScanInfo {
            game_name: s("foo"),
            found_files: vec![
                file("/new", 1, "1").change_as(ScanChange::New),
                file("/different", 1, "1").change_as(ScanChange::Different),
                file("/same", 1, "1").change_as(ScanChange::Same),
                file("/unknown", 1, "1").change_as(ScanChange::Unknown),
            ],
            found_registry_keys: vec![],
        },
        &BackupInfo::default(),
        &OperationStepDecision::Processed,
        &DuplicateDetector::default(),
    );
    reporter.add_game(
        "bar",
        &ScanInfo {
            game_name: s("bar"),
            found_files: vec![file("/brand-new", 1, "1").change_as(ScanChange::New)],
            found_registry_keys: vec![],
        },
        &BackupInfo::default(),
        &OperationStepDecision::Processed,
        &DuplicateDetector::default(),
    );
    let expected = "foo [4 B] [\u{0394}]:\n  - [\u{0394}] /different\n  - [+] /new\n  - /same\n  - /unknown\n\nbar [1 B] [+]:\n  - [+] /brand-new\n\nOverall:\n  Games: 2 [+1] [\u{0394}1]\n  Size: 5 B\n  Location: /dev/null";
    assert_eq!(expected, reporter.render(&s("/dev/null")));
}

#[test]
fn can_render_in_json_mode_with_minimal_input() {
    let mut reporter = Reporter::json();
    reporter.add_game(
        "foo",
        &ScanInfo::default(),
        &BackupInfo::default(),
        &OperationStepDecision::Processed,
        &DuplicateDetector::default(),
    );
    let expected = r#"{
  "overall": {
    "totalGames": 0,
    "totalBytes": 0,
    "processedGames": 0,
    "processedBytes": 0,
    "changedGames": {
      "new": 0,
      "different": 0,
      "same": 0
    }
  },
  "games": {}
}"#;
    assert_eq!(expected, reporter.render(&s("/dev/null")));
}

#[test]
fn can_render_in_json_mode_with_one_game_in_backup_mode() {
    let mut reporter = Reporter::json();
    reporter.add_game(
        "foo",
        &ScanInfo {
            game_name: s("foo"),
            found_files: vec![file("/file1", 100, "1"), file("/file2", 50, "2")],
            found_registry_keys: vec![
                ScannedRegistry::new(s("HKEY_CURRENT_USER/Key1")),
                ScannedRegistry::new(s("HKEY_CURRENT_USER/Key2")),
                ScannedRegistry::new(s("HKEY_CURRENT_USER/Key3")).with_value_same(s("Value1")),
            ],
        },
        &BackupInfo {
            failed_files: vec![file("/file2", 50, "2")],
            failed_registry: vec![s("HKEY_CURRENT_USER/Key1")],
        },
        &OperationStepDecision::Processed,
        &DuplicateDetector::default(),
    );
    let expected = r#"{
  "errors": {
    "someGamesFailed": true
  },
  "overall": {
    "totalGames": 1,
    "totalBytes": 150,
    "processedGames": 1,
    "processedBytes": 100,
    "changedGames": {
      "new": 0,
      "different": 0,
      "same": 1
    }
  },
  "games": {
    "foo": {
      "decision": "Processed",
      "change": "Same",
      "files": {
        "/file1": {
          "change": "Unknown",
          "bytes": 100
        },
        "/file2": {
          "failed": true,
          "change": "Unknown",
          "bytes": 50
        }
      },
      "registry": {
        "HKEY_CURRENT_USER/Key1": {
          "failed": true,
          "change": "Unknown"
        },
        "HKEY_CURRENT_USER/Key2": {
          "change": "Unknown"
        },
        "HKEY_CURRENT_USER/Key3": {
          "change": "Unknown",
          "values": {
            "Value1": {
              "change": "Same"
            }
          }
        }
      }
    }
  }
}"#;
    assert_eq!(expected, reporter.render(&s("/dev/null")));
}

#[test]
fn can_render_in_json_mode_with_one_game_in_restore_mode() {
    let mut reporter = Reporter::json();
    reporter.add_game(
        "foo",
        &ScanInfo {
            game_name: s("foo"),
            found_files: vec![
                ScannedFile {
                    path: s("/backup/file1"),
                    size: 100,
                    hash: s("1"),
                    original_path: Some(s("/original/file1")),
                    ignored: false,
                    change: ScanChange::Unknown,
                    redirected: None,
                },
                ScannedFile {
                    path: s("/backup/file2"),
                    size: 50,
                    hash: s("2"),
                    original_path: Some(s("/original/file2")),
                    ignored: false,
                    change: ScanChange::Unknown,
                    redirected: None,
                },
            ],
            found_registry_keys: vec![],
        },
        &BackupInfo::default(),
        &OperationStepDecision::Processed,
        &DuplicateDetector::default(),
    );
    let expected = r#"{
  "overall": {
    "totalGames": 1,
    "totalBytes": 150,
    "processedGames": 1,
    "processedBytes": 150,
    "changedGames": {
      "new": 0,
      "different": 0,
      "same": 1
    }
  },
  "games": {
    "foo": {
      "decision": "Processed",
      "change": "Same",
      "files": {
        "/original/file1": {
          "change": "Unknown",
          "bytes": 100
        },
        "/original/file2": {
          "change": "Unknown",
          "bytes": 50
        }
      },
      "registry": {}
    }
  }
}"#;
    assert_eq!(expected, reporter.render(&s("/dev/null")));
}

#[test]
fn can_render_in_json_mode_with_duplicated_entries() {
    let mut reporter = Reporter::json();

    let mut duplicate_detector = DuplicateDetector::default();
    for name in &["foo", "bar"] {
        duplicate_detector.add_game(
            &ScanInfo {
                game_name: s(name),
                found_files: vec![file("/file1", 102_400, "1")],
                found_registry_keys: vec![ScannedRegistry::new(s("HKEY_CURRENT_USER/Key1"))],
            },
            true,
        );
    }

    reporter.add_game(
        "foo",
        &ScanInfo {
            game_name: s("foo"),
            found_files: vec![file("/file1", 100, "2")],
            found_registry_keys: vec![ScannedRegistry::new(s("HKEY_CURRENT_USER/Key1"))],
        },
        &BackupInfo::default(),
        &OperationStepDecision::Processed,
        &duplicate_detector,
    );
    let expected = r#"{
  "overall": {
    "totalGames": 1,
    "totalBytes": 100,
    "processedGames": 1,
    "processedBytes": 100,
    "changedGames": {
      "new": 0,
      "different": 0,
      "same": 1
    }
  },
  "games": {
    "foo": {
      "decision": "Processed",
      "change": "Same",
      "files": {
        "/file1": {
          "change": "Unknown",
          "bytes": 100,
          "duplicatedBy": [
            "bar"
          ]
        }
      },
      "registry": {
        "HKEY_CURRENT_USER/Key1": {
          "change": "Unknown",
          "duplicatedBy": [
            "bar"
          ]
        }
      }
    }
  }
}"#;
    assert_eq!(expected, reporter.render(&s("/dev/null")));
}

#[test]
fn can_render_in_json_mode_with_different_file_changes() {
    let mut reporter = Reporter::json();
    reporter.add_game(
        "foo",
        &ScanInfo {
            game_name: s("foo"),
            found_files: vec![
                file("/new", 1, "1").change_as(ScanChange::New),
                file("/different", 1, "2").change_as(ScanChange::Different),
                file("/same", 1, "2").change_as(ScanChange::Same),
                file("/unknown", 1, "2").change_as(ScanChange::Unknown),
            ],
            found_registry_keys: vec![],
        },
        &BackupInfo::default(),
        &OperationStepDecision::Processed,
        &DuplicateDetector::default(),
    );
    let expected = r#"{
  "overall": {
    "totalGames": 1,
    "totalBytes": 4,
    "processedGames": 1,
    "processedBytes": 4,
    "changedGames": {
      "new": 0,
      "different": 1,
      "same": 0
    }
  },
  "games": {
    "foo": {
      "decision": "Processed",
      "change": "Different",
      "files": {
        "/different": {
          "change": "Different",
          "bytes": 1
        },
        "/new": {
          "change": "New",
          "bytes": 1
        },
        "/same": {
          "change": "Same",
          "bytes": 1
        },
        "/unknown": {
          "change": "Unknown",
          "bytes": 1
        }
      },
      "registry": {}
    }
  }
}"#;
    assert_eq!(expected, reporter.render(&s("/dev/null")));
}
