use sonetto::confgen::publish::{
    peer_name, Dir, FsAction, FsEvent, GenerateError, PublishFailure, PublishState,
    PREVIOUS_SUFFIX, STAGING_SUFFIX,
};
use sonetto::confgen::tables::{
    check_payload, classify_entry, missing_tables, record_table, str_less, EntryAction,
    TableError, TablePayload,
};

/// A file system of three directories, with injected rename and removal
/// failures counted from 1, as the generator's own tests inject them.
struct SimFs {
    output: Option<&'static str>,
    staging: Option<&'static str>,
    previous: Option<&'static str>,
    renames: usize,
    removes: usize,
    fail_renames: Vec<usize>,
    fail_removes: Vec<usize>,
    actions: usize,
}

impl SimFs {
    fn new(
        output: Option<&'static str>,
        previous: Option<&'static str>,
        fail_renames: &[usize],
        fail_removes: &[usize],
    ) -> Self {
        SimFs {
            output,
            staging: None,
            previous,
            renames: 0,
            removes: 0,
            fail_renames: fail_renames.to_vec(),
            fail_removes: fail_removes.to_vec(),
            actions: 0,
        }
    }

    fn slot(&mut self, dir: Dir) -> &mut Option<&'static str> {
        match dir {
            Dir::Output => &mut self.output,
            Dir::Staging => &mut self.staging,
            Dir::Previous => &mut self.previous,
        }
    }

    fn failed(message: String) -> FsEvent {
        FsEvent::Failed {
            message,
            not_found: false,
        }
    }

    fn perform(&mut self, action: FsAction) -> FsEvent {
        self.actions += 1;
        match action {
            FsAction::CreateStaging => {
                if self.staging.is_some() {
                    return Self::failed("File exists".to_string());
                }
                self.staging = Some("new");
                FsEvent::Done
            }
            FsAction::WriteModules => FsEvent::Done,
            FsAction::Probe => FsEvent::Probed {
                output: self.output.is_some(),
                previous: self.previous.is_some(),
            },
            FsAction::Rename { from, to } => {
                self.renames += 1;
                if self.fail_renames.contains(&self.renames) {
                    return Self::failed(format!("injected rename failure {}", self.renames));
                }
                if self.slot(to).is_some() {
                    return Self::failed("Directory not empty".to_string());
                }
                match self.slot(from).take() {
                    Some(content) => {
                        *self.slot(to) = Some(content);
                        FsEvent::Done
                    }
                    None => Self::failed("No such file or directory".to_string()),
                }
            }
            FsAction::Remove { dir } => {
                self.removes += 1;
                if self.fail_removes.contains(&self.removes) {
                    return Self::failed(format!("injected remove failure {}", self.removes));
                }
                if self.slot(dir).take().is_none() {
                    return FsEvent::Failed {
                        message: "No such file or directory".to_string(),
                        not_found: true,
                    };
                }
                FsEvent::Done
            }
            FsAction::Finish => FsEvent::Done,
        }
    }

    fn run(&mut self) -> Result<(), GenerateError> {
        let mut state = PublishState::start();
        loop {
            let action = state.next_action();
            if action == FsAction::Finish {
                break;
            }
            let event = self.perform(action);
            state = state.advance(event);
        }
        state.into_result().expect("a finished run")
    }
}

#[test]
fn fresh_output_is_published_without_temporary_directories() {
    let mut fs = SimFs::new(None, None, &[], &[]);
    assert!(fs.run().is_ok());
    assert_eq!(fs.output, Some("new"));
    assert_eq!(fs.staging, None);
    assert_eq!(fs.previous, None);
}

#[test]
fn existing_output_is_replaced_and_its_backup_dropped() {
    let mut fs = SimFs::new(Some("old"), None, &[], &[]);
    assert!(fs.run().is_ok());
    assert_eq!(fs.output, Some("new"));
    assert_eq!(fs.staging, None);
    assert_eq!(fs.previous, None);
}

#[test]
fn first_publish_rename_failure_cleans_owned_staging() {
    let mut fs = SimFs::new(None, None, &[1], &[]);
    let error = fs.run().unwrap_err();
    assert!(matches!(error.failure, PublishFailure::Rename { .. }));
    assert_eq!(error.cleanup, None);
    assert_eq!((fs.output, fs.staging, fs.previous), (None, None, None));
}

#[test]
fn output_to_previous_failure_preserves_old_output_and_cleans_staging() {
    let mut fs = SimFs::new(Some("old"), None, &[1], &[]);
    assert!(fs.run().is_err());
    assert_eq!((fs.output, fs.staging, fs.previous), (Some("old"), None, None));
}

#[test]
fn staging_to_output_failure_rolls_back_old_output() {
    let mut fs = SimFs::new(Some("old"), None, &[2], &[]);
    let error = fs.run().unwrap_err();
    match error.failure {
        PublishFailure::Rename { message } => assert_eq!(message, "injected rename failure 2"),
        other => panic!("unexpected failure {other:?}"),
    }
    assert_eq!((fs.output, fs.staging, fs.previous), (Some("old"), None, None));
}

#[test]
fn rollback_rename_is_retried_before_returning_failure() {
    let mut fs = SimFs::new(Some("old"), None, &[2, 3], &[]);
    assert!(fs.run().is_err());
    assert_eq!((fs.output, fs.staging, fs.previous), (Some("old"), None, None));
}

#[test]
fn failed_rollback_keeps_old_output_as_previous() {
    let mut fs = SimFs::new(Some("old"), None, &[2, 3, 4], &[]);
    let error = fs.run().unwrap_err();
    match &error.failure {
        PublishFailure::RestoreAfterPublish { message, publish } => {
            assert_eq!(message, "injected rename failure 3");
            assert_eq!(publish, "injected rename failure 2");
        }
        other => panic!("unexpected failure {other:?}"),
    }
    assert_eq!((fs.output, fs.staging, fs.previous), (None, None, Some("old")));
    assert_eq!(
        error.message("out.staging", "out.previous"),
        "failed to restore generated output after publish error: injected rename failure 2: injected rename failure 3"
    );
}

#[test]
fn staging_cleanup_remove_is_retried() {
    let mut fs = SimFs::new(Some("old"), None, &[1], &[1]);
    let error = fs.run().unwrap_err();
    assert_eq!(error.cleanup, None);
    assert_eq!((fs.output, fs.staging, fs.previous), (Some("old"), None, None));
}

#[test]
fn staging_cleanup_failing_twice_is_reported() {
    let mut fs = SimFs::new(Some("old"), None, &[1], &[1, 2]);
    let error = fs.run().unwrap_err();
    assert_eq!(error.cleanup.as_deref(), Some("injected remove failure 1"));
    assert_eq!(fs.staging, Some("new"));
    assert_eq!(fs.output, Some("old"));
    assert_eq!(
        error.message("out.staging", "out.previous"),
        "failed to clean generated staging after publish error: injected rename failure 1: failed to remove owned staging out.staging: injected remove failure 1"
    );
}

#[test]
fn previous_to_output_recovery_rename_is_retried() {
    let mut fs = SimFs::new(None, Some("recovered"), &[1], &[]);
    assert!(fs.run().is_ok());
    assert_eq!((fs.output, fs.staging, fs.previous), (Some("new"), None, None));
}

#[test]
fn stale_previous_cleanup_failure_preserves_existing_state() {
    let mut fs = SimFs::new(Some("old"), Some("stale"), &[], &[1, 2]);
    let error = fs.run().unwrap_err();
    match &error.failure {
        PublishFailure::RemoveStaleBackup { message } => {
            assert_eq!(message, "injected remove failure 1")
        }
        other => panic!("unexpected failure {other:?}"),
    }
    assert_eq!((fs.output, fs.staging, fs.previous), (Some("old"), None, Some("stale")));
    assert_eq!(
        error.failure.message("out.staging", "out.previous"),
        "failed to remove stale generated output backup out.previous: injected remove failure 1"
    );
}

#[test]
fn previous_cleanup_failure_keeps_published_output_and_recovers_next_run() {
    let mut fs = SimFs::new(Some("old"), None, &[], &[1, 2]);
    assert!(fs.run().is_ok());
    assert_eq!((fs.output, fs.staging, fs.previous), (Some("new"), None, Some("old")));
    let mut next = SimFs::new(fs.output, fs.previous, &[], &[]);
    assert!(next.run().is_ok());
    assert_eq!((next.output, next.staging, next.previous), (Some("new"), None, None));
}

#[test]
fn occupied_staging_fails_without_changes() {
    let mut fs = SimFs::new(Some("old"), Some("previous"), &[], &[]);
    fs.staging = Some("other run");
    let error = fs.run().unwrap_err();
    assert!(matches!(error.failure, PublishFailure::CreateStaging { .. }));
    assert_eq!(error.cleanup, None);
    assert_eq!(
        (fs.output, fs.staging, fs.previous),
        (Some("old"), Some("other run"), Some("previous"))
    );
    assert_eq!(fs.actions, 1);
}

#[test]
fn recovers_every_output_previous_startup_combination() {
    for output in [None, Some("old")] {
        for previous in [None, Some("previous")] {
            let mut fs = SimFs::new(output, previous, &[], &[]);
            assert!(fs.run().is_ok(), "{output:?} {previous:?}");
            assert_eq!((fs.output, fs.staging, fs.previous), (Some("new"), None, None));
        }
    }
}

#[test]
fn peer_directories_are_named_after_the_output() {
    assert_eq!(peer_name("output", STAGING_SUFFIX), "output.staging");
    assert_eq!(peer_name("output", PREVIOUS_SUFFIX), "output.previous");
}

fn names(v: &[&str]) -> Vec<String> {
    v.iter().map(|s| s.to_string()).collect()
}

#[test]
fn reports_multiple_missing_tables_in_sorted_order() {
    let required = names(&[
        "skill_ex_level",
        "destiny_facets_ex_level",
        "character_attribute",
        "character",
    ]);
    let found = names(&["skill_ex_level", "character"]);
    let missing = missing_tables(&required, &found);
    assert_eq!(missing, names(&["character_attribute", "destiny_facets_ex_level"]));
    assert_eq!(
        TableError::Missing { tables: missing }.message(),
        "missing configured JSON tables: character_attribute, destiny_facets_ex_level"
    );
    assert!(missing_tables(&required, &required).is_empty());
}

#[test]
fn missing_tables_are_listed_once() {
    let required = names(&["b", "a", "b"]);
    assert_eq!(missing_tables(&required, &[]), names(&["a", "b"]));
}

#[test]
fn rejects_malformed_table_shape() {
    let path = "input/character_attribute.json";
    let bad = TablePayload::Array {
        len: 2,
        name: Some("character_attribute".to_string()),
        rows_are_array: false,
    };
    let error = check_payload(path, "character_attribute", &bad).unwrap_err();
    assert_eq!(
        error.message(),
        "input/character_attribute.json must contain [table name, rows] for character_attribute"
    );
    let not_array = check_payload(path, "character_attribute", &TablePayload::NotArray).unwrap_err();
    assert_eq!(
        not_array.message(),
        "input/character_attribute.json must contain [table name, rows]"
    );
    let wrong_name = TablePayload::Array {
        len: 2,
        name: Some("character".to_string()),
        rows_are_array: true,
    };
    assert!(check_payload(path, "character_attribute", &wrong_name).is_err());
    let good = TablePayload::Array {
        len: 2,
        name: Some("character_attribute".to_string()),
        rows_are_array: true,
    };
    assert!(check_payload(path, "character_attribute", &good).is_ok());
}

#[test]
fn tables_are_recorded_sorted_and_once() {
    let mut tables = Vec::new();
    assert!(record_table(&mut tables, "skill_ex_level").is_ok());
    assert!(record_table(&mut tables, "character").is_ok());
    assert!(record_table(&mut tables, "character_attribute").is_ok());
    assert_eq!(tables, names(&["character", "character_attribute", "skill_ex_level"]));
    let error = record_table(&mut tables, "character").unwrap_err();
    assert_eq!(error.message(), "duplicate configured JSON table: character");
    assert_eq!(tables.len(), 3);
}

#[test]
fn only_configured_json_files_are_read() {
    let filter = names(&["character"]);
    assert_eq!(classify_entry(true, Some("json"), Some("character"), &filter), EntryAction::Load);
    assert_eq!(classify_entry(true, Some("json"), Some("monster"), &filter), EntryAction::Skip);
    assert_eq!(classify_entry(true, Some("txt"), Some("character"), &filter), EntryAction::Skip);
    assert_eq!(classify_entry(true, None, Some("character"), &filter), EntryAction::Skip);
    assert_eq!(classify_entry(false, Some("json"), Some("character"), &filter), EntryAction::Skip);
    assert_eq!(classify_entry(true, Some("json"), None, &filter), EntryAction::InvalidName);
}

#[test]
fn table_names_sort_as_strings_do() {
    assert!(str_less("character", "character_attribute"));
    assert!(str_less("a", "b"));
    assert!(!str_less("b", "a"));
    assert!(!str_less("same", "same"));
    assert!(str_less("", "a"));
    assert_eq!(str_less("Zeta", "alpha"), "Zeta" < "alpha");
}

#[test]
fn table_files_are_read_as_json_with_their_rows_kept_as_text() {
    let rows = sonetto::confgen::tables::load_table("a/hero.json", "hero", r#"["hero", [{"id": 1}, 2]]"#).unwrap();
    assert_eq!(rows, vec![r#"{"id":1}"#.to_string(), "2".to_string()]);
    assert_eq!(
        sonetto::confgen::tables::load_table("a/hero.json", "hero", "not json").unwrap_err().message(),
        "failed to parse a/hero.json"
    );
    assert_eq!(
        sonetto::confgen::tables::load_table("a/hero.json", "hero", r#"{"hero": []}"#).unwrap_err().message(),
        "a/hero.json must contain [table name, rows]"
    );
    assert_eq!(
        sonetto::confgen::tables::load_table("a/hero.json", "hero", r#"["skin", []]"#).unwrap_err().message(),
        "a/hero.json must contain [table name, rows] for hero"
    );
    assert_eq!(
        sonetto::confgen::tables::load_table("a/hero.json", "hero", r#"["hero", []]"#).unwrap(),
        Vec::<String>::new()
    );
}
