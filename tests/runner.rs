use dmt::{
    new_migration, outstanding_migrations, rollback_migrations_of, Action, ConnectionError,
    Event, FileError, MigrationError, MigrationRun, RunMode, RunReport, ScriptKind,
};

/// An in-memory database and migrations directory that answers a run's actions.
struct Fake {
    table: bool,
    ledger: Vec<String>,
    dirs: Vec<String>,
    scripts: Vec<(String, String)>,
    failing_sql: Option<String>,
    attempted: Vec<String>,
    writes: usize,
}

impl Fake {
    fn new(table: bool, ledger: &[&str], dirs: &[&str]) -> Fake {
        let mut scripts = Vec::new();
        for d in dirs {
            scripts.push((format!("{}/up.sql", d), format!("up {}", d)));
            scripts.push((format!("{}/down.sql", d), format!("down {}", d)));
        }
        Fake {
            table,
            ledger: ledger.iter().map(|s| s.to_string()).collect(),
            dirs: dirs.iter().map(|s| s.to_string()).collect(),
            scripts,
            failing_sql: None,
            attempted: Vec::new(),
            writes: 0,
        }
    }

    fn run(&mut self, mut run: MigrationRun) -> Result<RunReport, MigrationError> {
        loop {
            let event = match run.next_action() {
                Action::CheckLedgerTable => Event::LedgerTableChecked(self.table),
                Action::CreateLedgerTable => {
                    self.table = true;
                    self.writes += 1;
                    Event::LedgerTableCreated
                }
                Action::ReadLedger => Event::LedgerRead(self.ledger.clone()),
                Action::ScanDirectory => Event::DirectoryScanned(self.dirs.clone()),
                Action::ReadScript(id, kind) => {
                    let key = format!("{}/{}", id, kind.file_name());
                    match self.scripts.iter().find(|(k, _)| *k == key) {
                        Some((_, sql)) => Event::ScriptRead(sql.clone()),
                        None => Event::FileFailed(FileError::NotFound),
                    }
                }
                Action::ExecuteScript(_, sql) => {
                    self.attempted.push(sql.clone());
                    if self.failing_sql.as_deref() == Some(sql.as_str()) {
                        Event::ConnectionFailed(ConnectionError::PostgresError(
                            "syntax error".to_string(),
                        ))
                    } else {
                        Event::ScriptExecuted
                    }
                }
                Action::RecordMigration(id) => {
                    self.ledger.push(id);
                    self.writes += 1;
                    Event::LedgerUpdated
                }
                Action::RemoveMigration(id) => {
                    self.ledger.retain(|n| *n != id);
                    self.writes += 1;
                    Event::LedgerUpdated
                }
                Action::Finished => return run.outcome().unwrap(),
            };
            run = run.advance(event);
        }
    }
}

fn strings(v: &[&str]) -> Vec<String> {
    v.iter().map(|s| s.to_string()).collect()
}

#[test]
fn scenario_a_apply_records_then_nothing_outstanding() {
    let mut fake = Fake::new(false, &[], &["20240101120000_init"]);
    let report = fake.run(MigrationRun::migrate()).unwrap();
    assert_eq!(report.mode, RunMode::Migrate);
    assert_eq!(report.completed, strings(&["20240101120000_init"]));
    assert_eq!(fake.ledger, strings(&["20240101120000_init"]));
    assert_eq!(fake.attempted, strings(&["up 20240101120000_init"]));
    assert!(outstanding_migrations(&fake.dirs, &fake.ledger).is_empty());
}

#[test]
fn scenario_b_rollback_runs_down_and_empties_ledger() {
    let mut fake = Fake::new(true, &["20240101120000_init"], &["20240101120000_init"]);
    let report = fake.run(MigrationRun::rollback()).unwrap();
    assert_eq!(report.completed, strings(&["20240101120000_init"]));
    assert_eq!(fake.attempted, strings(&["down 20240101120000_init"]));
    assert!(fake.ledger.is_empty());
    assert!(!report.nothing_to_roll_back());
}

#[test]
fn scenario_c_new_then_migrate_applies_placeholder() {
    let created = new_migration("widgets");
    assert!(created.id.ends_with("_widgets"));
    let mut fake = Fake::new(false, &[], &[]);
    fake.dirs = vec![created.id.clone()];
    fake.scripts = vec![
        (format!("{}/up.sql", created.id), created.up_sql.clone()),
        (format!("{}/down.sql", created.id), created.down_sql.clone()),
    ];
    let report = fake.run(MigrationRun::migrate()).unwrap();
    assert_eq!(report.completed, vec![created.id.clone()]);
    assert_eq!(fake.attempted, vec![created.up_sql.clone()]);
    assert_eq!(fake.ledger, vec![created.id]);
}

#[test]
fn ordering_applies_earlier_identifier_first() {
    let mut fake = Fake::new(true, &[], &["20240102_b", "20240101_a"]);
    let report = fake.run(MigrationRun::migrate()).unwrap();
    assert_eq!(report.completed, strings(&["20240101_a", "20240102_b"]));
    assert_eq!(fake.attempted, strings(&["up 20240101_a", "up 20240102_b"]));
}

#[test]
fn fail_fast_stops_at_failed_migration() {
    let mut fake = Fake::new(true, &[], &["3_c", "1_a", "2_b"]);
    fake.failing_sql = Some("up 2_b".to_string());
    let err = fake.run(MigrationRun::migrate()).unwrap_err();
    match err {
        MigrationError::ScriptFailed(name, ConnectionError::PostgresError(m)) => {
            assert_eq!(name, "2_b");
            assert_eq!(m, "syntax error");
        }
        other => panic!("unexpected: {:?}", other),
    }
    assert_eq!(fake.attempted, strings(&["up 1_a", "up 2_b"]));
    assert_eq!(fake.ledger, strings(&["1_a"]));
}

#[test]
fn rollback_failure_keeps_ledger_row() {
    let mut fake = Fake::new(true, &["1_a", "2_b"], &["1_a", "2_b"]);
    fake.failing_sql = Some("down 1_a".to_string());
    let err = fake.run(MigrationRun::rollback()).unwrap_err();
    assert!(matches!(err, MigrationError::ScriptFailed(ref n, _) if n == "1_a"));
    assert_eq!(fake.ledger, strings(&["1_a", "2_b"]));
    assert_eq!(fake.writes, 0);
}

#[test]
fn rollback_without_ledger_table_is_a_quiet_success() {
    let mut fake = Fake::new(false, &[], &["1_a"]);
    let report = fake.run(MigrationRun::rollback()).unwrap();
    assert!(report.nothing_to_roll_back());
    assert!(report.completed.is_empty());
    assert_eq!(fake.writes, 0);
    assert!(!fake.table);
    assert_eq!(
        RunReport::nothing_to_roll_back_message(),
        "No migrations have yet been run. Thus, none can be rolled back."
    );
}

#[test]
fn rollback_with_nothing_matching_reports_nothing() {
    let mut fake = Fake::new(true, &["9_gone"], &["1_a"]);
    let report = fake.run(MigrationRun::rollback()).unwrap();
    assert!(report.nothing_to_roll_back());
    assert_eq!(fake.ledger, strings(&["9_gone"]));
}

#[test]
fn second_migrate_is_a_no_op() {
    let mut fake = Fake::new(false, &[], &["1_a", "2_b"]);
    fake.run(MigrationRun::migrate()).unwrap();
    let writes = fake.writes;
    let attempted = fake.attempted.len();
    let report = fake.run(MigrationRun::migrate()).unwrap();
    assert!(report.completed.is_empty());
    assert_eq!(fake.writes, writes);
    assert_eq!(fake.attempted.len(), attempted);
}

#[test]
fn missing_script_stops_the_run_with_a_file_error() {
    let mut fake = Fake::new(true, &[], &["1_a", "2_b"]);
    fake.scripts.retain(|(k, _)| k != "2_b/up.sql");
    let err = fake.run(MigrationRun::migrate()).unwrap_err();
    assert!(matches!(err, MigrationError::FileError(FileError::NotFound)));
    assert_eq!(fake.ledger, strings(&["1_a"]));
}

#[test]
fn ledger_failure_stops_the_run() {
    let mut run = MigrationRun::migrate();
    run = run.advance(Event::ConnectionFailed(ConnectionError::PostgresError(
        "refused".to_string(),
    )));
    assert!(run.is_finished());
    assert!(matches!(run.next_action(), Action::Finished));
    let err = run.outcome().unwrap().unwrap_err();
    assert!(matches!(err, MigrationError::ConnectionError(_)));
}

#[test]
fn unexpected_event_changes_nothing() {
    let run = MigrationRun::migrate();
    let run = run.advance(Event::ScriptExecuted);
    assert!(matches!(run.next_action(), Action::CheckLedgerTable));
    let run = run.advance(Event::LedgerTableChecked(true));
    assert!(matches!(run.next_action(), Action::ReadLedger));
    assert!(run.outcome().is_none());
}

#[test]
fn rollback_reads_down_scripts() {
    let run = MigrationRun::rollback()
        .advance(Event::LedgerTableChecked(true))
        .advance(Event::LedgerRead(strings(&["1_a"])))
        .advance(Event::DirectoryScanned(strings(&["1_a"])));
    match run.next_action() {
        Action::ReadScript(id, kind) => {
            assert_eq!(id, "1_a");
            assert_eq!(kind, ScriptKind::Down);
        }
        other => panic!("unexpected: {:?}", other),
    }
}

#[test]
fn outstanding_is_difference_in_ascending_order() {
    let disk = strings(&["20240103_c", "20240101_a", "20240102_b"]);
    let r1 = outstanding_migrations(&disk, &strings(&["20240102_b", "x"]));
    let r2 = outstanding_migrations(&disk, &strings(&["x", "20240102_b"]));
    assert_eq!(r1, strings(&["20240101_a", "20240103_c"]));
    assert_eq!(r1, r2);
}

#[test]
fn outstanding_with_disjoint_ledger_is_all_of_disk() {
    let disk = strings(&["b", "a", "a"]);
    assert_eq!(outstanding_migrations(&disk, &strings(&["z"])), strings(&["a", "b"]));
    assert!(outstanding_migrations(&strings(&[]), &strings(&["z"])).is_empty());
}

#[test]
fn rollback_candidates_are_intersection() {
    let disk = strings(&["3", "1", "2"]);
    let ledger = strings(&["2", "9", "3"]);
    assert_eq!(rollback_migrations_of(&disk, &ledger), strings(&["2", "3"]));
}

#[test]
fn identifier_order_is_by_code_point() {
    let disk = strings(&["é", "z", "Z", "ab", "a"]);
    assert_eq!(
        outstanding_migrations(&disk, &strings(&[])),
        strings(&["Z", "a", "ab", "z", "é"])
    );
}
