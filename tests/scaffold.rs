use dmt::{
    migration_identifier, new_migration, new_migration_at, DirEntry, MigrationDir, ScriptKind,
    Timestamp,
};

fn at(year: i32, month: u32, day: u32, hour: u32, minute: u32, second: u32) -> Timestamp {
    Timestamp {
        year,
        month,
        day,
        hour,
        minute,
        second,
    }
}

#[test]
fn identifier_is_zero_padded_timestamp_and_name() {
    assert_eq!(
        migration_identifier(&at(2024, 1, 2, 3, 4, 5), "init"),
        "20240102030405_init"
    );
    assert_eq!(
        migration_identifier(&at(987, 12, 31, 23, 59, 59), "x"),
        "09871231235959_x"
    );
}

#[test]
fn identifier_year_outside_four_digits_carries_sign() {
    assert_eq!(
        migration_identifier(&at(12345, 1, 1, 0, 0, 0), "y"),
        "+123450101000000_y"
    );
    assert_eq!(
        migration_identifier(&at(-5, 1, 1, 0, 0, 0), "y"),
        "-00050101000000_y"
    );
}

#[test]
fn scripts_hold_header_and_placeholder() {
    let m = new_migration_at("widgets", &at(2024, 1, 1, 12, 0, 0));
    assert_eq!(m.id, "20240101120000_widgets");
    assert_eq!(
        m.up_sql,
        "-- 20240101120000_widgets - up.sql\n\n\n    -- Write your SQL code here \n"
    );
    assert_eq!(
        m.down_sql,
        "-- 20240101120000_widgets - down.sql\n\n\n    -- Write your SQL code here \n"
    );
}

#[test]
fn new_migration_uses_current_time() {
    let m = new_migration("now");
    let (stamp, name) = m.id.split_at(14);
    assert_eq!(name, "_now");
    assert!(stamp.chars().all(|c| c.is_ascii_digit()));
    assert!(stamp.as_bytes()[0] == b'2');
}

#[test]
fn directory_names_keep_only_directories() {
    let dir = MigrationDir::new("./migrations/");
    let entries = vec![
        DirEntry {
            name: "2_b".to_string(),
            is_dir: true,
        },
        DirEntry {
            name: "README.md".to_string(),
            is_dir: false,
        },
        DirEntry {
            name: "1_a".to_string(),
            is_dir: true,
        },
    ];
    assert_eq!(
        dir.get_migration_dir_names(&entries),
        vec!["2_b".to_string(), "1_a".to_string()]
    );
}

#[test]
fn script_paths_join_root_identifier_and_file() {
    let dir = MigrationDir::new("./migrations/");
    assert_eq!(dir.script_path("1_a", ScriptKind::Up), "./migrations/1_a/up.sql");
    let dir = MigrationDir::new("db");
    assert_eq!(dir.script_path("1_a", ScriptKind::Down), "db/1_a/down.sql");
    assert_eq!(dir.migration_path("1_a"), "db/1_a");
    assert_eq!(dir.path(), "db");
}
