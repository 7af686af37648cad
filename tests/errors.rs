use dmt::{ConfigError, ConnectionError, DmtError, FileError, MigrationError};

#[test]
fn messages_name_the_failure() {
    let e = DmtError::from(MigrationError::ScriptFailed(
        "1_a".to_string(),
        ConnectionError::PostgresError("relation exists".to_string()),
    ));
    assert_eq!(
        e.message(),
        "An error occurred migrating database: migration 1_a failed: relation exists"
    );
    let e = DmtError::from(ConfigError::UnrecognizedConfigFormat("json".to_string()));
    assert_eq!(
        e.message(),
        "An error occurred reading config: unrecognized configuration format: json"
    );
    assert_eq!(FileError::NotFound.message(), "file not found");
    assert_eq!(
        MigrationError::ConnectionError(ConnectionError::TursoError("down".to_string())).message(),
        "down"
    );
}
