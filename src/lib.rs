//! Versioned schema migrations: which on-disk migrations are outstanding, the
//! order in which they run, the decisions of a migrate or rollback run, the
//! scaffold of a new migration, and the configuration that selects a backend.
//!
//! A run is driven from outside: [`MigrationRun`] says what to do next, the
//! caller does it against the database or the migrations directory, and hands
//! back what happened.

mod cli;
mod config;
mod directory;
mod document;
mod env;
mod error;
mod order;
mod runner;
mod scaffold;
mod text;

pub use cli::{default_config_path, Cli, DmtCommand, NewMigrationArgs};
pub use config::{
    default_migration_config, default_migration_path, BackendConfig, ConfigFormat,
    ConnectionConfig, Database, DatabaseConfig, DmtConfig, EnvConfig, MigrationConfig,
    PostgresConfig, TomlConfig, TursoConfig, config_format,
};
pub use directory::{DirEntry, MigrationDir};
pub use document::{parse_toml_document, parse_yaml_document, ConfigValue};
pub use env::parse_env_file;
pub use error::{ConfigError, ConnectionError, DmtError, FileError, MigrationError};
pub use order::{outstanding_migrations, rollback_migrations_of};
pub use runner::{Action, Event, MigrationRun, Phase, RunMode, RunReport, ScriptKind};
pub use scaffold::{migration_identifier, new_migration, new_migration_at, NewMigration, Timestamp};
