use dmt::{
    config_format, default_config_path, default_migration_path, BackendConfig, Cli, ConfigError,
    ConfigFormat, ConnectionConfig, Database, DatabaseConfig, DmtCommand, DmtConfig, EnvConfig,
    MigrationConfig, NewMigrationArgs, PostgresConfig, TomlConfig, TursoConfig,
};

const TOML_INPUT: &str = r#"
            [connection]
            database = "turso"
            
            [connection.turso]
            url = "test_url"
            token = "test_token"
            
            [env.vars]
            TEST_VAR = "This is a test var"
            
        "#;

fn expected_turso_config() -> DmtConfig {
    DmtConfig {
        migration: MigrationConfig {
            migration_path: default_migration_path(),
        },
        connection: ConnectionConfig {
            database: Some(Database::Turso),
            turso: Some(TursoConfig {
                url: "test_url".to_string(),
                token: "test_token".to_string(),
            }),
            ..Default::default()
        },
        env: Some(EnvConfig {
            vars: Some(vec![(
                "TEST_VAR".to_string(),
                "This is a test var".to_string(),
            )]),
            ..Default::default()
        }),
    }
}

#[test]
fn parse_toml_valid_input() {
    let actual = TomlConfig {
        contents: TOML_INPUT.to_string(),
    }
    .parse()
    .unwrap();
    assert_eq!(actual, expected_turso_config());
}

#[test]
fn toml_parse_toml_valid_input() {
    let actual = DmtConfig::from_toml_str(TOML_INPUT).unwrap();
    assert_eq!(actual, expected_turso_config());
}

#[test]
fn yaml_config_with_postgres_and_path() {
    let input = "migration:\n  migrationPath: ./db/migrations\nconnection:\n  database: Postgres\n  postgres:\n    connectionString: host=localhost user=me\n";
    let actual = DmtConfig::from_yaml_str(input).unwrap();
    let expected = DmtConfig {
        migration: MigrationConfig {
            migration_path: "./db/migrations".to_string(),
        },
        connection: ConnectionConfig {
            database: Some(Database::Postgres),
            postgres: Some(PostgresConfig {
                connection_string: "host=localhost user=me".to_string(),
            }),
            ..Default::default()
        },
        env: None,
    };
    assert_eq!(actual, expected);
}

#[test]
fn yaml_null_section_counts_as_absent() {
    let input = "connection:\n  database: turso\nenv:\n";
    let actual = DmtConfig::from_yaml_str(input).unwrap();
    assert_eq!(actual.env, None);
    assert_eq!(actual.connection.database, Some(Database::Turso));
    assert_eq!(actual.migration.migration_path, "./migrations/");
}

#[test]
fn config_without_connection_is_a_parse_error() {
    let r = DmtConfig::from_toml_str("[migration]\nmigrationPath = \"x\"\n");
    assert!(matches!(r, Err(ConfigError::ParseError(_))));
}

#[test]
fn config_with_unknown_database_is_a_parse_error() {
    let r = DmtConfig::from_toml_str("[connection]\ndatabase = \"mysql\"\n");
    assert!(matches!(r, Err(ConfigError::ParseError(_))));
}

#[test]
fn config_with_number_for_text_is_a_parse_error() {
    let r = DmtConfig::from_toml_str("[connection]\n[connection.postgres]\nconnectionString = 5\n");
    assert!(matches!(r, Err(ConfigError::ParseError(_))));
}

#[test]
fn malformed_toml_is_a_parse_error() {
    let r = DmtConfig::from_toml_str("[connection\n");
    assert!(matches!(r, Err(ConfigError::ParseError(_))));
}

#[test]
fn malformed_yaml_is_a_parse_error() {
    let r = DmtConfig::from_yaml_str("connection: [unclosed\n");
    assert!(matches!(r, Err(ConfigError::ParseError(_))));
}

#[test]
fn format_follows_extension() {
    assert_eq!(config_format("./dmt.config.yml").unwrap(), ConfigFormat::Yaml);
    assert_eq!(config_format("conf/dmt.yaml").unwrap(), ConfigFormat::Yaml);
    assert_eq!(config_format("dmt.toml").unwrap(), ConfigFormat::Toml);
}

#[test]
fn unknown_extension_is_named_in_the_error() {
    match config_format("settings.json") {
        Err(ConfigError::UnrecognizedConfigFormat(ext)) => assert_eq!(ext, "json"),
        other => panic!("unexpected: {:?}", other),
    }
}

#[test]
fn missing_extension_gives_empty_name() {
    for path in ["dmtconfig", ".toml", "conf.d/settings", "a/.."] {
        match config_format(path) {
            Err(ConfigError::UnrecognizedConfigFormat(ext)) => assert_eq!(ext, ""),
            other => panic!("unexpected for {}: {:?}", path, other),
        }
    }
}

#[test]
fn from_path_reads_by_extension() {
    let c = DmtConfig::from_path("x/dmt.config.toml", TOML_INPUT).unwrap();
    assert_eq!(c, expected_turso_config());
    assert!(matches!(
        DmtConfig::from_path("x/dmt.config.yml", TOML_INPUT),
        Err(ConfigError::ParseError(_))
    ));
}

#[test]
fn backend_selection() {
    let c = DmtConfig::from_toml_str(TOML_INPUT).unwrap();
    match c.backend().unwrap() {
        BackendConfig::Turso(t) => {
            assert_eq!(t.url, "test_url");
            assert_eq!(t.token, "test_token");
        }
        other => panic!("unexpected: {:?}", other),
    }
    let c = DmtConfig::from_toml_str("[connection]\ndatabase = \"postgres\"\n").unwrap();
    match c.backend() {
        Err(ConfigError::ParseError(m)) => assert_eq!(m, "No postgres config found"),
        other => panic!("unexpected: {:?}", other),
    }
    let c = DmtConfig::from_toml_str("[connection]\n").unwrap();
    match c.backend() {
        Err(ConfigError::ParseError(m)) => assert_eq!(m, "Database type not specified in config"),
        other => panic!("unexpected: {:?}", other),
    }
}

#[test]
fn command_line_defaults_to_yaml_config() {
    let cli = Cli::new(DmtCommand::Migrate, None);
    assert_eq!(cli.config, "./dmt.config.yml");
    assert_eq!(default_config_path(), "./dmt.config.yml");
    let cli = Cli::new(
        DmtCommand::New(NewMigrationArgs {
            name: "widgets".to_string(),
        }),
        Some("other.toml".to_string()),
    );
    assert_eq!(cli.config, "other.toml");
    assert!(matches!(cli.command, DmtCommand::New(ref a) if a.name == "widgets"));
}

#[test]
fn backend_configs_know_their_kind() {
    let p = PostgresConfig {
        connection_string: "x".to_string(),
    };
    let t = TursoConfig {
        url: "u".to_string(),
        token: "t".to_string(),
    };
    assert_eq!(p.db_type(), Database::Postgres);
    assert_eq!(t.db_type(), Database::Turso);
}
