use vstd::prelude::*;
use vstd::string::StringExecFns;

use crate::document::{parse_toml_document, parse_yaml_document, toml_text, yaml_text, ConfigValue, Doc};
use crate::order::chars_of;
use crate::text::substring;
use crate::error::ConfigError;

verus! {

/// The kind of database a configuration connects to.
#[derive(Debug, Clone, Copy, PartialEq, Eq, Structural)]
pub enum Database {
    Postgres,
    Turso,
}

/// A backend configuration that knows which kind of database it is for.
pub trait DatabaseConfig {
    fn db_type(&self) -> Database;
}

/// Connection to a wire-protocol relational server.
#[derive(Debug, PartialEq)]
pub struct PostgresConfig {
    pub connection_string: String,
}

/// Connection to a local-first replicated database: its remote URL and token.
#[derive(Debug, PartialEq)]
pub struct TursoConfig {
    pub url: String,
    pub token: String,
}

impl DatabaseConfig for PostgresConfig {
    fn db_type(&self) -> (r: Database)
        ensures
            r == Database::Postgres,
    {
        Database::Postgres
    }
}

impl DatabaseConfig for TursoConfig {
    fn db_type(&self) -> (r: Database)
        ensures
            r == Database::Turso,
    {
        Database::Turso
    }
}

/// Where the migrations live.
#[derive(Debug, PartialEq)]
pub struct MigrationConfig {
    pub migration_path: String,
}

/// Which database to use, and how to reach each kind.
#[derive(Debug, PartialEq)]
pub struct ConnectionConfig {
    pub database: Option<Database>,
    pub turso: Option<TursoConfig>,
    pub postgres: Option<PostgresConfig>,
}

impl Default for ConnectionConfig {
    fn default() -> (r: ConnectionConfig)
        ensures
            r.database is None,
            r.turso is None,
            r.postgres is None,
    {
        ConnectionConfig { database: None, turso: None, postgres: None }
    }
}

/// Variables for substitution: an optional file of `NAME=value` lines, and
/// variables given in the configuration itself.
#[derive(Debug, PartialEq)]
pub struct EnvConfig {
    pub file: Option<String>,
    pub vars: Option<Vec<(String, String)>>,
}

impl Default for EnvConfig {
    fn default() -> (r: EnvConfig)
        ensures
            r.file is None,
            r.vars is None,
    {
        EnvConfig { file: None, vars: None }
    }
}

/// The whole configuration.
#[derive(Debug, PartialEq)]
pub struct DmtConfig {
    pub migration: MigrationConfig,
    pub connection: ConnectionConfig,
    pub env: Option<EnvConfig>,
}

/// The variables of an environment section: names and values, in order.
pub open spec fn pairs_view(v: Seq<(String, String)>) -> Seq<(Seq<char>, Seq<char>)> {
    v.map_values(|p: (String, String)| (p.0@, p.1@))
}

/// The configuration as plain values.
pub struct ConfigModel {
    pub migration_path: Seq<char>,
    pub database: Option<Database>,
    /// URL and token.
    pub turso: Option<(Seq<char>, Seq<char>)>,
    /// Connection string.
    pub postgres: Option<Seq<char>>,
    pub env: Option<EnvModel>,
}

pub struct EnvModel {
    pub file: Option<Seq<char>>,
    pub vars: Option<Seq<(Seq<char>, Seq<char>)>>,
}

impl EnvConfig {
    pub open spec fn model(&self) -> EnvModel {
        EnvModel {
            file: match self.file {
                Some(f) => Some(f@),
                None => None,
            },
            vars: match self.vars {
                Some(v) => Some(pairs_view(v@)),
                None => None,
            },
        }
    }
}

impl DmtConfig {
    pub open spec fn model(&self) -> ConfigModel {
        ConfigModel {
            migration_path: self.migration.migration_path@,
            database: self.connection.database,
            turso: match self.connection.turso {
                Some(t) => Some((t.url@, t.token@)),
                None => None,
            },
            postgres: match self.connection.postgres {
                Some(p) => Some(p.connection_string@),
                None => None,
            },
            env: match self.env {
                Some(e) => Some(e.model()),
                None => None,
            },
        }
    }
}

pub open spec fn default_path_text() -> Seq<char> {
    "./migrations/"@
}

/// The migrations root used when the configuration names none.
pub fn default_migration_path() -> (r: String)
    ensures
        r@ == default_path_text(),
{
    String::from_str("./migrations/")
}

/// The migration section used when the configuration has none.
pub fn default_migration_config() -> (r: MigrationConfig)
    ensures
        r.migration_path@ == default_path_text(),
{
    MigrationConfig { migration_path: default_migration_path() }
}

/// The value of the first entry whose key is the text `key`.
pub open spec fn lookup(es: Seq<(Doc, Doc)>, key: Seq<char>) -> Option<Doc>
    decreases es.len(),
{
    if es.len() == 0 {
        None
    } else if es[0].0 == Doc::Text(key) {
        Some(es[0].1)
    } else {
        lookup(es.drop_first(), key)
    }
}

/// A field as the configuration reads it: an absent field and a null are both
/// "not given".
pub open spec fn field(es: Seq<(Doc, Doc)>, key: Seq<char>) -> Option<Doc> {
    match lookup(es, key) {
        Some(Doc::Null) => None,
        found => found,
    }
}

/// An optional text field: `Some(None)` when not given, `Some(Some(s))` when a
/// text, `None` (invalid) otherwise.
pub open spec fn optional_text(es: Seq<(Doc, Doc)>, key: Seq<char>) -> Option<Option<Seq<char>>> {
    match field(es, key) {
        None => Some(None),
        Some(Doc::Text(s)) => Some(Some(s)),
        Some(_) => None,
    }
}

/// A required text field: `None` (invalid) unless given as a text.
pub open spec fn required_text(es: Seq<(Doc, Doc)>, key: Seq<char>) -> Option<Seq<char>> {
    match field(es, key) {
        Some(Doc::Text(s)) => Some(s),
        _ => None,
    }
}

/// The database a name selects; either spelling of each is accepted.
pub open spec fn database_named(s: Seq<char>) -> Option<Database> {
    if s == "Postgres"@ || s == "postgres"@ {
        Some(Database::Postgres)
    } else if s == "Turso"@ || s == "turso"@ {
        Some(Database::Turso)
    } else {
        None
    }
}

pub open spec fn migration_path_of(top: Seq<(Doc, Doc)>) -> Option<Seq<char>> {
    match field(top, "migration"@) {
        None => Some(default_path_text()),
        Some(Doc::Table(m)) => match optional_text(m, "migrationPath"@) {
            Some(None) => Some(default_path_text()),
            Some(Some(p)) => Some(p),
            None => None,
        },
        Some(_) => None,
    }
}

pub open spec fn database_of(c: Seq<(Doc, Doc)>) -> Option<Option<Database>> {
    match field(c, "database"@) {
        None => Some(None),
        Some(Doc::Text(s)) => match database_named(s) {
            Some(db) => Some(Some(db)),
            None => None,
        },
        Some(_) => None,
    }
}

pub open spec fn turso_of(c: Seq<(Doc, Doc)>) -> Option<Option<(Seq<char>, Seq<char>)>> {
    match field(c, "turso"@) {
        None => Some(None),
        Some(Doc::Table(t)) => match (required_text(t, "url"@), required_text(t, "token"@)) {
            (Some(u), Some(k)) => Some(Some((u, k))),
            _ => None,
        },
        Some(_) => None,
    }
}

pub open spec fn postgres_of(c: Seq<(Doc, Doc)>) -> Option<Option<Seq<char>>> {
    match field(c, "postgres"@) {
        None => Some(None),
        Some(Doc::Table(p)) => match required_text(p, "connectionString"@) {
            Some(s) => Some(Some(s)),
            None => None,
        },
        Some(_) => None,
    }
}

/// The entries of a variables table, each name and value a text; `None` if any is not.
pub open spec fn vars_of(es: Seq<(Doc, Doc)>) -> Option<Seq<(Seq<char>, Seq<char>)>>
    decreases es.len(),
{
    if es.len() == 0 {
        Some(Seq::empty())
    } else {
        match (vars_of(es.drop_last()), es.last().0, es.last().1) {
            (Some(rest), Doc::Text(k), Doc::Text(v)) => Some(rest.push((k, v))),
            _ => None,
        }
    }
}

pub open spec fn env_of(top: Seq<(Doc, Doc)>) -> Option<Option<EnvModel>> {
    match field(top, "env"@) {
        None => Some(None),
        Some(Doc::Table(e)) => {
            let vars = match field(e, "vars"@) {
                None => Some(None),
                Some(Doc::Table(vs)) => match vars_of(vs) {
                    Some(p) => Some(Some(p)),
                    None => None,
                },
                Some(_) => None,
            };
            match (optional_text(e, "file"@), vars) {
                (Some(file), Some(vars)) => Some(Some(EnvModel { file, vars })),
                _ => None,
            }
        },
        Some(_) => None,
    }
}

/// The configuration a document describes, or `None` if it describes none:
/// the top is a table with a `connection` table; every field that is given has
/// the right kind; `migration.migrationPath` defaults to `./migrations/`.
pub open spec fn config_of(d: Doc) -> Option<ConfigModel> {
    match d {
        Doc::Table(top) => match field(top, "connection"@) {
            Some(Doc::Table(c)) => match (
                migration_path_of(top),
                database_of(c),
                turso_of(c),
                postgres_of(c),
                env_of(top),
            ) {
                (Some(migration_path), Some(database), Some(turso), Some(postgres), Some(env)) => Some(
                    ConfigModel { migration_path, database, turso, postgres, env },
                ),
                _ => None,
            },
            _ => None,
        },
        _ => None,
    }
}

/// The documents of a list of entries.
pub open spec fn docs(es: Seq<(ConfigValue, ConfigValue)>) -> Seq<(Doc, Doc)> {
    Seq::new(es.len(), |i: int| (es[i].0.doc(), es[i].1.doc()))
}

proof fn lemma_table_doc(es: Vec<(ConfigValue, ConfigValue)>)
    ensures
        ConfigValue::Table(es).doc() == Doc::Table(docs(es@)),
{
    assert(ConfigValue::Table(es).doc()->Table_0 =~= docs(es@));
}

/// The entries of a table.
fn table_of(v: &ConfigValue) -> (r: Option<&Vec<(ConfigValue, ConfigValue)>>)
    ensures
        match r {
            Some(es) => v.doc() == Doc::Table(docs(es@)),
            None => !(v.doc() is Table),
        },
{
    match v {
        ConfigValue::Table(es) => {
            proof {
                lemma_table_doc(*es);
            }
            Some(es)
        },
        _ => None,
    }
}

fn find<'a>(es: &'a Vec<(ConfigValue, ConfigValue)>, key: &str) -> (r: Option<&'a ConfigValue>)
    ensures
        match r {
            Some(v) => lookup(docs(es@), key@) == Some(v.doc()),
            None => lookup(docs(es@), key@) is None,
        },
{
    let wanted = String::from_str(key);
    let ghost ds = docs(es@);
    let mut i: usize = 0;
    proof {
        assert(ds.skip(0) =~= ds);
    }
    while i < es.len()
        invariant
            i <= es@.len(),
            ds == docs(es@),
            wanted@ == key@,
            lookup(ds, key@) == lookup(ds.skip(i as int), key@),
        decreases es@.len() - i,
    {
        proof {
            assert(ds.skip(i as int)[0] == ds[i as int]);
            assert(ds.skip(i as int).drop_first() =~= ds.skip(i + 1));
        }
        match &es[i].0 {
            ConfigValue::Text(k) => {
                if *k == wanted {
                    return Some(&es[i].1);
                }
            },
            _ => {},
        }
        i = i + 1;
    }
    None
}

fn get_field<'a>(es: &'a Vec<(ConfigValue, ConfigValue)>, key: &str) -> (r: Option<
    &'a ConfigValue,
>)
    ensures
        match r {
            Some(v) => field(docs(es@), key@) == Some(v.doc()),
            None => field(docs(es@), key@) is None,
        },
{
    match find(es, key) {
        Some(ConfigValue::Null) => None,
        found => found,
    }
}

fn invalid(what: &str) -> (r: ConfigError)
    ensures
        r is ParseError,
{
    ConfigError::ParseError(String::from_str("invalid configuration: ").concat(what))
}

fn optional_text_field(es: &Vec<(ConfigValue, ConfigValue)>, key: &str) -> (r: Result<
    Option<String>,
    ConfigError,
>)
    ensures
        match r {
            Ok(Some(s)) => optional_text(docs(es@), key@) == Some(Some(s@)),
            Ok(None) => optional_text(docs(es@), key@) == Some(None::<Seq<char>>),
            Err(e) => optional_text(docs(es@), key@) is None && e is ParseError,
        },
{
    match get_field(es, key) {
        None => Ok(None),
        Some(ConfigValue::Text(s)) => Ok(Some(s.clone())),
        Some(_) => Err(invalid(key)),
    }
}

fn required_text_field(es: &Vec<(ConfigValue, ConfigValue)>, key: &str) -> (r: Result<
    String,
    ConfigError,
>)
    ensures
        match r {
            Ok(s) => required_text(docs(es@), key@) == Some(s@),
            Err(e) => required_text(docs(es@), key@) is None && e is ParseError,
        },
{
    match get_field(es, key) {
        Some(ConfigValue::Text(s)) => Ok(s.clone()),
        _ => Err(invalid(key)),
    }
}

fn migration_path_from(top: &Vec<(ConfigValue, ConfigValue)>) -> (r: Result<String, ConfigError>)
    ensures
        match r {
            Ok(p) => migration_path_of(docs(top@)) == Some(p@),
            Err(e) => migration_path_of(docs(top@)) is None && e is ParseError,
        },
{
    match get_field(top, "migration") {
        None => Ok(default_migration_path()),
        Some(v) => match table_of(v) {
            Some(m) => match optional_text_field(m, "migrationPath") {
                Ok(Some(p)) => Ok(p),
                Ok(None) => Ok(default_migration_path()),
                Err(e) => Err(e),
            },
            None => Err(invalid("migration")),
        },
    }
}

fn database_from(c: &Vec<(ConfigValue, ConfigValue)>) -> (r: Result<Option<Database>, ConfigError>)
    ensures
        match r {
            Ok(db) => database_of(docs(c@)) == Some(db),
            Err(e) => database_of(docs(c@)) is None && e is ParseError,
        },
{
    match get_field(c, "database") {
        None => Ok(None),
        Some(ConfigValue::Text(s)) => {
            if *s == String::from_str("Postgres") || *s == String::from_str("postgres") {
                Ok(Some(Database::Postgres))
            } else if *s == String::from_str("Turso") || *s == String::from_str("turso") {
                Ok(Some(Database::Turso))
            } else {
                Err(invalid("database"))
            }
        },
        Some(_) => Err(invalid("database")),
    }
}

fn turso_from(c: &Vec<(ConfigValue, ConfigValue)>) -> (r: Result<Option<TursoConfig>, ConfigError>)
    ensures
        match r {
            Ok(Some(t)) => turso_of(docs(c@)) == Some(Some((t.url@, t.token@))),
            Ok(None) => turso_of(docs(c@)) == Some(None::<(Seq<char>, Seq<char>)>),
            Err(e) => turso_of(docs(c@)) is None && e is ParseError,
        },
{
    match get_field(c, "turso") {
        None => Ok(None),
        Some(v) => match table_of(v) {
            Some(t) => {
                let url = required_text_field(t, "url");
                let token = required_text_field(t, "token");
                match (url, token) {
                    (Ok(url), Ok(token)) => Ok(Some(TursoConfig { url, token })),
                    (Err(e), _) => Err(e),
                    (_, Err(e)) => Err(e),
                }
            },
            None => Err(invalid("turso")),
        },
    }
}

fn postgres_from(c: &Vec<(ConfigValue, ConfigValue)>) -> (r: Result<
    Option<PostgresConfig>,
    ConfigError,
>)
    ensures
        match r {
            Ok(Some(p)) => postgres_of(docs(c@)) == Some(Some(p.connection_string@)),
            Ok(None) => postgres_of(docs(c@)) == Some(None::<Seq<char>>),
            Err(e) => postgres_of(docs(c@)) is None && e is ParseError,
        },
{
    match get_field(c, "postgres") {
        None => Ok(None),
        Some(v) => match table_of(v) {
            Some(p) => match required_text_field(p, "connectionString") {
                Ok(connection_string) => Ok(Some(PostgresConfig { connection_string })),
                Err(e) => Err(e),
            },
            None => Err(invalid("postgres")),
        },
    }
}

proof fn lemma_vars_invalid_prefix(s: Seq<(Doc, Doc)>, n: int)
    requires
        0 <= n <= s.len(),
        vars_of(s.take(n)) is None,
    ensures
        vars_of(s) is None,
    decreases s.len() - n,
{
    if n == s.len() {
        assert(s.take(n) =~= s);
    } else {
        assert(s.take(n + 1).drop_last() =~= s.take(n));
        lemma_vars_invalid_prefix(s, n + 1);
    }
}

fn vars_from(vs: &Vec<(ConfigValue, ConfigValue)>) -> (r: Result<Vec<(String, String)>, ConfigError>)
    ensures
        match r {
            Ok(p) => vars_of(docs(vs@)) == Some(pairs_view(p@)),
            Err(e) => vars_of(docs(vs@)) is None && e is ParseError,
        },
{
    let ghost ds = docs(vs@);
    let mut out: Vec<(String, String)> = Vec::new();
    let mut k: usize = 0;
    proof {
        assert(ds.take(0) =~= Seq::<(Doc, Doc)>::empty());
        assert(pairs_view(out@) =~= Seq::<(Seq<char>, Seq<char>)>::empty());
    }
    while k < vs.len()
        invariant
            k <= vs@.len(),
            ds == docs(vs@),
            vars_of(ds.take(k as int)) == Some(pairs_view(out@)),
        decreases vs@.len() - k,
    {
        proof {
            assert(ds.take(k + 1).drop_last() =~= ds.take(k as int));
            assert(ds.take(k + 1).last() == ds[k as int]);
        }
        match (&vs[k].0, &vs[k].1) {
            (ConfigValue::Text(name), ConfigValue::Text(value)) => {
                let ghost before = out@;
                out.push((name.clone(), value.clone()));
                proof {
                    assert(pairs_view(out@) =~= pairs_view(before).push((name@, value@)));
                }
            },
            _ => {
                proof {
                    lemma_vars_invalid_prefix(ds, k + 1);
                }
                return Err(invalid("env.vars"));
            },
        }
        k = k + 1;
    }
    proof {
        assert(ds.take(vs@.len() as int) =~= ds);
    }
    Ok(out)
}

fn env_from(top: &Vec<(ConfigValue, ConfigValue)>) -> (r: Result<Option<EnvConfig>, ConfigError>)
    ensures
        match r {
            Ok(Some(e)) => env_of(docs(top@)) == Some(Some(e.model())),
            Ok(None) => env_of(docs(top@)) == Some(None::<EnvModel>),
            Err(e) => env_of(docs(top@)) is None && e is ParseError,
        },
{
    match get_field(top, "env") {
        None => Ok(None),
        Some(v) => match table_of(v) {
            Some(e) => {
                let vars = match get_field(e, "vars") {
                    None => Ok(None),
                    Some(w) => match table_of(w) {
                        Some(vs) => match vars_from(vs) {
                            Ok(p) => Ok(Some(p)),
                            Err(err) => Err(err),
                        },
                        None => Err(invalid("env.vars")),
                    },
                };
                match (optional_text_field(e, "file"), vars) {
                    (Ok(file), Ok(vars)) => Ok(Some(EnvConfig { file, vars })),
                    (Err(err), _) => Err(err),
                    (_, Err(err)) => Err(err),
                }
            },
            None => Err(invalid("env")),
        },
    }
}

impl DmtConfig {
    /// The configuration a parsed document describes; a parse error names the
    /// first part found wrong. See [`config_of`] for the schema.
    pub fn from_document(doc: &ConfigValue) -> (r: Result<DmtConfig, ConfigError>)
        ensures
            match r {
                Ok(c) => config_of(doc.doc()) == Some(c.model()),
                Err(e) => config_of(doc.doc()) is None && e is ParseError,
            },
    {
        let top = match table_of(doc) {
            Some(top) => top,
            None => {
                return Err(invalid("the document is not a table"));
            },
        };
        let c = match get_field(top, "connection") {
            Some(v) => match table_of(v) {
                Some(c) => c,
                None => {
                    return Err(invalid("connection"));
                },
            },
            None => {
                return Err(invalid("missing connection"));
            },
        };
        let migration_path = match migration_path_from(top) {
            Ok(p) => p,
            Err(e) => {
                return Err(e);
            },
        };
        let database = match database_from(c) {
            Ok(d) => d,
            Err(e) => {
                return Err(e);
            },
        };
        let turso = match turso_from(c) {
            Ok(t) => t,
            Err(e) => {
                return Err(e);
            },
        };
        let postgres = match postgres_from(c) {
            Ok(p) => p,
            Err(e) => {
                return Err(e);
            },
        };
        let env = match env_from(top) {
            Ok(e) => e,
            Err(e) => {
                return Err(e);
            },
        };
        Ok(
            DmtConfig {
                migration: MigrationConfig { migration_path },
                connection: ConnectionConfig { database, turso, postgres },
                env,
            },
        )
    }
}

/// The last position before `to` where `c` stands in `s`, if any.
pub open spec fn rfind(s: Seq<char>, c: char, to: int) -> Option<int>
    decreases to,
{
    if to <= 0 || to > s.len() {
        None
    } else if s[to - 1] == c {
        Some(to - 1)
    } else {
        rfind(s, c, to - 1)
    }
}

/// Where the last component of a path starts: after its last `/`.
pub open spec fn file_name_start(p: Seq<char>) -> int {
    match rfind(p, '/', p.len() as int) {
        Some(i) => i + 1,
        None => 0,
    }
}

/// The extension of a path: what follows the last `.` of its last component,
/// unless that `.` starts the component, or the component is `..`.
pub open spec fn extension_of(p: Seq<char>) -> Option<Seq<char>> {
    let start = file_name_start(p);
    if p.skip(start) == ".."@ {
        None
    } else {
        match rfind(p, '.', p.len() as int) {
            Some(i) => if i > start {
                Some(p.skip(i + 1))
            } else {
                None
            },
            None => None,
        }
    }
}

/// The formats a configuration file may be written in.
#[derive(Debug, Clone, Copy, PartialEq, Eq, Structural)]
pub enum ConfigFormat {
    Toml,
    Yaml,
}

/// The format an extension names.
pub open spec fn format_named(ext: Seq<char>) -> Option<ConfigFormat> {
    if ext == "yml"@ || ext == "yaml"@ {
        Some(ConfigFormat::Yaml)
    } else if ext == "toml"@ {
        Some(ConfigFormat::Toml)
    } else {
        None
    }
}

fn rfind_char(chars: &Vec<char>, c: char, to: usize) -> (r: Option<usize>)
    requires
        to <= chars@.len(),
    ensures
        match r {
            Some(i) => rfind(chars@, c, to as int) == Some(i as int) && i < to,
            None => rfind(chars@, c, to as int) is None,
        },
{
    let mut j: usize = to;
    while j > 0
        invariant
            j <= to <= chars@.len(),
            rfind(chars@, c, to as int) == rfind(chars@, c, j as int),
        decreases j,
    {
        if chars[j - 1] == c {
            return Some(j - 1);
        }
        j = j - 1;
    }
    None
}

/// The format of a configuration file, from its path's extension: `yml` or
/// `yaml` for YAML, `toml` for TOML. Any other extension, or none, is refused
/// and named in the error (empty when there is none).
pub fn config_format(path: &str) -> (r: Result<ConfigFormat, ConfigError>)
    ensures
        match extension_of(path@) {
            None => r matches Err(ConfigError::UnrecognizedConfigFormat(e)) && e@.len() == 0,
            Some(ext) => match format_named(ext) {
                Some(f) => r == Ok::<ConfigFormat, ConfigError>(f),
                None => r matches Err(ConfigError::UnrecognizedConfigFormat(e)) && e@ == ext,
            },
        },
{
    let chars = chars_of(path);
    let n = chars.len();
    let start: usize = match rfind_char(&chars, '/', n) {
        Some(i) => i + 1,
        None => 0,
    };
    let name = substring(&chars, start, n);
    proof {
        assert(chars@.subrange(start as int, n as int) =~= chars@.skip(start as int));
    }
    if name == String::from_str("..") {
        return Err(ConfigError::UnrecognizedConfigFormat(String::new()));
    }
    let dot = match rfind_char(&chars, '.', n) {
        Some(i) => i,
        None => {
            return Err(ConfigError::UnrecognizedConfigFormat(String::new()));
        },
    };
    if dot <= start {
        return Err(ConfigError::UnrecognizedConfigFormat(String::new()));
    }
    let ext = substring(&chars, dot + 1, n);
    proof {
        assert(chars@.subrange(dot + 1, n as int) =~= chars@.skip(dot + 1));
    }
    if ext == String::from_str("yml") || ext == String::from_str("yaml") {
        Ok(ConfigFormat::Yaml)
    } else if ext == String::from_str("toml") {
        Ok(ConfigFormat::Toml)
    } else {
        Err(ConfigError::UnrecognizedConfigFormat(ext))
    }
}

/// The configuration a text in `format` describes; `None` where the text does
/// not parse in that format or describes no configuration.
pub open spec fn config_of_text(format: ConfigFormat, text: Seq<char>) -> Option<ConfigModel> {
    let parsed = match format {
        ConfigFormat::Toml => toml_text(text),
        ConfigFormat::Yaml => yaml_text(text),
    };
    match parsed {
        Some(d) => config_of(d),
        None => None,
    }
}

/// The contract of reading configuration text: the configuration it
/// describes, or a parse error exactly when it describes none.
pub open spec fn reads_as(r: Result<DmtConfig, ConfigError>, format: ConfigFormat, text: Seq<char>) -> bool {
    match r {
        Ok(c) => config_of_text(format, text) == Some(c.model()),
        Err(e) => config_of_text(format, text) is None && e is ParseError,
    }
}

impl DmtConfig {
    /// Reads a configuration written in `format`.
    pub fn from_str_as(text: &str, format: ConfigFormat) -> (r: Result<DmtConfig, ConfigError>)
        ensures
            reads_as(r, format, text@),
    {
        let doc = match format {
            ConfigFormat::Toml => parse_toml_document(text),
            ConfigFormat::Yaml => parse_yaml_document(text),
        };
        match doc {
            Ok(d) => DmtConfig::from_document(&d),
            Err(e) => Err(e),
        }
    }

    /// Reads a TOML configuration.
    pub fn from_toml_str(text: &str) -> (r: Result<DmtConfig, ConfigError>)
        ensures
            reads_as(r, ConfigFormat::Toml, text@),
    {
        DmtConfig::from_str_as(text, ConfigFormat::Toml)
    }

    /// Reads a YAML configuration.
    pub fn from_yaml_str(text: &str) -> (r: Result<DmtConfig, ConfigError>)
        ensures
            reads_as(r, ConfigFormat::Yaml, text@),
    {
        DmtConfig::from_str_as(text, ConfigFormat::Yaml)
    }

    /// Reads the configuration file at `path`, whose text the caller has read
    /// into `contents`: the path's extension selects the format. Environment
    /// files are read in afterwards, by [`DmtConfig::resolve_env`].
    pub fn from_path(path: &str, contents: &str) -> (r: Result<DmtConfig, ConfigError>)
        ensures
            match extension_of(path@) {
                None => r matches Err(ConfigError::UnrecognizedConfigFormat(e)) && e@.len() == 0,
                Some(ext) => match format_named(ext) {
                    Some(f) => reads_as(r, f, contents@),
                    None => r matches Err(ConfigError::UnrecognizedConfigFormat(e)) && e@ == ext,
                },
            },
    {
        match config_format(path) {
            Ok(format) => DmtConfig::from_str_as(contents, format),
            Err(e) => Err(e),
        }
    }
}

/// The text of a TOML configuration file.
pub struct TomlConfig {
    pub contents: String,
}

impl TomlConfig {
    /// The configuration this text describes.
    pub fn parse(&self) -> (r: Result<DmtConfig, ConfigError>)
        ensures
            reads_as(r, ConfigFormat::Toml, self.contents@),
    {
        DmtConfig::from_toml_str(self.contents.as_str())
    }
}

/// The connection settings of the backend a configuration selects.
#[derive(Debug)]
pub enum BackendConfig {
    Postgres(PostgresConfig),
    Turso(TursoConfig),
}

impl DmtConfig {
    /// The backend to connect to: the kind `connection.database` names, with
    /// the settings of that kind, which must be given.
    pub fn backend(&self) -> (r: Result<BackendConfig, ConfigError>)
        ensures
            match self.connection.database {
                None => r matches Err(ConfigError::ParseError(m)) && m@
                    == "Database type not specified in config"@,
                Some(Database::Postgres) => match self.connection.postgres {
                    Some(p) => r matches Ok(BackendConfig::Postgres(q)) && q.connection_string@
                        == p.connection_string@,
                    None => r matches Err(ConfigError::ParseError(m)) && m@
                        == "No postgres config found"@,
                },
                Some(Database::Turso) => match self.connection.turso {
                    Some(t) => r matches Ok(BackendConfig::Turso(u)) && u.url@ == t.url@
                        && u.token@ == t.token@,
                    None => r matches Err(ConfigError::ParseError(m)) && m@
                        == "No turso config found"@,
                },
            },
    {
        match self.connection.database {
            None => Err(ConfigError::ParseError(String::from_str("Database type not specified in config"))),
            Some(Database::Postgres) => match &self.connection.postgres {
                Some(p) => Ok(
                    BackendConfig::Postgres(
                        PostgresConfig { connection_string: p.connection_string.clone() },
                    ),
                ),
                None => Err(ConfigError::ParseError(String::from_str("No postgres config found"))),
            },
            Some(Database::Turso) => match &self.connection.turso {
                Some(t) => Ok(
                    BackendConfig::Turso(TursoConfig { url: t.url.clone(), token: t.token.clone() }),
                ),
                None => Err(ConfigError::ParseError(String::from_str("No turso config found"))),
            },
        }
    }
}

} // verus!
