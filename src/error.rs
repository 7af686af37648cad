use vstd::prelude::*;
use vstd::string::StringExecFns;

verus! {

/// Why a file or directory could not be used.
#[derive(Debug, Clone, Copy, PartialEq, Eq, Structural)]
pub enum FileError {
    NotFound,
    MigrationsDirCouldNotCreate,
    MigrationsDirCouldNotRead,
    FileAccessDenied,
    DirAccessDenied,
    UnrecognizedConfigFormat,
    Uncategorized,
}

impl FileError {
    /// A short description for the operator.
    pub fn message(&self) -> (r: String)
        ensures
            r@ == self.message_spec(),
    {
        match self {
            FileError::NotFound => String::from_str("file not found"),
            FileError::MigrationsDirCouldNotCreate => String::from_str(
                "could not create the migrations directory",
            ),
            FileError::MigrationsDirCouldNotRead => String::from_str(
                "could not read the migrations directory",
            ),
            FileError::FileAccessDenied => String::from_str("access to a file was denied"),
            FileError::DirAccessDenied => String::from_str("access to a directory was denied"),
            FileError::UnrecognizedConfigFormat => String::from_str(
                "unrecognized configuration format",
            ),
            FileError::Uncategorized => String::from_str("file error"),
        }
    }

    pub open spec fn message_spec(&self) -> Seq<char> {
        match self {
            FileError::NotFound => "file not found"@,
            FileError::MigrationsDirCouldNotCreate => "could not create the migrations directory"@,
            FileError::MigrationsDirCouldNotRead => "could not read the migrations directory"@,
            FileError::FileAccessDenied => "access to a file was denied"@,
            FileError::DirAccessDenied => "access to a directory was denied"@,
            FileError::UnrecognizedConfigFormat => "unrecognized configuration format"@,
            FileError::Uncategorized => "file error"@,
        }
    }
}

/// A failure of the backend: transport, authentication, protocol, or a
/// statement that the database rejected. The text is the backend's own.
#[derive(Debug, Clone)]
pub enum ConnectionError {
    PostgresError(String),
    TursoError(String),
}

impl ConnectionError {
    /// The backend's message, as it gave it.
    pub fn message(&self) -> (r: String)
        ensures
            r@ == connection_text(*self),
    {
        match self {
            ConnectionError::PostgresError(m) => m.clone(),
            ConnectionError::TursoError(m) => m.clone(),
        }
    }
}

/// Why the configuration could not be had.
#[derive(Debug, Clone)]
pub enum ConfigError {
    FileError(FileError),
    UnrecognizedConfigFormat(String),
    ParseError(String),
}

/// Why a migrate or rollback run stopped.
#[derive(Debug, Clone)]
pub enum MigrationError {
    /// A script or the migrations directory could not be read.
    FileError(FileError),
    /// The backend failed on ledger work.
    ConnectionError(ConnectionError),
    /// The backend rejected the script of the named migration; its ledger row
    /// was left as it was.
    ScriptFailed(String, ConnectionError),
}

/// Any failure of a command.
#[derive(Debug, Clone)]
pub enum DmtError {
    ConfigError(ConfigError),
    MigrationError(MigrationError),
}

impl ConfigError {
    pub open spec fn message_spec(&self) -> Seq<char> {
        match self {
            ConfigError::FileError(f) => f.message_spec(),
            ConfigError::UnrecognizedConfigFormat(ext) => "unrecognized configuration format: "@
                + ext@,
            ConfigError::ParseError(m) => m@,
        }
    }

    /// A description for the operator.
    pub fn message(&self) -> (r: String)
        ensures
            r@ == self.message_spec(),
    {
        match self {
            ConfigError::FileError(f) => f.message(),
            ConfigError::UnrecognizedConfigFormat(ext) => String::from_str(
                "unrecognized configuration format: ",
            ).concat(ext.as_str()),
            ConfigError::ParseError(m) => m.clone(),
        }
    }
}

impl MigrationError {
    pub open spec fn message_spec(&self) -> Seq<char> {
        match self {
            MigrationError::FileError(f) => f.message_spec(),
            MigrationError::ConnectionError(c) => connection_text(*c),
            MigrationError::ScriptFailed(name, c) => "migration "@ + name@ + " failed: "@
                + connection_text(*c),
        }
    }

    /// A description for the operator; a backend's message is kept word for word.
    pub fn message(&self) -> (r: String)
        ensures
            r@ == self.message_spec(),
    {
        match self {
            MigrationError::FileError(f) => f.message(),
            MigrationError::ConnectionError(c) => c.message(),
            MigrationError::ScriptFailed(name, c) => {
                let m = c.message();
                String::from_str("migration ").concat(name.as_str()).concat(" failed: ").concat(
                    m.as_str(),
                )
            },
        }
    }
}

impl DmtError {
    pub open spec fn message_spec(&self) -> Seq<char> {
        match self {
            DmtError::ConfigError(c) => "An error occurred reading config: "@ + c.message_spec(),
            DmtError::MigrationError(m) => "An error occurred migrating database: "@
                + m.message_spec(),
        }
    }

    /// The line reported to the operator when a command fails.
    pub fn message(&self) -> (r: String)
        ensures
            r@ == self.message_spec(),
    {
        match self {
            DmtError::ConfigError(c) => {
                let m = c.message();
                String::from_str("An error occurred reading config: ").concat(m.as_str())
            },
            DmtError::MigrationError(e) => {
                let m = e.message();
                String::from_str("An error occurred migrating database: ").concat(m.as_str())
            },
        }
    }
}

/// The text of a backend failure.
pub open spec fn connection_text(c: ConnectionError) -> Seq<char> {
    match c {
        ConnectionError::PostgresError(m) => m@,
        ConnectionError::TursoError(m) => m@,
    }
}

impl From<ConfigError> for DmtError {
    fn from(e: ConfigError) -> (r: DmtError)
        ensures
            r == DmtError::ConfigError(e),
    {
        DmtError::ConfigError(e)
    }
}

impl From<MigrationError> for DmtError {
    fn from(e: MigrationError) -> (r: DmtError)
        ensures
            r == DmtError::MigrationError(e),
    {
        DmtError::MigrationError(e)
    }
}

impl vstd::std_specs::convert::FromSpecImpl<ConfigError> for DmtError {
    open spec fn obeys_from_spec() -> bool {
        true
    }

    open spec fn from_spec(e: ConfigError) -> DmtError {
        DmtError::ConfigError(e)
    }
}

impl vstd::std_specs::convert::FromSpecImpl<MigrationError> for DmtError {
    open spec fn obeys_from_spec() -> bool {
        true
    }

    open spec fn from_spec(e: MigrationError) -> DmtError {
        DmtError::MigrationError(e)
    }
}

} // verus!
