//! The failure taxonomy of the backend and its serialized form.

use vstd::prelude::*;

verus! {

/// Everything that can go wrong, each kind with its detail text.
#[derive(Debug)]
pub enum DbViewerError {
    /// The server or the pool failed; holds the backend's message.
    Database(String),
    ConnectionNotFound(String),
    ConnectionAlreadyExists(String),
    InvalidConnectionString(String),
    Keyring(String),
    /// A value could not be written or read as JSON; holds the codec's message.
    Serialization(String),
    InvalidQuery(String),
    TableNotFound(String),
    SchemaNotFound(String),
    Lock(String),
    Configuration(String),
    Export(String),
}

/// The serialized form of a failure.
#[derive(Debug)]
pub struct ErrorResponse {
    pub code: String,
    pub message: String,
    pub details: Option<String>,
}

/// `e` says that no connection has the id.
pub open spec fn is_connection_not_found(e: DbViewerError, id: Seq<char>) -> bool {
    e matches DbViewerError::ConnectionNotFound(d) && d@ == id
}

/// `e` says that a connection with the id exists already.
pub open spec fn is_connection_already_exists(e: DbViewerError, id: Seq<char>) -> bool {
    e matches DbViewerError::ConnectionAlreadyExists(d) && d@ == id
}

/// `e` is a refusal of the keyring with the given message.
pub open spec fn is_keyring_error(e: DbViewerError, message: Seq<char>) -> bool {
    e matches DbViewerError::Keyring(d) && d@ == message
}

/// `e` is a failure of the export codec with the given message.
pub open spec fn is_export_error(e: DbViewerError, message: Seq<char>) -> bool {
    e matches DbViewerError::Export(d) && d@ == message
}

impl DbViewerError {
    /// The detail text the error carries.
    pub open spec fn detail(self) -> Seq<char> {
        match self {
            DbViewerError::Database(d) => d@,
            DbViewerError::ConnectionNotFound(d) => d@,
            DbViewerError::ConnectionAlreadyExists(d) => d@,
            DbViewerError::InvalidConnectionString(d) => d@,
            DbViewerError::Keyring(d) => d@,
            DbViewerError::Serialization(d) => d@,
            DbViewerError::InvalidQuery(d) => d@,
            DbViewerError::TableNotFound(d) => d@,
            DbViewerError::SchemaNotFound(d) => d@,
            DbViewerError::Lock(d) => d@,
            DbViewerError::Configuration(d) => d@,
            DbViewerError::Export(d) => d@,
        }
    }

    /// What the message of each kind begins with.
    pub open spec fn label(self) -> Seq<char> {
        match self {
            DbViewerError::Database(_) => "Database error: "@,
            DbViewerError::ConnectionNotFound(_) => "Connection not found: "@,
            DbViewerError::ConnectionAlreadyExists(_) => "Connection already exists: "@,
            DbViewerError::InvalidConnectionString(_) => "Invalid connection string: "@,
            DbViewerError::Keyring(_) => "Keyring error: "@,
            DbViewerError::Serialization(_) => "Serialization error: "@,
            DbViewerError::InvalidQuery(_) => "Invalid query: "@,
            DbViewerError::TableNotFound(_) => "Table not found: "@,
            DbViewerError::SchemaNotFound(_) => "Schema not found: "@,
            DbViewerError::Lock(_) => "Lock error: "@,
            DbViewerError::Configuration(_) => "Configuration error: "@,
            DbViewerError::Export(_) => "Export error: "@,
        }
    }

    /// The stable code of each kind. A failure of the export codec is
    /// reported as a configuration failure, as those of the commit store are.
    pub open spec fn code_text(self) -> Seq<char> {
        match self {
            DbViewerError::Database(_) => "DATABASE_ERROR"@,
            DbViewerError::ConnectionNotFound(_) => "CONNECTION_NOT_FOUND"@,
            DbViewerError::ConnectionAlreadyExists(_) => "CONNECTION_ALREADY_EXISTS"@,
            DbViewerError::InvalidConnectionString(_) => "INVALID_CONNECTION_STRING"@,
            DbViewerError::Keyring(_) => "KEYRING_ERROR"@,
            DbViewerError::Serialization(_) => "SERIALIZATION_ERROR"@,
            DbViewerError::InvalidQuery(_) => "INVALID_QUERY"@,
            DbViewerError::TableNotFound(_) => "TABLE_NOT_FOUND"@,
            DbViewerError::SchemaNotFound(_) => "SCHEMA_NOT_FOUND"@,
            DbViewerError::Lock(_) => "LOCK_ERROR"@,
            DbViewerError::Configuration(_) => "CONFIGURATION_ERROR"@,
            DbViewerError::Export(_) => "CONFIGURATION_ERROR"@,
        }
    }

    /// The human-readable message: the label of the kind, then the detail.
    pub open spec fn message_text(self) -> Seq<char> {
        self.label() + self.detail()
    }

    /// The detail that the serialized form repeats: that of the two kinds
    /// that wrap a backend error.
    pub open spec fn details_text(self) -> Option<Seq<char>> {
        match self {
            DbViewerError::Database(d) => Some(d@),
            DbViewerError::Serialization(d) => Some(d@),
            _ => None,
        }
    }

    /// The detail text.
    pub fn detail_str(&self) -> (r: &str)
        ensures
            r@ == self.detail(),
    {
        match self {
            DbViewerError::Database(d) => d.as_str(),
            DbViewerError::ConnectionNotFound(d) => d.as_str(),
            DbViewerError::ConnectionAlreadyExists(d) => d.as_str(),
            DbViewerError::InvalidConnectionString(d) => d.as_str(),
            DbViewerError::Keyring(d) => d.as_str(),
            DbViewerError::Serialization(d) => d.as_str(),
            DbViewerError::InvalidQuery(d) => d.as_str(),
            DbViewerError::TableNotFound(d) => d.as_str(),
            DbViewerError::SchemaNotFound(d) => d.as_str(),
            DbViewerError::Lock(d) => d.as_str(),
            DbViewerError::Configuration(d) => d.as_str(),
            DbViewerError::Export(d) => d.as_str(),
        }
    }

    /// The stable code of the error.
    pub fn code(&self) -> (r: String)
        ensures
            r@ == self.code_text(),
    {
        let text: &str = match self {
            DbViewerError::Database(_) => "DATABASE_ERROR",
            DbViewerError::ConnectionNotFound(_) => "CONNECTION_NOT_FOUND",
            DbViewerError::ConnectionAlreadyExists(_) => "CONNECTION_ALREADY_EXISTS",
            DbViewerError::InvalidConnectionString(_) => "INVALID_CONNECTION_STRING",
            DbViewerError::Keyring(_) => "KEYRING_ERROR",
            DbViewerError::Serialization(_) => "SERIALIZATION_ERROR",
            DbViewerError::InvalidQuery(_) => "INVALID_QUERY",
            DbViewerError::TableNotFound(_) => "TABLE_NOT_FOUND",
            DbViewerError::SchemaNotFound(_) => "SCHEMA_NOT_FOUND",
            DbViewerError::Lock(_) => "LOCK_ERROR",
            DbViewerError::Configuration(_) => "CONFIGURATION_ERROR",
            DbViewerError::Export(_) => "CONFIGURATION_ERROR",
        };
        text.to_owned()
    }

    /// The human-readable message of the error.
    pub fn to_string(&self) -> (r: String)
        ensures
            r@ == self.message_text(),
    {
        let label: &str = match self {
            DbViewerError::Database(_) => "Database error: ",
            DbViewerError::ConnectionNotFound(_) => "Connection not found: ",
            DbViewerError::ConnectionAlreadyExists(_) => "Connection already exists: ",
            DbViewerError::InvalidConnectionString(_) => "Invalid connection string: ",
            DbViewerError::Keyring(_) => "Keyring error: ",
            DbViewerError::Serialization(_) => "Serialization error: ",
            DbViewerError::InvalidQuery(_) => "Invalid query: ",
            DbViewerError::TableNotFound(_) => "Table not found: ",
            DbViewerError::SchemaNotFound(_) => "Schema not found: ",
            DbViewerError::Lock(_) => "Lock error: ",
            DbViewerError::Configuration(_) => "Configuration error: ",
            DbViewerError::Export(_) => "Export error: ",
        };
        let mut out = label.to_owned();
        out.append(self.detail_str());
        out
    }
}

impl ErrorResponse {
    /// The serialized form of `err`: its code, its message, and the backend's
    /// detail where the error wraps one.
    pub fn from(err: &DbViewerError) -> (r: ErrorResponse)
        ensures
            r.code@ == err.code_text(),
            r.message@ == err.message_text(),
            match err.details_text() {
                Some(d) => r.details matches Some(t) && t@ == d,
                None => r.details is None,
            },
    {
        let details = match err {
            DbViewerError::Database(d) => Some(d.clone()),
            DbViewerError::Serialization(d) => Some(d.clone()),
            _ => None,
        };
        ErrorResponse { code: err.code(), message: err.to_string(), details }
    }
}

} // verus!
