//! The requests and responses of the command surface, and what the commands
//! make of them before anything is sent to a server, a keyring or a file.

use vstd::prelude::*;
use crate::commit_store::{SaveCommitChange, SaveCommitRequest};
use crate::connection::{ConnectionConfig, SslMode, DEFAULT_MAX_CONNECTIONS};
use crate::data::{
    count_query_sql, data_query_sql, order_clause_sql, DataOperations, PageQuery,
    DEFAULT_PAGE_SIZE,
};
use crate::export::ExportedProject;
use crate::filter::{where_clause_sql, FilterCondition};
use crate::trusted::random_uuid;

verus! {

// ---------------------------------------------------------------------------
// Data
// ---------------------------------------------------------------------------

#[derive(Debug)]
pub struct ConnectRequest {
    pub name: String,
    pub host: String,
    pub port: u16,
    pub database: String,
    pub username: String,
    pub password: String,
    pub ssl_mode: Option<SslMode>,
    pub save_connection: Option<bool>,
}

#[derive(Debug)]
pub struct ConnectResponse {
    pub connection_id: String,
    pub message: String,
}

#[derive(Debug)]
pub struct TestConnectionRequest {
    pub host: String,
    pub port: u16,
    pub database: String,
    pub username: String,
    pub password: String,
    pub ssl_mode: Option<SslMode>,
}

#[derive(Debug)]
pub struct FetchDataRequest {
    pub connection_id: String,
    pub schema: String,
    pub table: String,
    pub page: Option<i64>,
    pub page_size: Option<i64>,
    pub order_by: Option<Vec<String>>,
    pub order_direction: Option<Vec<String>>,
    pub filters: Option<Vec<FilterCondition>>,
}

#[derive(Debug)]
pub struct DatabaseInfo {
    pub version: String,
    pub current_database: String,
    pub current_user: String,
    pub server_encoding: String,
    pub client_encoding: String,
}

#[derive(Debug)]
pub struct SaveCommitCommandRequest {
    pub project_id: String,
    pub message: String,
    pub summary: String,
    pub changes: Vec<SaveCommitChange>,
}

#[derive(Debug)]
pub struct ProjectForExport {
    pub id: String,
    pub name: String,
    pub color: String,
    pub host: String,
    pub port: u16,
    pub database: String,
    pub username: String,
    pub ssl: bool,
    pub instant_commit: bool,
    pub read_only: bool,
    pub last_connected: Option<String>,
    pub created_at: String,
}

#[derive(Debug)]
pub struct ImportedProject {
    pub id: String,
    pub name: String,
    pub color: String,
    pub host: String,
    pub port: u16,
    pub database: String,
    pub username: String,
    pub ssl: bool,
    pub instant_commit: bool,
    pub read_only: bool,
    pub last_connected: Option<String>,
    pub created_at: String,
}

#[derive(Debug)]
pub struct ExistingConnection {
    pub host: String,
    pub port: u16,
    pub database: String,
}

// ---------------------------------------------------------------------------
// Connections
// ---------------------------------------------------------------------------

/// The SSL mode a request asks for, `Prefer` where it names none.
pub open spec fn requested_ssl_mode(mode: Option<SslMode>) -> SslMode {
    match mode {
        Some(m) => m,
        None => SslMode::Prefer,
    }
}

/// The list behind an optional list, empty where there is none.
pub open spec fn owned_or_empty<T>(list: Option<Vec<T>>) -> Seq<T> {
    match list {
        Some(v) => v@,
        None => Seq::empty(),
    }
}

impl ConnectRequest {
    /// The settings for the connection a request asks for, under a fresh id:
    /// the request's password with them, and its SSL mode where it names one.
    pub fn into_config(self) -> (r: ConnectionConfig)
        ensures
            r.id@.len() == 36,
            r.name == self.name,
            r.host == self.host,
            r.port == self.port,
            r.database == self.database,
            r.username == self.username,
            r.password == Some(self.password),
            r.ssl_mode == requested_ssl_mode(self.ssl_mode),
            r.max_connections == DEFAULT_MAX_CONNECTIONS,
    {
        let mut config = ConnectionConfig::new(
            self.name,
            self.host,
            self.port,
            self.database,
            self.username,
            Some(self.password),
        );
        match self.ssl_mode {
            Some(mode) => {
                config.ssl_mode = mode;
            },
            None => {},
        }
        config
    }

    /// Whether the connection is to be saved: only where the request says
    /// so.
    pub fn wants_saving(&self) -> (r: bool)
        ensures
            r == (self.save_connection == Some(true)),
    {
        match self.save_connection {
            Some(b) => b,
            None => false,
        }
    }
}

impl TestConnectionRequest {
    /// The settings for a connection that is only tried: named `test`,
    /// without a password, with the request's SSL mode where it names one.
    pub fn into_config(self) -> (r: ConnectionConfig)
        ensures
            r.id@.len() == 36,
            r.name@ == "test"@,
            r.host == self.host,
            r.port == self.port,
            r.database == self.database,
            r.username == self.username,
            r.password is None,
            r.ssl_mode == requested_ssl_mode(self.ssl_mode),
            r.max_connections == DEFAULT_MAX_CONNECTIONS,
    {
        let mut config = ConnectionConfig::new(
            "test".to_owned(),
            self.host,
            self.port,
            self.database,
            self.username,
            None,
        );
        match self.ssl_mode {
            Some(mode) => {
                config.ssl_mode = mode;
            },
            None => {},
        }
        config
    }
}

impl ConnectResponse {
    /// The answer to a connect that went well.
    pub fn connected(connection_id: String) -> (r: ConnectResponse)
        ensures
            r.connection_id == connection_id,
            r.message@ == "Connected successfully"@,
    {
        ConnectResponse { connection_id, message: "Connected successfully".to_owned() }
    }
}

// ---------------------------------------------------------------------------
// Data
// ---------------------------------------------------------------------------

/// The two statements for a request for table data: page 1 where the
/// request names no page.
pub fn fetch_table_data(request: &FetchDataRequest) -> (q: PageQuery)
    ensures
        q.page == (match request.page {
            Some(p) => p,
            None => 1i64,
        }),
        q.page_size == (match request.page_size {
            Some(s) => s,
            None => DEFAULT_PAGE_SIZE,
        }),
        q.count_sql@ == count_query_sql(
            request.schema@,
            request.table@,
            where_clause_sql(owned_or_empty(request.filters)),
        ),
        q.data_sql@ == data_query_sql(
            request.schema@,
            request.table@,
            where_clause_sql(owned_or_empty(request.filters)),
            order_clause_sql(
                owned_or_empty(request.order_by),
                owned_or_empty(request.order_direction),
            ),
            q.page_size as int,
            (q.page - 1) * q.page_size,
        ),
{
    let page: i64 = match request.page {
        Some(p) => p,
        None => 1,
    };
    DataOperations::fetch_paginated(
        request.schema.as_str(),
        request.table.as_str(),
        page,
        request.page_size,
        request.order_by.as_ref(),
        request.order_direction.as_ref(),
        request.filters.as_ref(),
    )
}

// ---------------------------------------------------------------------------
// History
// ---------------------------------------------------------------------------

impl SaveCommitCommandRequest {
    /// The request as the commit store takes it.
    pub fn into_request(self) -> (r: SaveCommitRequest)
        ensures
            r.project_id == self.project_id,
            r.message == self.message,
            r.summary == self.summary,
            r.changes == self.changes,
    {
        SaveCommitRequest {
            project_id: self.project_id,
            message: self.message,
            summary: self.summary,
            changes: self.changes,
        }
    }
}

// ---------------------------------------------------------------------------
// Export and import
// ---------------------------------------------------------------------------

impl ProjectForExport {
    /// The project as it goes into an export, with the password that is
    /// saved for it (the empty password where none is saved).
    pub fn with_password(self, password: String) -> (r: ExportedProject)
        ensures
            r.name == self.name,
            r.color == self.color,
            r.host == self.host,
            r.port == self.port,
            r.database == self.database,
            r.username == self.username,
            r.password == password,
            r.ssl == self.ssl,
            r.instant_commit == self.instant_commit,
            r.read_only == self.read_only,
            r.last_connected == self.last_connected,
            r.created_at == self.created_at,
    {
        ExportedProject {
            name: self.name,
            color: self.color,
            host: self.host,
            port: self.port,
            database: self.database,
            username: self.username,
            password,
            ssl: self.ssl,
            instant_commit: self.instant_commit,
            read_only: self.read_only,
            last_connected: self.last_connected,
            created_at: self.created_at,
        }
    }
}

impl ImportedProject {
    /// The project of an import under a fresh id of 36 characters, and the
    /// password to save under that id: none where the project came without
    /// one.
    pub fn from_export(project: ExportedProject) -> (r: (ImportedProject, Option<String>))
        ensures
            r.0.id@.len() == 36,
            r.0.name == project.name,
            r.0.color == project.color,
            r.0.host == project.host,
            r.0.port == project.port,
            r.0.database == project.database,
            r.0.username == project.username,
            r.0.ssl == project.ssl,
            r.0.instant_commit == project.instant_commit,
            r.0.read_only == project.read_only,
            r.0.last_connected == project.last_connected,
            r.0.created_at == project.created_at,
            match r.1 {
                Some(p) => p == project.password && project.password@.len() > 0,
                None => project.password@.len() == 0,
            },
    {
        let password = if project.password.as_str().is_empty() {
            None
        } else {
            Some(project.password)
        };
        let imported = ImportedProject {
            id: random_uuid(),
            name: project.name,
            color: project.color,
            host: project.host,
            port: project.port,
            database: project.database,
            username: project.username,
            ssl: project.ssl,
            instant_commit: project.instant_commit,
            read_only: project.read_only,
            last_connected: project.last_connected,
            created_at: project.created_at,
        };
        (imported, password)
    }
}

// ---------------------------------------------------------------------------
// Discovery
// ---------------------------------------------------------------------------

/// The saved connections as host, port and database.
pub fn existing_tuples(existing: Vec<ExistingConnection>) -> (r: Vec<(String, u16, String)>)
    ensures
        r@.len() == existing@.len(),
        forall|i: int|
            0 <= i < r@.len() ==> (#[trigger] r@[i]).0 == existing@[i].host && r@[i].1
                == existing@[i].port && r@[i].2 == existing@[i].database,
{
    let ghost all = existing@;
    let mut rest = existing;
    let mut out: Vec<(String, u16, String)> = Vec::new();
    while rest.len() > 0
        invariant
            out@.len() + rest@.len() == all.len(),
            forall|k: int| 0 <= k < rest@.len() ==> rest@[k] == all[out@.len() + k],
            forall|i: int|
                0 <= i < out@.len() ==> (#[trigger] out@[i]).0 == all[i].host && out@[i].1
                    == all[i].port && out@[i].2 == all[i].database,
        decreases rest.len(),
    {
        let e = rest.remove(0);
        out.push((e.host, e.port, e.database));
    }
    out
}

} // verus!
