//! Connection settings, the registry of live connections, and the store of
//! saved connections with their passwords.
//!
//! The registry owns one pool per live connection. What a pool is the
//! registry does not care: it keeps the handle it is given and hands it back.
//! The credential store is the image of what the keyring holds: the saved
//! configurations, none of them with a password, and one password per
//! connection id.

use vstd::prelude::*;
use crate::error::{
    is_connection_already_exists, is_connection_not_found, is_keyring_error, DbViewerError,
};
use crate::text::{decimal, int_to_decimal, text_eq};
use crate::trusted::{now_rfc3339, percent_encode, percent_encoded, random_uuid};

verus! {

/// The maximum number of pooled connections of a new configuration.
pub const DEFAULT_MAX_CONNECTIONS: u32 = 10;

// ---------------------------------------------------------------------------
// Data
// ---------------------------------------------------------------------------

/// How much a connection insists on TLS.
#[derive(Debug, Clone, Copy, PartialEq, Eq)]
pub enum SslMode {
    Disable,
    Prefer,
    Require,
}

/// The settings of one connection. The password is never written out with
/// them; it is kept apart.
#[derive(Debug)]
pub struct ConnectionConfig {
    pub id: String,
    pub name: String,
    pub host: String,
    pub port: u16,
    pub database: String,
    pub username: String,
    pub password: Option<String>,
    pub ssl_mode: SslMode,
    pub max_connections: u32,
}

/// A saved connection: its settings, when it was saved and when it was last
/// used, the moments as RFC 3339 text.
#[derive(Debug)]
pub struct SavedConnection {
    pub config: ConnectionConfig,
    pub created_at: String,
    pub last_used_at: Option<String>,
}

/// A live connection: its settings, its pool, and when it was made.
#[derive(Debug)]
pub struct ActiveConnection<P> {
    pub config: ConnectionConfig,
    pub pool: P,
    /// The moment of the connect, as RFC 3339 text.
    pub connected_at: String,
}

/// What callers are told of a live connection.
#[derive(Debug)]
pub struct ConnectionInfo {
    pub id: String,
    pub name: String,
    pub host: String,
    pub port: u16,
    pub database: String,
    pub username: String,
    pub connected_at: String,
}

/// The registry of live connections, at most one per id.
pub struct ConnectionManager<P> {
    active_connections: Vec<ActiveConnection<P>>,
}

/// A password under a connection id.
#[derive(Debug)]
pub struct SavedPassword {
    pub connection_id: String,
    pub password: String,
}

/// The saved connections and their passwords.
pub struct CredentialStorage {
    passwords: Vec<SavedPassword>,
    configs: Vec<ConnectionConfig>,
}

// ---------------------------------------------------------------------------
// The mathematical values
// ---------------------------------------------------------------------------

/// What a `ConnectionConfig` stands for.
pub struct ConfigModel {
    pub id: Seq<char>,
    pub name: Seq<char>,
    pub host: Seq<char>,
    pub port: u16,
    pub database: Seq<char>,
    pub username: Seq<char>,
    pub password: Option<Seq<char>>,
    pub ssl_mode: SslMode,
    pub max_connections: u32,
}

/// What an `ActiveConnection` stands for.
pub struct ActiveModel<P> {
    pub config: ConfigModel,
    pub pool: P,
    pub connected_at: Seq<char>,
}

/// What a `ConnectionInfo` stands for.
pub struct InfoModel {
    pub id: Seq<char>,
    pub name: Seq<char>,
    pub host: Seq<char>,
    pub port: u16,
    pub database: Seq<char>,
    pub username: Seq<char>,
    pub connected_at: Seq<char>,
}

/// What a `SavedPassword` stands for.
pub struct PasswordModel {
    pub connection_id: Seq<char>,
    pub password: Seq<char>,
}

/// What a `CredentialStorage` stands for.
pub struct StorageModel {
    pub passwords: Seq<PasswordModel>,
    pub configs: Seq<ConfigModel>,
}

impl View for ConnectionConfig {
    type V = ConfigModel;

    open spec fn view(&self) -> ConfigModel {
        ConfigModel {
            id: self.id@,
            name: self.name@,
            host: self.host@,
            port: self.port,
            database: self.database@,
            username: self.username@,
            password: match self.password {
                Some(p) => Some(p@),
                None => None,
            },
            ssl_mode: self.ssl_mode,
            max_connections: self.max_connections,
        }
    }
}

impl<P> View for ActiveConnection<P> {
    type V = ActiveModel<P>;

    open spec fn view(&self) -> ActiveModel<P> {
        ActiveModel { config: self.config@, pool: self.pool, connected_at: self.connected_at@ }
    }
}

impl View for ConnectionInfo {
    type V = InfoModel;

    open spec fn view(&self) -> InfoModel {
        InfoModel {
            id: self.id@,
            name: self.name@,
            host: self.host@,
            port: self.port,
            database: self.database@,
            username: self.username@,
            connected_at: self.connected_at@,
        }
    }
}

impl View for SavedPassword {
    type V = PasswordModel;

    open spec fn view(&self) -> PasswordModel {
        PasswordModel { connection_id: self.connection_id@, password: self.password@ }
    }
}

/// The models of a list of configurations.
pub open spec fn config_models(configs: Seq<ConnectionConfig>) -> Seq<ConfigModel> {
    Seq::new(configs.len(), |i: int| configs[i]@)
}

/// The models of a list of live connections.
pub open spec fn active_models<P>(connections: Seq<ActiveConnection<P>>) -> Seq<ActiveModel<P>> {
    Seq::new(connections.len(), |i: int| connections[i]@)
}

/// The models of a list of passwords.
pub open spec fn password_models(passwords: Seq<SavedPassword>) -> Seq<PasswordModel> {
    Seq::new(passwords.len(), |i: int| passwords[i]@)
}

/// The models of a list of connection infos.
pub open spec fn info_models(infos: Seq<ConnectionInfo>) -> Seq<InfoModel> {
    Seq::new(infos.len(), |i: int| infos[i]@)
}

impl<P> View for ConnectionManager<P> {
    type V = Seq<ActiveModel<P>>;

    closed spec fn view(&self) -> Seq<ActiveModel<P>> {
        active_models(self.active_connections@)
    }
}

impl View for CredentialStorage {
    type V = StorageModel;

    closed spec fn view(&self) -> StorageModel {
        StorageModel {
            passwords: password_models(self.passwords@),
            configs: config_models(self.configs@),
        }
    }
}

// ---------------------------------------------------------------------------
// SSL mode and connection URL
// ---------------------------------------------------------------------------

/// The value of the server's `sslmode` parameter for a mode.
pub open spec fn ssl_mode_text(mode: SslMode) -> Seq<char> {
    match mode {
        SslMode::Disable => "disable"@,
        SslMode::Prefer => "prefer"@,
        SslMode::Require => "require"@,
    }
}

/// A text, percent-encoded for a place in a URL: its UTF-8 bytes encoded one
/// by one.
pub open spec fn url_encoded(s: Seq<char>) -> Seq<char> {
    percent_encoded(vstd::utf8::encode_utf8(s))
}

/// The URL of a connection: user, password and database percent-encoded,
/// host and port as they are, and the SSL mode as the `sslmode` parameter.
pub open spec fn connection_url(config: ConfigModel, password: Seq<char>) -> Seq<char> {
    "postgres://"@ + url_encoded(config.username) + ":"@ + url_encoded(password) + "@"@
        + config.host + ":"@ + decimal(config.port as int) + "/"@ + url_encoded(config.database)
        + "?sslmode="@ + ssl_mode_text(config.ssl_mode)
}

impl Default for SslMode {
    /// `Prefer`.
    fn default() -> (r: SslMode)
        ensures
            r == SslMode::Prefer,
    {
        SslMode::Prefer
    }
}

impl SslMode {
    /// The value of the server's `sslmode` parameter.
    pub fn as_str(&self) -> (r: &'static str)
        ensures
            r@ == ssl_mode_text(*self),
    {
        match self {
            SslMode::Disable => "disable",
            SslMode::Prefer => "prefer",
            SslMode::Require => "require",
        }
    }

    /// The value of the server's `sslmode` parameter.
    pub fn to_string(&self) -> (r: String)
        ensures
            r@ == ssl_mode_text(*self),
    {
        self.as_str().to_owned()
    }
}

fn clone_optional(o: &Option<String>) -> (r: Option<String>)
    ensures
        match (r, *o) {
            (Some(a), Some(b)) => a@ == b@,
            (None, None) => true,
            _ => false,
        },
{
    match o {
        Some(s) => Some(s.clone()),
        None => None,
    }
}

impl Clone for ConnectionConfig {
    fn clone(&self) -> (r: ConnectionConfig)
        ensures
            r@ == self@,
    {
        ConnectionConfig {
            id: self.id.clone(),
            name: self.name.clone(),
            host: self.host.clone(),
            port: self.port,
            database: self.database.clone(),
            username: self.username.clone(),
            password: clone_optional(&self.password),
            ssl_mode: self.ssl_mode,
            max_connections: self.max_connections,
        }
    }
}

impl ConnectionConfig {
    /// New settings under a fresh random id of 36 characters, with SSL mode
    /// `Prefer` and at most ten pooled connections.
    pub fn new(
        name: String,
        host: String,
        port: u16,
        database: String,
        username: String,
        password: Option<String>,
    ) -> (r: ConnectionConfig)
        ensures
            r.id@.len() == 36,
            r.name == name,
            r.host == host,
            r.port == port,
            r.database == database,
            r.username == username,
            r.password == password,
            r.ssl_mode == SslMode::Prefer,
            r.max_connections == DEFAULT_MAX_CONNECTIONS,
    {
        ConnectionConfig {
            id: random_uuid(),
            name,
            host,
            port,
            database,
            username,
            password,
            ssl_mode: SslMode::Prefer,
            max_connections: DEFAULT_MAX_CONNECTIONS,
        }
    }

    /// The URL to connect with, for the given password.
    pub fn connection_string(&self, password: &str) -> (r: String)
        ensures
            r@ == connection_url(self@, password@),
    {
        let user = percent_encode(self.username.as_str());
        let secret = percent_encode(password);
        let database = percent_encode(self.database.as_str());
        let port = int_to_decimal(self.port as i128);
        let mut out = "postgres://".to_owned();
        out.append(user.as_str());
        out.append(":");
        out.append(secret.as_str());
        out.append("@");
        out.append(self.host.as_str());
        out.append(":");
        out.append(port.as_str());
        out.append("/");
        out.append(database.as_str());
        out.append("?sslmode=");
        out.append(self.ssl_mode.as_str());
        out
    }
}

// ---------------------------------------------------------------------------
// The registry, mathematically
// ---------------------------------------------------------------------------

/// The position of the first live connection with the id, if there is one.
pub open spec fn live_position<P>(connections: Seq<ActiveModel<P>>, id: Seq<char>) -> Option<int>
    decreases connections.len(),
{
    if connections.len() == 0 {
        None
    } else if connections[0].config.id == id {
        Some(0)
    } else {
        match live_position(connections.drop_first(), id) {
            Some(i) => Some(i + 1),
            None => None,
        }
    }
}

/// A connection with the id is live.
pub open spec fn is_live<P>(connections: Seq<ActiveModel<P>>, id: Seq<char>) -> bool {
    live_position(connections, id) is Some
}

/// No id is live twice.
pub open spec fn ids_distinct<P>(connections: Seq<ActiveModel<P>>) -> bool {
    forall|i: int, j: int|
        0 <= i < j < connections.len() ==> (#[trigger] connections[i]).config.id != (
        #[trigger] connections[j]).config.id
}

/// What callers are told of a live connection.
pub open spec fn info_of<P>(connection: ActiveModel<P>) -> InfoModel {
    InfoModel {
        id: connection.config.id,
        name: connection.config.name,
        host: connection.config.host,
        port: connection.config.port,
        database: connection.config.database,
        username: connection.config.username,
        connected_at: connection.connected_at,
    }
}

/// `live_position` finds a connection with the id, the first one, exactly
/// when there is any.
pub proof fn lemma_live_position<P>(connections: Seq<ActiveModel<P>>, id: Seq<char>)
    ensures
        match live_position(connections, id) {
            Some(i) => 0 <= i < connections.len() && connections[i].config.id == id && forall|
                j: int,
            | 0 <= j < i ==> (#[trigger] connections[j]).config.id != id,
            None => forall|j: int|
                0 <= j < connections.len() ==> (#[trigger] connections[j]).config.id != id,
        },
    decreases connections.len(),
{
    if connections.len() > 0 && connections[0].config.id != id {
        let rest = connections.drop_first();
        lemma_live_position(rest, id);
        match live_position(rest, id) {
            Some(i) => {
                assert(connections[i + 1] == rest[i]);
                assert forall|j: int| 0 <= j < i + 1 implies (
                #[trigger] connections[j]).config.id != id by {
                    if j > 0 {
                        assert(connections[j] == rest[j - 1]);
                    }
                }
            },
            None => {
                assert forall|j: int| 0 <= j < connections.len() implies (
                #[trigger] connections[j]).config.id != id by {
                    if j > 0 {
                        assert(connections[j] == rest[j - 1]);
                    }
                }
            },
        }
    }
}

/// After a disconnect the id is no longer live, and asking for its pool
/// finds nothing.
pub proof fn lemma_disconnect_then_not_live<P>(connections: Seq<ActiveModel<P>>, id: Seq<char>)
    requires
        ids_distinct(connections),
        is_live(connections, id),
    ensures
        !is_live(connections.remove(live_position(connections, id).unwrap()), id),
        ids_distinct(connections.remove(live_position(connections, id).unwrap())),
{
    lemma_live_position(connections, id);
    let at = live_position(connections, id).unwrap();
    let after = connections.remove(at);
    lemma_live_position(after, id);
    assert forall|j: int| 0 <= j < after.len() implies (#[trigger] after[j]).config.id != id by {
        if j < at {
            assert(after[j] == connections[j]);
        } else {
            assert(after[j] == connections[j + 1]);
        }
    }
    assert forall|i: int, j: int| 0 <= i < j < after.len() implies (
    #[trigger] after[i]).config.id != (#[trigger] after[j]).config.id by {
        let a = if i < at {
            i
        } else {
            i + 1
        };
        let b = if j < at {
            j
        } else {
            j + 1
        };
        assert(after[i] == connections[a]);
        assert(after[j] == connections[b]);
    }
}

/// A connect that is accepted keeps ids distinct and makes the id live.
pub proof fn lemma_connect_keeps_distinct<P>(
    connections: Seq<ActiveModel<P>>,
    connection: ActiveModel<P>,
)
    requires
        ids_distinct(connections),
        !is_live(connections, connection.config.id),
    ensures
        ids_distinct(connections.push(connection)),
        is_live(connections.push(connection), connection.config.id),
{
    lemma_live_position(connections, connection.config.id);
    let after = connections.push(connection);
    lemma_live_position(after, connection.config.id);
    assert(after[connections.len() as int].config.id == connection.config.id);
    assert forall|i: int, j: int| 0 <= i < j < after.len() implies (
    #[trigger] after[i]).config.id != (#[trigger] after[j]).config.id by {
        assert(after[i] == connections[i]);
        if j < connections.len() {
            assert(after[j] == connections[j]);
        }
    }
}

impl<P> ConnectionManager<P> {
    /// A registry without connections.
    pub fn new() -> (r: ConnectionManager<P>)
        ensures
            r@.len() == 0,
            ids_distinct(r@),
    {
        ConnectionManager { active_connections: Vec::new() }
    }

    fn find(&self, connection_id: &str) -> (r: Option<usize>)
        ensures
            match r {
                Some(i) => live_position(self@, connection_id@) == Some(i as int) && i
                    < self.active_connections@.len(),
                None => live_position(self@, connection_id@) is None,
            },
    {
        let mut i: usize = 0;
        while i < self.active_connections.len()
            invariant
                i <= self.active_connections.len(),
                forall|j: int| 0 <= j < i ==> (#[trigger] self@[j]).config.id != connection_id@,
            decreases self.active_connections.len() - i,
        {
            if text_eq(self.active_connections[i].config.id.as_str(), connection_id) {
                proof {
                    assert(self@[i as int] == self.active_connections@[i as int]@);
                    lemma_live_position(self@, connection_id@);
                }
                return Some(i);
            }
            i += 1;
        }
        proof {
            lemma_live_position(self@, connection_id@);
        }
        None
    }

    /// Registers a connection that was opened and probed. A connection whose
    /// id is live already is refused, and the registry stays as it is;
    /// otherwise the connection becomes the last one of the registry, stamped
    /// with the present moment, and its id is returned.
    pub fn connect(&mut self, config: ConnectionConfig, pool: P) -> (r: Result<
        String,
        DbViewerError,
    >)
        ensures
            match r {
                Ok(id) => {
                    &&& !is_live(old(self)@, config@.id)
                    &&& id@ == config@.id
                    &&& final(self)@.len() == old(self)@.len() + 1
                    &&& final(self)@.drop_last() == old(self)@
                    &&& final(self)@.last().config == config@
                    &&& final(self)@.last().pool == pool
                },
                Err(e) => {
                    &&& is_live(old(self)@, config@.id)
                    &&& final(self)@ == old(self)@
                    &&& is_connection_already_exists(e, config@.id)
                },
            },
            ids_distinct(old(self)@) ==> ids_distinct(final(self)@),
    {
        let connection_id = config.id.clone();
        match self.find(connection_id.as_str()) {
            Some(_) => Err(DbViewerError::ConnectionAlreadyExists(connection_id)),
            None => {
                let ghost before = self@;
                let connection = ActiveConnection { config, pool, connected_at: now_rfc3339() };
                proof {
                    if ids_distinct(before) {
                        lemma_connect_keeps_distinct(before, connection@);
                    }
                }
                self.active_connections.push(connection);
                assert(self@ =~= before.push(connection@));
                assert(self@.drop_last() =~= before);
                Ok(connection_id)
            },
        }
    }

    /// Takes a connection out of the registry and hands its pool over, to be
    /// closed. An id that is not live is refused.
    pub fn disconnect(&mut self, connection_id: &str) -> (r: Result<P, DbViewerError>)
        ensures
            match r {
                Ok(pool) => {
                    &&& live_position(old(self)@, connection_id@) matches Some(at)
                    &&& pool == old(self)@[at].pool
                    &&& final(self)@ == old(self)@.remove(at)
                },
                Err(e) => {
                    &&& !is_live(old(self)@, connection_id@)
                    &&& final(self)@ == old(self)@
                    &&& is_connection_not_found(e, connection_id@)
                },
            },
            ids_distinct(old(self)@) ==> ids_distinct(final(self)@) && !is_live(
                final(self)@,
                connection_id@,
            ),
    {
        match self.find(connection_id) {
            Some(at) => {
                let ghost before = self@;
                proof {
                    if ids_distinct(before) {
                        lemma_disconnect_then_not_live(before, connection_id@);
                    }
                }
                let connection = self.active_connections.remove(at);
                assert(self@ =~= before.remove(at as int));
                assert(connection@ == before[at as int]);
                Ok(connection.pool)
            },
            None => Err(DbViewerError::ConnectionNotFound(connection_id.to_owned())),
        }
    }

    /// Empties the registry and hands all pools over, to be closed.
    pub fn disconnect_all(&mut self) -> (r: Vec<P>)
        ensures
            final(self)@.len() == 0,
            ids_distinct(final(self)@),
            r@.len() == old(self)@.len(),
            forall|i: int| 0 <= i < r@.len() ==> r@[i] == (#[trigger] old(self)@[i]).pool,
    {
        let ghost before = self@;
        let mut pools: Vec<P> = Vec::new();
        while self.active_connections.len() > 0
            invariant
                pools@.len() + self@.len() == before.len(),
                forall|i: int| 0 <= i < pools@.len() ==> pools@[i] == (#[trigger] before[i]).pool,
                forall|i: int|
                    0 <= i < self@.len() ==> (#[trigger] self@[i]) == before[pools@.len() + i],
            decreases self.active_connections.len(),
        {
            let ghost current = self@;
            let connection = self.active_connections.remove(0);
            assert(connection@ == current[0]);
            assert(self@ =~= current.remove(0));
            pools.push(connection.pool);
        }
        pools
    }

    /// The pool of a live connection. An id that is not live is refused.
    pub fn get_pool(&self, connection_id: &str) -> (r: Result<&P, DbViewerError>)
        ensures
            match r {
                Ok(pool) => live_position(self@, connection_id@) matches Some(at) && *pool
                    == self@[at].pool,
                Err(e) => !is_live(self@, connection_id@) && is_connection_not_found(
                    e,
                    connection_id@,
                ),
            },
    {
        match self.find(connection_id) {
            Some(at) => Ok(&self.active_connections[at].pool),
            None => Err(DbViewerError::ConnectionNotFound(connection_id.to_owned())),
        }
    }

    /// What callers are told of each live connection, in the order in which
    /// they were made.
    pub fn list_active_connections(&self) -> (r: Vec<ConnectionInfo>)
        ensures
            info_models(r@) == Seq::new(self@.len(), |i: int| info_of(self@[i])),
    {
        let mut infos: Vec<ConnectionInfo> = Vec::new();
        let mut i: usize = 0;
        while i < self.active_connections.len()
            invariant
                i <= self.active_connections.len(),
                infos.len() == i,
                forall|k: int| 0 <= k < i ==> (#[trigger] infos@[k])@ == info_of(self@[k]),
            decreases self.active_connections.len() - i,
        {
            let c = &self.active_connections[i];
            assert(self@[i as int] == c@);
            infos.push(
                ConnectionInfo {
                    id: c.config.id.clone(),
                    name: c.config.name.clone(),
                    host: c.config.host.clone(),
                    port: c.config.port,
                    database: c.config.database.clone(),
                    username: c.config.username.clone(),
                    connected_at: c.connected_at.clone(),
                },
            );
            i += 1;
        }
        assert(info_models(infos@) =~= Seq::new(self@.len(), |i: int| info_of(self@[i])));
        infos
    }

    /// Whether a connection with the id is live.
    pub fn is_connected(&self, connection_id: &str) -> (r: bool)
        ensures
            r == is_live(self@, connection_id@),
    {
        self.find(connection_id).is_some()
    }
}

// ---------------------------------------------------------------------------
// The credential store, mathematically
// ---------------------------------------------------------------------------

/// The configurations whose id is not `id`, in order.
pub open spec fn without_id(configs: Seq<ConfigModel>, id: Seq<char>) -> Seq<ConfigModel>
    decreases configs.len(),
{
    if configs.len() == 0 {
        Seq::empty()
    } else if configs.last().id == id {
        without_id(configs.drop_last(), id)
    } else {
        without_id(configs.drop_last(), id).push(configs.last())
    }
}

/// A configuration as it is saved: without its password, which is kept
/// apart under the connection's id.
pub open spec fn without_secret(config: ConfigModel) -> ConfigModel {
    ConfigModel { password: None, ..config }
}

/// The configurations as they are saved, each without its password.
pub open spec fn all_without_secret(configs: Seq<ConfigModel>) -> Seq<ConfigModel> {
    Seq::new(configs.len(), |i: int| without_secret(configs[i]))
}

/// No configuration holds a password.
pub open spec fn holds_no_password(configs: Seq<ConfigModel>) -> bool {
    forall|i: int| 0 <= i < configs.len() ==> (#[trigger] configs[i]).password is None
}

/// The saved configurations after `config` is saved: any with its id gone,
/// and `config`, without its password, the last.
pub open spec fn with_config(configs: Seq<ConfigModel>, config: ConfigModel) -> Seq<ConfigModel> {
    without_id(configs, config.id).push(without_secret(config))
}

/// The first configuration with the id, if there is one.
pub open spec fn config_for(configs: Seq<ConfigModel>, id: Seq<char>) -> Option<ConfigModel>
    decreases configs.len(),
{
    if configs.len() == 0 {
        None
    } else if configs[0].id == id {
        Some(configs[0])
    } else {
        config_for(configs.drop_first(), id)
    }
}

/// How many configurations have the id.
pub open spec fn count_with_id(configs: Seq<ConfigModel>, id: Seq<char>) -> nat
    decreases configs.len(),
{
    if configs.len() == 0 {
        0
    } else {
        count_with_id(configs.drop_last(), id) + (if configs.last().id == id {
            1nat
        } else {
            0nat
        })
    }
}

/// The passwords whose id is not `id`, in order.
pub open spec fn without_password(passwords: Seq<PasswordModel>, id: Seq<char>) -> Seq<
    PasswordModel,
>
    decreases passwords.len(),
{
    if passwords.len() == 0 {
        Seq::empty()
    } else if passwords.last().connection_id == id {
        without_password(passwords.drop_last(), id)
    } else {
        without_password(passwords.drop_last(), id).push(passwords.last())
    }
}

/// The passwords after one is saved under `id`: any under that id gone, and
/// the new one the last.
pub open spec fn with_password(passwords: Seq<PasswordModel>, id: Seq<char>, password: Seq<char>) -> Seq<
    PasswordModel,
> {
    without_password(passwords, id).push(PasswordModel { connection_id: id, password })
}

/// The last password under the id, if there is one.
pub open spec fn password_for(passwords: Seq<PasswordModel>, id: Seq<char>) -> Option<Seq<char>>
    decreases passwords.len(),
{
    if passwords.len() == 0 {
        None
    } else if passwords.last().connection_id == id {
        Some(passwords.last().password)
    } else {
        password_for(passwords.drop_last(), id)
    }
}

impl StorageModel {
    /// The store after a password is saved.
    pub open spec fn save_password(self, id: Seq<char>, password: Seq<char>) -> StorageModel {
        StorageModel { passwords: with_password(self.passwords, id, password), ..self }
    }

    /// The store after a password is deleted.
    pub open spec fn delete_password(self, id: Seq<char>) -> StorageModel {
        StorageModel { passwords: without_password(self.passwords, id), ..self }
    }

    /// The store after a configuration is saved.
    pub open spec fn save_connection_config(self, config: ConfigModel) -> StorageModel {
        StorageModel { configs: with_config(self.configs, config), ..self }
    }

    /// The store after a configuration is deleted, and its password with it.
    pub open spec fn delete_connection_config(self, id: Seq<char>) -> StorageModel {
        StorageModel {
            passwords: without_password(self.passwords, id),
            configs: without_id(self.configs, id),
        }
    }

    /// The store after a connection is saved with its password.
    pub open spec fn save_connection(self, config: ConfigModel, password: Seq<char>) -> StorageModel {
        self.save_connection_config(config).save_password(config.id, password)
    }
}

/// Nothing with the id is left by `without_id`.
pub proof fn lemma_without_id(configs: Seq<ConfigModel>, id: Seq<char>)
    ensures
        count_with_id(without_id(configs, id), id) == 0,
        config_for(without_id(configs, id), id) is None,
    decreases configs.len(),
{
    if configs.len() > 0 {
        lemma_without_id(configs.drop_last(), id);
        if configs.last().id != id {
            let rest = without_id(configs.drop_last(), id);
            let all = rest.push(configs.last());
            assert(all.drop_last() =~= rest);
            lemma_config_for_push(rest, configs.last(), id);
        }
    }
}

/// Looking a configuration up in a list with one more at its end.
pub proof fn lemma_config_for_push(configs: Seq<ConfigModel>, last: ConfigModel, id: Seq<char>)
    ensures
        config_for(configs.push(last), id) == (match config_for(configs, id) {
            Some(c) => Some(c),
            None => if last.id == id {
                Some(last)
            } else {
                None
            },
        }),
    decreases configs.len(),
{
    let all = configs.push(last);
    if configs.len() == 0 {
        assert(all.drop_first() =~= Seq::<ConfigModel>::empty());
    } else {
        assert(all[0] == configs[0]);
        assert(all.drop_first() =~= configs.drop_first().push(last));
        if configs[0].id != id {
            lemma_config_for_push(configs.drop_first(), last, id);
        }
    }
}

/// After a connection is saved with its password, the saved configurations
/// hold exactly one with its id, that one is the configuration saved without
/// its password, and the password under its id is the password saved.
pub proof fn lemma_save_connection(store: StorageModel, config: ConfigModel, password: Seq<char>)
    ensures
        count_with_id(store.save_connection(config, password).configs, config.id) == 1,
        config_for(store.save_connection(config, password).configs, config.id) == Some(
            without_secret(config),
        ),
        password_for(store.save_connection(config, password).passwords, config.id) == Some(
            password,
        ),
{
    lemma_without_id(store.configs, config.id);
    let kept = without_id(store.configs, config.id);
    let saved = without_secret(config);
    assert(kept.push(saved).drop_last() =~= kept);
    lemma_config_for_push(kept, saved, config.id);
}

/// What `without_id` leaves holds no password where the list held none.
pub proof fn lemma_without_id_holds_no_password(configs: Seq<ConfigModel>, id: Seq<char>)
    requires
        holds_no_password(configs),
    ensures
        holds_no_password(without_id(configs, id)),
    decreases configs.len(),
{
    if configs.len() > 0 {
        let before = configs.drop_last();
        assert forall|i: int| 0 <= i < before.len() implies (
        #[trigger] before[i]).password is None by {
            assert(before[i] == configs[i]);
        }
        lemma_without_id_holds_no_password(before, id);
        assert(configs.last() == configs[configs.len() - 1]);
    }
}

/// A password never enters the saved configurations: where they hold none,
/// they hold none after a configuration is saved or deleted, whatever the
/// configuration carries.
pub proof fn lemma_index_holds_no_password(store: StorageModel, config: ConfigModel)
    requires
        holds_no_password(store.configs),
    ensures
        holds_no_password(store.save_connection_config(config).configs),
        holds_no_password(store.delete_connection_config(config.id).configs),
{
    lemma_without_id_holds_no_password(store.configs, config.id);
}

/// A configuration that is found among configurations without passwords has
/// none.
pub proof fn lemma_config_for_holds_no_password(configs: Seq<ConfigModel>, id: Seq<char>)
    requires
        holds_no_password(configs),
    ensures
        config_for(configs, id) matches Some(c) ==> c.password is None,
    decreases configs.len(),
{
    if configs.len() > 0 && configs[0].id != id {
        let rest = configs.drop_first();
        assert forall|i: int| 0 <= i < rest.len() implies (#[trigger] rest[i]).password is None by {
            assert(rest[i] == configs[i + 1]);
        }
        lemma_config_for_holds_no_password(rest, id);
    }
}

/// After a configuration is deleted, neither it nor its password is found.
pub proof fn lemma_delete_connection(store: StorageModel, id: Seq<char>)
    ensures
        config_for(store.delete_connection_config(id).configs, id) is None,
        password_for(store.delete_connection_config(id).passwords, id) is None,
{
    lemma_without_id(store.configs, id);
    lemma_without_password(store.passwords, id);
}

/// No password under the id is left by `without_password`.
pub proof fn lemma_without_password(passwords: Seq<PasswordModel>, id: Seq<char>)
    ensures
        password_for(without_password(passwords, id), id) is None,
    decreases passwords.len(),
{
    if passwords.len() > 0 {
        lemma_without_password(passwords.drop_last(), id);
        if passwords.last().connection_id != id {
            let rest = without_password(passwords.drop_last(), id);
            assert(rest.push(passwords.last()).drop_last() =~= rest);
        }
    }
}

/// The key under which the keyring holds the saved configurations.
pub open spec fn index_key() -> Seq<char> {
    "connections"@
}

impl CredentialStorage {
    /// Whether a connection id is the key of the saved configurations. The
    /// keyring holds passwords and the saved configurations side by side, so
    /// a password under this id would take the place of the configurations:
    /// who keeps passwords in a keyring refuses the id.
    pub fn is_index_key(connection_id: &str) -> (r: bool)
        ensures
            r == (connection_id@ == index_key()),
    {
        text_eq(connection_id, "connections")
    }

    /// The saved configurations hold no password.
    #[verifier::type_invariant]
    spec fn index_holds_no_password(self) -> bool {
        holds_no_password(config_models(self.configs@))
    }

    /// A store that holds nothing.
    pub fn new() -> (r: CredentialStorage)
        ensures
            r@.passwords.len() == 0,
            r@.configs.len() == 0,
    {
        CredentialStorage { passwords: Vec::new(), configs: Vec::new() }
    }

    /// A store that holds the given configurations, each without its
    /// password, and no password.
    pub fn from_configs(configs: Vec<ConnectionConfig>) -> (r: CredentialStorage)
        ensures
            r@.passwords.len() == 0,
            r@.configs == all_without_secret(config_models(configs@)),
    {
        let ghost all = config_models(configs@);
        let mut rest = configs;
        let mut kept: Vec<ConnectionConfig> = Vec::new();
        while rest.len() > 0
            invariant
                kept@.len() + rest@.len() == all.len(),
                forall|k: int| 0 <= k < rest@.len() ==> (#[trigger] rest@[k])@ == all[kept@.len() + k],
                forall|k: int| 0 <= k < kept@.len() ==> (#[trigger] kept@[k])@ == without_secret(all[k]),
            decreases rest.len(),
        {
            let mut config = rest.remove(0);
            config.password = None;
            kept.push(config);
        }
        assert(config_models(kept@) =~= all_without_secret(all));
        CredentialStorage { passwords: Vec::new(), configs: kept }
    }

    fn passwords_without(&self, connection_id: &str) -> (kept: Vec<SavedPassword>)
        ensures
            password_models(kept@) == without_password(self@.passwords, connection_id@),
    {
        let mut kept: Vec<SavedPassword> = Vec::new();
        let mut i: usize = 0;
        while i < self.passwords.len()
            invariant
                i <= self.passwords.len(),
                password_models(kept@) == without_password(
                    self@.passwords.take(i as int),
                    connection_id@,
                ),
            decreases self.passwords.len() - i,
        {
            let entry = &self.passwords[i];
            proof {
                assert(self@.passwords.take(i + 1).drop_last() =~= self@.passwords.take(i as int));
                assert(self@.passwords.take(i + 1).last() == entry@);
            }
            if !text_eq(entry.connection_id.as_str(), connection_id) {
                let ghost models = password_models(kept@);
                let copy = SavedPassword {
                    connection_id: entry.connection_id.clone(),
                    password: entry.password.clone(),
                };
                kept.push(copy);
                assert(password_models(kept@) =~= models.push(entry@));
            }
            i += 1;
        }
        assert(self@.passwords.take(self.passwords.len() as int) =~= self@.passwords);
        kept
    }

    fn configs_without(&self, connection_id: &str) -> (kept: Vec<ConnectionConfig>)
        ensures
            config_models(kept@) == without_id(self@.configs, connection_id@),
            holds_no_password(config_models(kept@)),
    {
        proof {
            use_type_invariant(self);
            lemma_without_id_holds_no_password(self@.configs, connection_id@);
        }
        let mut kept: Vec<ConnectionConfig> = Vec::new();
        let mut i: usize = 0;
        while i < self.configs.len()
            invariant
                i <= self.configs.len(),
                config_models(kept@) == without_id(self@.configs.take(i as int), connection_id@),
            decreases self.configs.len() - i,
        {
            let entry = &self.configs[i];
            proof {
                assert(self@.configs.take(i + 1).drop_last() =~= self@.configs.take(i as int));
                assert(self@.configs.take(i + 1).last() == entry@);
            }
            if !text_eq(entry.id.as_str(), connection_id) {
                let ghost models = config_models(kept@);
                let copy = entry.clone();
                kept.push(copy);
                assert(config_models(kept@) =~= models.push(entry@));
            }
            i += 1;
        }
        assert(self@.configs.take(self.configs.len() as int) =~= self@.configs);
        kept
    }

    /// Saves a password under a connection id, in place of any that was
    /// there.
    pub fn save_password(&mut self, connection_id: &str, password: &str)
        ensures
            final(self)@ == old(self)@.save_password(connection_id@, password@),
    {
        proof {
            use_type_invariant(&*self);
        }
        let mut kept = self.passwords_without(connection_id);
        let ghost models = password_models(kept@);
        let entry = SavedPassword {
            connection_id: connection_id.to_owned(),
            password: password.to_owned(),
        };
        kept.push(entry);
        assert(password_models(kept@) =~= models.push(entry@));
        self.passwords = kept;
    }

    /// The password saved under a connection id. Where there is none the
    /// keyring's refusal is returned.
    pub fn get_password(&self, connection_id: &str) -> (r: Result<String, DbViewerError>)
        ensures
            match r {
                Ok(password) => password_for(self@.passwords, connection_id@) == Some(password@),
                Err(e) => password_for(self@.passwords, connection_id@) is None
                    && is_keyring_error(e, "No matching entry found in secure storage"@),
            },
    {
        let mut i: usize = self.passwords.len();
        assert(self@.passwords.take(i as int) =~= self@.passwords);
        while i > 0
            invariant
                i <= self.passwords.len(),
                password_for(self@.passwords, connection_id@) == password_for(
                    self@.passwords.take(i as int),
                    connection_id@,
                ),
            decreases i,
        {
            let entry = &self.passwords[i - 1];
            proof {
                let part = self@.passwords.take(i as int);
                assert(part.last() == entry@);
                assert(part.drop_last() =~= self@.passwords.take(i - 1));
            }
            if text_eq(entry.connection_id.as_str(), connection_id) {
                return Ok(entry.password.clone());
            }
            i -= 1;
        }
        Err(DbViewerError::Keyring("No matching entry found in secure storage".to_owned()))
    }

    /// Deletes the password under a connection id. That there is none is no
    /// failure.
    pub fn delete_password(&mut self, connection_id: &str)
        ensures
            final(self)@ == old(self)@.delete_password(connection_id@),
    {
        proof {
            use_type_invariant(&*self);
        }
        let kept = self.passwords_without(connection_id);
        self.passwords = kept;
    }

    /// Saves a configuration, without its password: any saved one with its
    /// id goes, and the new one becomes the last.
    pub fn save_connection_config(&mut self, config: &ConnectionConfig)
        ensures
            final(self)@ == old(self)@.save_connection_config(config@),
    {
        let mut kept = self.configs_without(config.id.as_str());
        let ghost models = config_models(kept@);
        let mut copy = config.clone();
        copy.password = None;
        kept.push(copy);
        assert(config_models(kept@) =~= models.push(without_secret(config@)));
        self.configs = kept;
    }

    /// The saved configurations, in order. None of them holds a password.
    pub fn get_all_connection_configs(&self) -> (r: &Vec<ConnectionConfig>)
        ensures
            config_models(r@) == self@.configs,
            holds_no_password(self@.configs),
            forall|i: int| 0 <= i < r@.len() ==> (#[trigger] r@[i]).password is None,
    {
        proof {
            use_type_invariant(self);
            assert forall|i: int| 0 <= i < self.configs@.len() implies (
            #[trigger] self.configs@[i]).password is None by {
                assert(config_models(self.configs@)[i].password is None);
            }
        }
        &self.configs
    }

    /// The saved configuration with the id, which holds no password. An id
    /// that is not saved is refused.
    pub fn get_connection_config(&self, connection_id: &str) -> (r: Result<
        ConnectionConfig,
        DbViewerError,
    >)
        ensures
            match r {
                Ok(config) => config_for(self@.configs, connection_id@) == Some(config@)
                    && config.password is None,
                Err(e) => config_for(self@.configs, connection_id@) is None
                    && is_connection_not_found(e, connection_id@),
            },
    {
        proof {
            use_type_invariant(self);
            lemma_config_for_holds_no_password(self@.configs, connection_id@);
        }
        let mut i: usize = 0;
        assert(self@.configs.skip(0) =~= self@.configs);
        while i < self.configs.len()
            invariant
                i <= self.configs.len(),
                config_for(self@.configs, connection_id@) == config_for(
                    self@.configs.skip(i as int),
                    connection_id@,
                ),
                config_for(self@.configs, connection_id@) matches Some(c) ==> c.password is None,
            decreases self.configs.len() - i,
        {
            let entry = &self.configs[i];
            proof {
                let part = self@.configs.skip(i as int);
                assert(part[0] == entry@);
                assert(part.drop_first() =~= self@.configs.skip(i + 1));
            }
            if text_eq(entry.id.as_str(), connection_id) {
                return Ok(entry.clone());
            }
            i += 1;
        }
        Err(DbViewerError::ConnectionNotFound(connection_id.to_owned()))
    }

    /// Deletes the saved configuration with the id, and its password.
    pub fn delete_connection_config(&mut self, connection_id: &str)
        ensures
            final(self)@ == old(self)@.delete_connection_config(connection_id@),
    {
        let configs = self.configs_without(connection_id);
        let passwords = self.passwords_without(connection_id);
        self.configs = configs;
        self.passwords = passwords;
    }
}

} // verus!
