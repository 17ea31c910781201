//! Discovery of PostgreSQL servers on this machine.
//!
//! Looking into socket directories, opening TCP connections and asking a
//! server for its databases is the caller's work. This module reads ports
//! out of socket file names, says which TCP ports are still to be tried,
//! judges what a probe of a server found, and makes the sorted list of
//! databases that is shown to the user.

use std::collections::HashSet;
use vstd::prelude::*;
use crate::connection::url_encoded;
use crate::text::{
    chars_of, contains, decimal, has_prefix, has_substring, int_to_decimal, starts_with, text_eq,
    text_less, text_lt,
};
use crate::trusted::percent_encode;

verus! {

/// The first TCP port that is tried.
pub const FIRST_TCP_PORT: u16 = 5432;

/// The last TCP port that is tried.
pub const LAST_TCP_PORT: u16 = 5439;

// ---------------------------------------------------------------------------
// Data
// ---------------------------------------------------------------------------

/// How a server lets the current user in.
#[derive(Debug, Clone, Copy, PartialEq, Eq)]
pub enum AuthStatus {
    Trust,
    PasswordRequired,
}

/// A server that was found.
#[derive(Debug)]
pub struct DiscoveredServer {
    pub host: String,
    pub port: u16,
    pub auth_status: AuthStatus,
    pub username: String,
}

/// A database that was found.
#[derive(Debug)]
pub struct DiscoveredDatabase {
    pub host: String,
    pub port: u16,
    pub database_name: String,
    pub username: String,
    pub auth_status: AuthStatus,
    pub already_imported: bool,
}

/// What the attempt to reach a server came to.
#[derive(Debug)]
pub enum ProbeOutcome {
    /// No connection was made; holds the message of the failure.
    ConnectFailed(String),
    /// The server let the user in and listed its databases.
    Listed(Vec<String>),
    /// The server let the user in but did not list its databases.
    ListFailed,
}

/// What a probe of the server on a port found: how the server lets the user
/// in, and the names of its databases.
#[derive(Debug)]
pub struct ServerProbe {
    pub port: u16,
    pub auth_status: AuthStatus,
    pub databases: Vec<String>,
}

/// What a `DiscoveredDatabase` stands for.
pub struct DatabaseModel {
    pub host: Seq<char>,
    pub port: u16,
    pub database_name: Seq<char>,
    pub username: Seq<char>,
    pub auth_status: AuthStatus,
    pub already_imported: bool,
}

impl View for DiscoveredDatabase {
    type V = DatabaseModel;

    open spec fn view(&self) -> DatabaseModel {
        DatabaseModel {
            host: self.host@,
            port: self.port,
            database_name: self.database_name@,
            username: self.username@,
            auth_status: self.auth_status,
            already_imported: self.already_imported,
        }
    }
}

/// The models of a list of databases.
pub open spec fn database_models(databases: Seq<DiscoveredDatabase>) -> Seq<DatabaseModel> {
    Seq::new(databases.len(), |i: int| databases[i]@)
}

// ---------------------------------------------------------------------------
// Ports in socket file names
// ---------------------------------------------------------------------------

/// The value of a decimal digit.
pub open spec fn digit_value(c: char) -> Option<int> {
    if '0' <= c && c <= '9' {
        Some(c as int - '0' as int)
    } else {
        None
    }
}

/// The number that a non-empty run of decimal digits writes.
pub open spec fn digits_value(s: Seq<char>) -> Option<int>
    decreases s.len(),
{
    if s.len() == 0 {
        None
    } else if s.len() == 1 {
        digit_value(s[0])
    } else {
        match (digits_value(s.drop_last()), digit_value(s.last())) {
            (Some(v), Some(d)) => Some(v * 10 + d),
            _ => None,
        }
    }
}

/// The port that a text writes: decimal digits, with or without a `+`
/// before them, for a number up to 65535.
pub open spec fn parsed_port(s: Seq<char>) -> Option<u16> {
    let digits = if s.len() > 0 && s[0] == '+' {
        s.drop_first()
    } else {
        s
    };
    match digits_value(digits) {
        Some(v) => if v <= 65535 {
            Some(v as u16)
        } else {
            None
        },
        None => None,
    }
}

/// The port in the name of a socket file: the name is `.s.PGSQL.` and the
/// port.
pub open spec fn socket_port_of(file_name: Seq<char>) -> Option<u16> {
    let prefix = ".s.PGSQL."@;
    if has_prefix(file_name, prefix) {
        parsed_port(file_name.skip(prefix.len() as int))
    } else {
        None
    }
}

/// `port` is one of `ports`.
pub open spec fn has_port(ports: Seq<u16>, port: u16) -> bool {
    exists|i: int| 0 <= i < ports.len() && ports[i] == port
}

/// The ports that the names of PostgreSQL sockets among the file names give.
pub open spec fn socket_ports_of(file_names: Seq<String>) -> Set<u16> {
    Set::new(
        |p: u16|
            exists|i: int|
                0 <= i < file_names.len() && socket_port_of(#[trigger] file_names[i]@) == Some(p),
    )
}

fn parse_port_from(v: &Vec<char>, from: usize) -> (r: Option<u16>)
    requires
        from <= v.len(),
    ensures
        r == parsed_port(v@.skip(from as int)),
{
    let ghost s = v@.skip(from as int);
    let mut start: usize = from;
    if start < v.len() && v[start] == '+' {
        start += 1;
    }
    let ghost digits = v@.skip(start as int);
    proof {
        if start > from {
            assert(s[0] == '+');
            assert(s.drop_first() =~= digits);
        } else if s.len() > 0 {
            assert(s[0] == v@[from as int]);
        }
    }
    if start == v.len() {
        return None;
    }
    let mut value: u32 = 0;
    let mut over: bool = false;
    let mut i: usize = start;
    while i < v.len()
        invariant
            start <= i <= v.len(),
            start < v.len(),
            digits == v@.skip(start as int),
            parsed_port(v@.skip(from as int)) == (match digits_value(digits) {
                Some(n) => if n <= 65535 {
                    Some(n as u16)
                } else {
                    None
                },
                None => None,
            }),
            value <= 65535,
            i > start ==> match digits_value(digits.take(i - start)) {
                Some(n) => if over {
                    n > 65535
                } else {
                    n == value
                },
                None => false,
            },
            i == start ==> value == 0 && !over,
        decreases v.len() - i,
    {
        let c = v[i];
        proof {
            let part = digits.take(i + 1 - start);
            assert(part.last() == c);
            assert(part.drop_last() =~= digits.take(i - start));
            if i == start {
                assert(part.len() == 1);
                assert(part[0] == c);
            }
        }
        if !('0' <= c && c <= '9') {
            proof {
                // a text with another character than a digit writes no number
                assert(digit_value(c) is None);
                assert(digits_value(digits.take(i + 1 - start)) is None);
                lemma_digits_prefix(digits, i + 1 - start);
            }
            return None;
        }
        let d: u32 = (c as u32) - ('0' as u32);
        if !over {
            let next: u32 = value * 10 + d;
            if next > 65535 {
                over = true;
            } else {
                value = next;
            }
        }
        i += 1;
    }
    assert(digits.take(v.len() - start) =~= digits);
    if over {
        None
    } else {
        Some(value as u16)
    }
}

/// Where a beginning of a text writes no number, the text writes none.
pub proof fn lemma_digits_prefix(s: Seq<char>, n: int)
    requires
        0 < n <= s.len(),
        digits_value(s.take(n)) is None,
    ensures
        digits_value(s) is None,
    decreases s.len() - n,
{
    if n < s.len() {
        let longer = s.take(n + 1);
        assert(longer.drop_last() =~= s.take(n));
        lemma_digits_prefix(s, n + 1);
    } else {
        assert(s.take(n) =~= s);
    }
}

/// The port in the name of a socket file, if the name is that of a
/// PostgreSQL socket.
pub fn socket_port(file_name: &str) -> (r: Option<u16>)
    ensures
        r == socket_port_of(file_name@),
{
    if !starts_with(file_name, ".s.PGSQL.") {
        return None;
    }
    let v = chars_of(file_name);
    let n = ".s.PGSQL.".unicode_len();
    parse_port_from(&v, n)
}

/// The ports of the PostgreSQL sockets among the file names of the socket
/// directories.
pub fn scan_socket_dirs(file_names: &Vec<String>) -> (r: HashSet<u16>)
    ensures
        r@ == socket_ports_of(file_names@),
{
    broadcast use vstd::std_specs::hash::group_hash_axioms;

    let mut ports: HashSet<u16> = HashSet::new();
    let mut i: usize = 0;
    assert(ports@ =~= socket_ports_of(file_names@.take(0)));
    while i < file_names.len()
        invariant
            i <= file_names.len(),
            ports@ == socket_ports_of(file_names@.take(i as int)),
        decreases file_names.len() - i,
    {
        let ghost before = file_names@.take(i as int);
        let ghost next = file_names@.take(i + 1);
        let ghost found = ports@;
        let port = socket_port(file_names[i].as_str());
        match port {
            Some(p) => {
                ports.insert(p);
            },
            None => {},
        }
        proof {
            assert(next[i as int] == file_names@[i as int]);
            assert forall|q: u16| ports@.contains(q) == socket_ports_of(next).contains(q) by {
                if socket_ports_of(next).contains(q) {
                    let k = choose|k: int|
                        0 <= k < next.len() && socket_port_of(#[trigger] next[k]@) == Some(q);
                    if k < i {
                        assert(before[k] == next[k]);
                        assert(socket_ports_of(before).contains(q));
                    }
                }
                if found.contains(q) {
                    let k = choose|k: int|
                        0 <= k < before.len() && socket_port_of(#[trigger] before[k]@) == Some(q);
                    assert(next[k] == before[k]);
                }
            }
            assert(ports@ =~= socket_ports_of(next));
        }
        i += 1;
    }
    assert(file_names@.take(file_names.len() as int) =~= file_names@);
    ports
}

/// The TCP ports that are still to be tried: those from 5432 to 5439 that
/// are not known from a socket, in rising order.
pub fn probe_tcp_ports(known_ports: &HashSet<u16>) -> (r: Vec<u16>)
    ensures
        forall|p: u16|
            has_port(r@, p) <==> FIRST_TCP_PORT <= p <= LAST_TCP_PORT && !known_ports@.contains(p),
        forall|i: int, j: int| 0 <= i < j < r@.len() ==> r@[i] < r@[j],
{
    broadcast use vstd::std_specs::hash::group_hash_axioms;

    let mut out: Vec<u16> = Vec::new();
    let mut port: u16 = FIRST_TCP_PORT;
    while port <= LAST_TCP_PORT
        invariant
            FIRST_TCP_PORT <= port <= LAST_TCP_PORT + 1,
            forall|p: u16|
                has_port(out@, p) <==> FIRST_TCP_PORT <= p < port && !known_ports@.contains(p),
            forall|i: int| 0 <= i < out@.len() ==> out@[i] < port,
            forall|i: int, j: int| 0 <= i < j < out@.len() ==> out@[i] < out@[j],
        decreases LAST_TCP_PORT + 1 - port,
    {
        let ghost before = out@;
        if !known_ports.contains(&port) {
            out.push(port);
            proof {
                assert(out@[before.len() as int] == port);
                assert forall|p: u16| has_port(out@, p) implies FIRST_TCP_PORT <= p < port + 1
                    && !known_ports@.contains(p) by {
                    let w = choose|w: int| 0 <= w < out@.len() && out@[w] == p;
                    if w < before.len() {
                        assert(before[w] == p);
                        assert(has_port(before, p));
                    }
                }
                assert forall|p: u16|
                    FIRST_TCP_PORT <= p < port + 1 && !known_ports@.contains(
                        p,
                    ) implies has_port(out@, p) by {
                    if p < port {
                        assert(has_port(before, p));
                        let w = choose|w: int| 0 <= w < before.len() && before[w] == p;
                        assert(out@[w] == p);
                    }
                }
            }
        }
        port += 1;
    }
    out
}

// ---------------------------------------------------------------------------
// Probing a server
// ---------------------------------------------------------------------------

/// The URL for probing a server: the `postgres` database as the given user,
/// without TLS.
pub open spec fn probe_url_of(host: Seq<char>, port: u16, username: Seq<char>) -> Seq<char> {
    "postgres://"@ + url_encoded(username) + "@"@ + host + ":"@ + decimal(port as int)
        + "/postgres?sslmode=disable"@
}

/// The message of a failure says that the server wants a password: it
/// names SQLSTATE `28P01` or `28000`.
pub open spec fn wants_password(message: Seq<char>) -> bool {
    has_substring(message, "28P01"@) || has_substring(message, "28000"@)
}

/// The user to probe as: the first of the two names that is there, or
/// `postgres`.
pub open spec fn username_of(user: Option<String>, username: Option<String>) -> Seq<char> {
    match user {
        Some(u) => u@,
        None => match username {
            Some(u) => u@,
            None => "postgres"@,
        },
    }
}

/// A probe says that its server could not be reached: its one database is
/// the mark `__unreachable__`.
pub open spec fn is_unreachable(databases: Seq<String>) -> bool {
    databases.len() == 1 && databases[0]@ == "__unreachable__"@
}

/// The URL for probing the server on a port.
pub fn probe_url(host: &str, port: u16, username: &str) -> (r: String)
    ensures
        r@ == probe_url_of(host@, port, username@),
{
    let user = percent_encode(username);
    let number = int_to_decimal(port as i128);
    let mut out = "postgres://".to_owned();
    out.append(user.as_str());
    out.append("@");
    out.append(host);
    out.append(":");
    out.append(number.as_str());
    out.append("/postgres?sslmode=disable");
    out
}

/// Judges what the attempt to reach a server came to.
///
/// A server that let the user in is trusted, and its databases are those it
/// listed, or `postgres` alone where it listed none. A failure that names
/// SQLSTATE `28P01` or `28000` means that the server wants a password; its
/// one database is `postgres`. After any other failure the server counts as
/// unreachable, which the one database `__unreachable__` marks.
pub fn probe_server(outcome: ProbeOutcome) -> (r: (AuthStatus, Vec<String>))
    ensures
        match outcome {
            ProbeOutcome::Listed(names) => r.0 == AuthStatus::Trust && r.1 == names,
            ProbeOutcome::ListFailed => r.0 == AuthStatus::Trust && r.1@.len() == 1 && r.1@[0]@
                == "postgres"@,
            ProbeOutcome::ConnectFailed(message) => r.0 == AuthStatus::PasswordRequired
                && r.1@.len() == 1 && r.1@[0]@ == (if wants_password(message@) {
                "postgres"@
            } else {
                "__unreachable__"@
            }),
        },
{
    match outcome {
        ProbeOutcome::Listed(names) => (AuthStatus::Trust, names),
        ProbeOutcome::ListFailed => {
            let mut names: Vec<String> = Vec::new();
            names.push("postgres".to_owned());
            (AuthStatus::Trust, names)
        },
        ProbeOutcome::ConnectFailed(message) => {
            let mut names: Vec<String> = Vec::new();
            if contains(message.as_str(), "28P01") || contains(message.as_str(), "28000") {
                names.push("postgres".to_owned());
            } else {
                names.push("__unreachable__".to_owned());
            }
            (AuthStatus::PasswordRequired, names)
        },
    }
}

/// The user to probe as: `$USER`, then `$USERNAME`, then `postgres`.
pub fn get_current_username(user: Option<String>, username: Option<String>) -> (r: String)
    ensures
        r@ == username_of(user, username),
{
    match user {
        Some(u) => u,
        None => match username {
            Some(u) => u,
            None => "postgres".to_owned(),
        },
    }
}

// ---------------------------------------------------------------------------
// The list of databases
// ---------------------------------------------------------------------------

/// A saved connection is one to the database `name` of the local server on
/// `port`.
pub open spec fn is_import_of(existing: (String, u16, String), port: u16, name: Seq<char>) -> bool {
    (existing.0@ == "localhost"@ || existing.0@ == "127.0.0.1"@) && existing.1 == port
        && existing.2@ == name
}

/// A connection to the database is saved already.
pub open spec fn is_imported(existing: Seq<(String, u16, String)>, port: u16, name: Seq<char>) -> bool {
    exists|i: int| 0 <= i < existing.len() && is_import_of(#[trigger] existing[i], port, name)
}

/// `a` comes before `b` in the list: by port, then by name.
pub open spec fn comes_before(a: DatabaseModel, b: DatabaseModel) -> bool {
    a.port < b.port || (a.port == b.port && text_lt(a.database_name, b.database_name))
}

/// `sorted` with `d` put behind the last database that `d` does not come
/// before.
pub open spec fn insert_database(sorted: Seq<DatabaseModel>, d: DatabaseModel) -> Seq<
    DatabaseModel,
>
    decreases sorted.len(),
{
    if sorted.len() == 0 {
        seq![d]
    } else if comes_before(d, sorted[0]) {
        seq![d] + sorted
    } else {
        seq![sorted[0]] + insert_database(sorted.drop_first(), d)
    }
}

/// The entry for a database of a server.
pub open spec fn entry_of(
    port: u16,
    auth_status: AuthStatus,
    name: Seq<char>,
    existing: Seq<(String, u16, String)>,
    username: Seq<char>,
) -> DatabaseModel {
    DatabaseModel {
        host: "localhost"@,
        port,
        database_name: name,
        username,
        auth_status,
        already_imported: is_imported(existing, port, name),
    }
}

/// `sorted` with the first `count` databases of a server put in.
pub open spec fn with_databases(
    sorted: Seq<DatabaseModel>,
    probe: ServerProbe,
    count: int,
    existing: Seq<(String, u16, String)>,
    username: Seq<char>,
) -> Seq<DatabaseModel>
    decreases count,
{
    if count <= 0 {
        sorted
    } else {
        insert_database(
            with_databases(sorted, probe, count - 1, existing, username),
            entry_of(
                probe.port,
                probe.auth_status,
                probe.databases@[count - 1]@,
                existing,
                username,
            ),
        )
    }
}

/// The databases of the servers that were reached, by port and name;
/// entries of one port and name keep their order.
pub open spec fn discovered(
    probes: Seq<ServerProbe>,
    existing: Seq<(String, u16, String)>,
    username: Seq<char>,
) -> Seq<DatabaseModel>
    decreases probes.len(),
{
    if probes.len() == 0 {
        Seq::empty()
    } else {
        let before = discovered(probes.drop_last(), existing, username);
        let probe = probes.last();
        if is_unreachable(probe.databases@) {
            before
        } else {
            with_databases(before, probe, probe.databases@.len() as int, existing, username)
        }
    }
}

/// No database comes before the one in front of it.
pub open spec fn is_sorted(databases: Seq<DatabaseModel>) -> bool {
    forall|i: int, j: int|
        0 <= i < j < databases.len() ==> !comes_before(
            #[trigger] databases[j],
            #[trigger] databases[i],
        )
}

/// Inserting at the place before the databases that come after.
pub proof fn lemma_insert_database(sorted: Seq<DatabaseModel>, d: DatabaseModel, at: int)
    requires
        0 <= at <= sorted.len(),
        forall|k: int| 0 <= k < at ==> !comes_before(d, #[trigger] sorted[k]),
        at < sorted.len() ==> comes_before(d, sorted[at]),
    ensures
        insert_database(sorted, d) == sorted.insert(at, d),
    decreases sorted.len(),
{
    if sorted.len() == 0 {
        assert(sorted.insert(0, d) =~= seq![d]);
    } else if at == 0 {
        assert(sorted.insert(0, d) =~= seq![d] + sorted);
    } else {
        assert(!comes_before(d, sorted[0]));
        let rest = sorted.drop_first();
        assert forall|k: int| 0 <= k < at - 1 implies !comes_before(d, #[trigger] rest[k]) by {
            assert(rest[k] == sorted[k + 1]);
        }
        lemma_insert_database(rest, d, at - 1);
        assert(sorted.insert(at, d) =~= seq![sorted[0]] + rest.insert(at - 1, d));
    }
}

/// Where neither the databases of a list nor a new one come before a given
/// database, none does after the new one is inserted.
pub proof fn lemma_insert_bound(sorted: Seq<DatabaseModel>, d: DatabaseModel, low: DatabaseModel)
    requires
        forall|k: int| 0 <= k < sorted.len() ==> !comes_before(#[trigger] sorted[k], low),
        !comes_before(d, low),
    ensures
        insert_database(sorted, d).len() == sorted.len() + 1,
        forall|k: int|
            0 <= k < insert_database(sorted, d).len() ==> !comes_before(
                #[trigger] insert_database(sorted, d)[k],
                low,
            ),
    decreases sorted.len(),
{
    let out = insert_database(sorted, d);
    if sorted.len() == 0 {
        assert(out =~= seq![d]);
    } else if comes_before(d, sorted[0]) {
        assert(out =~= seq![d] + sorted);
        assert forall|k: int| 0 <= k < out.len() implies !comes_before(
            #[trigger] out[k],
            low,
        ) by {
            if k > 0 {
                assert(out[k] == sorted[k - 1]);
            }
        }
    } else {
        let rest = sorted.drop_first();
        assert forall|k: int| 0 <= k < rest.len() implies !comes_before(
            #[trigger] rest[k],
            low,
        ) by {
            assert(rest[k] == sorted[k + 1]);
        }
        lemma_insert_bound(rest, d, low);
        let tail = insert_database(rest, d);
        assert(out =~= seq![sorted[0]] + tail);
        assert forall|k: int| 0 <= k < out.len() implies !comes_before(
            #[trigger] out[k],
            low,
        ) by {
            if k > 0 {
                assert(out[k] == tail[k - 1]);
            }
        }
    }
}

/// Inserting a database into a sorted list leaves the list sorted.
pub proof fn lemma_insert_keeps_sorted(sorted: Seq<DatabaseModel>, d: DatabaseModel)
    requires
        is_sorted(sorted),
    ensures
        is_sorted(insert_database(sorted, d)),
    decreases sorted.len(),
{
    let out = insert_database(sorted, d);
    if sorted.len() == 0 {
        assert(out =~= seq![d]);
    } else if comes_before(d, sorted[0]) {
        assert(out =~= seq![d] + sorted);
        assert forall|i: int, j: int| 0 <= i < j < out.len() implies !comes_before(
            #[trigger] out[j],
            #[trigger] out[i],
        ) by {
            if i == 0 {
                let x = sorted[j - 1];
                assert(out[j] == x);
                if j - 1 == 0 {
                    crate::text::lemma_text_lt_irreflexive(x.database_name);
                }
                lemma_not_before(x, sorted[0], d);
            } else {
                assert(out[i] == sorted[i - 1]);
                assert(out[j] == sorted[j - 1]);
            }
        }
    } else {
        let rest = sorted.drop_first();
        assert forall|i: int, j: int| 0 <= i < j < rest.len() implies !comes_before(
            #[trigger] rest[j],
            #[trigger] rest[i],
        ) by {
            assert(rest[i] == sorted[i + 1]);
            assert(rest[j] == sorted[j + 1]);
        }
        lemma_insert_keeps_sorted(rest, d);
        assert forall|k: int| 0 <= k < rest.len() implies !comes_before(
            #[trigger] rest[k],
            sorted[0],
        ) by {
            assert(rest[k] == sorted[k + 1]);
        }
        lemma_insert_bound(rest, d, sorted[0]);
        let tail = insert_database(rest, d);
        assert(out =~= seq![sorted[0]] + tail);
        assert forall|i: int, j: int| 0 <= i < j < out.len() implies !comes_before(
            #[trigger] out[j],
            #[trigger] out[i],
        ) by {
            assert(out[j] == tail[j - 1]);
            if i > 0 {
                assert(out[i] == tail[i - 1]);
            }
        }
    }
}

/// The order by port and name is transitive: where `x` does not come before
/// `y`, and `d` comes before `y`, `x` does not come before `d`.
pub proof fn lemma_not_before(x: DatabaseModel, y: DatabaseModel, d: DatabaseModel)
    requires
        !comes_before(x, y),
        comes_before(d, y),
    ensures
        !comes_before(x, d),
{
    if comes_before(x, d) {
        if x.port == d.port && d.port == y.port {
            crate::text::lemma_text_lt_transitive(
                x.database_name,
                d.database_name,
                y.database_name,
            );
        }
    }
}

/// The list of discovered databases is sorted by port and name.
pub proof fn lemma_discovered_sorted(
    probes: Seq<ServerProbe>,
    existing: Seq<(String, u16, String)>,
    username: Seq<char>,
)
    ensures
        is_sorted(discovered(probes, existing, username)),
    decreases probes.len(),
{
    if probes.len() > 0 {
        lemma_discovered_sorted(probes.drop_last(), existing, username);
        let before = discovered(probes.drop_last(), existing, username);
        let probe = probes.last();
        if !is_unreachable(probe.databases@) {
            lemma_with_databases_sorted(
                before,
                probe,
                probe.databases@.len() as int,
                existing,
                username,
            );
        }
    }
}

/// Putting the databases of a server into a sorted list leaves it sorted.
pub proof fn lemma_with_databases_sorted(
    sorted: Seq<DatabaseModel>,
    probe: ServerProbe,
    count: int,
    existing: Seq<(String, u16, String)>,
    username: Seq<char>,
)
    requires
        is_sorted(sorted),
    ensures
        is_sorted(with_databases(sorted, probe, count, existing, username)),
    decreases count,
{
    if count > 0 {
        lemma_with_databases_sorted(sorted, probe, count - 1, existing, username);
        lemma_insert_keeps_sorted(
            with_databases(sorted, probe, count - 1, existing, username),
            entry_of(
                probe.port,
                probe.auth_status,
                probe.databases@[count - 1]@,
                existing,
                username,
            ),
        );
    }
}

fn already_imported(existing: &Vec<(String, u16, String)>, port: u16, name: &str) -> (r: bool)
    ensures
        r == is_imported(existing@, port, name@),
{
    let mut i: usize = 0;
    while i < existing.len()
        invariant
            i <= existing.len(),
            forall|k: int| 0 <= k < i ==> !is_import_of(#[trigger] existing@[k], port, name@),
        decreases existing.len() - i,
    {
        let e = &existing[i];
        if (text_eq(e.0.as_str(), "localhost") || text_eq(e.0.as_str(), "127.0.0.1")) && e.1
            == port && text_eq(e.2.as_str(), name) {
            assert(is_import_of(existing@[i as int], port, name@));
            return true;
        }
        i += 1;
    }
    false
}

fn database_before(a: &DiscoveredDatabase, b: &DiscoveredDatabase) -> (r: bool)
    ensures
        r == comes_before(a@, b@),
{
    a.port < b.port || (a.port == b.port && text_less(
        a.database_name.as_str(),
        b.database_name.as_str(),
    ))
}

fn insert_sorted(sorted: &mut Vec<DiscoveredDatabase>, d: DiscoveredDatabase)
    ensures
        database_models(final(sorted)@) == insert_database(database_models(old(sorted)@), d@),
{
    let mut at: usize = 0;
    while at < sorted.len() && !database_before(&d, &sorted[at])
        invariant
            at <= sorted.len(),
            forall|k: int|
                0 <= k < at ==> !comes_before(d@, #[trigger] database_models(sorted@)[k]),
        decreases sorted.len() - at,
    {
        assert(database_models(sorted@)[at as int] == sorted@[at as int]@);
        at += 1;
    }
    proof {
        let s = database_models(sorted@);
        if at < sorted.len() {
            assert(s[at as int] == sorted@[at as int]@);
        }
        lemma_insert_database(s, d@, at as int);
    }
    let ghost before = database_models(sorted@);
    sorted.insert(at, d);
    assert(database_models(sorted@) =~= before.insert(at as int, d@));
}

/// Makes the list of the databases that were found, from what the probes of
/// the servers gave.
///
/// A server that could not be reached gives nothing. Every other database
/// becomes an entry on `localhost`, marked as imported where a saved
/// connection to `localhost` or `127.0.0.1` has its port and its name. The
/// list is sorted by port, then by name.
pub fn discover_local_databases(
    existing_connections: &Vec<(String, u16, String)>,
    username: &str,
    probes: &Vec<ServerProbe>,
) -> (r: Vec<DiscoveredDatabase>)
    ensures
        database_models(r@) == discovered(probes@, existing_connections@, username@),
        is_sorted(database_models(r@)),
{
    let mut results: Vec<DiscoveredDatabase> = Vec::new();
    let mut p: usize = 0;
    assert(database_models(results@) =~= discovered(
        probes@.take(0),
        existing_connections@,
        username@,
    ));
    while p < probes.len()
        invariant
            p <= probes.len(),
            database_models(results@) == discovered(
                probes@.take(p as int),
                existing_connections@,
                username@,
            ),
        decreases probes.len() - p,
    {
        let probe = &probes[p];
        proof {
            assert(probes@.take(p + 1).drop_last() =~= probes@.take(p as int));
            assert(probes@.take(p + 1).last() == *probe);
        }
        let unreachable = probe.databases.len() == 1 && text_eq(
            probe.databases[0].as_str(),
            "__unreachable__",
        );
        if !unreachable {
            let ghost base = database_models(results@);
            let mut k: usize = 0;
            while k < probe.databases.len()
                invariant
                    k <= probe.databases.len(),
                    database_models(results@) == with_databases(
                        base,
                        *probe,
                        k as int,
                        existing_connections@,
                        username@,
                    ),
                decreases probe.databases.len() - k,
            {
                let name = &probe.databases[k];
                let entry = DiscoveredDatabase {
                    host: "localhost".to_owned(),
                    port: probe.port,
                    database_name: name.clone(),
                    username: username.to_owned(),
                    auth_status: probe.auth_status,
                    already_imported: already_imported(
                        existing_connections,
                        probe.port,
                        name.as_str(),
                    ),
                };
                insert_sorted(&mut results, entry);
                k += 1;
            }
        }
        p += 1;
    }
    assert(probes@.take(probes.len() as int) =~= probes@);
    proof {
        lemma_discovered_sorted(probes@, existing_connections@, username@);
    }
    results
}

} // verus!
