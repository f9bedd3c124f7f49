//! The SQLite-backed user store.
//!
//! One table holds the users (id, name, password hash, role code, creation
//! time). The store is modelled as a map from ids to rows: every trusted
//! call into `rusqlite` states its effect on that map, and the store's own
//! operations are verified against it.

use vstd::prelude::*;

verus! {

use crate::auth::{hash_password, phc_parses, argon2_verifies, role_code_spec, PasswordError, Role};
use crate::rootfile::{parse_root_file, parse_root_spec, RootFile};
use rusqlite::OptionalExtension;

/// What the store holds for one user id: the stored name, password hash,
/// role code and creation timestamp.
#[verifier::ext_equal]
pub struct UserRow {
    pub name: Seq<char>,
    pub pass: Seq<char>,
    pub role: u8,
    pub added: i64,
}

/// The rows of the `users` table of the database behind `conn`, keyed by
/// user id (the store keeps ids unique).
pub uninterp spec fn db_users(conn: rusqlite::Connection) -> Map<u64, UserRow>;

/// Whether the database behind `conn` has been initialized (its `users`
/// table exists).
pub uninterp spec fn db_initialized(conn: rusqlite::Connection) -> bool;

/// Every user id appears in at most one row of the `users` table behind
/// `conn`. The schema this store creates enforces this with a primary key,
/// but a pre-existing table written by an outside party need not satisfy
/// it; the row-pinning clauses of the by-name lookup hold only under it.
pub uninterp spec fn db_distinct_ids(conn: rusqlite::Connection) -> bool;

#[verifier::external_type_specification]
#[verifier::external_body]
pub struct ExConnection(rusqlite::Connection);

#[verifier::external_type_specification]
#[verifier::external_body]
pub struct ExRusqliteError(rusqlite::Error);

/// Which step of the bootstrap transaction failed.
#[derive(Debug)]
pub(crate) enum TxError {
    Create(rusqlite::Error),
    Execute(rusqlite::Error),
    Commit(rusqlite::Error),
}

/// Defines errors originating from the [`Database`].
#[derive(Debug)]
pub enum DatabaseError {
    /// Failed to hash the given password.
    HashPassword { err: PasswordError },
    /// Failed to parse the root-credentials text.
    RootFileParse,
    /// A stored role code decodes to no recognized role; stored rows are
    /// written only by this store, so this indicates external corruption.
    InvalidStoredRole { id: u64, code: u8 },
    /// It's an SQLite error.
    SQLite(SQLiteError),
}

/// Defines errors originating from the [`Database`] when it uses the SQLite
/// backend.
#[derive(Debug)]
pub enum SQLiteError {
    /// Failed to create a new connection.
    ConnCreate { path: String, err: rusqlite::Error },
    /// Failed to execute a query.
    QueryExecute { path: String, err: rusqlite::Error },
    /// Failed to commit a transaction.
    TransactionCommit { path: String, err: rusqlite::Error },
    /// Failed to create a new transaction.
    TransactionCreate { path: String, err: rusqlite::Error },
}

/// Describes everything we store about a user.
#[derive(Clone, Debug)]
pub struct UserInfo {
    /// The identifier of the user.
    pub id: u64,
    /// The name of the user.
    pub name: String,
    /// The password of the user, hashed.
    pub pass: String,
    /// The role of the user.
    pub role: Role,
    /// The UTC timestamp (whole seconds) at which the user was added.
    pub added: i64,
}

impl View for UserInfo {
    type V = UserRow;

    open spec fn view(&self) -> UserRow {
        UserRow {
            name: self.name@,
            pass: self.pass@,
            role: role_code_spec(self.role) as u8,
            added: self.added,
        }
    }
}

/// Relies on `rusqlite::Connection::open`: opens (creating it if missing)
/// the SQLite database file at `path`. Nothing is assumed about the
/// contents found there.
#[verifier::external_body]
fn open_sqlite(path: &str) -> Result<rusqlite::Connection, rusqlite::Error> {
    rusqlite::Connection::open(path)
}

/// Relies on `rusqlite`'s `Connection::transaction`, `Transaction::execute`
/// and `Transaction::commit`: `CREATE TABLE` fails when the table already
/// exists; on success the freshly created table holds exactly the one
/// inserted row; and the transaction is all-or-nothing, so on any failure
/// the store is left as it was found.
#[verifier::external_body]
fn bootstrap_store(
    conn: &mut rusqlite::Connection,
    id: u64,
    name: &str,
    pass: &str,
    role: u8,
    added: i64,
) -> (r: Result<(), TxError>)
    ensures
        r is Ok ==> db_initialized(*final(conn)) && db_distinct_ids(*final(conn)) && db_users(
            *final(conn),
        ) == map![id => UserRow { name: name@, pass: pass@, role, added }],
        r is Err ==> db_initialized(*final(conn)) == db_initialized(*old(conn)) && db_distinct_ids(
            *final(conn),
        ) == db_distinct_ids(*old(conn)) && db_users(*final(conn)) == db_users(*old(conn)),
        db_initialized(*old(conn)) ==> r is Err,
{
    let tx = conn.transaction().map_err(TxError::Create)?;
    let schema =
        "CREATE TABLE users (id BIGINT UNSIGNED PRIMARY KEY, name VARCHAR(32), password VARCHAR(97), role TINYINT UNSIGNED, added BIGINT)";
    tx.execute(schema, []).map_err(TxError::Execute)?;
    let insert = "INSERT INTO users (id, name, password, role, added) VALUES (?1, ?2, ?3, ?4, ?5)";
    tx.execute(insert, (id as i64, name, pass, role, added)).map_err(TxError::Execute)?;
    tx.commit().map_err(TxError::Commit)
}

/// Relies on `rusqlite::Connection::query_row` with `OptionalExtension`:
/// the row carrying the queried id is read back exactly as stored, and the
/// absence of a row is a normal outcome distinct from an engine failure.
#[verifier::external_body]
fn query_user_by_id(conn: &rusqlite::Connection, id: u64) -> (r: Result<
    Option<(String, String, u8, i64)>,
    rusqlite::Error,
>)
    ensures
        r matches Ok(Some(row)) ==> db_initialized(*conn) && db_users(*conn).dom().contains(id)
            && db_users(*conn)[id] == (UserRow {
            name: row.0@,
            pass: row.1@,
            role: row.2,
            added: row.3,
        }),
        r matches Ok(None) ==> !(db_initialized(*conn) && db_users(*conn).dom().contains(id)),
{
    conn.query_row(
        "SELECT name, password, role, added FROM users WHERE id = ?1",
        [id as i64],
        |row| Ok((row.get(0)?, row.get(1)?, row.get(2)?, row.get(3)?)),
    ).optional()
}

/// Relies on `rusqlite::Connection::query_row` with `OptionalExtension`:
/// a returned row is one stored under the queried name, and `None` means no
/// row carries that name. SQLite leaves open which row a lookup returns
/// when several rows share an id, so the returned row is pinned to the
/// store model only where ids are distinct.
#[verifier::external_body]
fn query_user_by_name(conn: &rusqlite::Connection, name: &str) -> (r: Result<
    Option<(u64, String, u8, i64)>,
    rusqlite::Error,
>)
    ensures
        r matches Ok(Some(row)) ==> db_initialized(*conn) && db_users(*conn).dom().contains(row.0)
            && (db_distinct_ids(*conn) ==> db_users(*conn)[row.0] == (UserRow {
            name: name@,
            pass: row.1@,
            role: row.2,
            added: row.3,
        })),
        r matches Ok(None) ==> !(db_initialized(*conn) && (exists|i: u64|
            #[trigger] db_users(*conn).dom().contains(i) && db_users(*conn)[i].name == name@)),
{
    conn.query_row(
        "SELECT id, password, role, added FROM users WHERE name = ?1",
        [name],
        |row| {
            let id: i64 = row.get(0)?;
            Ok((id as u64, row.get(1)?, row.get(2)?, row.get(3)?))
        },
    ).optional()
}

/// A database abstraction for the server, currently always backed by
/// SQLite.
pub enum Database {
    SQLite {
        /// The path of the database file, kept for error reports.
        path: String,
        /// The SQLite connection used to talk to the database.
        conn: rusqlite::Connection,
    },
}

impl Database {
    /// The rows of the `users` table, keyed by user id.
    pub open spec fn users(&self) -> Map<u64, UserRow> {
        match self {
            Database::SQLite { conn, .. } => db_users(*conn),
        }
    }

    /// Whether the backing store has been initialized.
    pub open spec fn initialized(&self) -> bool {
        match self {
            Database::SQLite { conn, .. } => db_initialized(*conn),
        }
    }

    /// The path of the database file this store talks to.
    pub open spec fn path_spec(&self) -> Seq<char> {
        match self {
            Database::SQLite { path, .. } => path@,
        }
    }

    /// Every user id appears in at most one stored row. The schema written
    /// by [`Database::init`] enforces this; a pre-existing foreign table
    /// need not.
    pub open spec fn wellformed(&self) -> bool {
        match self {
            Database::SQLite { conn, .. } => db_distinct_ids(*conn),
        }
    }

    /// Constructor for the Database that uses the SQLite backend.
    ///
    /// Nothing is assumed about what the opened file already holds; an
    /// empty or fresh file is an uninitialized store that [`Database::init`]
    /// can bootstrap. No schema is created here.
    pub fn sqlite(path: &str) -> (r: Result<Database, DatabaseError>)
        ensures
            r matches Ok(db) ==> db.path_spec() == path@,
            r matches Err(e) ==> (e matches DatabaseError::SQLite(se) && (se matches
                SQLiteError::ConnCreate { path: p, err } && p@ == path@)),
    {
        match open_sqlite(path) {
            Ok(conn) => Ok(Database::SQLite { path: path.to_owned(), conn }),
            Err(err) => Err(
                DatabaseError::SQLite(SQLiteError::ConnCreate { path: path.to_owned(), err }),
            ),
        }
    }

    /// Initializes the backing database at the given creation time:
    /// creates the `users` table and inserts the root user described by
    /// the given root-credentials text, all inside a single all-or-nothing
    /// transaction.
    ///
    /// On success the store holds exactly one row: id 0, the name read out
    /// of the credentials text, a fresh salted hash that verifies against
    /// the password read out of it, the maximal role, and the given
    /// creation time. `RootFileParse` is answered exactly when the text is
    /// not of the accepted shape, and a hash failure can only arise from a
    /// password beyond the primitive's length bound. On any failure — in
    /// particular on a store that is already initialized — the store is
    /// left exactly as it was.
    pub fn init_at(&mut self, root_file: &str, added: i64) -> (r: Result<(), DatabaseError>)
        ensures
            r is Ok ==> {
                &&& final(self).initialized()
                &&& final(self).wellformed()
                &&& final(self).users().dom() == set![0u64]
                &&& final(self).users()[0u64].role == 10
                &&& final(self).users()[0u64].added == added
                &&& phc_parses(final(self).users()[0u64].pass)
                &&& parse_root_spec(root_file@) matches Some(f) && final(self).users()[0u64].name
                    == f.0 && argon2_verifies(f.1, final(self).users()[0u64].pass)
            },
            r is Err ==> final(self).users() == old(self).users() && final(self).initialized()
                == old(self).initialized() && final(self).wellformed() == old(self).wellformed(),
            old(self).initialized() ==> r is Err,
            r matches Err(DatabaseError::RootFileParse) <==> parse_root_spec(root_file@) is None,
            r matches Err(DatabaseError::HashPassword { .. }) ==> parse_root_spec(root_file@)
                matches Some(f) && vstd::utf8::encode_utf8(f.1).len() > 0xFFFFFFFF,
    {
        let rf: RootFile = match parse_root_file(root_file) {
            Some(rf) => rf,
            None => {
                return Err(DatabaseError::RootFileParse);
            },
        };
        let hashed: String = match hash_password(rf.root.creds.pass.as_str()) {
            Ok(h) => h,
            Err(err) => {
                return Err(DatabaseError::HashPassword { err });
            },
        };
        match self {
            Database::SQLite { path, conn } => {
                match bootstrap_store(conn, 0, rf.root.creds.name.as_str(), hashed.as_str(), 10, added) {
                    Ok(()) => {
                        proof {
                            let row = UserRow {
                                name: rf.root.creds.name@,
                                pass: hashed@,
                                role: 10u8,
                                added,
                            };
                            assert(self.users() == map![0u64 => row]);
                            assert(self.users().dom() =~= set![0u64]);
                            assert(self.users()[0u64] == row);
                        }
                        Ok(())
                    },
                    Err(TxError::Create(err)) => Err(
                        DatabaseError::SQLite(
                            SQLiteError::TransactionCreate { path: path.clone(), err },
                        ),
                    ),
                    Err(TxError::Execute(err)) => Err(
                        DatabaseError::SQLite(SQLiteError::QueryExecute { path: path.clone(), err }),
                    ),
                    Err(TxError::Commit(err)) => Err(
                        DatabaseError::SQLite(
                            SQLiteError::TransactionCommit { path: path.clone(), err },
                        ),
                    ),
                }
            },
        }
    }

    /// Initializes the backing database as [`Database::init_at`] does,
    /// with the current time as the creation time.
    pub fn init(&mut self, root_file: &str) -> (r: Result<(), DatabaseError>)
        ensures
            r is Ok ==> {
                &&& final(self).initialized()
                &&& final(self).wellformed()
                &&& final(self).users().dom() == set![0u64]
                &&& final(self).users()[0u64].role == 10
                &&& phc_parses(final(self).users()[0u64].pass)
                &&& parse_root_spec(root_file@) matches Some(f) && final(self).users()[0u64].name
                    == f.0 && argon2_verifies(f.1, final(self).users()[0u64].pass)
            },
            r is Err ==> final(self).users() == old(self).users() && final(self).initialized()
                == old(self).initialized() && final(self).wellformed() == old(self).wellformed(),
            old(self).initialized() ==> r is Err,
            r matches Err(DatabaseError::RootFileParse) <==> parse_root_spec(root_file@) is None,
            r matches Err(DatabaseError::HashPassword { .. }) ==> parse_root_spec(root_file@)
                matches Some(f) && vstd::utf8::encode_utf8(f.1).len() > 0xFFFFFFFF,
    {
        let added: i64 = crate::token::now_unix();
        self.init_at(root_file, added)
    }

    /// Retrieves the user with the given id.
    ///
    /// A missing user is a normal (`Ok(None)`) outcome distinct from an
    /// engine failure; a returned user is exactly the stored row.
    pub fn get_user_by_id(&self, id: u64) -> (r: Result<Option<UserInfo>, DatabaseError>)
        ensures
            r matches Ok(Some(u)) ==> self.initialized() && self.users().dom().contains(id)
                && u.id == id && u@ == self.users()[id] && u.role == Role::Root,
            r matches Ok(None) ==> !(self.initialized() && self.users().dom().contains(id)),
            r matches Err(DatabaseError::InvalidStoredRole { id: i, code }) ==> i == id
                && self.users().dom().contains(id) && self.users()[id].role == code && code != 10,
    {
        match self {
            Database::SQLite { path, conn } => {
                match query_user_by_id(conn, id) {
                    Ok(Some((name, pass, code, added))) => {
                        match Role::from_code(code) {
                            Ok(role) => Ok(
                                Some(UserInfo { id, name, pass, role, added }),
                            ),
                            Err(_) => Err(DatabaseError::InvalidStoredRole { id, code }),
                        }
                    },
                    Ok(None) => Ok(None),
                    Err(err) => Err(
                        DatabaseError::SQLite(SQLiteError::QueryExecute { path: path.clone(), err }),
                    ),
                }
            },
        }
    }

    /// Retrieves the user with the given name.
    ///
    /// A missing user is a normal (`Ok(None)`) outcome distinct from an
    /// engine failure; a returned user is a stored row carrying that name.
    pub fn get_user_by_name(&self, name: &str) -> (r: Result<Option<UserInfo>, DatabaseError>)
        ensures
            r matches Ok(Some(u)) ==> self.initialized() && self.users().dom().contains(u.id)
                && u.name@ == name@ && u.role == Role::Root && (self.wellformed() ==> u@
                == self.users()[u.id]),
            r matches Ok(None) ==> !(self.initialized() && (exists|i: u64|
                #[trigger] self.users().dom().contains(i) && self.users()[i].name == name@)),
            r matches Err(DatabaseError::InvalidStoredRole { id, code }) ==> self.users().dom().contains(
                id,
            ) && code != 10 && (self.wellformed() ==> self.users()[id].role == code),
    {
        match self {
            Database::SQLite { path, conn } => {
                match query_user_by_name(conn, name) {
                    Ok(Some((id, pass, code, added))) => {
                        match Role::from_code(code) {
                            Ok(role) => Ok(
                                Some(
                                    UserInfo {
                                        id,
                                        name: name.to_owned(),
                                        pass,
                                        role,
                                        added,
                                    },
                                ),
                            ),
                            Err(_) => Err(DatabaseError::InvalidStoredRole { id, code }),
                        }
                    },
                    Ok(None) => Ok(None),
                    Err(err) => Err(
                        DatabaseError::SQLite(SQLiteError::QueryExecute { path: path.clone(), err }),
                    ),
                }
            },
        }
    }
}

} // verus!
