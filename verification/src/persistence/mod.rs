//! The database of the VMs, their networks, disks and scripts.
//!
//! Each operation gives the statement to run next, or its result; the statements of one
//! operation between `Begin` and `Commit` are one transaction, which an operation that ends
//! with an error leaves undone.

use vstd::prelude::*;

#[allow(unused_imports)]
use crate::dialog::{Dialog, Stand};
use crate::dialog::Steps;
#[allow(unused_imports)]
use crate::dialog::seen;
use crate::text::{decimal_of, signed_decimal_of};
#[allow(unused_imports)]
use crate::text::{decimal, opt_view, signed_decimal};

pub mod columns;
pub mod laws;
pub mod ledger;
pub mod network;
pub mod opening;
pub mod record;
pub mod schema;
pub mod shelf;
pub mod shells;
pub mod store;
pub mod tables;

use record::uuid_string;
#[allow(unused_imports)]
use record::uuid_text;

verus! {

/// Where the database is, unless told otherwise.
pub fn default_db_file() -> (r: &'static str)
    ensures
        r@ == "data/firecrab.db"@,
{
    "data/firecrab.db"
}

/// The database's operations.
pub struct Store;

/// The login for Docker Hub.
#[derive(Debug, PartialEq, Eq)]
pub struct DockerHubCredential {
    /// The account.
    pub username: String,
    /// Its password or token, which is never handed out.
    pub secret: String,
}

/// What the database can fail at.
#[allow(inconsistent_fields)]
#[derive(Debug, PartialEq, Eq)]
pub enum PersistenceError {
    /// The directory of the database could not be made.
    CreateDirectory { path: String, source: String },
    /// The database could not be opened.
    Open { path: String, source: String },
    /// A statement failed.
    Database(String),
    /// A row does not hold what it should.
    CorruptRecord { id: String, reason: String },
    /// There is no such VM.
    MissingVm { id: u128 },
    /// There is no such network.
    MissingMicroNetwork { id: u128 },
    /// There is no such disk pool.
    MissingMicroStorage { id: u128 },
    /// A disk pool has that path already.
    DuplicateMicroStoragePath { path: String },
    /// The alias is registered already for that machine.
    DuplicateMicroRegistryLocal { alias: String, architecture: String },
    /// A port of the host is forwarded to another VM already.
    DuplicatePortForward { host_port: u16, protocol: String },
    /// There is no such script.
    MissingShell { id: u128 },
    /// A script is still used.
    ShellInUse { id: u128, count: u32 },
    /// The records from before the database could not be read.
    LegacyRead { path: String, source: String },
    /// The records from before the database could not be understood.
    LegacyDeserialize { path: String, source: String },
    /// The records from before the database could not be put aside.
    LegacyArchive { path: String, source: String },
}

/// [`PersistenceError`] as contracts speak of it.
#[allow(inconsistent_fields)]
pub enum Fault {
    CreateDirectory { path: Seq<char>, source: Seq<char> },
    Open { path: Seq<char>, source: Seq<char> },
    Database(Seq<char>),
    CorruptRecord { id: Seq<char>, reason: Seq<char> },
    MissingVm { id: u128 },
    MissingMicroNetwork { id: u128 },
    MissingMicroStorage { id: u128 },
    DuplicateMicroStoragePath { path: Seq<char> },
    DuplicateMicroRegistryLocal { alias: Seq<char>, architecture: Seq<char> },
    DuplicatePortForward { host_port: u16, protocol: Seq<char> },
    MissingShell { id: u128 },
    ShellInUse { id: u128, count: u32 },
    LegacyRead { path: Seq<char>, source: Seq<char> },
    LegacyDeserialize { path: Seq<char>, source: Seq<char> },
    LegacyArchive { path: Seq<char>, source: Seq<char> },
}

impl View for PersistenceError {
    type V = Fault;

    open spec fn view(&self) -> Fault {
        match self {
            PersistenceError::CreateDirectory { path, source } => Fault::CreateDirectory {
                path: path@,
                source: source@,
            },
            PersistenceError::Open { path, source } => Fault::Open { path: path@, source: source@ },
            PersistenceError::Database(why) => Fault::Database(why@),
            PersistenceError::CorruptRecord { id, reason } => Fault::CorruptRecord {
                id: id@,
                reason: reason@,
            },
            PersistenceError::MissingVm { id } => Fault::MissingVm { id: *id },
            PersistenceError::MissingMicroNetwork { id } => Fault::MissingMicroNetwork { id: *id },
            PersistenceError::MissingMicroStorage { id } => Fault::MissingMicroStorage { id: *id },
            PersistenceError::DuplicateMicroStoragePath { path } => {
                Fault::DuplicateMicroStoragePath { path: path@ }
            },
            PersistenceError::DuplicateMicroRegistryLocal { alias, architecture } => {
                Fault::DuplicateMicroRegistryLocal { alias: alias@, architecture: architecture@ }
            },
            PersistenceError::DuplicatePortForward { host_port, protocol } => {
                Fault::DuplicatePortForward { host_port: *host_port, protocol: protocol@ }
            },
            PersistenceError::MissingShell { id } => Fault::MissingShell { id: *id },
            PersistenceError::ShellInUse { id, count } => Fault::ShellInUse {
                id: *id,
                count: *count,
            },
            PersistenceError::LegacyRead { path, source } => Fault::LegacyRead {
                path: path@,
                source: source@,
            },
            PersistenceError::LegacyDeserialize { path, source } => Fault::LegacyDeserialize {
                path: path@,
                source: source@,
            },
            PersistenceError::LegacyArchive { path, source } => Fault::LegacyArchive {
                path: path@,
                source: source@,
            },
        }
    }
}

impl Fault {
    /// The failure in one line.
    pub open spec fn message(self) -> Seq<char> {
        match self {
            Fault::CreateDirectory { path, source } => "failed to create VM data directory "@ + path
                + ": "@ + source,
            Fault::Open { path, source } => "failed to open VM database "@ + path + ": "@ + source,
            Fault::Database(why) => "VM database operation failed: "@ + why,
            Fault::CorruptRecord { id, reason } => "VM database record "@ + id + " is invalid: "@
                + reason,
            Fault::MissingVm { id } => "VM "@ + uuid_text(id) + " does not exist in the database"@,
            Fault::MissingMicroNetwork { id } => "MicroNetwork "@ + uuid_text(id)
                + " does not exist in the database"@,
            Fault::MissingMicroStorage { id } => "MicroStorage "@ + uuid_text(id)
                + " does not exist in the database"@,
            Fault::DuplicateMicroStoragePath { path } => "MicroStorage path "@ + path
                + " is already registered"@,
            Fault::DuplicateMicroRegistryLocal { alias, architecture } =>
                "MicroRegistry local alias "@ + alias + " is already registered for "@
                + architecture,
            Fault::DuplicatePortForward { host_port, protocol } => "host port "@ + decimal(
                host_port as nat,
            ) + "/"@ + protocol + " is already in use by another VM"@,
            Fault::MissingShell { id } => "Shell "@ + uuid_text(id)
                + " does not exist in the database"@,
            Fault::ShellInUse { id, count } => "Shell "@ + uuid_text(id) + " is still pinned on "@
                + decimal(count as nat) + " VM(s)"@,
            Fault::LegacyRead { path, source } => "failed to read legacy VM data from "@ + path
                + ": "@ + source,
            Fault::LegacyDeserialize { path, source } =>
                "failed to deserialize legacy VM data from "@ + path + ": "@ + source,
            Fault::LegacyArchive { path, source } => "failed to archive imported legacy VM data "@
                + path + ": "@ + source,
        }
    }
}

impl PersistenceError {
    /// The failure in one line.
    pub fn message(&self) -> (r: String)
        ensures
            r@ == self@.message(),
    {
        match self {
            PersistenceError::CreateDirectory { path, source } =>
                "failed to create VM data directory ".to_owned().concat(path).concat(": ").concat(
                source,
            ),
            PersistenceError::Open { path, source } => "failed to open VM database ".to_owned().concat(
                path,
            ).concat(": ").concat(source),
            PersistenceError::Database(why) => "VM database operation failed: ".to_owned().concat(why),
            PersistenceError::CorruptRecord { id, reason } => "VM database record ".to_owned().concat(
                id,
            ).concat(" is invalid: ").concat(reason),
            PersistenceError::MissingVm { id } => "VM ".to_owned().concat(&uuid_string(*id)).concat(
                " does not exist in the database",
            ),
            PersistenceError::MissingMicroNetwork { id } => "MicroNetwork ".to_owned().concat(
                &uuid_string(*id),
            ).concat(" does not exist in the database"),
            PersistenceError::MissingMicroStorage { id } => "MicroStorage ".to_owned().concat(
                &uuid_string(*id),
            ).concat(" does not exist in the database"),
            PersistenceError::DuplicateMicroStoragePath { path } =>
                "MicroStorage path ".to_owned().concat(path).concat(" is already registered"),
            PersistenceError::DuplicateMicroRegistryLocal { alias, architecture } =>
                "MicroRegistry local alias ".to_owned().concat(alias).concat(
                " is already registered for ",
            ).concat(architecture),
            PersistenceError::DuplicatePortForward { host_port, protocol } =>
                "host port ".to_owned().concat(&decimal_of(*host_port as u64)).concat("/").concat(
                protocol,
            ).concat(" is already in use by another VM"),
            PersistenceError::MissingShell { id } => "Shell ".to_owned().concat(
                &uuid_string(*id),
            ).concat(" does not exist in the database"),
            PersistenceError::ShellInUse { id, count } => "Shell ".to_owned().concat(
                &uuid_string(*id),
            ).concat(" is still pinned on ").concat(&decimal_of(*count as u64)).concat(" VM(s)"),
            PersistenceError::LegacyRead { path, source } =>
                "failed to read legacy VM data from ".to_owned().concat(path).concat(": ").concat(
                source,
            ),
            PersistenceError::LegacyDeserialize { path, source } =>
                "failed to deserialize legacy VM data from ".to_owned().concat(path).concat(
                ": ",
            ).concat(source),
            PersistenceError::LegacyArchive { path, source } =>
                "failed to archive imported legacy VM data ".to_owned().concat(path).concat(
                ": ",
            ).concat(source),
        }
    }
}

/// A value of a column.
#[derive(Debug, Clone, PartialEq, Eq)]
pub enum Value {
    Null,
    Integer(i64),
    Text(String),
    /// A number with a fraction, which no column of the schema holds.
    Real,
    /// Bytes that are no text, which no column of the schema holds.
    Blob,
}

/// [`Value`] as contracts speak of it.
pub enum Cell {
    Null,
    Integer(i64),
    Text(Seq<char>),
    Real,
    Blob,
}

impl Cell {
    /// The type of the value.
    pub open spec fn kind(self) -> Seq<char> {
        match self {
            Cell::Null => "Null"@,
            Cell::Integer(_) => "Integer"@,
            Cell::Text(_) => "Text"@,
            Cell::Real => "Real"@,
            Cell::Blob => "Blob"@,
        }
    }
}

impl Value {
    /// The type of the value.
    pub fn kind(&self) -> (r: &'static str)
        ensures
            r@ == self@.kind(),
    {
        match self {
            Value::Null => "Null",
            Value::Integer(_) => "Integer",
            Value::Text(_) => "Text",
            Value::Real => "Real",
            Value::Blob => "Blob",
        }
    }
}

impl View for Value {
    type V = Cell;

    open spec fn view(&self) -> Cell {
        match self {
            Value::Null => Cell::Null,
            Value::Integer(n) => Cell::Integer(*n),
            Value::Text(text) => Cell::Text(text@),
            Value::Real => Cell::Real,
            Value::Blob => Cell::Blob,
        }
    }
}

/// The values of a row.
pub open spec fn cells(row: Seq<Value>) -> Seq<Cell> {
    row.map_values(|v: Value| v@)
}

/// The values of some rows.
pub open spec fn table(rows: Seq<Vec<Value>>) -> Seq<Seq<Cell>> {
    rows.map_values(|r: Vec<Value>| cells(r@))
}

/// A text, or nothing.
pub open spec fn nullable(text: Option<Seq<char>>) -> Cell {
    match text {
        Some(text) => Cell::Text(text),
        None => Cell::Null,
    }
}

/// A text, or nothing.
pub(crate) fn nullable_of(text: &Option<String>) -> (r: Value)
    ensures
        r@ == nullable(opt_view(*text)),
{
    match text {
        Some(text) => Value::Text(text.clone()),
        None => Value::Null,
    }
}

/// What is to be done next.
#[derive(Debug)]
pub enum Query {
    /// Run a statement; the answer is the number of rows that it changed.
    Run { sql: String, params: Vec<Value> },
    /// Run a statement; the answer is its rows.
    Select { sql: String, params: Vec<Value> },
    /// Begin a transaction. One that is `immediate` keeps other writers out from its start.
    Begin { immediate: bool },
    /// End the transaction with all that was done in it.
    Commit,
    /// End the transaction, where there is one, and undo all that was done in it; whether that
    /// succeeds does not matter.
    Rollback,
    /// Make a directory with all above it.
    CreateDirectory { path: String },
    /// Open the database, for its owner alone.
    Open { path: String },
    /// Have the database keep a log of its writes, and wait for other users for a while.
    Configure,
    /// Read the records from before the database, where they are.
    ReadLegacy { path: String },
    /// Rename a file.
    Rename { from: String, to: String },
    /// Work out the gateway of an IPv4 network.
    Gateway { cidr: String },
    /// Work out the gateway of an IPv6 network, and how its VMs reach the internet.
    Gateway6 { cidr: String, mode: network::Ipv6AddressMode },
}

/// [`Query`] as contracts speak of it.
pub enum Ask {
    Run { sql: Seq<char>, params: Seq<Cell> },
    Select { sql: Seq<char>, params: Seq<Cell> },
    Begin { immediate: bool },
    Commit,
    Rollback,
    CreateDirectory { path: Seq<char> },
    Open { path: Seq<char> },
    Configure,
    ReadLegacy { path: Seq<char> },
    Rename { from: Seq<char>, to: Seq<char> },
    Gateway { cidr: Seq<char> },
    Gateway6 { cidr: Seq<char>, mode: network::Ipv6AddressMode },
}

impl View for Query {
    type V = Ask;

    open spec fn view(&self) -> Ask {
        match self {
            Query::Run { sql, params } => Ask::Run { sql: sql@, params: cells(params@) },
            Query::Select { sql, params } => Ask::Select { sql: sql@, params: cells(params@) },
            Query::Begin { immediate } => Ask::Begin { immediate: *immediate },
            Query::Commit => Ask::Commit,
            Query::Rollback => Ask::Rollback,
            Query::CreateDirectory { path } => Ask::CreateDirectory { path: path@ },
            Query::Open { path } => Ask::Open { path: path@ },
            Query::Configure => Ask::Configure,
            Query::ReadLegacy { path } => Ask::ReadLegacy { path: path@ },
            Query::Rename { from, to } => Ask::Rename { from: from@, to: to@ },
            Query::Gateway { cidr } => Ask::Gateway { cidr: cidr@ },
            Query::Gateway6 { cidr, mode } => Ask::Gateway6 { cidr: cidr@, mode: *mode },
        }
    }
}

/// What came of it.
#[derive(Debug, Clone)]
pub enum Reply {
    /// It was done.
    Done,
    /// The number of rows that a statement changed.
    Changed(u64),
    /// The rows that a statement gave.
    Rows(Vec<Vec<Value>>),
    /// The records from before the database.
    Legacy(Vec<record::VmRecord>),
    /// The gateway of an IPv4 network.
    Gateway(String),
    /// The gateway of an IPv6 network, and how its VMs reach the internet.
    Gateway6(String, network::Ipv6EgressMode),
    /// There is no such file, or no such network.
    NotFound,
    /// A row may not be what it would have been.
    Constraint(String),
    /// The records from before the database could not be understood.
    Garbled(String),
    /// It failed in another way.
    Failed(String),
}

/// [`Reply`] as contracts speak of it.
pub enum Told {
    Done,
    Changed(u64),
    Rows(Seq<Seq<Cell>>),
    Legacy(Seq<record::Vm>),
    Gateway(Seq<char>),
    Gateway6(Seq<char>, network::Ipv6EgressMode),
    NotFound,
    Constraint(Seq<char>),
    Garbled(Seq<char>),
    Failed(Seq<char>),
}

impl View for Reply {
    type V = Told;

    open spec fn view(&self) -> Told {
        match self {
            Reply::Done => Told::Done,
            Reply::Changed(n) => Told::Changed(*n),
            Reply::Rows(rows) => Told::Rows(table(rows@)),
            Reply::Legacy(records) => Told::Legacy(seen(records@)),
            Reply::Gateway(gateway) => Told::Gateway(gateway@),
            Reply::Gateway6(gateway, egress) => Told::Gateway6(gateway@, *egress),
            Reply::NotFound => Told::NotFound,
            Reply::Constraint(why) => Told::Constraint(why@),
            Reply::Garbled(why) => Told::Garbled(why@),
            Reply::Failed(why) => Told::Failed(why@),
        }
    }
}

impl Told {
    /// Why something could not be done.
    pub open spec fn reason(self) -> Seq<char> {
        match self {
            Told::Constraint(why) => why,
            Told::Garbled(why) => why,
            Told::Failed(why) => why,
            Told::NotFound => "no such file"@,
            _ => "no answer"@,
        }
    }
}

impl Reply {
    pub(crate) fn reason(self) -> (r: String)
        ensures
            r@ == self@.reason(),
    {
        match self {
            Reply::Constraint(why) => why,
            Reply::Garbled(why) => why,
            Reply::Failed(why) => why,
            Reply::NotFound => "no such file".to_owned(),
            _ => "no answer".to_owned(),
        }
    }
}

/// What an operation has come to.
#[derive(Debug)]
pub enum Progress<T> {
    /// This is to be done next.
    Ask(Query),
    /// This is the result.
    Over(Result<T, PersistenceError>),
}

/// A result whose value stands for itself.
pub open spec fn outcome<T>(r: Result<T, PersistenceError>) -> Result<T, Fault> {
    match r {
        Ok(value) => Ok(value),
        Err(e) => Err(e@),
    }
}

/// A result by the view of its value.
pub open spec fn shown<T: View>(r: Result<T, PersistenceError>) -> Result<T::V, Fault> {
    match r {
        Ok(value) => Ok(value@),
        Err(e) => Err(e@),
    }
}

/// A result that is a list, by the views of its items.
pub open spec fn shown_all<T: View>(r: Result<Vec<T>, PersistenceError>) -> Result<
    Seq<T::V>,
    Fault,
> {
    match r {
        Ok(all) => Ok(seen(all@)),
        Err(e) => Err(e@),
    }
}

/// A result that may be missing, by the view of its value.
pub open spec fn shown_opt<T: View>(r: Result<Option<T>, PersistenceError>) -> Result<
    Option<T::V>,
    Fault,
> {
    match r {
        Ok(Some(value)) => Ok(Some(value@)),
        Ok(None) => Ok(None),
        Err(e) => Err(e@),
    }
}

/// Where an operation stands, by a reading of its result.
pub open spec fn stands<T, S>(
    progress: Progress<T>,
    reading: spec_fn(Result<T, PersistenceError>) -> Result<S, Fault>,
) -> Stand<Ask, Result<S, Fault>> {
    match progress {
        Progress::Ask(query) => Stand::Ask(query@),
        Progress::Over(r) => Stand::Over(reading(r)),
    }
}

impl Dialog<Ask, Told> {
    /// The dialog once something is asked, and the answer.
    pub open spec fn ask(self, ask: Ask) -> (Self, Told) {
        self.put_question(ask, Told::Done)
    }

    /// Runs a statement.
    pub open spec fn run(self, sql: Seq<char>, params: Seq<Cell>) -> (Self, Result<u64, Fault>) {
        let (next, told) = self.ask(Ask::Run { sql, params });
        (
            next,
            match told {
                Told::Changed(n) => Ok(n),
                _ => Err(Fault::Database(told.reason())),
            },
        )
    }

    /// Runs a statement whose failure may be a clash with another row.
    pub open spec fn run_unless(self, sql: Seq<char>, params: Seq<Cell>, clash: Fault) -> (
        Self,
        Result<u64, Fault>,
    ) {
        let (next, told) = self.ask(Ask::Run { sql, params });
        (
            next,
            match told {
                Told::Changed(n) => Ok(n),
                Told::Constraint(_) => Err(clash),
                _ => Err(Fault::Database(told.reason())),
            },
        )
    }

    /// The rows that a statement gives.
    pub open spec fn select(self, sql: Seq<char>, params: Seq<Cell>) -> (
        Self,
        Result<Seq<Seq<Cell>>, Fault>,
    ) {
        let (next, told) = self.ask(Ask::Select { sql, params });
        (
            next,
            match told {
                Told::Rows(rows) => Ok(rows),
                _ => Err(Fault::Database(told.reason())),
            },
        )
    }

    /// Begins or ends a transaction.
    pub open spec fn transact(self, ask: Ask) -> (Self, Result<(), Fault>) {
        let (next, told) = self.ask(ask);
        (
            next,
            match told {
                Told::Done => Ok(()),
                _ => Err(Fault::Database(told.reason())),
            },
        )
    }

    /// Ends a transaction by what came of it: with a success all that was done stays, and with
    /// a failure, also one to end it, nothing of it does.
    pub open spec fn concluded<T>(self, result: Result<T, Fault>) -> (Self, Result<T, Fault>) {
        match result {
            Err(fault) => (self.ask(Ask::Rollback).0, Err(fault)),
            Ok(value) => {
                let (done, kept) = self.transact(Ask::Commit);
                match kept {
                    Err(fault) => (done.ask(Ask::Rollback).0, Err(fault)),
                    Ok(_) => (done, Ok(value)),
                }
            },
        }
    }
}

impl Steps<Query, Reply> {
    pub(crate) fn ask(&mut self, query: Query) -> (r: Reply)
        requires
            old(self).wf(),
        ensures
            final(self).wf(),
            (final(self)@, r@) == old(self)@.ask(query@),
    {
        self.put_question(query, Reply::Done)
    }

    pub(crate) fn run(&mut self, sql: &str, params: Vec<Value>) -> (r: Result<
        u64,
        PersistenceError,
    >)
        requires
            old(self).wf(),
        ensures
            final(self).wf(),
            (final(self)@, outcome(r)) == old(self)@.run(sql@, cells(params@)),
    {
        let reply = self.ask(Query::Run { sql: sql.to_owned(), params });
        match reply {
            Reply::Changed(n) => Ok(n),
            _ => Err(PersistenceError::Database(reply.reason())),
        }
    }

    pub(crate) fn run_unless(&mut self, sql: &str, params: Vec<Value>, clash: PersistenceError) -> (r:
        Result<u64, PersistenceError>)
        requires
            old(self).wf(),
        ensures
            final(self).wf(),
            (final(self)@, outcome(r)) == old(self)@.run_unless(sql@, cells(params@), clash@),
    {
        let reply = self.ask(Query::Run { sql: sql.to_owned(), params });
        match reply {
            Reply::Changed(n) => Ok(n),
            Reply::Constraint(_) => Err(clash),
            _ => Err(PersistenceError::Database(reply.reason())),
        }
    }

    pub(crate) fn select(&mut self, sql: &str, params: Vec<Value>) -> (r: Result<
        Vec<Vec<Value>>,
        PersistenceError,
    >)
        requires
            old(self).wf(),
        ensures
            final(self).wf(),
            (
                final(self)@,
                match r {
                    Ok(rows) => Ok::<Seq<Seq<Cell>>, Fault>(table(rows@)),
                    Err(e) => Err(e@),
                },
            ) == old(self)@.select(sql@, cells(params@)),
    {
        let reply = self.ask(Query::Select { sql: sql.to_owned(), params });
        match reply {
            Reply::Rows(rows) => Ok(rows),
            _ => Err(PersistenceError::Database(reply.reason())),
        }
    }

    pub(crate) fn transact(&mut self, query: Query) -> (r: Result<(), PersistenceError>)
        requires
            old(self).wf(),
        ensures
            final(self).wf(),
            (final(self)@, outcome(r)) == old(self)@.transact(query@),
    {
        let reply = self.ask(query);
        match reply {
            Reply::Done => Ok(()),
            _ => Err(PersistenceError::Database(reply.reason())),
        }
    }

    pub(crate) fn conclude<T>(&mut self, result: Result<T, PersistenceError>) -> (r: Result<
        T,
        PersistenceError,
    >)
        requires
            old(self).wf(),
        ensures
            final(self).wf(),
            (final(self)@, outcome(r)) == old(self)@.concluded(outcome(result)),
    {
        match result {
            Err(e) => {
                let _ = self.ask(Query::Rollback);
                Err(e)
            },
            Ok(value) => match self.transact(Query::Commit) {
                Err(e) => {
                    let _ = self.ask(Query::Rollback);
                    Err(e)
                },
                Ok(()) => Ok(value),
            },
        }
    }

    pub(crate) fn finish<T>(self, result: Result<T, PersistenceError>) -> (r: Progress<T>)
        requires
            self.wf(),
        ensures
            r == match r {
                Progress::Ask(query) => Progress::Ask(query),
                Progress::Over(_) => Progress::Over(result),
            },
            match r {
                Progress::Ask(query) => self@.waiting && query@ == self@.asked.last(),
                Progress::Over(_) => !self@.waiting,
            },
    {
        match self.pending() {
            Some(query) => Progress::Ask(query),
            None => Progress::Over(result),
        }
    }
}

/// The fault of a column that does not hold what it should.
pub open spec fn wrong_type(row: Seq<Cell>, column: int, name: Seq<char>) -> Fault {
    if 0 <= column < row.len() {
        Fault::Database(
            "Invalid column type "@ + row[column].kind() + " at index: "@ + decimal(column as nat)
                + ", name: "@ + name,
        )
    } else {
        Fault::Database("Invalid column index: "@ + decimal(column as nat))
    }
}

/// The text of a column.
pub open spec fn text_at(row: Seq<Cell>, column: int, name: Seq<char>) -> Result<Seq<char>, Fault> {
    if 0 <= column < row.len() && row[column] is Text {
        Ok(row[column]->Text_0)
    } else {
        Err(wrong_type(row, column, name))
    }
}

/// The text of a column that may hold nothing.
pub open spec fn opt_text_at(row: Seq<Cell>, column: int, name: Seq<char>) -> Result<Option<Seq<char>>, Fault> {
    if 0 <= column < row.len() && row[column] is Text {
        Ok(Some(row[column]->Text_0))
    } else if 0 <= column < row.len() && row[column] is Null {
        Ok(None)
    } else {
        Err(wrong_type(row, column, name))
    }
}

/// The number of a column.
pub open spec fn int_at(row: Seq<Cell>, column: int, name: Seq<char>) -> Result<i64, Fault> {
    if 0 <= column < row.len() && row[column] is Integer {
        Ok(row[column]->Integer_0)
    } else {
        Err(wrong_type(row, column, name))
    }
}

/// The number of a column that may hold nothing.
pub open spec fn opt_int_at(row: Seq<Cell>, column: int, name: Seq<char>) -> Result<Option<i64>, Fault> {
    if 0 <= column < row.len() && row[column] is Integer {
        Ok(Some(row[column]->Integer_0))
    } else if 0 <= column < row.len() && row[column] is Null {
        Ok(None)
    } else {
        Err(wrong_type(row, column, name))
    }
}

/// The number of a column that must not be negative or too large.
pub open spec fn u32_at(row: Seq<Cell>, column: int, name: Seq<char>) -> Result<u32, Fault> {
    match int_at(row, column, name) {
        Err(fault) => Err(fault),
        Ok(n) => if 0 <= n <= u32::MAX {
            Ok(n as u32)
        } else {
            Err(
                Fault::Database(
                    "Integer "@ + signed_decimal(n as int) + " out of range at index "@ + decimal(
                        column as nat,
                    ),
                ),
            )
        },
    }
}

fn wrong_type_of(row: &Vec<Value>, column: usize, name: &str) -> (r: PersistenceError)
    ensures
        r@ == wrong_type(cells(row@), column as int, name@),
{
    if column < row.len() {
        assert(cells(row@)[column as int] == row@[column as int]@);
        PersistenceError::Database(
            "Invalid column type ".to_owned().concat(row[column].kind()).concat(
                " at index: ",
            ).concat(&decimal_of(column as u64)).concat(", name: ").concat(name),
        )
    } else {
        PersistenceError::Database(
            "Invalid column index: ".to_owned().concat(&decimal_of(column as u64)),
        )
    }
}

/// The text of a column.
pub(crate) fn text_of(row: &Vec<Value>, column: usize, name: &str) -> (r: Result<String, PersistenceError>)
    ensures
        shown(r) == text_at(cells(row@), column as int, name@),
{
    if column < row.len() {
        assert(cells(row@)[column as int] == row@[column as int]@);
        if let Value::Text(text) = &row[column] {
            return Ok(text.clone());
        }
    }
    Err(wrong_type_of(row, column, name))
}

/// The text of a column that may hold nothing.
pub(crate) fn opt_text_of(row: &Vec<Value>, column: usize, name: &str) -> (r: Result<
    Option<String>,
    PersistenceError,
>)
    ensures
        (match r {
            Ok(text) => Ok::<Option<Seq<char>>, Fault>(opt_view(text)),
            Err(e) => Err(e@),
        }) == opt_text_at(cells(row@), column as int, name@),
{
    if column < row.len() {
        assert(cells(row@)[column as int] == row@[column as int]@);
        match &row[column] {
            Value::Text(text) => {
                return Ok(Some(text.clone()));
            },
            Value::Null => {
                return Ok(None);
            },
            _ => {},
        }
    }
    Err(wrong_type_of(row, column, name))
}

/// The number of a column.
pub(crate) fn int_of(row: &Vec<Value>, column: usize, name: &str) -> (r: Result<i64, PersistenceError>)
    ensures
        outcome(r) == int_at(cells(row@), column as int, name@),
{
    if column < row.len() {
        assert(cells(row@)[column as int] == row@[column as int]@);
        if let Value::Integer(n) = &row[column] {
            return Ok(*n);
        }
    }
    Err(wrong_type_of(row, column, name))
}

/// The number of a column that may hold nothing.
pub(crate) fn opt_int_of(row: &Vec<Value>, column: usize, name: &str) -> (r: Result<
    Option<i64>,
    PersistenceError,
>)
    ensures
        outcome(r) == opt_int_at(cells(row@), column as int, name@),
{
    if column < row.len() {
        assert(cells(row@)[column as int] == row@[column as int]@);
        match &row[column] {
            Value::Integer(n) => {
                return Ok(Some(*n));
            },
            Value::Null => {
                return Ok(None);
            },
            _ => {},
        }
    }
    Err(wrong_type_of(row, column, name))
}

/// The number of a column that must not be negative or too large.
pub(crate) fn u32_of(row: &Vec<Value>, column: usize, name: &str) -> (r: Result<u32, PersistenceError>)
    ensures
        outcome(r) == u32_at(cells(row@), column as int, name@),
{
    let n: i64 = match int_of(row, column, name) {
        Err(e) => return Err(e),
        Ok(n) => n,
    };
    if 0 <= n && n <= 4294967295 {
        Ok(n as u32)
    } else {
        Err(
            PersistenceError::Database(
                "Integer ".to_owned().concat(&signed_decimal_of(n)).concat(
                    " out of range at index ",
                ).concat(&decimal_of(column as u64)),
            ),
        )
    }
}

/// What a list of rows stands for, or the first fault.
pub open spec fn decoded_all<T>(
    rows: Seq<Seq<Cell>>,
    decode: spec_fn(Seq<Cell>) -> Result<T, Fault>,
) -> Result<Seq<T>, Fault>
    decreases rows.len(),
{
    if rows.len() == 0 {
        Ok(Seq::empty())
    } else {
        match decoded_all(rows.drop_last(), decode) {
            Err(fault) => Err(fault),
            Ok(all) => match decode(rows.last()) {
                Err(fault) => Err(fault),
                Ok(value) => Ok(all.push(value)),
            },
        }
    }
}

/// A fault in the first rows is the fault of all of them.
pub(crate) proof fn decoded_all_fails<T>(
    rows: Seq<Seq<Cell>>,
    decode: spec_fn(Seq<Cell>) -> Result<T, Fault>,
    n: int,
)
    requires
        0 <= n <= rows.len(),
        decoded_all(rows.take(n), decode) is Err,
    ensures
        decoded_all(rows, decode) == decoded_all(rows.take(n), decode),
    decreases rows.len() - n,
{
    if n == rows.len() {
        assert(rows.take(n) =~= rows);
    } else {
        assert(rows.take(n + 1).drop_last() =~= rows.take(n));
        decoded_all_fails(rows, decode, n + 1);
    }
}

impl Dialog<Ask, Told> {
    /// Runs a statement that is to change a row.
    pub open spec fn change(self, sql: Seq<char>, params: Seq<Cell>, missing: Fault) -> (
        Self,
        Result<(), Fault>,
    ) {
        let (next, changed) = self.run(sql, params);
        (
            next,
            match changed {
                Err(fault) => Err(fault),
                Ok(n) => if n == 0 {
                    Err(missing)
                } else {
                    Ok(())
                },
            },
        )
    }

    /// Runs a statement, whatever the number of rows that it changes.
    pub open spec fn perform(self, sql: Seq<char>, params: Seq<Cell>) -> (Self, Result<(), Fault>) {
        let (next, changed) = self.run(sql, params);
        (
            next,
            match changed {
                Err(fault) => Err(fault),
                Ok(_) => Ok(()),
            },
        )
    }

    /// Runs a statement that may clash with another row.
    pub open spec fn perform_unless(self, sql: Seq<char>, params: Seq<Cell>, clash: Fault) -> (
        Self,
        Result<(), Fault>,
    ) {
        let (next, changed) = self.run_unless(sql, params, clash);
        (
            next,
            match changed {
                Err(fault) => Err(fault),
                Ok(_) => Ok(()),
            },
        )
    }

    /// What the rows of a statement stand for.
    pub open spec fn list<T>(
        self,
        sql: Seq<char>,
        params: Seq<Cell>,
        decode: spec_fn(Seq<Cell>) -> Result<T, Fault>,
    ) -> (Self, Result<Seq<T>, Fault>) {
        let (next, rows) = self.select(sql, params);
        (
            next,
            match rows {
                Err(fault) => Err(fault),
                Ok(rows) => decoded_all(rows, decode),
            },
        )
    }

    /// What the first row of a statement stands for, where there is one.
    pub open spec fn find<T>(
        self,
        sql: Seq<char>,
        params: Seq<Cell>,
        decode: spec_fn(Seq<Cell>) -> Result<T, Fault>,
    ) -> (Self, Result<Option<T>, Fault>) {
        let (next, rows) = self.select(sql, params);
        (
            next,
            match rows {
                Err(fault) => Err(fault),
                Ok(rows) => if rows.len() == 0 {
                    Ok(None)
                } else {
                    match decode(rows[0]) {
                        Err(fault) => Err(fault),
                        Ok(value) => Ok(Some(value)),
                    }
                },
            },
        )
    }
}

impl Steps<Query, Reply> {
    pub(crate) fn change(&mut self, sql: &str, params: Vec<Value>, missing: PersistenceError) -> (r:
        Result<(), PersistenceError>)
        requires
            old(self).wf(),
        ensures
            final(self).wf(),
            (final(self)@, outcome(r)) == old(self)@.change(sql@, cells(params@), missing@),
    {
        match self.run(sql, params) {
            Err(e) => Err(e),
            Ok(n) => if n == 0 {
                Err(missing)
            } else {
                Ok(())
            },
        }
    }

    pub(crate) fn perform(&mut self, sql: &str, params: Vec<Value>) -> (r: Result<
        (),
        PersistenceError,
    >)
        requires
            old(self).wf(),
        ensures
            final(self).wf(),
            (final(self)@, outcome(r)) == old(self)@.perform(sql@, cells(params@)),
    {
        match self.run(sql, params) {
            Err(e) => Err(e),
            Ok(_) => Ok(()),
        }
    }

    pub(crate) fn perform_unless(
        &mut self,
        sql: &str,
        params: Vec<Value>,
        clash: PersistenceError,
    ) -> (r: Result<(), PersistenceError>)
        requires
            old(self).wf(),
        ensures
            final(self).wf(),
            (final(self)@, outcome(r)) == old(self)@.perform_unless(
                sql@,
                cells(params@),
                clash@,
            ),
    {
        match self.run_unless(sql, params, clash) {
            Err(e) => Err(e),
            Ok(_) => Ok(()),
        }
    }

    pub(crate) fn first_row(&mut self, sql: &str, params: Vec<Value>) -> (r: Result<
        Option<Vec<Value>>,
        PersistenceError,
    >)
        requires
            old(self).wf(),
        ensures
            final(self).wf(),
            final(self)@ == old(self)@.select(sql@, cells(params@)).0,
            match r {
                Err(e) => old(self)@.select(sql@, cells(params@)).1 == Err::<
                    Seq<Seq<Cell>>,
                    Fault,
                >(e@),
                Ok(None) => old(self)@.select(sql@, cells(params@)).1 is Ok && old(self)@.select(
                    sql@, cells(params@)).1->Ok_0.len() == 0,
                Ok(Some(row)) => old(self)@.select(sql@, cells(params@)).1 is Ok && old(
                    self)@.select(sql@, cells(params@)).1->Ok_0.len() > 0 && cells(row@) == old(
                    self)@.select(sql@, cells(params@)).1->Ok_0[0],
            },
    {
        match self.select(sql, params) {
            Err(e) => Err(e),
            Ok(rows) => {
                assert(table(rows@).len() == rows@.len());
                let mut rows = rows;
                if rows.len() == 0 {
                    Ok(None)
                } else {
                    assert(table(rows@)[0] == cells(rows@[0]@));
                    Ok(Some(rows.remove(0)))
                }
            },
        }
    }
}

/// The lower half of a number.
#[verifier::truncate]
pub(crate) fn low32(n: i64) -> (r: u32)
    ensures
        r == n as u32,
{
    n as u32
}

/// The lowest two bytes of a number.
#[verifier::truncate]
pub(crate) fn low16(n: i64) -> (r: u16)
    ensures
        r == n as u16,
{
    n as u16
}

/// The bits of a number without its sign.
#[verifier::truncate]
pub(crate) fn unsigned(n: i64) -> (r: u64)
    ensures
        r == n as u64,
{
    n as u64
}

/// The bits of a number with a sign.
#[verifier::truncate]
pub(crate) fn signed(n: u64) -> (r: i64)
    ensures
        r == n as i64,
{
    n as i64
}

} // verus!
