//! The scripts that VMs run when they start, each with its revisions.

use vstd::prelude::*;

#[allow(unused_imports)]
use super::record::{id_in, uuid_text};
use super::record::{decode_id, uuid_string};
#[allow(unused_imports)]
use super::{
    cells, decoded_all, decoded_all_fails, int_at, nullable, opt_int_at, opt_text_at, outcome,
    shown, shown_all, shown_opt, stands, table, text_at, Ask, Cell, Fault, Told,
};
use super::{
    int_of, low32, nullable_of, opt_int_of, opt_text_of, signed, text_of, unsigned,
    PersistenceError, Progress, Query, Reply, Store, Value,
};
use crate::dialog::Steps;
#[allow(unused_imports)]
use crate::dialog::{fresh, seen, stand, Dialog};
#[allow(unused_imports)]
use crate::text::opt_view;
#[allow(unused_imports)]
use vstd::utf8::encode_utf8;

verus! {

pub const INSERT_SHELL_SQL: &'static str = "INSERT INTO shells (id, name, description, created_at_ms, updated_at_ms) VALUES (?1, ?2, ?3, ?4, ?5)";

pub const INSERT_FIRST_REVISION_SQL: &'static str = "INSERT INTO shell_revisions (id, shell_id, version, content, content_sha256, created_at_ms) VALUES (?1, ?2, 1, ?3, ?4, ?5)";

pub const SHELL_EXISTS_SQL: &'static str = "SELECT 1 FROM shells WHERE id = ?1";

pub const NEXT_VERSION_SQL: &'static str = "SELECT COALESCE(MAX(version), 0) + 1 FROM shell_revisions WHERE shell_id = ?1";

pub const INSERT_REVISION_SQL: &'static str = "INSERT INTO shell_revisions (id, shell_id, version, content, content_sha256, created_at_ms) VALUES (?1, ?2, ?3, ?4, ?5, ?6)";

pub const TOUCH_SHELL_SQL: &'static str = "UPDATE shells SET updated_at_ms = ?2 WHERE id = ?1";

pub const SELECT_SHELLS_SQL: &'static str = "SELECT s.id, s.name, s.description, s.created_at_ms, s.updated_at_ms, r.id, r.version, r.content_sha256 FROM shells s LEFT JOIN shell_revisions r ON r.shell_id = s.id AND r.version = (SELECT MAX(version) FROM shell_revisions WHERE shell_id = s.id) ORDER BY s.name COLLATE NOCASE, s.id";

pub const SELECT_REVISION_SQL: &'static str = "SELECT id, version, content_sha256, content, created_at_ms FROM shell_revisions WHERE id = ?1 AND shell_id = ?2";

pub const SELECT_SHELL_SQL: &'static str = "SELECT id, name, description, created_at_ms, updated_at_ms FROM shells WHERE id = ?1";

pub const SELECT_REVISIONS_SQL: &'static str = "SELECT id, version, content_sha256, created_at_ms, content FROM shell_revisions WHERE shell_id = ?1 ORDER BY version DESC";

pub const COUNT_PINS_SQL: &'static str = "SELECT COUNT(*) FROM vm_shells WHERE shell_id = ?1";

pub const DELETE_REVISIONS_SQL: &'static str = "DELETE FROM shell_revisions WHERE shell_id = ?1";

pub const DELETE_SHELL_SQL: &'static str = "DELETE FROM shells WHERE id = ?1";

pub const LATEST_REVISION_SQL: &'static str = "SELECT id FROM shell_revisions WHERE shell_id = ?1 ORDER BY version DESC LIMIT 1";

pub const CLEAR_VM_SHELLS_SQL: &'static str = "DELETE FROM vm_shells WHERE vm_id = ?1";

pub const INSERT_VM_SHELL_SQL: &'static str = "INSERT INTO vm_shells (vm_id, shell_id, revision_id, position) VALUES (?1, ?2, ?3, ?4)";

pub const SELECT_VM_SHELL_REFS_SQL: &'static str = "SELECT vs.shell_id, vs.revision_id, r.version, s.name FROM vm_shells vs JOIN shells s ON s.id = vs.shell_id JOIN shell_revisions r ON r.id = vs.revision_id WHERE vs.vm_id = ?1 ORDER BY vs.position ASC";

pub const SELECT_VM_SHELL_SCRIPTS_SQL: &'static str = "SELECT vs.revision_id, r.content FROM vm_shells vs JOIN shell_revisions r ON r.id = vs.revision_id WHERE vs.vm_id = ?1 ORDER BY vs.position ASC";

/// The id that a column stands for, where it holds one; `what` says what is wrong where it
/// stands for none.
pub open spec fn opt_id_in(record: Seq<char>, stored: Option<Seq<char>>, what: Seq<char>) -> Result<
    Option<u128>,
    Fault,
> {
    match stored {
        None => Ok(None),
        Some(text) => match id_in(record, text, what) {
            Ok(id) => Ok(Some(id)),
            Err(fault) => Err(fault),
        },
    }
}

fn decode_opt_id(record: &str, stored: &Option<String>, what: &str) -> (r: Result<
    Option<u128>,
    PersistenceError,
>)
    ensures
        outcome(r) == opt_id_in(record@, opt_view(*stored), what@),
{
    match stored {
        None => Ok(None),
        Some(text) => match decode_id(record, text, what) {
            Ok(id) => Ok(Some(id)),
            Err(e) => Err(e),
        },
    }
}

/// A script with its latest revision.
#[derive(Debug, PartialEq, Eq)]
pub struct ShellResponse {
    pub id: u128,
    pub name: String,
    pub description: Option<String>,
    pub latest_version: u32,
    pub latest_revision_id: Option<u128>,
    pub content_sha256: Option<String>,
    pub created_at_ms: u64,
    pub updated_at_ms: u64,
}

/// [`ShellResponse`] as contracts speak of it.
pub struct Shell {
    pub id: u128,
    pub name: Seq<char>,
    pub description: Option<Seq<char>>,
    pub latest_version: u32,
    pub latest_revision_id: Option<u128>,
    pub content_sha256: Option<Seq<char>>,
    pub created_at_ms: u64,
    pub updated_at_ms: u64,
}

impl View for ShellResponse {
    type V = Shell;

    open spec fn view(&self) -> Shell {
        Shell {
            id: self.id,
            name: self.name@,
            description: opt_view(self.description),
            latest_version: self.latest_version,
            latest_revision_id: self.latest_revision_id,
            content_sha256: opt_view(self.content_sha256),
            created_at_ms: self.created_at_ms,
            updated_at_ms: self.updated_at_ms,
        }
    }
}

/// The version of the latest revision: a script without one has version 0.
pub open spec fn version_in(stored: Option<i64>) -> u32 {
    match stored {
        Some(n) => n as u32,
        None => 0,
    }
}

fn version_of(stored: Option<i64>) -> (r: u32)
    ensures
        r == version_in(stored),
{
    match stored {
        Some(n) => low32(n),
        None => 0,
    }
}

/// The script that a row keeps.
pub open spec fn shell_of(row: Seq<Cell>) -> Result<Shell, Fault> {
    if text_at(row, 0, "id"@) is Err {
        Err(text_at(row, 0, "id"@)->Err_0)
    } else if id_in(text_at(row, 0, "id"@)->Ok_0, text_at(row, 0, "id"@)->Ok_0, "shell id is not a UUID"@) is Err {
        Err(id_in(text_at(row, 0, "id"@)->Ok_0, text_at(row, 0, "id"@)->Ok_0, "shell id is not a UUID"@)->Err_0)
    } else if opt_text_at(row, 5, "id"@) is Err {
        Err(opt_text_at(row, 5, "id"@)->Err_0)
    } else if opt_id_in(text_at(row, 0, "id"@)->Ok_0, opt_text_at(row, 5, "id"@)->Ok_0, "revision id is not a UUID"@) is Err {
        Err(opt_id_in(text_at(row, 0, "id"@)->Ok_0, opt_text_at(row, 5, "id"@)->Ok_0, "revision id is not a UUID"@)->Err_0)
    } else if opt_int_at(row, 6, "version"@) is Err {
        Err(opt_int_at(row, 6, "version"@)->Err_0)
    } else if text_at(row, 1, "name"@) is Err {
        Err(text_at(row, 1, "name"@)->Err_0)
    } else if opt_text_at(row, 2, "description"@) is Err {
        Err(opt_text_at(row, 2, "description"@)->Err_0)
    } else if opt_text_at(row, 7, "content_sha256"@) is Err {
        Err(opt_text_at(row, 7, "content_sha256"@)->Err_0)
    } else if int_at(row, 3, "created_at_ms"@) is Err {
        Err(int_at(row, 3, "created_at_ms"@)->Err_0)
    } else if int_at(row, 4, "updated_at_ms"@) is Err {
        Err(int_at(row, 4, "updated_at_ms"@)->Err_0)
    } else {
        Ok(
            Shell {
                id: id_in(text_at(row, 0, "id"@)->Ok_0, text_at(row, 0, "id"@)->Ok_0, "shell id is not a UUID"@)->Ok_0,
                name: text_at(row, 1, "name"@)->Ok_0,
                description: opt_text_at(row, 2, "description"@)->Ok_0,
                latest_version: version_in(opt_int_at(row, 6, "version"@)->Ok_0),
                latest_revision_id: opt_id_in(text_at(row, 0, "id"@)->Ok_0, opt_text_at(row, 5, "id"@)->Ok_0, "revision id is not a UUID"@)->Ok_0,
                content_sha256: opt_text_at(row, 7, "content_sha256"@)->Ok_0,
                created_at_ms: int_at(row, 3, "created_at_ms"@)->Ok_0 as u64,
                updated_at_ms: int_at(row, 4, "updated_at_ms"@)->Ok_0 as u64,
            },
        )
    }
}

fn decode_shell(row: &Vec<Value>) -> (r: Result<ShellResponse, PersistenceError>)
    ensures
        shown(r) == shell_of(cells(row@)),
{
    let id_text: String = text_of(row, 0, "id")?;
    let id: u128 = decode_id(&id_text, &id_text, "shell id is not a UUID")?;
    let rev_text: Option<String> = opt_text_of(row, 5, "id")?;
    let latest_revision_id: Option<u128> = decode_opt_id(&id_text, &rev_text, "revision id is not a UUID")?;
    let version: Option<i64> = opt_int_of(row, 6, "version")?;
    let name: String = text_of(row, 1, "name")?;
    let description: Option<String> = opt_text_of(row, 2, "description")?;
    let content_sha256: Option<String> = opt_text_of(row, 7, "content_sha256")?;
    let created: i64 = int_of(row, 3, "created_at_ms")?;
    let updated: i64 = int_of(row, 4, "updated_at_ms")?;
    Ok(
        ShellResponse {
            id,
            name,
            description,
            latest_version: version_of(version),
            latest_revision_id,
            content_sha256,
            created_at_ms: unsigned(created),
            updated_at_ms: unsigned(updated),
        },
    )
}

/// A revision of a script.
#[derive(Debug, PartialEq, Eq)]
pub struct ShellRevisionResponse {
    pub shell_id: u128,
    pub revision_id: u128,
    pub version: u32,
    pub content_sha256: String,
    pub content: String,
    pub created_at_ms: u64,
}

/// [`ShellRevisionResponse`] as contracts speak of it.
pub struct Revision {
    pub shell_id: u128,
    pub revision_id: u128,
    pub version: u32,
    pub content_sha256: Seq<char>,
    pub content: Seq<char>,
    pub created_at_ms: u64,
}

impl View for ShellRevisionResponse {
    type V = Revision;

    open spec fn view(&self) -> Revision {
        Revision {
            shell_id: self.shell_id,
            revision_id: self.revision_id,
            version: self.version,
            content_sha256: self.content_sha256@,
            content: self.content@,
            created_at_ms: self.created_at_ms,
        }
    }
}

/// A revision of a script without its text.
#[derive(Debug, PartialEq, Eq)]
pub struct ShellRevisionSummary {
    pub id: u128,
    pub version: u32,
    pub content_sha256: String,
    pub created_at_ms: u64,
    pub size_bytes: u32,
}

/// [`ShellRevisionSummary`] as contracts speak of it.
pub struct Summary {
    pub id: u128,
    pub version: u32,
    pub content_sha256: Seq<char>,
    pub created_at_ms: u64,
    pub size_bytes: u32,
}

impl View for ShellRevisionSummary {
    type V = Summary;

    open spec fn view(&self) -> Summary {
        Summary {
            id: self.id,
            version: self.version,
            content_sha256: self.content_sha256@,
            created_at_ms: self.created_at_ms,
            size_bytes: self.size_bytes,
        }
    }
}

#[verifier::truncate]
fn size_of(text: &str) -> (r: u32)
    ensures
        r == encode_utf8(text@).len() as u32,
{
    text.as_bytes().len() as u32
}

/// The revision that a row keeps, without its text.
pub open spec fn summary_of(row: Seq<Cell>) -> Result<Summary, Fault> {
    if text_at(row, 0, "id"@) is Err {
        Err(text_at(row, 0, "id"@)->Err_0)
    } else if id_in(text_at(row, 0, "id"@)->Ok_0, text_at(row, 0, "id"@)->Ok_0, "revision id is not a UUID"@) is Err {
        Err(id_in(text_at(row, 0, "id"@)->Ok_0, text_at(row, 0, "id"@)->Ok_0, "revision id is not a UUID"@)->Err_0)
    } else if text_at(row, 4, "content"@) is Err {
        Err(text_at(row, 4, "content"@)->Err_0)
    } else if int_at(row, 1, "version"@) is Err {
        Err(int_at(row, 1, "version"@)->Err_0)
    } else if text_at(row, 2, "content_sha256"@) is Err {
        Err(text_at(row, 2, "content_sha256"@)->Err_0)
    } else if int_at(row, 3, "created_at_ms"@) is Err {
        Err(int_at(row, 3, "created_at_ms"@)->Err_0)
    } else {
        Ok(
            Summary {
                id: id_in(text_at(row, 0, "id"@)->Ok_0, text_at(row, 0, "id"@)->Ok_0, "revision id is not a UUID"@)->Ok_0,
                version: int_at(row, 1, "version"@)->Ok_0 as u32,
                content_sha256: text_at(row, 2, "content_sha256"@)->Ok_0,
                created_at_ms: int_at(row, 3, "created_at_ms"@)->Ok_0 as u64,
                size_bytes: encode_utf8(text_at(row, 4, "content"@)->Ok_0).len() as u32,
            },
        )
    }
}

fn decode_summary(row: &Vec<Value>) -> (r: Result<ShellRevisionSummary, PersistenceError>)
    ensures
        shown(r) == summary_of(cells(row@)),
{
    let id_text: String = text_of(row, 0, "id")?;
    let id: u128 = decode_id(&id_text, &id_text, "revision id is not a UUID")?;
    let content: String = text_of(row, 4, "content")?;
    let version: i64 = int_of(row, 1, "version")?;
    let content_sha256: String = text_of(row, 2, "content_sha256")?;
    let created: i64 = int_of(row, 3, "created_at_ms")?;
    Ok(
        ShellRevisionSummary {
            id,
            version: low32(version),
            content_sha256,
            created_at_ms: unsigned(created),
            size_bytes: size_of(&content),
        },
    )
}

/// A script that a VM runs.
#[derive(Debug, PartialEq, Eq)]
pub struct ShellRef {
    pub shell_id: u128,
    pub revision_id: u128,
    pub version: u32,
    pub name: String,
}

/// [`ShellRef`] as contracts speak of it.
pub struct Pin {
    pub shell_id: u128,
    pub revision_id: u128,
    pub version: u32,
    pub name: Seq<char>,
}

impl View for ShellRef {
    type V = Pin;

    open spec fn view(&self) -> Pin {
        Pin {
            shell_id: self.shell_id,
            revision_id: self.revision_id,
            version: self.version,
            name: self.name@,
        }
    }
}

/// The script of a VM that a row keeps.
pub open spec fn pin_of(row: Seq<Cell>) -> Result<Pin, Fault> {
    if text_at(row, 0, "shell_id"@) is Err {
        Err(text_at(row, 0, "shell_id"@)->Err_0)
    } else if text_at(row, 1, "revision_id"@) is Err {
        Err(text_at(row, 1, "revision_id"@)->Err_0)
    } else if id_in(text_at(row, 0, "shell_id"@)->Ok_0, text_at(row, 0, "shell_id"@)->Ok_0, "shell id is not a UUID"@) is Err {
        Err(id_in(text_at(row, 0, "shell_id"@)->Ok_0, text_at(row, 0, "shell_id"@)->Ok_0, "shell id is not a UUID"@)->Err_0)
    } else if id_in(text_at(row, 1, "revision_id"@)->Ok_0, text_at(row, 1, "revision_id"@)->Ok_0, "revision id is not a UUID"@) is Err {
        Err(id_in(text_at(row, 1, "revision_id"@)->Ok_0, text_at(row, 1, "revision_id"@)->Ok_0, "revision id is not a UUID"@)->Err_0)
    } else if int_at(row, 2, "version"@) is Err {
        Err(int_at(row, 2, "version"@)->Err_0)
    } else if text_at(row, 3, "name"@) is Err {
        Err(text_at(row, 3, "name"@)->Err_0)
    } else {
        Ok(
            Pin {
                shell_id: id_in(text_at(row, 0, "shell_id"@)->Ok_0, text_at(row, 0, "shell_id"@)->Ok_0, "shell id is not a UUID"@)->Ok_0,
                revision_id: id_in(text_at(row, 1, "revision_id"@)->Ok_0, text_at(row, 1, "revision_id"@)->Ok_0, "revision id is not a UUID"@)->Ok_0,
                version: int_at(row, 2, "version"@)->Ok_0 as u32,
                name: text_at(row, 3, "name"@)->Ok_0,
            },
        )
    }
}

fn decode_pin(row: &Vec<Value>) -> (r: Result<ShellRef, PersistenceError>)
    ensures
        shown(r) == pin_of(cells(row@)),
{
    let shell_text: String = text_of(row, 0, "shell_id")?;
    let rev_text: String = text_of(row, 1, "revision_id")?;
    let shell_id: u128 = decode_id(&shell_text, &shell_text, "shell id is not a UUID")?;
    let revision_id: u128 = decode_id(&rev_text, &rev_text, "revision id is not a UUID")?;
    let version: i64 = int_of(row, 2, "version")?;
    let name: String = text_of(row, 3, "name")?;
    Ok(
        ShellRef {
            shell_id,
            revision_id,
            version: low32(version),
            name,
        },
    )
}

/// The text of a script that a VM runs.
#[derive(Debug, PartialEq, Eq)]
pub struct ShellScript {
    pub revision_id: u128,
    pub content: String,
}

/// [`ShellScript`] as contracts speak of it.
pub struct Script {
    pub revision_id: u128,
    pub content: Seq<char>,
}

impl View for ShellScript {
    type V = Script;

    open spec fn view(&self) -> Script {
        Script {
            revision_id: self.revision_id,
            content: self.content@,
        }
    }
}

/// The text of a script that a row keeps.
pub open spec fn script_of(row: Seq<Cell>) -> Result<Script, Fault> {
    if text_at(row, 0, "revision_id"@) is Err {
        Err(text_at(row, 0, "revision_id"@)->Err_0)
    } else if id_in(text_at(row, 0, "revision_id"@)->Ok_0, text_at(row, 0, "revision_id"@)->Ok_0, "revision id is not a UUID"@) is Err {
        Err(id_in(text_at(row, 0, "revision_id"@)->Ok_0, text_at(row, 0, "revision_id"@)->Ok_0, "revision id is not a UUID"@)->Err_0)
    } else if text_at(row, 1, "content"@) is Err {
        Err(text_at(row, 1, "content"@)->Err_0)
    } else {
        Ok(
            Script {
                revision_id: id_in(text_at(row, 0, "revision_id"@)->Ok_0, text_at(row, 0, "revision_id"@)->Ok_0, "revision id is not a UUID"@)->Ok_0,
                content: text_at(row, 1, "content"@)->Ok_0,
            },
        )
    }
}

fn decode_script(row: &Vec<Value>) -> (r: Result<ShellScript, PersistenceError>)
    ensures
        shown(r) == script_of(cells(row@)),
{
    let rev_text: String = text_of(row, 0, "revision_id")?;
    let revision_id: u128 = decode_id(&rev_text, &rev_text, "revision id is not a UUID")?;
    let content: String = text_of(row, 1, "content")?;
    Ok(
        ShellScript {
            revision_id,
            content,
        },
    )
}

/// A script without its revisions.
#[derive(Debug, PartialEq, Eq)]
pub struct ShellHead {
    pub id: u128,
    pub name: String,
    pub description: Option<String>,
    pub created_at_ms: u64,
    pub updated_at_ms: u64,
}

/// [`ShellHead`] as contracts speak of it.
pub struct Head {
    pub id: u128,
    pub name: Seq<char>,
    pub description: Option<Seq<char>>,
    pub created_at_ms: u64,
    pub updated_at_ms: u64,
}

impl View for ShellHead {
    type V = Head;

    open spec fn view(&self) -> Head {
        Head {
            id: self.id,
            name: self.name@,
            description: opt_view(self.description),
            created_at_ms: self.created_at_ms,
            updated_at_ms: self.updated_at_ms,
        }
    }
}

/// The script that a row keeps, without its revisions.
pub open spec fn head_of(row: Seq<Cell>) -> Result<Head, Fault> {
    if text_at(row, 0, "id"@) is Err {
        Err(text_at(row, 0, "id"@)->Err_0)
    } else if id_in(text_at(row, 0, "id"@)->Ok_0, text_at(row, 0, "id"@)->Ok_0, "shell id is not a UUID"@) is Err {
        Err(id_in(text_at(row, 0, "id"@)->Ok_0, text_at(row, 0, "id"@)->Ok_0, "shell id is not a UUID"@)->Err_0)
    } else if text_at(row, 1, "name"@) is Err {
        Err(text_at(row, 1, "name"@)->Err_0)
    } else if opt_text_at(row, 2, "description"@) is Err {
        Err(opt_text_at(row, 2, "description"@)->Err_0)
    } else if int_at(row, 3, "created_at_ms"@) is Err {
        Err(int_at(row, 3, "created_at_ms"@)->Err_0)
    } else if int_at(row, 4, "updated_at_ms"@) is Err {
        Err(int_at(row, 4, "updated_at_ms"@)->Err_0)
    } else {
        Ok(
            Head {
                id: id_in(text_at(row, 0, "id"@)->Ok_0, text_at(row, 0, "id"@)->Ok_0, "shell id is not a UUID"@)->Ok_0,
                name: text_at(row, 1, "name"@)->Ok_0,
                description: opt_text_at(row, 2, "description"@)->Ok_0,
                created_at_ms: int_at(row, 3, "created_at_ms"@)->Ok_0 as u64,
                updated_at_ms: int_at(row, 4, "updated_at_ms"@)->Ok_0 as u64,
            },
        )
    }
}

fn decode_head(row: &Vec<Value>) -> (r: Result<ShellHead, PersistenceError>)
    ensures
        shown(r) == head_of(cells(row@)),
{
    let id_text: String = text_of(row, 0, "id")?;
    let id: u128 = decode_id(&id_text, &id_text, "shell id is not a UUID")?;
    let name: String = text_of(row, 1, "name")?;
    let description: Option<String> = opt_text_of(row, 2, "description")?;
    let created: i64 = int_of(row, 3, "created_at_ms")?;
    let updated: i64 = int_of(row, 4, "updated_at_ms")?;
    Ok(
        ShellHead {
            id,
            name,
            description,
            created_at_ms: unsigned(created),
            updated_at_ms: unsigned(updated),
        },
    )
}

/// What some rows keep, or the first fault.
pub fn shells_of(rows: &Vec<Vec<Value>>) -> (r: Result<Vec<ShellResponse>, PersistenceError>)
    ensures
        shown_all(r) == decoded_all(table(rows@), |row: Seq<Cell>| shell_of(row)),
{
    let ghost all = table(rows@);
    let ghost decode = |row: Seq<Cell>| shell_of(row);
    let mut out: Vec<ShellResponse> = Vec::new();
    let mut i: usize = 0;
    assert(seen(out@) =~= decoded_all(all.take(0), decode)->Ok_0);
    while i < rows.len()
        invariant
            i <= rows@.len(),
            all == table(rows@),
            decode == (|row: Seq<Cell>| shell_of(row)),
            decoded_all(all.take(i as int), decode) is Ok,
            decoded_all(all.take(i as int), decode)->Ok_0 == seen(out@),
        decreases rows@.len() - i,
    {
        let ghost before = seen(out@);
        assert(all.take(i + 1).drop_last() =~= all.take(i as int));
        assert(all.take(i + 1).last() == cells(rows@[i as int]@));
        match decode_shell(&rows[i]) {
            Ok(value) => {
                out.push(value);
                assert(seen(out@) =~= before.push(value@));
            },
            Err(e) => {
                proof {
                    decoded_all_fails(all, decode, i + 1);
                }
                return Err(e);
            },
        }
        i += 1;
    }
    assert(all.take(i as int) =~= all);
    Ok(out)
}

/// What some rows keep, or the first fault.
pub fn summaries_of(rows: &Vec<Vec<Value>>) -> (r: Result<Vec<ShellRevisionSummary>, PersistenceError>)
    ensures
        shown_all(r) == decoded_all(table(rows@), |row: Seq<Cell>| summary_of(row)),
{
    let ghost all = table(rows@);
    let ghost decode = |row: Seq<Cell>| summary_of(row);
    let mut out: Vec<ShellRevisionSummary> = Vec::new();
    let mut i: usize = 0;
    assert(seen(out@) =~= decoded_all(all.take(0), decode)->Ok_0);
    while i < rows.len()
        invariant
            i <= rows@.len(),
            all == table(rows@),
            decode == (|row: Seq<Cell>| summary_of(row)),
            decoded_all(all.take(i as int), decode) is Ok,
            decoded_all(all.take(i as int), decode)->Ok_0 == seen(out@),
        decreases rows@.len() - i,
    {
        let ghost before = seen(out@);
        assert(all.take(i + 1).drop_last() =~= all.take(i as int));
        assert(all.take(i + 1).last() == cells(rows@[i as int]@));
        match decode_summary(&rows[i]) {
            Ok(value) => {
                out.push(value);
                assert(seen(out@) =~= before.push(value@));
            },
            Err(e) => {
                proof {
                    decoded_all_fails(all, decode, i + 1);
                }
                return Err(e);
            },
        }
        i += 1;
    }
    assert(all.take(i as int) =~= all);
    Ok(out)
}

/// What some rows keep, or the first fault.
pub fn pins_of(rows: &Vec<Vec<Value>>) -> (r: Result<Vec<ShellRef>, PersistenceError>)
    ensures
        shown_all(r) == decoded_all(table(rows@), |row: Seq<Cell>| pin_of(row)),
{
    let ghost all = table(rows@);
    let ghost decode = |row: Seq<Cell>| pin_of(row);
    let mut out: Vec<ShellRef> = Vec::new();
    let mut i: usize = 0;
    assert(seen(out@) =~= decoded_all(all.take(0), decode)->Ok_0);
    while i < rows.len()
        invariant
            i <= rows@.len(),
            all == table(rows@),
            decode == (|row: Seq<Cell>| pin_of(row)),
            decoded_all(all.take(i as int), decode) is Ok,
            decoded_all(all.take(i as int), decode)->Ok_0 == seen(out@),
        decreases rows@.len() - i,
    {
        let ghost before = seen(out@);
        assert(all.take(i + 1).drop_last() =~= all.take(i as int));
        assert(all.take(i + 1).last() == cells(rows@[i as int]@));
        match decode_pin(&rows[i]) {
            Ok(value) => {
                out.push(value);
                assert(seen(out@) =~= before.push(value@));
            },
            Err(e) => {
                proof {
                    decoded_all_fails(all, decode, i + 1);
                }
                return Err(e);
            },
        }
        i += 1;
    }
    assert(all.take(i as int) =~= all);
    Ok(out)
}

/// What some rows keep, or the first fault.
pub fn scripts_of(rows: &Vec<Vec<Value>>) -> (r: Result<Vec<ShellScript>, PersistenceError>)
    ensures
        shown_all(r) == decoded_all(table(rows@), |row: Seq<Cell>| script_of(row)),
{
    let ghost all = table(rows@);
    let ghost decode = |row: Seq<Cell>| script_of(row);
    let mut out: Vec<ShellScript> = Vec::new();
    let mut i: usize = 0;
    assert(seen(out@) =~= decoded_all(all.take(0), decode)->Ok_0);
    while i < rows.len()
        invariant
            i <= rows@.len(),
            all == table(rows@),
            decode == (|row: Seq<Cell>| script_of(row)),
            decoded_all(all.take(i as int), decode) is Ok,
            decoded_all(all.take(i as int), decode)->Ok_0 == seen(out@),
        decreases rows@.len() - i,
    {
        let ghost before = seen(out@);
        assert(all.take(i + 1).drop_last() =~= all.take(i as int));
        assert(all.take(i + 1).last() == cells(rows@[i as int]@));
        match decode_script(&rows[i]) {
            Ok(value) => {
                out.push(value);
                assert(seen(out@) =~= before.push(value@));
            },
            Err(e) => {
                proof {
                    decoded_all_fails(all, decode, i + 1);
                }
                return Err(e);
            },
        }
        i += 1;
    }
    assert(all.take(i as int) =~= all);
    Ok(out)
}

/// A script with its revisions, the newest first, and the text of the newest.
#[derive(Debug, PartialEq, Eq)]
pub struct ShellDetailResponse {
    pub id: u128,
    pub name: String,
    pub description: Option<String>,
    pub created_at_ms: u64,
    pub updated_at_ms: u64,
    pub revisions: Vec<ShellRevisionSummary>,
    pub latest_content: Option<String>,
}

/// [`ShellDetailResponse`] as contracts speak of it.
pub struct Detail {
    pub head: Head,
    pub revisions: Seq<Summary>,
    pub latest_content: Option<Seq<char>>,
}

impl View for ShellDetailResponse {
    type V = Detail;

    open spec fn view(&self) -> Detail {
        Detail {
            head: Head {
                id: self.id,
                name: self.name@,
                description: opt_view(self.description),
                created_at_ms: self.created_at_ms,
                updated_at_ms: self.updated_at_ms,
            },
            revisions: seen(self.revisions@),
            latest_content: opt_view(self.latest_content),
        }
    }
}

/// The revision of a script that a row keeps.
pub open spec fn revision_of(shell: u128, row: Seq<Cell>) -> Result<Revision, Fault> {
    let id = text_at(row, 0, "id"@)->Ok_0;
    if text_at(row, 0, "id"@) is Err {
        Err(text_at(row, 0, "id"@)->Err_0)
    } else if int_at(row, 1, "version"@) is Err {
        Err(int_at(row, 1, "version"@)->Err_0)
    } else if text_at(row, 2, "content_sha256"@) is Err {
        Err(text_at(row, 2, "content_sha256"@)->Err_0)
    } else if text_at(row, 3, "content"@) is Err {
        Err(text_at(row, 3, "content"@)->Err_0)
    } else if int_at(row, 4, "created_at_ms"@) is Err {
        Err(int_at(row, 4, "created_at_ms"@)->Err_0)
    } else if id_in(id, id, "revision id is not a UUID"@) is Err {
        Err(id_in(id, id, "revision id is not a UUID"@)->Err_0)
    } else {
        Ok(
            Revision {
                shell_id: shell,
                revision_id: id_in(id, id, "revision id is not a UUID"@)->Ok_0,
                version: int_at(row, 1, "version"@)->Ok_0 as u32,
                content_sha256: text_at(row, 2, "content_sha256"@)->Ok_0,
                content: text_at(row, 3, "content"@)->Ok_0,
                created_at_ms: int_at(row, 4, "created_at_ms"@)->Ok_0 as u64,
            },
        )
    }
}

fn decode_revision(shell_id: u128, row: &Vec<Value>) -> (r: Result<
    ShellRevisionResponse,
    PersistenceError,
>)
    ensures
        shown(r) == revision_of(shell_id, cells(row@)),
{
    let id_text = text_of(row, 0, "id")?;
    let version: i64 = int_of(row, 1, "version")?;
    let content_sha256 = text_of(row, 2, "content_sha256")?;
    let content = text_of(row, 3, "content")?;
    let created: i64 = int_of(row, 4, "created_at_ms")?;
    let revision_id: u128 = decode_id(&id_text, &id_text, "revision id is not a UUID")?;
    Ok(
        ShellRevisionResponse {
            shell_id,
            revision_id,
            version: low32(version),
            content_sha256,
            content,
            created_at_ms: unsigned(created),
        },
    )
}

/// What is kept of a new revision.
pub struct NewRevision {
    pub id: u128,
    pub content: Seq<char>,
    pub sha256: Seq<char>,
    pub now_ms: u64,
}

impl Dialog<Ask, Told> {
    /// Puts a new script in, with its first revision.
    pub open spec fn put_shell(
        self,
        id: u128,
        name: Seq<char>,
        description: Option<Seq<char>>,
        revision: NewRevision,
    ) -> (Self, Result<(), Fault>) {
        let now = Cell::Integer(revision.now_ms as i64);
        let (put, result) = self.perform(
            INSERT_SHELL_SQL@,
            seq![Cell::Text(uuid_text(id)), Cell::Text(name), nullable(description), now, now],
        );
        if result is Err {
            (put, result)
        } else {
            put.perform(
                INSERT_FIRST_REVISION_SQL@,
                seq![
                    Cell::Text(uuid_text(revision.id)),
                    Cell::Text(uuid_text(id)),
                    Cell::Text(revision.content),
                    Cell::Text(revision.sha256),
                    now,
                ],
            )
        }
    }

    /// Keeps a new script with its first revision, both or none.
    pub open spec fn create_shell(
        self,
        id: u128,
        name: Seq<char>,
        description: Option<Seq<char>>,
        revision: NewRevision,
    ) -> (Self, Result<(), Fault>) {
        let (begun, result) = self.transact(Ask::Begin { immediate: true });
        if result is Err {
            (begun, result)
        } else {
            let (put, result) = begun.put_shell(id, name, description, revision);
            put.concluded(result)
        }
    }

    /// Whether there is a script with that id.
    pub open spec fn shell_exists(self, id: u128) -> (Self, Result<(), Fault>) {
        let (next, rows) = self.select(SHELL_EXISTS_SQL@, seq![Cell::Text(uuid_text(id))]);
        (
            next,
            match rows {
                Err(fault) => Err(fault),
                Ok(rows) => if rows.len() == 0 {
                    Err(Fault::MissingShell { id })
                } else {
                    Ok(())
                },
            },
        )
    }

    /// The number that a statement with one row and one column gives.
    pub open spec fn number(self, sql: Seq<char>, id: u128, name: Seq<char>) -> (
        Self,
        Result<i64, Fault>,
    ) {
        let (next, rows) = self.select(sql, seq![Cell::Text(uuid_text(id))]);
        (
            next,
            match rows {
                Err(fault) => Err(fault),
                Ok(rows) => if rows.len() == 0 {
                    Err(Fault::Database("Query returned no rows"@))
                } else {
                    int_at(rows[0], 0, name)
                },
            },
        )
    }

    /// Puts a new revision of a script in that is there, under the next version.
    pub open spec fn put_revision(self, shell: u128, revision: NewRevision) -> (
        Self,
        Result<u32, Fault>,
    ) {
        let now = Cell::Integer(revision.now_ms as i64);
        let (looked, result) = self.shell_exists(shell);
        if result is Err {
            (looked, Err(result->Err_0))
        } else {
            let (counted, next) = looked.number(
                NEXT_VERSION_SQL@,
                shell,
                "COALESCE(MAX(version), 0) + 1"@,
            );
            if next is Err {
                (counted, Err(next->Err_0))
            } else {
                let (put, result) = counted.perform(
                    INSERT_REVISION_SQL@,
                    seq![
                        Cell::Text(uuid_text(revision.id)),
                        Cell::Text(uuid_text(shell)),
                        Cell::Integer(next->Ok_0),
                        Cell::Text(revision.content),
                        Cell::Text(revision.sha256),
                        now,
                    ],
                );
                if result is Err {
                    (put, Err(result->Err_0))
                } else {
                    let (touched, result) = put.perform(
                        TOUCH_SHELL_SQL@,
                        seq![Cell::Text(uuid_text(shell)), now],
                    );
                    if result is Err {
                        (touched, Err(result->Err_0))
                    } else {
                        (touched, Ok(next->Ok_0 as u32))
                    }
                }
            }
        }
    }

    /// Keeps a new revision of a script that is there, under the next version.
    pub open spec fn add_revision(self, shell: u128, revision: NewRevision) -> (
        Self,
        Result<u32, Fault>,
    ) {
        let (begun, result) = self.transact(Ask::Begin { immediate: true });
        if result is Err {
            (begun, Err(result->Err_0))
        } else {
            let (put, result) = begun.put_revision(shell, revision);
            put.concluded(result)
        }
    }

    /// A script with its revisions.
    pub open spec fn shell_detail(self, id: u128) -> (Self, Result<Option<Detail>, Fault>) {
        let (looked, head) = self.find(
            SELECT_SHELL_SQL@,
            seq![Cell::Text(uuid_text(id))],
            |row: Seq<Cell>| head_of(row),
        );
        match head {
            Err(fault) => (looked, Err(fault)),
            Ok(None) => (looked, Ok(None)),
            Ok(Some(head)) => {
                let (listed, rows) = looked.select(
                    SELECT_REVISIONS_SQL@,
                    seq![Cell::Text(uuid_text(id))],
                );
                (
                    listed,
                    match rows {
                        Err(fault) => Err(fault),
                        Ok(rows) => match decoded_all(rows, |row: Seq<Cell>| summary_of(row)) {
                            Err(fault) => Err(fault),
                            Ok(revisions) => Ok(
                                Some(
                                    Detail {
                                        head,
                                        revisions,
                                        latest_content: if rows.len() == 0 {
                                            None
                                        } else {
                                            Some(text_at(rows[0], 4, "content"@)->Ok_0)
                                        },
                                    },
                                ),
                            ),
                        },
                    },
                )
            },
        }
    }

    /// Takes a script out that no VM uses.
    pub open spec fn drop_shell(self, id: u128) -> (Self, Result<(), Fault>) {
        let params = seq![Cell::Text(uuid_text(id))];
        let (looked, result) = self.shell_exists(id);
        if result is Err {
            (looked, result)
        } else {
            let (counted, count) = looked.number(COUNT_PINS_SQL@, id, "COUNT(*)"@);
            match count {
                Err(fault) => (counted, Err(fault)),
                Ok(count) => if count > 0 {
                    (counted, Err(Fault::ShellInUse { id, count: count as u32 }))
                } else {
                    let (cleared, result) = counted.perform(DELETE_REVISIONS_SQL@, params);
                    if result is Err {
                        (cleared, result)
                    } else {
                        cleared.perform(DELETE_SHELL_SQL@, params)
                    }
                },
            }
        }
    }

    /// Forgets a script that no VM uses.
    pub open spec fn delete_shell(self, id: u128) -> (Self, Result<(), Fault>) {
        let (begun, result) = self.transact(Ask::Begin { immediate: true });
        if result is Err {
            (begun, result)
        } else {
            let (gone, result) = begun.drop_shell(id);
            gone.concluded(result)
        }
    }

    /// The latest revision of a script.
    pub open spec fn latest_revision(self, shell: u128) -> (Self, Result<u128, Fault>) {
        let (next, rows) = self.select(LATEST_REVISION_SQL@, seq![Cell::Text(uuid_text(shell))]);
        (
            next,
            match rows {
                Err(fault) => Err(fault),
                Ok(rows) => if rows.len() == 0 {
                    Err(Fault::MissingShell { id: shell })
                } else {
                    match text_at(rows[0], 0, "id"@) {
                        Err(fault) => Err(fault),
                        Ok(text) => id_in(text, text, "revision id is not a UUID"@),
                    }
                },
            },
        )
    }

    /// The latest revisions of some scripts, in their order.
    pub open spec fn latest_revisions(self, shells: Seq<u128>) -> (
        Self,
        Result<Seq<(u128, u128)>, Fault>,
    )
        decreases shells.len(),
    {
        if shells.len() == 0 {
            (self, Ok(Seq::empty()))
        } else {
            let (before, all) = self.latest_revisions(shells.drop_last());
            match all {
                Err(fault) => (before, Err(fault)),
                Ok(all) => {
                    let (next, revision) = before.latest_revision(shells.last());
                    (
                        next,
                        match revision {
                            Err(fault) => Err(fault),
                            Ok(revision) => Ok(all.push((shells.last(), revision))),
                        },
                    )
                },
            }
        }
    }

    /// Puts the scripts of a VM in, in their order.
    pub open spec fn insert_pins(self, vm: u128, pins: Seq<(u128, u128)>) -> (
        Self,
        Result<(), Fault>,
    )
        decreases pins.len(),
    {
        if pins.len() == 0 {
            (self, Ok(()))
        } else {
            let (before, result) = self.insert_pins(vm, pins.drop_last());
            if result is Err {
                (before, result)
            } else {
                before.perform(
                    INSERT_VM_SHELL_SQL@,
                    seq![
                        Cell::Text(uuid_text(vm)),
                        Cell::Text(uuid_text(pins.last().0)),
                        Cell::Text(uuid_text(pins.last().1)),
                        Cell::Integer((pins.len() - 1) as i64),
                    ],
                )
            }
        }
    }

    /// Puts the scripts of a VM in place of those that are there.
    pub open spec fn replace_pins(self, vm: u128, pins: Seq<(u128, u128)>) -> (
        Self,
        Result<(), Fault>,
    ) {
        let (cleared, result) = self.perform(CLEAR_VM_SHELLS_SQL@, seq![Cell::Text(uuid_text(vm))]);
        if result is Err {
            (cleared, result)
        } else {
            cleared.insert_pins(vm, pins)
        }
    }

    /// Replaces the scripts of a VM, all or none.
    pub open spec fn set_pins(self, vm: u128, pins: Seq<(u128, u128)>) -> (Self, Result<(), Fault>) {
        let (begun, result) = self.transact(Ask::Begin { immediate: true });
        if result is Err {
            (begun, result)
        } else {
            let (put, result) = begun.replace_pins(vm, pins);
            put.concluded(result)
        }
    }
}

proof fn a_failed_pin_stays(d: Dialog<Ask, Told>, vm: u128, pins: Seq<(u128, u128)>, n: int)
    requires
        0 <= n <= pins.len(),
        d.insert_pins(vm, pins.take(n)).1 is Err,
    ensures
        d.insert_pins(vm, pins) == d.insert_pins(vm, pins.take(n)),
    decreases pins.len() - n,
{
    if n == pins.len() {
        assert(pins.take(n) =~= pins);
    } else {
        assert(pins.take(n + 1).drop_last() =~= pins.take(n));
        a_failed_pin_stays(d, vm, pins, n + 1);
    }
}

proof fn a_missing_script_stays(d: Dialog<Ask, Told>, shells: Seq<u128>, n: int)
    requires
        0 <= n <= shells.len(),
        d.latest_revisions(shells.take(n)).1 is Err,
    ensures
        d.latest_revisions(shells) == d.latest_revisions(shells.take(n)),
    decreases shells.len() - n,
{
    if n == shells.len() {
        assert(shells.take(n) =~= shells);
    } else {
        assert(shells.take(n + 1).drop_last() =~= shells.take(n));
        a_missing_script_stays(d, shells, n + 1);
    }
}

fn id_params(id: u128) -> (r: Vec<Value>)
    ensures
        cells(r@) == seq![Cell::Text(uuid_text(id))],
{
    let params = vec![Value::Text(uuid_string(id))];
    assert(cells(params@) =~= seq![Cell::Text(uuid_text(id))]);
    params
}

#[verifier::truncate]
fn position_of(i: usize) -> (r: i64)
    ensures
        r == i as i64,
{
    i as i64
}

impl Steps<Query, Reply> {
    fn shell_exists(&mut self, id: u128) -> (r: Result<(), PersistenceError>)
        requires
            old(self).wf(),
        ensures
            final(self).wf(),
            (final(self)@, outcome(r)) == old(self)@.shell_exists(id),
    {
        match self.first_row(SHELL_EXISTS_SQL, id_params(id))? {
            None => Err(PersistenceError::MissingShell { id }),
            Some(_) => Ok(()),
        }
    }

    fn number(&mut self, sql: &str, id: u128, name: &str) -> (r: Result<i64, PersistenceError>)
        requires
            old(self).wf(),
        ensures
            final(self).wf(),
            (final(self)@, outcome(r)) == old(self)@.number(sql@, id, name@),
    {
        match self.first_row(sql, id_params(id))? {
            None => Err(PersistenceError::Database("Query returned no rows".to_owned())),
            Some(row) => int_of(&row, 0, name),
        }
    }

    fn put_shell(
        &mut self,
        id: u128,
        name: &str,
        description: &Option<String>,
        revision_id: u128,
        content: &str,
        content_sha256: &str,
        now_ms: u64,
    ) -> (r: Result<(), PersistenceError>)
        requires
            old(self).wf(),
        ensures
            final(self).wf(),
            (final(self)@, outcome(r)) == old(self)@.put_shell(
                id,
                name@,
                opt_view(*description),
                NewRevision {
                    id: revision_id,
                    content: content@,
                    sha256: content_sha256@,
                    now_ms,
                },
            ),
    {
        let now: i64 = signed(now_ms);
        let mut params: Vec<Value> = Vec::new();
        params.push(Value::Text(uuid_string(id)));
        params.push(Value::Text(name.to_owned()));
        params.push(nullable_of(description));
        params.push(Value::Integer(now));
        params.push(Value::Integer(now));
        assert(cells(params@) =~= seq![
            Cell::Text(uuid_text(id)),
            Cell::Text(name@),
            nullable(opt_view(*description)),
            Cell::Integer(now),
            Cell::Integer(now),
        ]);
        self.perform(INSERT_SHELL_SQL, params)?;
        let mut params: Vec<Value> = Vec::new();
        params.push(Value::Text(uuid_string(revision_id)));
        params.push(Value::Text(uuid_string(id)));
        params.push(Value::Text(content.to_owned()));
        params.push(Value::Text(content_sha256.to_owned()));
        params.push(Value::Integer(now));
        assert(cells(params@) =~= seq![
            Cell::Text(uuid_text(revision_id)),
            Cell::Text(uuid_text(id)),
            Cell::Text(content@),
            Cell::Text(content_sha256@),
            Cell::Integer(now),
        ]);
        self.perform(INSERT_FIRST_REVISION_SQL, params)
    }

    fn create_shell(
        &mut self,
        id: u128,
        name: &str,
        description: &Option<String>,
        revision_id: u128,
        content: &str,
        content_sha256: &str,
        now_ms: u64,
    ) -> (r: Result<(), PersistenceError>)
        requires
            old(self).wf(),
        ensures
            final(self).wf(),
            (final(self)@, outcome(r)) == old(self)@.create_shell(
                id,
                name@,
                opt_view(*description),
                NewRevision {
                    id: revision_id,
                    content: content@,
                    sha256: content_sha256@,
                    now_ms,
                },
            ),
    {
        self.transact(Query::Begin { immediate: true })?;
        let result = self.put_shell(
            id,
            name,
            description,
            revision_id,
            content,
            content_sha256,
            now_ms,
        );
        self.conclude(result)
    }

    fn put_revision(
        &mut self,
        shell_id: u128,
        revision_id: u128,
        content: &str,
        content_sha256: &str,
        now_ms: u64,
    ) -> (r: Result<u32, PersistenceError>)
        requires
            old(self).wf(),
        ensures
            final(self).wf(),
            (final(self)@, outcome(r)) == old(self)@.put_revision(
                shell_id,
                NewRevision {
                    id: revision_id,
                    content: content@,
                    sha256: content_sha256@,
                    now_ms,
                },
            ),
    {
        let now: i64 = signed(now_ms);
        self.shell_exists(shell_id)?;
        let next: i64 = self.number(
            NEXT_VERSION_SQL,
            shell_id,
            "COALESCE(MAX(version), 0) + 1",
        )?;
        let mut params: Vec<Value> = Vec::new();
        params.push(Value::Text(uuid_string(revision_id)));
        params.push(Value::Text(uuid_string(shell_id)));
        params.push(Value::Integer(next));
        params.push(Value::Text(content.to_owned()));
        params.push(Value::Text(content_sha256.to_owned()));
        params.push(Value::Integer(now));
        assert(cells(params@) =~= seq![
            Cell::Text(uuid_text(revision_id)),
            Cell::Text(uuid_text(shell_id)),
            Cell::Integer(next),
            Cell::Text(content@),
            Cell::Text(content_sha256@),
            Cell::Integer(now),
        ]);
        self.perform(INSERT_REVISION_SQL, params)?;
        let params = vec![Value::Text(uuid_string(shell_id)), Value::Integer(now)];
        assert(cells(params@) =~= seq![Cell::Text(uuid_text(shell_id)), Cell::Integer(now)]);
        self.perform(TOUCH_SHELL_SQL, params)?;
        Ok(low32(next))
    }

    fn add_revision(
        &mut self,
        shell_id: u128,
        revision_id: u128,
        content: &str,
        content_sha256: &str,
        now_ms: u64,
    ) -> (r: Result<u32, PersistenceError>)
        requires
            old(self).wf(),
        ensures
            final(self).wf(),
            (final(self)@, outcome(r)) == old(self)@.add_revision(
                shell_id,
                NewRevision {
                    id: revision_id,
                    content: content@,
                    sha256: content_sha256@,
                    now_ms,
                },
            ),
    {
        self.transact(Query::Begin { immediate: true })?;
        let result = self.put_revision(shell_id, revision_id, content, content_sha256, now_ms);
        self.conclude(result)
    }

    fn shell_detail(&mut self, id: u128) -> (r: Result<Option<ShellDetailResponse>, PersistenceError>)
        requires
            old(self).wf(),
        ensures
            final(self).wf(),
            (final(self)@, shown_opt(r)) == old(self)@.shell_detail(id),
    {
        let head = match self.first_row(SELECT_SHELL_SQL, id_params(id))? {
            None => return Ok(None),
            Some(row) => decode_head(&row)?,
        };
        let rows = self.select(SELECT_REVISIONS_SQL, id_params(id))?;
        assert(table(rows@).len() == rows@.len());
        let revisions = summaries_of(&rows)?;
        let latest_content = if rows.len() == 0 {
            None
        } else {
            assert(table(rows@)[0] == cells(rows@[0]@));
            proof {
                first_is_decoded(table(rows@));
            }
            match text_of(&rows[0], 4, "content") {
                Ok(content) => Some(content),
                Err(_) => None,
            }
        };
        Ok(
            Some(
                ShellDetailResponse {
                    id: head.id,
                    name: head.name,
                    description: head.description,
                    created_at_ms: head.created_at_ms,
                    updated_at_ms: head.updated_at_ms,
                    revisions,
                    latest_content,
                },
            ),
        )
    }

    fn delete_shell(&mut self, id: u128) -> (r: Result<(), PersistenceError>)
        requires
            old(self).wf(),
        ensures
            final(self).wf(),
            (final(self)@, outcome(r)) == old(self)@.delete_shell(id),
    {
        self.transact(Query::Begin { immediate: true })?;
        let result = self.drop_shell(id);
        self.conclude(result)
    }

    fn drop_shell(&mut self, id: u128) -> (r: Result<(), PersistenceError>)
        requires
            old(self).wf(),
        ensures
            final(self).wf(),
            (final(self)@, outcome(r)) == old(self)@.drop_shell(id),
    {
        self.shell_exists(id)?;
        let count: i64 = self.number(COUNT_PINS_SQL, id, "COUNT(*)")?;
        if count > 0 {
            return Err(PersistenceError::ShellInUse { id, count: low32(count) });
        }
        self.perform(DELETE_REVISIONS_SQL, id_params(id))?;
        self.perform(DELETE_SHELL_SQL, id_params(id))
    }

    fn latest_revision(&mut self, shell_id: u128) -> (r: Result<u128, PersistenceError>)
        requires
            old(self).wf(),
        ensures
            final(self).wf(),
            (final(self)@, outcome(r)) == old(self)@.latest_revision(shell_id),
    {
        match self.first_row(LATEST_REVISION_SQL, id_params(shell_id))? {
            None => Err(PersistenceError::MissingShell { id: shell_id }),
            Some(row) => {
                let text = text_of(&row, 0, "id")?;
                decode_id(&text, &text, "revision id is not a UUID")
            },
        }
    }

    fn latest_revisions(&mut self, shell_ids: &[u128]) -> (r: Result<
        Vec<(u128, u128)>,
        PersistenceError,
    >)
        requires
            old(self).wf(),
        ensures
            final(self).wf(),
            (
                final(self)@,
                match r {
                    Ok(all) => Ok::<Seq<(u128, u128)>, Fault>(all@),
                    Err(e) => Err(e@),
                },
            ) == old(self)@.latest_revisions(shell_ids@),
    {
        let ghost start = self@;
        let mut out: Vec<(u128, u128)> = Vec::new();
        let mut i: usize = 0;
        while i < shell_ids.len()
            invariant
                self.wf(),
                i <= shell_ids@.len(),
                start == old(self)@,
                (self@, Ok::<Seq<(u128, u128)>, Fault>(out@)) == start.latest_revisions(
                    shell_ids@.take(i as int),
                ),
            decreases shell_ids@.len() - i,
        {
            assert(shell_ids@.take(i + 1).drop_last() =~= shell_ids@.take(i as int));
            assert(shell_ids@.take(i + 1).last() == shell_ids@[i as int]);
            match self.latest_revision(shell_ids[i]) {
                Ok(revision) => out.push((shell_ids[i], revision)),
                Err(e) => {
                    proof {
                        a_missing_script_stays(start, shell_ids@, i + 1);
                    }
                    return Err(e);
                },
            }
            i += 1;
        }
        assert(shell_ids@.take(i as int) =~= shell_ids@);
        Ok(out)
    }

    fn insert_pins(&mut self, vm_id: u128, pins: &[(u128, u128)]) -> (r: Result<
        (),
        PersistenceError,
    >)
        requires
            old(self).wf(),
        ensures
            final(self).wf(),
            (final(self)@, outcome(r)) == old(self)@.insert_pins(vm_id, pins@),
    {
        let ghost start = self@;
        let mut i: usize = 0;
        while i < pins.len()
            invariant
                self.wf(),
                i <= pins@.len(),
                start == old(self)@,
                (self@, Ok::<(), Fault>(())) == start.insert_pins(vm_id, pins@.take(i as int)),
            decreases pins@.len() - i,
        {
            assert(pins@.take(i + 1).drop_last() =~= pins@.take(i as int));
            assert(pins@.take(i + 1).last() == pins@[i as int]);
            let mut params: Vec<Value> = Vec::new();
            params.push(Value::Text(uuid_string(vm_id)));
            params.push(Value::Text(uuid_string(pins[i].0)));
            params.push(Value::Text(uuid_string(pins[i].1)));
            params.push(Value::Integer(position_of(i)));
            assert(cells(params@) =~= seq![
                Cell::Text(uuid_text(vm_id)),
                Cell::Text(uuid_text(pins@[i as int].0)),
                Cell::Text(uuid_text(pins@[i as int].1)),
                Cell::Integer(i as i64),
            ]);
            if let Err(e) = self.perform(INSERT_VM_SHELL_SQL, params) {
                proof {
                    a_failed_pin_stays(start, vm_id, pins@, i + 1);
                }
                return Err(e);
            }
            i += 1;
        }
        assert(pins@.take(i as int) =~= pins@);
        Ok(())
    }

    fn set_pins(&mut self, vm_id: u128, pins: &[(u128, u128)]) -> (r: Result<(), PersistenceError>)
        requires
            old(self).wf(),
        ensures
            final(self).wf(),
            (final(self)@, outcome(r)) == old(self)@.set_pins(vm_id, pins@),
    {
        self.transact(Query::Begin { immediate: true })?;
        let result = self.replace_pins(vm_id, pins);
        self.conclude(result)
    }

    fn replace_pins(&mut self, vm_id: u128, pins: &[(u128, u128)]) -> (r: Result<
        (),
        PersistenceError,
    >)
        requires
            old(self).wf(),
        ensures
            final(self).wf(),
            (final(self)@, outcome(r)) == old(self)@.replace_pins(vm_id, pins@),
    {
        self.perform(CLEAR_VM_SHELLS_SQL, id_params(vm_id))?;
        self.insert_pins(vm_id, pins)
    }
}

/// Where all rows keep a revision, the first one does, with its text.
proof fn first_is_decoded(rows: Seq<Seq<Cell>>)
    requires
        rows.len() > 0,
        decoded_all(rows, |row: Seq<Cell>| summary_of(row)) is Ok,
    ensures
        summary_of(rows[0]) is Ok,
        text_at(rows[0], 4, "content"@) is Ok,
    decreases rows.len(),
{
    if rows.len() > 1 {
        first_is_decoded(rows.drop_last());
        assert(rows.drop_last()[0] == rows[0]);
    }
}

impl Store {
    /// Keeps a new script with its first revision.
    pub fn create_shell(
        id: u128,
        name: &str,
        description: &Option<String>,
        revision_id: u128,
        content: &str,
        content_sha256: &str,
        now_ms: u64,
        replies: Vec<Reply>,
    ) -> (r: Progress<()>)
        ensures
            stands(r, |x: Result<(), PersistenceError>| outcome(x)) == stand(
                fresh(seen(replies@)).create_shell(
                    id,
                    name@,
                    opt_view(*description),
                    NewRevision {
                        id: revision_id,
                        content: content@,
                        sha256: content_sha256@,
                        now_ms,
                    },
                ),
            ),
    {
        let mut steps = Steps::<Query, Reply>::new(replies);
        let result = steps.create_shell(
            id,
            name,
            description,
            revision_id,
            content,
            content_sha256,
            now_ms,
        );
        steps.finish(result)
    }

    /// Keeps a new revision of a script, and gives its version.
    pub fn add_shell_revision(
        shell_id: u128,
        revision_id: u128,
        content: &str,
        content_sha256: &str,
        now_ms: u64,
        replies: Vec<Reply>,
    ) -> (r: Progress<u32>)
        ensures
            stands(r, |x: Result<u32, PersistenceError>| outcome(x)) == stand(
                fresh(seen(replies@)).add_revision(
                    shell_id,
                    NewRevision {
                        id: revision_id,
                        content: content@,
                        sha256: content_sha256@,
                        now_ms,
                    },
                ),
            ),
    {
        let mut steps = Steps::<Query, Reply>::new(replies);
        let result = steps.add_revision(shell_id, revision_id, content, content_sha256, now_ms);
        steps.finish(result)
    }

    /// All scripts, each with its latest revision.
    pub fn list_shells(replies: Vec<Reply>) -> (r: Progress<Vec<ShellResponse>>)
        ensures
            stands(r, |x: Result<Vec<ShellResponse>, PersistenceError>| shown_all(x)) == stand(
                fresh(seen(replies@)).list(
                    SELECT_SHELLS_SQL@,
                    Seq::empty(),
                    |row: Seq<Cell>| shell_of(row),
                ),
            ),
    {
        let mut steps = Steps::<Query, Reply>::new(replies);
        let none: Vec<Value> = Vec::new();
        assert(cells(none@) =~= Seq::<Cell>::empty());
        let result = match steps.select(SELECT_SHELLS_SQL, none) {
            Err(e) => Err(e),
            Ok(rows) => shells_of(&rows),
        };
        steps.finish(result)
    }

    /// A revision of a script.
    pub fn shell_revision(shell_id: u128, revision_id: u128, replies: Vec<Reply>) -> (r: Progress<
        Option<ShellRevisionResponse>,
    >)
        ensures
            stands(r, |x: Result<Option<ShellRevisionResponse>, PersistenceError>| shown_opt(x))
                == stand(
                fresh(seen(replies@)).find(
                    SELECT_REVISION_SQL@,
                    seq![Cell::Text(uuid_text(revision_id)), Cell::Text(uuid_text(shell_id))],
                    |row: Seq<Cell>| revision_of(shell_id, row),
                ),
            ),
    {
        let mut steps = Steps::<Query, Reply>::new(replies);
        let params = vec![
            Value::Text(uuid_string(revision_id)),
            Value::Text(uuid_string(shell_id)),
        ];
        assert(cells(params@) =~= seq![
            Cell::Text(uuid_text(revision_id)),
            Cell::Text(uuid_text(shell_id)),
        ]);
        let result = match steps.first_row(SELECT_REVISION_SQL, params) {
            Err(e) => Err(e),
            Ok(None) => Ok(None),
            Ok(Some(row)) => match decode_revision(shell_id, &row) {
                Err(e) => Err(e),
                Ok(revision) => Ok(Some(revision)),
            },
        };
        steps.finish(result)
    }

    /// A script with its revisions, the newest first, and the text of the newest.
    pub fn shell_detail(id: u128, replies: Vec<Reply>) -> (r: Progress<Option<ShellDetailResponse>>)
        ensures
            stands(r, |x: Result<Option<ShellDetailResponse>, PersistenceError>| shown_opt(x))
                == stand(fresh(seen(replies@)).shell_detail(id)),
    {
        let mut steps = Steps::<Query, Reply>::new(replies);
        let result = steps.shell_detail(id);
        steps.finish(result)
    }

    /// Forgets a script with its revisions, where no VM uses it.
    pub fn delete_shell(id: u128, replies: Vec<Reply>) -> (r: Progress<()>)
        ensures
            stands(r, |x: Result<(), PersistenceError>| outcome(x)) == stand(
                fresh(seen(replies@)).delete_shell(id),
            ),
    {
        let mut steps = Steps::<Query, Reply>::new(replies);
        let result = steps.delete_shell(id);
        steps.finish(result)
    }

    /// The latest revision of each of some scripts.
    pub fn resolve_latest_shell_revisions(shell_ids: &[u128], replies: Vec<Reply>) -> (r: Progress<
        Vec<(u128, u128)>,
    >)
        ensures
            stands(
                r,
                |x: Result<Vec<(u128, u128)>, PersistenceError>|
                    match x {
                        Ok(all) => Ok::<Seq<(u128, u128)>, Fault>(all@),
                        Err(e) => Err(e@),
                    },
            ) == stand(fresh(seen(replies@)).latest_revisions(shell_ids@)),
    {
        let mut steps = Steps::<Query, Reply>::new(replies);
        let result = steps.latest_revisions(shell_ids);
        steps.finish(result)
    }

    /// Replaces the scripts of a VM, all or none, in the order given.
    pub fn set_vm_shells(vm_id: u128, pins: &[(u128, u128)], replies: Vec<Reply>) -> (r: Progress<()>)
        ensures
            stands(r, |x: Result<(), PersistenceError>| outcome(x)) == stand(
                fresh(seen(replies@)).set_pins(vm_id, pins@),
            ),
    {
        let mut steps = Steps::<Query, Reply>::new(replies);
        let result = steps.set_pins(vm_id, pins);
        steps.finish(result)
    }

    /// Forgets the scripts of a VM.
    pub fn clear_vm_shells(vm_id: u128, replies: Vec<Reply>) -> (r: Progress<()>)
        ensures
            stands(r, |x: Result<(), PersistenceError>| outcome(x)) == stand(
                fresh(seen(replies@)).perform(
                    CLEAR_VM_SHELLS_SQL@,
                    seq![Cell::Text(uuid_text(vm_id))],
                ),
            ),
    {
        let mut steps = Steps::<Query, Reply>::new(replies);
        let result = steps.perform(CLEAR_VM_SHELLS_SQL, id_params(vm_id));
        steps.finish(result)
    }

    /// The scripts of a VM.
    pub fn list_vm_shell_refs(vm_id: u128, replies: Vec<Reply>) -> (r: Progress<Vec<ShellRef>>)
        ensures
            stands(r, |x: Result<Vec<ShellRef>, PersistenceError>| shown_all(x)) == stand(
                fresh(seen(replies@)).list(
                    SELECT_VM_SHELL_REFS_SQL@,
                    seq![Cell::Text(uuid_text(vm_id))],
                    |row: Seq<Cell>| pin_of(row),
                ),
            ),
    {
        let mut steps = Steps::<Query, Reply>::new(replies);
        let result = match steps.select(SELECT_VM_SHELL_REFS_SQL, id_params(vm_id)) {
            Err(e) => Err(e),
            Ok(rows) => pins_of(&rows),
        };
        steps.finish(result)
    }

    /// The texts of the scripts of a VM.
    pub fn list_vm_shell_scripts(vm_id: u128, replies: Vec<Reply>) -> (r: Progress<Vec<ShellScript>>)
        ensures
            stands(r, |x: Result<Vec<ShellScript>, PersistenceError>| shown_all(x)) == stand(
                fresh(seen(replies@)).list(
                    SELECT_VM_SHELL_SCRIPTS_SQL@,
                    seq![Cell::Text(uuid_text(vm_id))],
                    |row: Seq<Cell>| script_of(row),
                ),
            ),
    {
        let mut steps = Steps::<Query, Reply>::new(replies);
        let result = match steps.select(SELECT_VM_SHELL_SCRIPTS_SQL, id_params(vm_id)) {
            Err(e) => Err(e),
            Ok(rows) => scripts_of(&rows),
        };
        steps.finish(result)
    }
}

/// A script that a VM uses is not forgotten: where the count of its uses is not zero, no
/// statement that changes something has been asked for.
pub proof fn a_script_in_use_is_kept(told: Seq<Told>, id: u128)
    requires
        told.len() >= 4,
        told[0] is Done,
        told[1] is Rows && told[1]->Rows_0.len() > 0,
        told[2] is Rows && told[2]->Rows_0.len() > 0,
        int_at(told[2]->Rows_0[0], 0, "COUNT(*)"@) matches Ok(n) && n > 0,
    ensures
        fresh::<Ask, Told>(told).delete_shell(id).1 is Err,
        fresh::<Ask, Told>(told).delete_shell(id).0.asked == seq![
            Ask::Begin { immediate: true },
            Ask::Select { sql: SHELL_EXISTS_SQL@, params: seq![Cell::Text(uuid_text(id))] },
            Ask::Select { sql: COUNT_PINS_SQL@, params: seq![Cell::Text(uuid_text(id))] },
            Ask::Rollback,
        ],
{
    assert(fresh::<Ask, Told>(told).delete_shell(id).0.asked =~= seq![
        Ask::Begin { immediate: true },
        Ask::Select { sql: SHELL_EXISTS_SQL@, params: seq![Cell::Text(uuid_text(id))] },
        Ask::Select { sql: COUNT_PINS_SQL@, params: seq![Cell::Text(uuid_text(id))] },
        Ask::Rollback,
    ]);
}

} // verus!
