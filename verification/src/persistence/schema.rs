//! Opening the database: its tables, the columns that older ones lack, and the records from
//! before it.

use vstd::prelude::*;

use super::network::INSERT_MICRO_NETWORK_SQL;
#[allow(unused_imports)]
use super::record::{row_of, uuid_text, Vm};
use super::record::{encode_record, uuid_string, VmRecord};
#[allow(unused_imports)]
use super::{cells, int_at, outcome, stands, table, Ask, Cell, Fault, Told};
use super::{int_of, PersistenceError, Progress, Query, Reply, Store, Value};
use crate::dialog::Steps;
#[allow(unused_imports)]
use crate::dialog::{fresh, seen, stand, Dialog};
use crate::path;
#[allow(unused_imports)]
use crate::text::views;

verus! {

pub const CREATE_TABLE_SQL: &'static str = "CREATE TABLE IF NOT EXISTS vms (\n    id TEXT PRIMARY KEY,\n    name TEXT NOT NULL,\n    state TEXT NOT NULL,\n    template TEXT NOT NULL,\n    template_version TEXT NOT NULL,\n    template_kernel_sha256 TEXT NOT NULL,\n    template_rootfs_sha256 TEXT NOT NULL,\n    template_boot_args_sha256 TEXT NOT NULL,\n    cpu INTEGER NOT NULL,\n    ram INTEGER NOT NULL,\n    disk_gb INTEGER NOT NULL DEFAULT 2,\n    egress_policy TEXT NOT NULL DEFAULT 'internet',\n    micro_network_id TEXT,\n    storage_root TEXT NOT NULL DEFAULT 'default',\n    disk_generation TEXT,\n    last_runtime_id TEXT,\n    purpose TEXT NOT NULL DEFAULT 'instance',\n    env TEXT NOT NULL DEFAULT '{}'\n) STRICT";

pub const IMPORT_SQL: &'static str = "INSERT OR REPLACE INTO vms (id, name, state, template, template_version, template_kernel_sha256, template_rootfs_sha256, template_boot_args_sha256, cpu, ram, disk_gb, egress_policy, micro_network_id, storage_root, disk_generation, last_runtime_id, purpose, env) VALUES (?1, ?2, ?3, ?4, ?5, ?6, ?7, ?8, ?9, ?10, ?11, ?12, ?13, ?14, ?15, ?16, ?17, ?18)";

pub const CREATE_MICRO_NETWORKS_TABLE_SQL: &'static str = "CREATE TABLE IF NOT EXISTS micro_networks (\n    id TEXT PRIMARY KEY,\n    name TEXT NOT NULL,\n    subnet_cidr TEXT NOT NULL,\n    internet_enabled INTEGER NOT NULL DEFAULT 1,\n    uplink TEXT,\n    ipv6_cidr TEXT,\n    ipv6_address_mode TEXT\n) STRICT";

pub const CREATE_MICRO_STORAGES_TABLE_SQL: &'static str = "CREATE TABLE IF NOT EXISTS micro_storages (\n    id TEXT PRIMARY KEY,\n    name TEXT NOT NULL,\n    path TEXT NOT NULL UNIQUE\n) STRICT";

pub const CREATE_SHELLS_TABLE_SQL: &'static str = "CREATE TABLE IF NOT EXISTS shells (\n    id TEXT PRIMARY KEY,\n    name TEXT NOT NULL,\n    description TEXT,\n    created_at_ms INTEGER NOT NULL,\n    updated_at_ms INTEGER NOT NULL\n) STRICT";

pub const CREATE_MICROREGISTRY_LOCAL_TABLE_SQL: &'static str = "CREATE TABLE IF NOT EXISTS microregistry_local (\n    alias TEXT NOT NULL,\n    architecture TEXT NOT NULL,\n    version TEXT NOT NULL,\n    package TEXT NOT NULL DEFAULT '',\n    sha256 TEXT NOT NULL DEFAULT '',\n    min_disk_gb INTEGER NOT NULL,\n    published_at TEXT NOT NULL,\n    PRIMARY KEY (alias, architecture)\n) STRICT";

pub const CREATE_DOCKER_HUB_CREDENTIAL_TABLE_SQL: &'static str = "CREATE TABLE IF NOT EXISTS docker_hub_credential (\n    id INTEGER PRIMARY KEY CHECK (id = 1),\n    username TEXT NOT NULL,\n    secret TEXT NOT NULL\n) STRICT";

pub const CREATE_SHELL_REVISIONS_TABLE_SQL: &'static str = "CREATE TABLE IF NOT EXISTS shell_revisions (\n    id TEXT PRIMARY KEY,\n    shell_id TEXT NOT NULL,\n    version INTEGER NOT NULL,\n    content TEXT NOT NULL,\n    content_sha256 TEXT NOT NULL,\n    created_at_ms INTEGER NOT NULL,\n    UNIQUE (shell_id, version)\n) STRICT";

pub const CREATE_VM_SHELLS_TABLE_SQL: &'static str = "CREATE TABLE IF NOT EXISTS vm_shells (\n    vm_id TEXT NOT NULL,\n    shell_id TEXT NOT NULL,\n    revision_id TEXT NOT NULL,\n    position INTEGER NOT NULL,\n    PRIMARY KEY (vm_id, shell_id)\n) STRICT";

pub const CREATE_PORT_FORWARDS_TABLE_SQL: &'static str = "CREATE TABLE IF NOT EXISTS port_forwards (\n    vm_id TEXT NOT NULL,\n    host_port INTEGER NOT NULL,\n    guest_port INTEGER NOT NULL,\n    protocol TEXT NOT NULL DEFAULT 'tcp',\n    PRIMARY KEY (vm_id, host_port, protocol)\n) STRICT";

pub const CREATE_PORT_FORWARDS_UNIQUE_HOST_PORT_SQL: &'static str = "CREATE UNIQUE INDEX IF NOT EXISTS port_forwards_host_port_protocol ON port_forwards(host_port, protocol)";

pub const TABLE_EXISTS_SQL: &'static str = "SELECT 1 FROM sqlite_master WHERE type = 'table' AND name = ?1";

pub const COLUMN_EXISTS_SQL: &'static str = "SELECT 1 FROM pragma_table_info(?1) WHERE name = ?2";

pub const COUNT_UNATTACHED_VMS_SQL: &'static str = "SELECT COUNT(*) FROM vms WHERE micro_network_id IS NULL OR micro_network_id = ''";

pub const COUNT_UNATTACHED_LEASES_SQL: &'static str = "SELECT COUNT(*) FROM network_leases WHERE released_at IS NULL AND (micro_network_id IS NULL OR micro_network_id = '')";

pub const ATTACH_VMS_SQL: &'static str = "UPDATE vms SET micro_network_id = ?1 WHERE micro_network_id IS NULL OR micro_network_id = ''";

pub const ATTACH_LEASES_SQL: &'static str = "UPDATE network_leases SET micro_network_id = ?1 WHERE micro_network_id IS NULL OR micro_network_id = ''";

/// The network that every VM was in before networks could be chosen.
pub const LEGACY_DEFAULT_CIDR: &'static str = "172.30.0.0/24";

/// The statements for the table of the leases.
#[derive(Debug)]
pub struct LeaseSchema {
    pub create_table: String,
    pub add_micro_network: String,
    pub add_ipv6: String,
    pub indexes: Vec<String>,
}

/// [`LeaseSchema`] as contracts speak of it.
pub struct Leases {
    pub create_table: Seq<char>,
    pub add_micro_network: Seq<char>,
    pub add_ipv6: Seq<char>,
    pub indexes: Seq<Seq<char>>,
}

impl View for LeaseSchema {
    type V = Leases;

    open spec fn view(&self) -> Leases {
        Leases {
            create_table: self.create_table@,
            add_micro_network: self.add_micro_network@,
            add_ipv6: self.add_ipv6@,
            indexes: views(self.indexes@),
        }
    }
}

/// A step that brings the tables up to date.
#[derive(Debug)]
pub enum SchemaStep {
    /// Make a table or an index where it is not there.
    Create(String),
    /// Add a column where it is not there; with `guarded`, only where the table is.
    Column { table: &'static str, column: &'static str, sql: String, guarded: bool },
}

/// [`SchemaStep`] as contracts speak of it.
pub enum Measure {
    Create(Seq<char>),
    Column { table: Seq<char>, column: Seq<char>, sql: Seq<char>, guarded: bool },
}

impl View for SchemaStep {
    type V = Measure;

    open spec fn view(&self) -> Measure {
        match self {
            SchemaStep::Create(sql) => Measure::Create(sql@),
            SchemaStep::Column { table, column, sql, guarded } => Measure::Column {
                table: table@,
                column: column@,
                sql: sql@,
                guarded: *guarded,
            },
        }
    }
}

/// The column of a table that older databases lack.
pub open spec fn added(table: Seq<char>, column: Seq<char>, sql: Seq<char>) -> Measure {
    Measure::Column { table, column, sql, guarded: false }
}

/// The steps before the indexes of the leases.
pub open spec fn first_measures(leases: Leases) -> Seq<Measure> {
    seq![
        Measure::Create(CREATE_TABLE_SQL@),
        added("vms"@, "disk_gb"@, "ALTER TABLE vms ADD COLUMN disk_gb INTEGER NOT NULL DEFAULT 2"@),
        added("vms"@, "egress_policy"@, "ALTER TABLE vms ADD COLUMN egress_policy TEXT NOT NULL DEFAULT 'internet'"@),
        Measure::Column {
            table: "vms"@,
            column: "micro_network_id"@,
            sql: "ALTER TABLE vms ADD COLUMN micro_network_id TEXT"@,
            guarded: true,
        },
        Measure::Column {
            table: "network_leases"@,
            column: "micro_network_id"@,
            sql: leases.add_micro_network,
            guarded: true,
        },
        added("vms"@, "storage_root"@, "ALTER TABLE vms ADD COLUMN storage_root TEXT NOT NULL DEFAULT 'default'"@),
        added("vms"@, "disk_generation"@, "ALTER TABLE vms ADD COLUMN disk_generation TEXT"@),
        added("vms"@, "last_runtime_id"@, "ALTER TABLE vms ADD COLUMN last_runtime_id TEXT"@),
        added("vms"@, "purpose"@, "ALTER TABLE vms ADD COLUMN purpose TEXT NOT NULL DEFAULT 'instance'"@),
        added("vms"@, "env"@, "ALTER TABLE vms ADD COLUMN env TEXT NOT NULL DEFAULT '{}'"@),
        Measure::Create(leases.create_table),
        added("network_leases"@, "ipv6"@, leases.add_ipv6),
    ]
}

/// The steps after the indexes of the leases.
pub open spec fn last_measures() -> Seq<Measure> {
    seq![
        Measure::Create(CREATE_MICRO_NETWORKS_TABLE_SQL@),
        added("micro_networks"@, "internet_enabled"@, "ALTER TABLE micro_networks ADD COLUMN internet_enabled INTEGER NOT NULL DEFAULT 1"@),
        added("micro_networks"@, "uplink"@, "ALTER TABLE micro_networks ADD COLUMN uplink TEXT"@),
        added("micro_networks"@, "ipv6_cidr"@, "ALTER TABLE micro_networks ADD COLUMN ipv6_cidr TEXT"@),
        added("micro_networks"@, "ipv6_address_mode"@, "ALTER TABLE micro_networks ADD COLUMN ipv6_address_mode TEXT"@),
        Measure::Create(CREATE_MICRO_STORAGES_TABLE_SQL@),
        Measure::Create(CREATE_SHELLS_TABLE_SQL@),
        Measure::Create(CREATE_MICROREGISTRY_LOCAL_TABLE_SQL@),
        Measure::Create(CREATE_DOCKER_HUB_CREDENTIAL_TABLE_SQL@),
        Measure::Create(CREATE_SHELL_REVISIONS_TABLE_SQL@),
        Measure::Create(CREATE_VM_SHELLS_TABLE_SQL@),
        Measure::Create(CREATE_PORT_FORWARDS_TABLE_SQL@),
        Measure::Create(CREATE_PORT_FORWARDS_UNIQUE_HOST_PORT_SQL@),
    ]
}

/// The steps that bring the tables up to date, in their order.
pub open spec fn measures(leases: Leases) -> Seq<Measure> {
    first_measures(leases) + leases.indexes.map_values(|sql: Seq<char>| Measure::Create(sql))
        + last_measures()
}

fn create(sql: &str) -> (r: SchemaStep)
    ensures
        r@ == Measure::Create(sql@),
{
    SchemaStep::Create(sql.to_owned())
}

fn add(table: &'static str, column: &'static str, sql: &str) -> (r: SchemaStep)
    ensures
        r@ == added(table@, column@, sql@),
{
    SchemaStep::Column { table, column, sql: sql.to_owned(), guarded: false }
}

/// The steps that bring the tables up to date, in their order.
pub fn schema_steps(leases: &LeaseSchema) -> (r: Vec<SchemaStep>)
    ensures
        seen(r@) == measures(leases@),
{
    let mut steps: Vec<SchemaStep> = Vec::new();
    steps.push(create(CREATE_TABLE_SQL));
    steps.push(
        self::add("vms", "disk_gb", "ALTER TABLE vms ADD COLUMN disk_gb INTEGER NOT NULL DEFAULT 2"),
    );
    steps.push(
        self::add(
            "vms",
            "egress_policy",
            "ALTER TABLE vms ADD COLUMN egress_policy TEXT NOT NULL DEFAULT 'internet'",
        ),
    );
    steps.push(
        SchemaStep::Column {
            table: "vms",
            column: "micro_network_id",
            sql: "ALTER TABLE vms ADD COLUMN micro_network_id TEXT".to_owned(),
            guarded: true,
        },
    );
    steps.push(
        SchemaStep::Column {
            table: "network_leases",
            column: "micro_network_id",
            sql: leases.add_micro_network.clone(),
            guarded: true,
        },
    );
    steps.push(
        self::add(
            "vms",
            "storage_root",
            "ALTER TABLE vms ADD COLUMN storage_root TEXT NOT NULL DEFAULT 'default'",
        ),
    );
    steps.push(
        self::add("vms", "disk_generation", "ALTER TABLE vms ADD COLUMN disk_generation TEXT"),
    );
    steps.push(
        self::add("vms", "last_runtime_id", "ALTER TABLE vms ADD COLUMN last_runtime_id TEXT"),
    );
    steps.push(
        self::add(
            "vms",
            "purpose",
            "ALTER TABLE vms ADD COLUMN purpose TEXT NOT NULL DEFAULT 'instance'",
        ),
    );
    steps.push(
        self::add("vms", "env", "ALTER TABLE vms ADD COLUMN env TEXT NOT NULL DEFAULT '{}'"),
    );
    steps.push(create(&leases.create_table));
    steps.push(self::add("network_leases", "ipv6", &leases.add_ipv6));
    let ghost first = first_measures(leases@);
    let ghost indexes = leases@.indexes.map_values(|sql: Seq<char>| Measure::Create(sql));
    assert(seen(steps@) =~= first);
    let mut i: usize = 0;
    while i < leases.indexes.len()
        invariant
            i <= leases.indexes@.len(),
            indexes == leases@.indexes.map_values(|sql: Seq<char>| Measure::Create(sql)),
            seen(steps@) == first + indexes.take(i as int),
        decreases leases.indexes@.len() - i,
    {
        let ghost before = seen(steps@);
        steps.push(create(&leases.indexes[i]));
        assert(seen(steps@) =~= before.push(indexes[i as int]));
        assert(seen(steps@) =~= first + indexes.take(i + 1));
        i += 1;
    }
    assert(indexes.take(i as int) =~= indexes);
    let ghost before = seen(steps@);
    steps.push(create(CREATE_MICRO_NETWORKS_TABLE_SQL));
    steps.push(
        self::add(
            "micro_networks",
            "internet_enabled",
            "ALTER TABLE micro_networks ADD COLUMN internet_enabled INTEGER NOT NULL DEFAULT 1",
        ),
    );
    steps.push(
        self::add("micro_networks", "uplink", "ALTER TABLE micro_networks ADD COLUMN uplink TEXT"),
    );
    steps.push(
        self::add(
            "micro_networks",
            "ipv6_cidr",
            "ALTER TABLE micro_networks ADD COLUMN ipv6_cidr TEXT",
        ),
    );
    steps.push(
        self::add(
            "micro_networks",
            "ipv6_address_mode",
            "ALTER TABLE micro_networks ADD COLUMN ipv6_address_mode TEXT",
        ),
    );
    steps.push(create(CREATE_MICRO_STORAGES_TABLE_SQL));
    steps.push(create(CREATE_SHELLS_TABLE_SQL));
    steps.push(create(CREATE_MICROREGISTRY_LOCAL_TABLE_SQL));
    steps.push(create(CREATE_DOCKER_HUB_CREDENTIAL_TABLE_SQL));
    steps.push(create(CREATE_SHELL_REVISIONS_TABLE_SQL));
    steps.push(create(CREATE_VM_SHELLS_TABLE_SQL));
    steps.push(create(CREATE_PORT_FORWARDS_TABLE_SQL));
    steps.push(create(CREATE_PORT_FORWARDS_UNIQUE_HOST_PORT_SQL));
    assert(seen(steps@) =~= before + last_measures());
    steps
}

impl Dialog<Ask, Told> {
    /// Whether a statement gives a row.
    pub open spec fn gives_row(self, sql: Seq<char>, params: Seq<Cell>) -> (
        Self,
        Result<bool, Fault>,
    ) {
        let (next, rows) = self.select(sql, params);
        (
            next,
            match rows {
                Err(fault) => Err(fault),
                Ok(rows) => Ok(rows.len() > 0),
            },
        )
    }

    /// Takes one step: a column is added only where it is missing, so that a database that
    /// is up to date stays as it is.
    pub open spec fn measure(self, measure: Measure) -> (Self, Result<(), Fault>) {
        match measure {
            Measure::Create(sql) => self.perform(sql, Seq::empty()),
            Measure::Column { table, column, sql, guarded } => {
                let (looked, there) = if guarded {
                    self.gives_row(TABLE_EXISTS_SQL@, seq![Cell::Text(table)])
                } else {
                    (self, Ok(true))
                };
                match there {
                    Err(fault) => (looked, Err(fault)),
                    Ok(there) => {
                        let (looked, found) = looked.gives_row(
                            COLUMN_EXISTS_SQL@,
                            seq![Cell::Text(table), Cell::Text(column)],
                        );
                        match found {
                            Err(fault) => (looked, Err(fault)),
                            Ok(found) => if there && !found {
                                looked.perform(sql, Seq::empty())
                            } else {
                                (looked, Ok(()))
                            },
                        }
                    },
                }
            },
        }
    }

    /// Takes steps, up to the first that fails.
    pub open spec fn take_measures(self, all: Seq<Measure>) -> (Self, Result<(), Fault>)
        decreases all.len(),
    {
        if all.len() == 0 {
            (self, Ok(()))
        } else {
            let (before, result) = self.take_measures(all.drop_last());
            if result is Err {
                (before, result)
            } else {
                before.measure(all.last())
            }
        }
    }

    /// A count, without parameters.
    pub open spec fn count(self, sql: Seq<char>) -> (Self, Result<i64, Fault>) {
        let (next, rows) = self.select(sql, Seq::empty());
        (
            next,
            match rows {
                Err(fault) => Err(fault),
                Ok(rows) => if rows.len() == 0 {
                    Err(Fault::Database("Query returned no rows"@))
                } else {
                    int_at(rows[0], 0, "COUNT(*)"@)
                },
            },
        )
    }

    /// VMs and leases from before networks could be chosen get the network that they were
    /// in, under `id`. Where there are none, no network is made.
    pub open spec fn promote(self, id: u128) -> (Self, Result<(), Fault>) {
        let (counted, vms) = self.count(COUNT_UNATTACHED_VMS_SQL@);
        if vms is Err {
            (counted, Err(vms->Err_0))
        } else {
            let (counted, leases) = counted.count(COUNT_UNATTACHED_LEASES_SQL@);
            let none = leases is Err || leases->Ok_0 == 0;
            if vms->Ok_0 == 0 && none {
                (counted, Ok(()))
            } else {
                let (put, result) = counted.perform(INSERT_MICRO_NETWORK_SQL@, default_network(id));
                if result is Err {
                    (put, result)
                } else {
                    let (attached, result) = put.perform(
                        ATTACH_VMS_SQL@,
                        seq![Cell::Text(uuid_text(id))],
                    );
                    if result is Err {
                        (attached, result)
                    } else {
                        (
                            attached.perform(
                                ATTACH_LEASES_SQL@,
                                seq![Cell::Text(uuid_text(id))],
                            ).0,
                            Ok(()),
                        )
                    }
                }
            }
        }
    }

    /// Takes records in, in place of those with their ids.
    pub open spec fn take_in(self, records: Seq<Vm>) -> (Self, Result<(), Fault>)
        decreases records.len(),
    {
        if records.len() == 0 {
            (self, Ok(()))
        } else {
            let (before, result) = self.take_in(records.drop_last());
            if result is Err {
                (before, result)
            } else {
                before.perform(IMPORT_SQL@, row_of(records.last()))
            }
        }
    }

    /// Takes the records from before the database in, where there are any, and puts their
    /// file aside, so that it happens once.
    pub open spec fn import(self, legacy: Seq<char>) -> (Self, Result<(), Fault>) {
        let (read, told) = self.ask(Ask::ReadLegacy { path: legacy });
        match told {
            Told::NotFound => (read, Ok(())),
            Told::Garbled(source) => (
                read,
                Err(Fault::LegacyDeserialize { path: legacy, source }),
            ),
            Told::Legacy(records) => {
                let (begun, result) = read.transact(Ask::Begin { immediate: false });
                if result is Err {
                    (begun, result)
                } else {
                    let (taken, result) = begun.take_in(records);
                    let (kept, result) = taken.concluded(result);
                    if result is Err {
                        (kept, result)
                    } else {
                        let (aside, told) = kept.ask(
                            Ask::Rename {
                                from: legacy,
                                to: path::with_extension(legacy, "json.imported"@),
                            },
                        );
                        (
                            aside,
                            match told {
                                Told::Done => Ok(()),
                                _ => Err(
                                    Fault::LegacyArchive { path: legacy, source: told.reason() },
                                ),
                            },
                        )
                    }
                }
            },
            _ => (read, Err(Fault::LegacyRead { path: legacy, source: told.reason() })),
        }
    }

    /// Makes the directory of the database, where it has one.
    pub open spec fn make_room(self, file: Seq<char>) -> (Self, Result<(), Fault>) {
        match path::parent(file) {
            Some(directory) if directory.len() > 0 => {
                let (made, told) = self.ask(Ask::CreateDirectory { path: directory });
                (
                    made,
                    match told {
                        Told::Done => Ok(()),
                        _ => Err(
                            Fault::CreateDirectory { path: directory, source: told.reason() },
                        ),
                    },
                )
            },
            _ => (self, Ok(())),
        }
    }

    /// Opens the database.
    pub open spec fn connect(self, file: Seq<char>) -> (Self, Result<(), Fault>) {
        let (opened, told) = self.ask(Ask::Open { path: file });
        (
            opened,
            match told {
                Told::Done => Ok(()),
                _ => Err(Fault::Open { path: file, source: told.reason() }),
            },
        )
    }

    /// Opens the database and brings it up to date.
    pub open spec fn open_store(self, file: Seq<char>, leases: Leases, id: u128) -> (
        Self,
        Result<(), Fault>,
    ) {
        let (a, result) = self.make_room(file);
        if result is Err {
            (a, result)
        } else {
            let (b, result) = a.connect(file);
            if result is Err {
                (b, result)
            } else {
                let (c, result) = b.transact(Ask::Configure);
                if result is Err {
                    (c, result)
                } else {
                    let (d, result) = c.take_measures(measures(leases));
                    if result is Err {
                        (d, result)
                    } else {
                        let (e, result) = d.promote(id);
                        if result is Err {
                            (e, result)
                        } else {
                            e.import(legacy_file(file))
                        }
                    }
                }
            }
        }
    }
}

/// Where the records from before the database are: beside it.
pub open spec fn legacy_file(file: Seq<char>) -> Seq<char> {
    match path::parent(file) {
        Some(directory) => path::join(directory, "vms.json"@),
        None => "vms.json"@,
    }
}

/// The network that every VM was in before networks could be chosen. It has IPv4 alone: its
/// VMs were given no other address.
pub open spec fn default_network(id: u128) -> Seq<Cell> {
    seq![
        Cell::Text(uuid_text(id)),
        Cell::Text("default"@),
        Cell::Text(LEGACY_DEFAULT_CIDR@),
        Cell::Integer(1),
        Cell::Null,
        Cell::Null,
        Cell::Null,
    ]
}

proof fn a_failed_step_stays(d: Dialog<Ask, Told>, all: Seq<Measure>, n: int)
    requires
        0 <= n <= all.len(),
        d.take_measures(all.take(n)).1 is Err,
    ensures
        d.take_measures(all) == d.take_measures(all.take(n)),
    decreases all.len() - n,
{
    if n == all.len() {
        assert(all.take(n) =~= all);
    } else {
        assert(all.take(n + 1).drop_last() =~= all.take(n));
        a_failed_step_stays(d, all, n + 1);
    }
}

proof fn a_failed_record_stays(d: Dialog<Ask, Told>, all: Seq<Vm>, n: int)
    requires
        0 <= n <= all.len(),
        d.take_in(all.take(n)).1 is Err,
    ensures
        d.take_in(all) == d.take_in(all.take(n)),
    decreases all.len() - n,
{
    if n == all.len() {
        assert(all.take(n) =~= all);
    } else {
        assert(all.take(n + 1).drop_last() =~= all.take(n));
        a_failed_record_stays(d, all, n + 1);
    }
}

fn no_params() -> (r: Vec<Value>)
    ensures
        cells(r@) == Seq::<Cell>::empty(),
{
    let params: Vec<Value> = Vec::new();
    assert(cells(params@) =~= Seq::<Cell>::empty());
    params
}

impl Steps<Query, Reply> {
    fn gives_row(&mut self, sql: &str, params: Vec<Value>) -> (r: Result<bool, PersistenceError>)
        requires
            old(self).wf(),
        ensures
            final(self).wf(),
            (final(self)@, outcome(r)) == old(self)@.gives_row(sql@, cells(params@)),
    {
        match self.first_row(sql, params)? {
            None => Ok(false),
            Some(_) => Ok(true),
        }
    }

    fn migrate(&mut self, step: &SchemaStep) -> (r: Result<(), PersistenceError>)
        requires
            old(self).wf(),
        ensures
            final(self).wf(),
            (final(self)@, outcome(r)) == old(self)@.measure(step@),
    {
        match step {
            SchemaStep::Create(sql) => self.perform(sql, no_params()),
            SchemaStep::Column { table, column, sql, guarded } => {
                let mut there = true;
                if *guarded {
                    let params = vec![Value::Text((*table).to_owned())];
                    assert(cells(params@) =~= seq![Cell::Text(table@)]);
                    there = self.gives_row(TABLE_EXISTS_SQL, params)?;
                }
                let params = vec![
                    Value::Text((*table).to_owned()),
                    Value::Text((*column).to_owned()),
                ];
                assert(cells(params@) =~= seq![Cell::Text(table@), Cell::Text(column@)]);
                let has_column = self.gives_row(COLUMN_EXISTS_SQL, params)?;
                if there && !has_column {
                    self.perform(sql, no_params())
                } else {
                    Ok(())
                }
            },
        }
    }

    fn migrate_all(&mut self, leases: &LeaseSchema) -> (r: Result<(), PersistenceError>)
        requires
            old(self).wf(),
        ensures
            final(self).wf(),
            (final(self)@, outcome(r)) == old(self)@.take_measures(measures(leases@)),
    {
        let steps = schema_steps(leases);
        let ghost all = measures(leases@);
        let ghost start = self@;
        let mut i: usize = 0;
        assert(seen(steps@).len() == steps@.len());
        while i < steps.len()
            invariant
                self.wf(),
                i <= steps@.len(),
                all == seen(steps@),
                all == measures(leases@),
                start == old(self)@,
                (self@, Ok::<(), Fault>(())) == start.take_measures(all.take(i as int)),
            decreases steps@.len() - i,
        {
            assert(all.take(i + 1).drop_last() =~= all.take(i as int));
            assert(all.take(i + 1).last() == steps@[i as int]@);
            if let Err(e) = self.migrate(&steps[i]) {
                proof {
                    a_failed_step_stays(start, all, i + 1);
                }
                return Err(e);
            }
            i += 1;
        }
        assert(all.take(i as int) =~= all);
        Ok(())
    }

    fn count(&mut self, sql: &str) -> (r: Result<i64, PersistenceError>)
        requires
            old(self).wf(),
        ensures
            final(self).wf(),
            (final(self)@, outcome(r)) == old(self)@.count(sql@),
    {
        match self.first_row(sql, no_params())? {
            None => Err(PersistenceError::Database("Query returned no rows".to_owned())),
            Some(row) => int_of(&row, 0, "COUNT(*)"),
        }
    }

    fn promote_implicit_default_network(&mut self, id: u128) -> (r: Result<(), PersistenceError>)
        requires
            old(self).wf(),
        ensures
            final(self).wf(),
            (final(self)@, outcome(r)) == old(self)@.promote(id),
    {
        let null_vms: i64 = self.count(COUNT_UNATTACHED_VMS_SQL)?;
        let null_leases: i64 = match self.count(COUNT_UNATTACHED_LEASES_SQL) {
            Ok(n) => n,
            Err(_) => 0,
        };
        if null_vms == 0 && null_leases == 0 {
            return Ok(());
        }
        let mut params: Vec<Value> = Vec::new();
        params.push(Value::Text(uuid_string(id)));
        params.push(Value::Text("default".to_owned()));
        params.push(Value::Text(LEGACY_DEFAULT_CIDR.to_owned()));
        params.push(Value::Integer(1));
        params.push(Value::Null);
        params.push(Value::Null);
        params.push(Value::Null);
        assert(cells(params@) =~= default_network(id));
        self.perform(INSERT_MICRO_NETWORK_SQL, params)?;
        let params = vec![Value::Text(uuid_string(id))];
        assert(cells(params@) =~= seq![Cell::Text(uuid_text(id))]);
        self.perform(ATTACH_VMS_SQL, params)?;
        let params = vec![Value::Text(uuid_string(id))];
        assert(cells(params@) =~= seq![Cell::Text(uuid_text(id))]);
        let _ = self.perform(ATTACH_LEASES_SQL, params);
        Ok(())
    }

    fn take_in(&mut self, records: &Vec<VmRecord>) -> (r: Result<(), PersistenceError>)
        requires
            old(self).wf(),
        ensures
            final(self).wf(),
            (final(self)@, outcome(r)) == old(self)@.take_in(seen(records@)),
    {
        let ghost all = seen(records@);
        let ghost start = self@;
        let mut i: usize = 0;
        while i < records.len()
            invariant
                self.wf(),
                i <= records@.len(),
                all == seen(records@),
                start == old(self)@,
                (self@, Ok::<(), Fault>(())) == start.take_in(all.take(i as int)),
            decreases records@.len() - i,
        {
            assert(all.take(i + 1).drop_last() =~= all.take(i as int));
            assert(all.take(i + 1).last() == records@[i as int]@);
            if let Err(e) = self.perform(IMPORT_SQL, encode_record(&records[i])) {
                proof {
                    a_failed_record_stays(start, all, i + 1);
                }
                return Err(e);
            }
            i += 1;
        }
        assert(all.take(i as int) =~= all);
        Ok(())
    }

    fn import_legacy(&mut self, legacy: &str) -> (r: Result<(), PersistenceError>)
        requires
            old(self).wf(),
        ensures
            final(self).wf(),
            (final(self)@, outcome(r)) == old(self)@.import(legacy@),
    {
        let reply = self.ask(Query::ReadLegacy { path: legacy.to_owned() });
        let records = match reply {
            Reply::NotFound => {
                return Ok(());
            },
            Reply::Garbled(source) => {
                return Err(
                    PersistenceError::LegacyDeserialize { path: legacy.to_owned(), source },
                );
            },
            Reply::Legacy(records) => records,
            _ => {
                return Err(
                    PersistenceError::LegacyRead {
                        path: legacy.to_owned(),
                        source: reply.reason(),
                    },
                );
            },
        };
        self.transact(Query::Begin { immediate: false })?;
        let result = self.take_in(&records);
        self.conclude(result)?;
        let reply = self.ask(
            Query::Rename {
                from: legacy.to_owned(),
                to: path::path_with_extension(legacy, "json.imported"),
            },
        );
        match reply {
            Reply::Done => Ok(()),
            _ => Err(
                PersistenceError::LegacyArchive {
                    path: legacy.to_owned(),
                    source: reply.reason(),
                },
            ),
        }
    }

    fn make_room(&mut self, file: &str) -> (r: Result<(), PersistenceError>)
        requires
            old(self).wf(),
        ensures
            final(self).wf(),
            (final(self)@, outcome(r)) == old(self)@.make_room(file@),
    {
        if let Some(directory) = path::parent_of(file) {
            if !directory.as_str().is_empty() {
                let reply = self.ask(Query::CreateDirectory { path: directory.clone() });
                return match reply {
                    Reply::Done => Ok(()),
                    _ => Err(
                        PersistenceError::CreateDirectory {
                            path: directory,
                            source: reply.reason(),
                        },
                    ),
                };
            }
        }
        Ok(())
    }

    fn open_store(&mut self, file: &str, leases: &LeaseSchema, id: u128) -> (r: Result<
        (),
        PersistenceError,
    >)
        requires
            old(self).wf(),
        ensures
            final(self).wf(),
            (final(self)@, outcome(r)) == old(self)@.open_store(file@, leases@, id),
    {
        self.make_room(file)?;
        let reply = self.ask(Query::Open { path: file.to_owned() });
        match reply {
            Reply::Done => {},
            _ => {
                return Err(
                    PersistenceError::Open { path: file.to_owned(), source: reply.reason() },
                );
            },
        }
        self.transact(Query::Configure)?;
        self.migrate_all(leases)?;
        self.promote_implicit_default_network(id)?;
        let legacy = match path::parent_of(file) {
            Some(directory) => path::joined(&directory, "vms.json"),
            None => "vms.json".to_owned(),
        };
        self.import_legacy(&legacy)
    }
}

impl Store {
    /// Opens the database, makes what it lacks, and takes in the records from before it.
    /// `fresh_id` is for the network that VMs from before networks could be chosen are put
    /// in, where there are such VMs.
    pub fn open(file: &str, leases: &LeaseSchema, fresh_id: u128, replies: Vec<Reply>) -> (r: Progress<
        (),
    >)
        ensures
            stands(r, |x: Result<(), PersistenceError>| outcome(x)) == stand(
                fresh(seen(replies@)).open_store(file@, leases@, fresh_id),
            ),
    {
        let mut steps = Steps::<Query, Reply>::new(replies);
        let result = steps.open_store(file, leases, fresh_id);
        steps.finish(result)
    }
}

/// A database in which every VM is in a network gets no other network: nothing is asked for
/// but the two counts.
pub proof fn no_network_is_made_for_nobody(told: Seq<Told>, id: u128)
    requires
        told.len() >= 2,
        told[0] is Rows && told[0]->Rows_0.len() > 0 && int_at(told[0]->Rows_0[0], 0, "COUNT(*)"@) == Ok::<
            i64,
            Fault,
        >(0),
        told[1] is Rows && told[1]->Rows_0.len() > 0 && int_at(told[1]->Rows_0[0], 0, "COUNT(*)"@) == Ok::<
            i64,
            Fault,
        >(0),
    ensures
        fresh::<Ask, Told>(told).promote(id).1 is Ok,
        fresh::<Ask, Told>(told).promote(id).0.asked == seq![
            Ask::Select { sql: COUNT_UNATTACHED_VMS_SQL@, params: Seq::empty() },
            Ask::Select { sql: COUNT_UNATTACHED_LEASES_SQL@, params: Seq::empty() },
        ],
{
    assert(fresh::<Ask, Told>(told).promote(id).0.asked =~= seq![
        Ask::Select { sql: COUNT_UNATTACHED_VMS_SQL@, params: Seq::empty() },
        Ask::Select { sql: COUNT_UNATTACHED_LEASES_SQL@, params: Seq::empty() },
    ]);
}

/// A column that is there is not added again.
pub proof fn a_present_column_is_left_alone(
    d: Dialog<Ask, Told>,
    table: Seq<char>,
    column: Seq<char>,
    sql: Seq<char>,
)
    requires
        d.gives_row(COLUMN_EXISTS_SQL@, seq![Cell::Text(table), Cell::Text(column)]).1 == Ok::<
            bool,
            Fault,
        >(true),
    ensures
        d.measure(added(table, column, sql)) == (
            d.gives_row(COLUMN_EXISTS_SQL@, seq![Cell::Text(table), Cell::Text(column)]).0,
            Ok::<(), Fault>(()),
        ),
{
}

/// The records from before the database are taken in once: where they were taken in, the
/// last thing done is to put their file aside.
pub proof fn old_records_are_put_aside(d: Dialog<Ask, Told>, legacy: Seq<char>)
    requires
        !d.import(legacy).0.waiting,
        d.import(legacy).1 is Ok,
        d.ask(Ask::ReadLegacy { path: legacy }).1 is Legacy,
    ensures
        d.import(legacy).0.asked.last() == (Ask::Rename {
            from: legacy,
            to: path::with_extension(legacy, "json.imported"@),
        }),
{
}

} // verus!
