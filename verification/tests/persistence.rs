//! The database, on SQLite in memory.

use firecrab::persistence::network::{Ipv6AddressMode, Ipv6EgressMode, MicroNetwork};
use firecrab::persistence::record::{
    decode_egress_policy, encode_state, EgressPolicy, VmPurpose, VmRecord, VmState,
};
use firecrab::persistence::schema::LeaseSchema;
use firecrab::persistence::store::{LocalCatalogEntry, PortForward, PortProtocol};
use firecrab::persistence::{
    default_db_file, PersistenceError, Progress, Query, Reply, Store, Value,
};
use rusqlite::types::ValueRef;
use rusqlite::{params_from_iter, Connection, ErrorCode};
use std::collections::HashMap;
use uuid::Uuid;

fn id() -> u128 {
    Uuid::new_v4().as_u128()
}

fn text(id: u128) -> String {
    Uuid::from_u128(id).to_string()
}

fn sql_value(value: &Value) -> rusqlite::types::Value {
    match value {
        Value::Null => rusqlite::types::Value::Null,
        Value::Integer(n) => rusqlite::types::Value::Integer(*n),
        Value::Text(text) => rusqlite::types::Value::Text(text.clone()),
        Value::Real | Value::Blob => panic!("{value:?}"),
    }
}

fn failed(error: rusqlite::Error) -> Reply {
    match &error {
        rusqlite::Error::SqliteFailure(e, _) if e.code == ErrorCode::ConstraintViolation => {
            Reply::Constraint(error.to_string())
        }
        _ => Reply::Failed(error.to_string()),
    }
}

/// A database with the files beside it.
struct Database {
    conn: Connection,
    legacy: Option<Result<Vec<VmRecord>, String>>,
    renamed: Vec<(String, String)>,
}

impl Database {
    fn empty() -> Self {
        Database {
            conn: Connection::open_in_memory().unwrap(),
            legacy: None,
            renamed: Vec::new(),
        }
    }

    fn opened() -> Self {
        let mut database = Database::empty();
        database.open().unwrap();
        database
    }

    fn open(&mut self) -> Result<(), PersistenceError> {
        let fresh = id();
        let leases = LeaseSchema {
            create_table: "CREATE TABLE IF NOT EXISTS network_leases (vm_id TEXT NOT NULL, \
                released_at INTEGER, micro_network_id TEXT) STRICT"
                .to_owned(),
            add_micro_network: "ALTER TABLE network_leases ADD COLUMN micro_network_id TEXT"
                .to_owned(),
            add_ipv6: "ALTER TABLE network_leases ADD COLUMN ipv6 TEXT".to_owned(),
            indexes: vec![
                "CREATE INDEX IF NOT EXISTS leases_vm ON network_leases(vm_id)".to_owned(),
            ],
        };
        self.drive(|replies| Store::open("data/firecrab.db", &leases, fresh, replies))
    }

    fn reply(&mut self, query: &Query) -> Reply {
        match query {
            Query::Run { sql, params } => {
                match self
                    .conn
                    .execute(sql, params_from_iter(params.iter().map(sql_value)))
                {
                    Ok(n) => Reply::Changed(n as u64),
                    Err(error) => failed(error),
                }
            }
            Query::Select { sql, params } => match self.rows(sql, params) {
                Ok(rows) => Reply::Rows(rows),
                Err(error) => failed(error),
            },
            Query::Begin { immediate } => {
                let sql = if *immediate { "BEGIN IMMEDIATE" } else { "BEGIN" };
                self.conn.execute_batch(sql).unwrap();
                Reply::Done
            }
            Query::Rollback => {
                self.conn.execute_batch("ROLLBACK").unwrap();
                Reply::Done
            }
            Query::Commit => {
                self.conn.execute_batch("COMMIT").unwrap();
                Reply::Done
            }
            Query::CreateDirectory { path } => {
                assert_eq!(path, "data");
                Reply::Done
            }
            Query::Open { path } => {
                assert_eq!(path, default_db_file());
                Reply::Done
            }
            Query::Configure => Reply::Done,
            Query::ReadLegacy { path } => {
                assert_eq!(path, "data/vms.json");
                match self.legacy.take() {
                    None => Reply::NotFound,
                    Some(Ok(records)) => Reply::Legacy(records),
                    Some(Err(why)) => Reply::Garbled(why),
                }
            }
            Query::Rename { from, to } => {
                self.renamed.push((from.clone(), to.clone()));
                Reply::Done
            }
            Query::Gateway { cidr } => match cidr.strip_suffix(".0/24") {
                Some(net) => Reply::Gateway(format!("{net}.1")),
                None => Reply::NotFound,
            },
            Query::Gateway6 { cidr, .. } => match cidr.strip_suffix("/64") {
                Some(net) if cidr.starts_with("fd") => {
                    Reply::Gateway6(format!("{net}1"), Ipv6EgressMode::Nat66)
                }
                Some(net) => Reply::Gateway6(format!("{net}1"), Ipv6EgressMode::Direct),
                None => Reply::NotFound,
            },
        }
    }

    fn rows(&self, sql: &str, params: &[Value]) -> Result<Vec<Vec<Value>>, rusqlite::Error> {
        let mut statement = self.conn.prepare(sql)?;
        let columns = statement.column_count();
        let mut rows = statement.query(params_from_iter(params.iter().map(sql_value)))?;
        let mut out = Vec::new();
        while let Some(row) = rows.next()? {
            let mut values = Vec::new();
            for i in 0..columns {
                values.push(match row.get_ref(i)? {
                    ValueRef::Null => Value::Null,
                    ValueRef::Integer(n) => Value::Integer(n),
                    ValueRef::Text(bytes) => {
                        Value::Text(String::from_utf8_lossy(bytes).into_owned())
                    }
                    ValueRef::Real(_) => Value::Real,
                    ValueRef::Blob(_) => Value::Blob,
                });
            }
            out.push(values);
        }
        Ok(out)
    }

    fn drive<T>(
        &mut self,
        operation: impl Fn(Vec<Reply>) -> Progress<T>,
    ) -> Result<T, PersistenceError> {
        let mut replies: Vec<Reply> = Vec::new();
        loop {
            match operation(replies.clone()) {
                Progress::Ask(query) => {
                    let reply = self.reply(&query);
                    replies.push(reply);
                }
                Progress::Over(result) => {
                    assert!(self.conn.is_autocommit(), "a transaction was left open");
                    return result;
                }
            }
        }
    }

    fn insert(&mut self, vm: &VmRecord) -> Result<(), PersistenceError> {
        self.drive(|replies| Store::insert(vm, replies))
    }

    fn update(&mut self, vm: &VmRecord) -> Result<(), PersistenceError> {
        self.drive(|replies| Store::update(vm, replies))
    }

    fn load_all(&mut self) -> Result<HashMap<u128, VmRecord>, PersistenceError> {
        self.drive(Store::load_all)
    }

    fn network(&mut self, id: u128) -> Option<MicroNetwork> {
        self.drive(|replies| Store::micro_network(id, replies)).unwrap()
    }

    fn sql(&self, sql: &str) {
        self.conn.execute_batch(sql).unwrap();
    }
}

fn record(id: u128, name: &str) -> VmRecord {
    VmRecord {
        id,
        name: name.to_owned(),
        purpose: VmPurpose::Instance,
        state: VmState::Created,
        template: "ubuntu-26.04".to_owned(),
        template_version: "ubuntu-26.04-v1".to_owned(),
        template_kernel_sha256: "kernel".to_owned(),
        template_rootfs_sha256: "rootfs".to_owned(),
        template_boot_args_sha256: "args".to_owned(),
        cpu: 1,
        ram: 512,
        disk_gb: 2,
        egress_policy: EgressPolicy::Internet,
        micro_network_id: 1,
        storage_root: "default".to_owned(),
        disk_generation: None,
        last_runtime_id: None,
        env: Vec::new(),
    }
}

#[test]
fn crud_round_trips() {
    let mut store = Database::opened();
    assert!(store.load_all().unwrap().is_empty());

    let first = record(id(), "first");
    let mut second = record(id(), "second");
    store.insert(&first).unwrap();
    store.insert(&second).unwrap();
    let expected = HashMap::from([(first.id, first.clone()), (second.id, second.clone())]);
    assert_eq!(store.load_all().unwrap(), expected);

    second.state = VmState::Running;
    second.ram = 1024;
    second.disk_generation = Some(id());
    second.last_runtime_id = Some(id());
    store.update(&second).unwrap();
    assert_eq!(store.load_all().unwrap().get(&second.id), Some(&second));

    store.drive(|r| Store::delete(first.id, r)).unwrap();
    let remaining = store.load_all().unwrap();
    assert_eq!(remaining.len(), 1);
    assert!(remaining.contains_key(&second.id));

    assert_eq!(
        store.drive(|r| Store::delete(first.id, r)),
        Err(PersistenceError::MissingVm { id: first.id })
    );
    let result = store.update(&record(id(), "ghost"));
    assert!(matches!(result, Err(PersistenceError::MissingVm { .. })));
    assert!(matches!(
        store.insert(&second),
        Err(PersistenceError::Database(_))
    ));
}

#[test]
fn shell_revisions_pin_and_block_delete_while_in_use() {
    let mut store = Database::opened();
    let shell_id = id();
    let rev1 = id();
    store
        .drive(|r| Store::create_shell(shell_id, "web-init", &None, rev1, "echo a\n", "aa", 1, r))
        .unwrap();
    let rev2 = id();
    let version = store
        .drive(|r| Store::add_shell_revision(shell_id, rev2, "echo b\n", "bb", 2, r))
        .unwrap();
    assert_eq!(version, 2);

    let pins = store
        .drive(|r| Store::resolve_latest_shell_revisions(&[shell_id], r))
        .unwrap();
    assert_eq!(pins, vec![(shell_id, rev2)]);

    let vm = record(id(), "with-shell");
    store.insert(&vm).unwrap();
    store.drive(|r| Store::set_vm_shells(vm.id, &pins, r)).unwrap();
    let scripts = store
        .drive(|r| Store::list_vm_shell_scripts(vm.id, r))
        .unwrap();
    assert_eq!(scripts.len(), 1);
    assert_eq!(scripts[0].content, "echo b\n");
    let refs = store.drive(|r| Store::list_vm_shell_refs(vm.id, r)).unwrap();
    assert_eq!((refs[0].version, refs[0].name.as_str()), (2, "web-init"));
    let result = store.drive(|r| Store::delete_shell(shell_id, r));
    assert!(matches!(
        result,
        Err(PersistenceError::ShellInUse { count: 1, .. })
    ));

    let detail = store
        .drive(|r| Store::shell_detail(shell_id, r))
        .unwrap()
        .unwrap();
    assert_eq!(detail.latest_content.as_deref(), Some("echo b\n"));
    let versions: Vec<u32> = detail.revisions.iter().map(|r| r.version).collect();
    assert_eq!(versions, vec![2, 1]);
    assert_eq!(detail.revisions[0].size_bytes, 7);
    let listed = store.drive(Store::list_shells).unwrap();
    assert_eq!(listed[0].latest_revision_id, Some(rev2));
    let revision = store
        .drive(|r| Store::shell_revision(shell_id, rev1, r))
        .unwrap()
        .unwrap();
    assert_eq!((revision.version, revision.content.as_str()), (1, "echo a\n"));

    store.drive(|r| Store::clear_vm_shells(vm.id, r)).unwrap();
    store.drive(|r| Store::delete_shell(shell_id, r)).unwrap();
    assert!(store
        .drive(|r| Store::shell_detail(shell_id, r))
        .unwrap()
        .is_none());
    assert_eq!(
        store.drive(|r| Store::delete_shell(shell_id, r)),
        Err(PersistenceError::MissingShell { id: shell_id })
    );
    assert_eq!(
        store.drive(|r| Store::add_shell_revision(shell_id, rev2, "x", "y", 3, r)),
        Err(PersistenceError::MissingShell { id: shell_id })
    );
}

#[test]
fn reset_demotes_live_states_to_stopped() {
    let mut store = Database::opened();
    let states = [
        VmState::Created,
        VmState::Starting,
        VmState::Running,
        VmState::Stopping,
        VmState::Stopped,
        VmState::Error,
    ];
    let mut ids = Vec::new();
    for state in states {
        let mut vm = record(id(), "vm");
        vm.state = state;
        store.insert(&vm).unwrap();
        ids.push((vm.id, state));
    }

    assert_eq!(store.drive(Store::reset_active_states).unwrap(), 3);

    let all = store.load_all().unwrap();
    for (id, before) in ids {
        let expected = match before {
            VmState::Starting | VmState::Running | VmState::Stopping => VmState::Stopped,
            other => other,
        };
        assert_eq!(all.get(&id).unwrap().state, expected, "{before:?}");
    }
}

const OLD_VMS: &str = "id TEXT PRIMARY KEY, name TEXT NOT NULL, state TEXT NOT NULL, \
    template TEXT NOT NULL, template_version TEXT NOT NULL, template_kernel_sha256 TEXT NOT NULL, \
    template_rootfs_sha256 TEXT NOT NULL, template_boot_args_sha256 TEXT NOT NULL, \
    cpu INTEGER NOT NULL, ram INTEGER NOT NULL, disk_gb INTEGER NOT NULL DEFAULT 2";

#[test]
fn migrate_egress_policy_column_adds_it_to_a_pre_existing_table() {
    let mut store = Database::empty();
    store.sql(&format!("CREATE TABLE vms ({OLD_VMS}) STRICT"));
    let vm = record(id(), "pre-migration");
    store.sql(&format!(
        "INSERT INTO vms VALUES ('{}', '{}', '{}', 'ubuntu-26.04', 'ubuntu-26.04-v1', 'kernel', \
         'rootfs', 'args', 1, 512, 2)",
        text(vm.id),
        vm.name,
        encode_state(vm.state)
    ));
    store.open().unwrap();
    let vms = store.load_all().unwrap();
    let (_, migrated) = vms.iter().next().expect("the pre-migration row survives");
    assert_eq!(
        migrated.egress_policy,
        EgressPolicy::Internet,
        "a column added by migration must default to the pre-existing behavior"
    );
    let network = store
        .network(migrated.micro_network_id)
        .expect("the VM is put in a network");
    assert_eq!(
        (network.name.as_str(), network.subnet_cidr.as_str()),
        ("default", "172.30.0.0/24")
    );

    let mut updated = migrated.clone();
    updated.egress_policy = EgressPolicy::Isolated;
    store.update(&updated).unwrap();
    assert_eq!(
        store.load_all().unwrap()[&updated.id].egress_policy,
        EgressPolicy::Isolated
    );
}

#[test]
fn insert_update_and_load_all_round_trip_env() {
    let mut store = Database::opened();
    let mut vm = record(id(), "with-env");
    vm.env = vec![
        ("A".to_owned(), "1".to_owned()),
        ("B".to_owned(), "2 \"quoted\"\n".to_owned()),
    ];
    store.insert(&vm).unwrap();
    assert_eq!(store.load_all().unwrap()[&vm.id].env, vm.env);

    vm.env = vec![("APP_NAME".to_owned(), "web".to_owned())];
    store.update(&vm).unwrap();
    assert_eq!(store.load_all().unwrap()[&vm.id].env, vm.env);

    vm.env.clear();
    store.update(&vm).unwrap();
    assert!(store.load_all().unwrap()[&vm.id].env.is_empty());
}

#[test]
fn a_corrupt_env_column_is_reported_as_a_corrupt_record() {
    let mut store = Database::opened();
    let vm = record(id(), "env-corrupt");
    store.insert(&vm).unwrap();
    for raw in ["not-json", "[1]", r#"{"K":1}"#] {
        store.sql(&format!("UPDATE vms SET env = '{raw}'"));
        match store.load_all() {
            Err(PersistenceError::CorruptRecord { id, reason }) => {
                assert_eq!(id, text(vm.id));
                assert!(reason.contains("env is not a JSON object"));
            }
            other => panic!("{raw}: {other:?}"),
        }
    }
}

#[test]
fn a_corrupt_env_column_error_does_not_include_persisted_contents() {
    let mut store = Database::opened();
    let vm = record(id(), "env-secret");
    store.insert(&vm).unwrap();
    let sentinel = "sentinel-secret-do-not-leak";
    store.sql(&format!(
        r#"UPDATE vms SET env = '{{"APP_NAME":"{sentinel}","n":1}}'"#
    ));
    match store.load_all().unwrap_err() {
        PersistenceError::CorruptRecord { id, reason } => {
            assert_eq!(reason, "env is not a JSON object of strings");
            assert!(!id.contains(sentinel));
        }
        other => panic!("{other:?}"),
    }
}

#[test]
fn migrate_env_column_defaults_an_existing_row_to_empty_map() {
    let mut store = Database::empty();
    let vm_id = id();
    store.sql(&format!(
        "CREATE TABLE vms ({OLD_VMS}, egress_policy TEXT NOT NULL DEFAULT 'internet', \
         micro_network_id TEXT, storage_root TEXT NOT NULL DEFAULT 'default', \
         disk_generation TEXT, last_runtime_id TEXT, \
         purpose TEXT NOT NULL DEFAULT 'instance') STRICT"
    ));
    store.sql(&format!(
        "INSERT INTO vms VALUES ('{}', 'pre-env', 'created', 't', 'v', 'k', 'r', 'a', 1, 512, 2, \
         'internet', '{}', 'default', NULL, NULL, 'instance')",
        text(vm_id),
        text(1)
    ));
    store.open().unwrap();
    let row = store.load_all().unwrap()[&vm_id].clone();
    assert!(
        row.env.is_empty(),
        "a column added by migration must default to {{}}"
    );
    let mut updated = row;
    updated.env.push(("K".to_owned(), "v".to_owned()));
    store.update(&updated).unwrap();
    assert_eq!(store.load_all().unwrap()[&vm_id].env, updated.env);
}

fn old_network(store: &Database, columns: &str) -> u128 {
    let network = id();
    store.sql(&format!(
        "CREATE TABLE micro_networks (id TEXT PRIMARY KEY, name TEXT NOT NULL, \
         subnet_cidr TEXT NOT NULL{columns}) STRICT"
    ));
    store.sql(&format!(
        "INSERT INTO micro_networks (id, name, subnet_cidr) \
         VALUES ('{}', 'pre-migration', '172.31.0.0/24')",
        text(network)
    ));
    network
}

#[test]
fn migrate_internet_enabled_column_defaults_an_existing_network_to_connected() {
    let mut store = Database::empty();
    let network = old_network(&store, "");
    store.open().unwrap();
    assert!(
        store.network(network).expect("row survives").internet_enabled,
        "every network was masqueraded before the toggle existed"
    );
    store
        .drive(|r| Store::set_micro_network_internet(network, false, r))
        .unwrap();
    assert!(!store.network(network).unwrap().internet_enabled);
}

#[test]
fn migrate_ipv6_columns_leaves_an_existing_network_ipv4_only() {
    let mut store = Database::empty();
    let network = old_network(&store, "");
    store.open().unwrap();
    let network = store.network(network).expect("row survives");
    assert_eq!(network.ipv6_cidr, None);
    assert_eq!(network.ipv6_gateway, None);
    assert_eq!(network.ipv6_egress, None);
}

fn ula() -> MicroNetwork {
    MicroNetwork {
        id: id(),
        name: "ula".to_owned(),
        subnet_cidr: "172.31.0.0/24".to_owned(),
        gateway: "172.31.0.1".to_owned(),
        internet_enabled: true,
        uplink: None,
        ipv6_cidr: Some("fd00:1::/64".to_owned()),
        ipv6_gateway: Some("fd00:1::1".to_owned()),
        ipv6_address_mode: Some(Ipv6AddressMode::Slaac),
        ipv6_egress: Some(Ipv6EgressMode::Nat66),
    }
}

#[test]
fn a_dual_stack_network_derives_its_v6_gateway_and_egress_mode() {
    let mut store = Database::opened();
    let ula = ula();
    let gua = MicroNetwork {
        id: id(),
        name: "gua".to_owned(),
        subnet_cidr: "172.32.0.0/24".to_owned(),
        gateway: "172.32.0.1".to_owned(),
        internet_enabled: true,
        uplink: None,
        ipv6_cidr: Some("2001:db8:1::/64".to_owned()),
        ipv6_gateway: Some("2001:db8:1::1".to_owned()),
        ipv6_address_mode: Some(Ipv6AddressMode::Dhcpv6),
        ipv6_egress: Some(Ipv6EgressMode::Direct),
    };
    store
        .drive(|r| Store::insert_micro_network(&ula, r))
        .unwrap();
    store
        .drive(|r| Store::insert_micro_network(&gua, r))
        .unwrap();
    assert_eq!(store.network(ula.id), Some(ula));
    assert_eq!(store.network(gua.id), Some(gua));
    assert_eq!(store.drive(Store::list_micro_networks).unwrap().len(), 2);

    store.sql("UPDATE micro_networks SET subnet_cidr = 'odd'");
    match store.drive(Store::list_micro_networks).unwrap_err() {
        PersistenceError::CorruptRecord { reason, .. } => {
            assert_eq!(reason, "subnet_cidr \"odd\" does not parse");
        }
        other => panic!("{other:?}"),
    }
}

#[test]
fn migrate_uplink_column_leaves_existing_rows_null() {
    let mut store = Database::empty();
    let network = old_network(&store, ", internet_enabled INTEGER NOT NULL DEFAULT 1");
    store.open().unwrap();
    assert_eq!(store.network(network).expect("row survives").uplink, None);
}

#[test]
fn migrate_lease_ipv6_column_leaves_existing_leases_ipv4_only() {
    let mut store = Database::empty();
    store.sql("CREATE TABLE network_leases (vm_id TEXT NOT NULL, released_at INTEGER) STRICT");
    store.sql("INSERT INTO network_leases (vm_id, released_at) VALUES ('v', 1)");
    store.open().unwrap();
    let leases = store
        .rows("SELECT ipv6, micro_network_id FROM network_leases", &[])
        .unwrap();
    assert_eq!(leases, vec![vec![Value::Null, Value::Null]]);
}

#[test]
fn set_micro_network_uplink_round_trips() {
    let mut store = Database::opened();
    let network = ula();
    store
        .drive(|r| Store::insert_micro_network(&network, r))
        .unwrap();
    store
        .drive(|r| Store::set_micro_network_uplink(network.id, &Some("eth1".to_owned()), r))
        .unwrap();
    assert_eq!(
        store.network(network.id).unwrap().uplink.as_deref(),
        Some("eth1")
    );
    store
        .drive(|r| Store::set_micro_network_uplink(network.id, &None, r))
        .unwrap();
    assert_eq!(store.network(network.id).unwrap().uplink, None);
    store
        .drive(|r| Store::delete_micro_network(network.id, r))
        .unwrap();
    assert_eq!(store.network(network.id), None);
}

#[test]
fn setting_the_uplink_on_a_missing_network_is_an_error() {
    let mut store = Database::opened();
    let missing = id();
    assert_eq!(
        store.drive(|r| Store::set_micro_network_uplink(missing, &Some("eth0".to_owned()), r)),
        Err(PersistenceError::MissingMicroNetwork { id: missing })
    );
}

#[test]
fn setting_the_internet_flag_on_a_missing_network_is_an_error() {
    let mut store = Database::opened();
    let missing = id();
    assert_eq!(
        store.drive(|r| Store::set_micro_network_internet(missing, false, r)),
        Err(PersistenceError::MissingMicroNetwork { id: missing })
    );
}

#[test]
fn purpose_round_trips_through_insert_and_load() {
    let mut store = Database::opened();
    let mut vm = record(id(), "builder-vm");
    vm.purpose = VmPurpose::Builder;
    store.insert(&vm).unwrap();
    assert_eq!(store.load_all().unwrap()[&vm.id].purpose, VmPurpose::Builder);
}

#[test]
fn decode_egress_policy_rejects_an_unknown_value_as_corrupt() {
    match decode_egress_policy("some-id", "wide-open").unwrap_err() {
        PersistenceError::CorruptRecord { id, reason } => {
            assert_eq!(id, "some-id");
            assert_eq!(reason, "unknown egress policy \"wide-open\"");
        }
        other => panic!("{other:?}"),
    }
}

#[test]
fn records_survive_reopen() {
    let mut store = Database::opened();
    let vm = record(id(), "durable");
    store.insert(&vm).unwrap();
    store.open().unwrap();
    assert_eq!(store.load_all().unwrap().get(&vm.id), Some(&vm));
    assert!(
        store.drive(Store::list_micro_networks).unwrap().is_empty(),
        "no network is made for VMs that are in one"
    );
}

#[test]
fn imports_legacy_vms_json_exactly_once() {
    let mut store = Database::empty();
    let first = record(id(), "legacy-a");
    let second = record(id(), "legacy-b");
    let legacy = HashMap::from([(first.id, first.clone()), (second.id, second.clone())]);
    store.legacy = Some(Ok(vec![first, second]));
    store.open().unwrap();
    assert_eq!(store.load_all().unwrap(), legacy);
    assert_eq!(
        store.renamed,
        vec![(
            "data/vms.json".to_owned(),
            "data/vms.json.imported".to_owned()
        )]
    );

    let extra = record(id(), "post-import");
    store.insert(&extra).unwrap();
    store.open().unwrap();
    let all = store.load_all().unwrap();
    assert_eq!(all.len(), 3);
    assert_eq!(all.get(&extra.id), Some(&extra));
    assert_eq!(store.renamed.len(), 1);
}

#[test]
fn corrupt_id_columns_are_reported_as_corrupt_records() {
    let mut store = Database::opened();
    let vm = record(id(), "corruptible");
    store.insert(&vm).unwrap();
    for (column, value, reason) in [
        (
            "micro_network_id",
            "'not-a-uuid'",
            "micro_network_id \"not-a-uuid\" is not a UUID",
        ),
        ("micro_network_id", "NULL", "micro_network_id is missing"),
        (
            "disk_generation",
            "'not-a-uuid'",
            "id column \"not-a-uuid\" is not a UUID",
        ),
    ] {
        store.sql(&format!("UPDATE vms SET micro_network_id = '{}'", text(1)));
        store.sql(&format!("UPDATE vms SET {column} = {value}"));
        match store.load_all() {
            Err(PersistenceError::CorruptRecord { id, reason: actual }) => {
                assert_eq!(id, text(vm.id));
                assert_eq!(actual, reason);
            }
            other => panic!("{column}={value} should be corrupt: {other:?}"),
        }
    }
    for (column, value, reason) in [
        ("state", "'odd'", "unknown state \"odd\""),
        ("purpose", "'odd'", "unknown purpose \"odd\""),
        ("id", "'odd'", "id is not a UUID"),
    ] {
        store.sql(&format!("UPDATE vms SET {column} = {value}"));
        match store.load_all() {
            Err(PersistenceError::CorruptRecord { reason: actual, .. }) => {
                assert_eq!(actual, reason);
            }
            other => panic!("{column}={value} should be corrupt: {other:?}"),
        }
        store.sql(&format!(
            "UPDATE vms SET state = 'created', purpose = 'instance', disk_generation = NULL, \
             micro_network_id = '{}'",
            text(1)
        ));
    }
}

#[test]
fn a_micro_storage_row_with_a_non_uuid_id_is_corrupt() {
    let mut store = Database::opened();
    store.sql("INSERT INTO micro_storages (id, name, path) VALUES ('not-a-uuid', 'p', '/mnt/p')");
    assert!(matches!(
        store.drive(Store::list_micro_storages),
        Err(PersistenceError::CorruptRecord { .. })
    ));
}

#[test]
fn disk_pools_are_kept_by_path() {
    let mut store = Database::opened();
    let pool = id();
    store
        .drive(|r| Store::insert_micro_storage(pool, "p", "/mnt/p", r))
        .unwrap();
    assert_eq!(
        store.drive(|r| Store::insert_micro_storage(id(), "q", "/mnt/p", r)),
        Err(PersistenceError::DuplicateMicroStoragePath {
            path: "/mnt/p".to_owned()
        })
    );
    let found = store
        .drive(|r| Store::micro_storage(pool, r))
        .unwrap()
        .unwrap();
    assert_eq!((found.name.as_str(), found.path.as_str()), ("p", "/mnt/p"));
    let mut vm = record(id(), "vm");
    vm.storage_root = text(pool);
    store.insert(&vm).unwrap();
    let count = store
        .drive(|r| Store::count_vms_with_storage_root(&text(pool), r))
        .unwrap();
    assert_eq!(count, 1);
    store
        .drive(|r| Store::delete_micro_storage(pool, r))
        .unwrap();
    assert_eq!(
        store.drive(|r| Store::delete_micro_storage(pool, r)),
        Err(PersistenceError::MissingMicroStorage { id: pool })
    );
    assert!(store
        .drive(|r| Store::micro_storage(pool, r))
        .unwrap()
        .is_none());
}

#[test]
fn a_non_constraint_failure_inserting_a_micro_storage_stays_a_database_error() {
    let mut store = Database::opened();
    store.sql("DROP TABLE micro_storages");
    let result = store.drive(|r| Store::insert_micro_storage(id(), "p", "/mnt/p", r));
    assert!(matches!(result, Err(PersistenceError::Database(_))));
}

#[test]
fn malformed_legacy_json_fails_open() {
    let mut store = Database::empty();
    store.legacy = Some(Err("key must be a string".to_owned()));
    let result = store.open();
    assert_eq!(
        result,
        Err(PersistenceError::LegacyDeserialize {
            path: "data/vms.json".to_owned(),
            source: "key must be a string".to_owned()
        })
    );
    assert!(store.renamed.is_empty());
}

#[test]
fn failures_to_open_name_their_file() {
    let leases = LeaseSchema {
        create_table: String::new(),
        add_micro_network: String::new(),
        add_ipv6: String::new(),
        indexes: Vec::new(),
    };
    let over = |replies: Vec<Reply>| match Store::open("d/f.db", &leases, 1, replies) {
        Progress::Over(result) => result.unwrap_err(),
        Progress::Ask(query) => panic!("{query:?}"),
    };
    assert_eq!(
        over(vec![Reply::Failed("full".to_owned())]),
        PersistenceError::CreateDirectory {
            path: "d".to_owned(),
            source: "full".to_owned()
        }
    );
    assert_eq!(
        over(vec![Reply::Done, Reply::Failed("locked".to_owned())]),
        PersistenceError::Open {
            path: "d/f.db".to_owned(),
            source: "locked".to_owned()
        }
    );
    assert_eq!(
        over(vec![
            Reply::Done,
            Reply::Done,
            Reply::Failed("no WAL".to_owned())
        ]),
        PersistenceError::Database("no WAL".to_owned())
    );
}

#[test]
fn set_vm_port_forwards_rejects_a_host_port_already_owned_by_another_vm() {
    let mut store = Database::opened();
    let vm_a = record(id(), "vm-a");
    let vm_b = record(id(), "vm-b");
    store.insert(&vm_a).unwrap();
    store.insert(&vm_b).unwrap();
    let claimed = PortForward {
        host_port: 8080,
        guest_port: 80,
        protocol: PortProtocol::Tcp,
    };
    let free = PortForward {
        host_port: 8081,
        guest_port: 53,
        protocol: PortProtocol::Udp,
    };
    store
        .drive(|r| Store::set_vm_port_forwards(vm_a.id, &[claimed], r))
        .unwrap();

    let result = store.drive(|r| Store::set_vm_port_forwards(vm_b.id, &[free, claimed], r));
    assert_eq!(
        result,
        Err(PersistenceError::DuplicatePortForward {
            host_port: 8080,
            protocol: "tcp".to_owned()
        })
    );
    assert!(store
        .drive(|r| Store::list_vm_port_forwards(vm_b.id, r))
        .unwrap()
        .is_empty());

    store
        .drive(|r| Store::set_vm_port_forwards(vm_b.id, &[free], r))
        .unwrap();
    assert_eq!(
        store
            .drive(|r| Store::list_vm_port_forwards(vm_b.id, r))
            .unwrap(),
        vec![free]
    );
    assert_eq!(
        store.drive(Store::list_all_port_forwards).unwrap(),
        vec![(vm_a.id, claimed), (vm_b.id, free)]
    );
    store
        .drive(|r| Store::clear_vm_port_forwards(vm_a.id, r))
        .unwrap();
    assert_eq!(store.drive(Store::list_all_port_forwards).unwrap().len(), 1);
}

fn local_catalog_entry(alias: &str, architecture: &str) -> LocalCatalogEntry {
    LocalCatalogEntry {
        alias: alias.to_owned(),
        architecture: architecture.to_owned(),
        version: "1".to_owned(),
        package: String::new(),
        sha256: String::new(),
        min_disk_gb: 1,
        published_at: "2026-08-15T00:00:00Z".to_owned(),
    }
}

#[test]
fn microregistry_local_round_trips_through_insert_list_and_get() {
    let mut store = Database::opened();
    let entry = local_catalog_entry("nginx-1.27", "x86_64");
    store
        .drive(|r| Store::insert_microregistry_local(&entry, r))
        .unwrap();
    assert_eq!(
        store
            .drive(|r| Store::microregistry_local("nginx-1.27", "x86_64", r))
            .unwrap()
            .as_ref(),
        Some(&entry)
    );
    assert_eq!(
        store
            .drive(|r| Store::list_microregistry_local(Some("x86_64"), r))
            .unwrap(),
        [local_catalog_entry("nginx-1.27", "x86_64")]
    );
    assert!(store
        .drive(|r| Store::list_microregistry_local(Some("aarch64"), r))
        .unwrap()
        .is_empty());
    assert_eq!(
        store
            .drive(|r| Store::list_microregistry_local(None, r))
            .unwrap(),
        [entry]
    );
}

#[test]
fn microregistry_local_rejects_a_duplicate_alias_architecture_pair() {
    let mut store = Database::opened();
    let entry = local_catalog_entry("nginx-1.27", "x86_64");
    store
        .drive(|r| Store::insert_microregistry_local(&entry, r))
        .unwrap();
    assert_eq!(
        store.drive(|r| Store::insert_microregistry_local(&entry, r)),
        Err(PersistenceError::DuplicateMicroRegistryLocal {
            alias: "nginx-1.27".to_owned(),
            architecture: "x86_64".to_owned()
        })
    );
    let other_arch = local_catalog_entry("nginx-1.27", "aarch64");
    store
        .drive(|r| Store::insert_microregistry_local(&other_arch, r))
        .unwrap();
    assert_eq!(
        store
            .drive(|r| Store::list_microregistry_local(None, r))
            .unwrap()
            .len(),
        2
    );
}

#[test]
fn docker_hub_credential_round_trips_and_can_be_deleted() {
    let mut store = Database::opened();
    assert_eq!(store.drive(Store::docker_hub_credential).unwrap(), None);
    store
        .drive(|r| Store::put_docker_hub_credential("pista", "dckr_pat_secret", r))
        .unwrap();
    let stored = store.drive(Store::docker_hub_credential).unwrap().unwrap();
    assert_eq!(stored.username, "pista");
    assert_eq!(stored.secret, "dckr_pat_secret");

    store
        .drive(|r| Store::put_docker_hub_credential("pista", "rotated", r))
        .unwrap();
    assert_eq!(
        store
            .drive(Store::docker_hub_credential)
            .unwrap()
            .unwrap()
            .secret,
        "rotated"
    );

    store.drive(Store::delete_docker_hub_credential).unwrap();
    assert_eq!(store.drive(Store::docker_hub_credential).unwrap(), None);
}

#[test]
fn opening_an_existing_database_creates_microregistry_local() {
    let mut store = Database::opened();
    store.sql("DROP TABLE microregistry_local");
    store.open().unwrap();
    store
        .drive(|r| Store::insert_microregistry_local(&local_catalog_entry("nginx-1.27", "x86_64"), r))
        .unwrap();
    assert_eq!(
        store
            .drive(|r| Store::microregistry_local("nginx-1.27", "x86_64", r))
            .unwrap()
            .unwrap()
            .alias,
        "nginx-1.27"
    );
}

#[test]
fn failures_say_what_they_are() {
    let text = |text: &str| text.to_owned();
    let (path, source) = (text("/d/x"), text("gone"));
    for (error, message) in [
        (
            PersistenceError::CreateDirectory {
                path: path.clone(),
                source: source.clone(),
            },
            "failed to create VM data directory /d/x: gone",
        ),
        (
            PersistenceError::Open {
                path: path.clone(),
                source: source.clone(),
            },
            "failed to open VM database /d/x: gone",
        ),
        (
            PersistenceError::Database(text("locked")),
            "VM database operation failed: locked",
        ),
        (
            PersistenceError::CorruptRecord {
                id: text("a"),
                reason: text("bad"),
            },
            "VM database record a is invalid: bad",
        ),
        (
            PersistenceError::MissingVm { id: 0x0123_4567_89ab_cdef_fedc_ba98_7654_3210 },
            "VM 01234567-89ab-cdef-fedc-ba9876543210 does not exist in the database",
        ),
        (
            PersistenceError::MissingVm { id: 1 },
            "VM 00000000-0000-0000-0000-000000000001 does not exist in the database",
        ),
        (
            PersistenceError::MissingMicroNetwork { id: 2 },
            "MicroNetwork 00000000-0000-0000-0000-000000000002 does not exist in the database",
        ),
        (
            PersistenceError::MissingMicroStorage { id: 3 },
            "MicroStorage 00000000-0000-0000-0000-000000000003 does not exist in the database",
        ),
        (
            PersistenceError::DuplicateMicroStoragePath { path: path.clone() },
            "MicroStorage path /d/x is already registered",
        ),
        (
            PersistenceError::DuplicateMicroRegistryLocal {
                alias: text("web"),
                architecture: text("x86_64"),
            },
            "MicroRegistry local alias web is already registered for x86_64",
        ),
        (
            PersistenceError::DuplicatePortForward {
                host_port: 8080,
                protocol: text("tcp"),
            },
            "host port 8080/tcp is already in use by another VM",
        ),
        (
            PersistenceError::MissingShell { id: 4 },
            "Shell 00000000-0000-0000-0000-000000000004 does not exist in the database",
        ),
        (
            PersistenceError::ShellInUse { id: 5, count: 2 },
            "Shell 00000000-0000-0000-0000-000000000005 is still pinned on 2 VM(s)",
        ),
        (
            PersistenceError::LegacyRead {
                path: path.clone(),
                source: source.clone(),
            },
            "failed to read legacy VM data from /d/x: gone",
        ),
        (
            PersistenceError::LegacyDeserialize {
                path: path.clone(),
                source: source.clone(),
            },
            "failed to deserialize legacy VM data from /d/x: gone",
        ),
        (
            PersistenceError::LegacyArchive { path, source },
            "failed to archive imported legacy VM data /d/x: gone",
        ),
    ] {
        assert_eq!(error.message(), message);
    }
}

#[test]
fn a_value_of_another_type_is_named_as_the_database_names_it() {
    for (host, guest, protocol) in [
        ("1.5", "80", "'tcp'"),
        ("NULL", "80", "'tcp'"),
        ("'x'", "80", "'tcp'"),
        ("8080", "x'00'", "'tcp'"),
        ("8080", "80", "7"),
    ] {
        let mut store = Database::empty();
        store.sql("CREATE TABLE port_forwards (vm_id, host_port, guest_port, protocol)");
        store.open().unwrap();
        let vm = id();
        store.sql(&format!(
            "INSERT INTO port_forwards VALUES ('{}', {host}, {guest}, {protocol})",
            text(vm)
        ));
        let expected = store
            .conn
            .query_row(
                "SELECT host_port, guest_port, protocol FROM port_forwards",
                [],
                |row| {
                    row.get::<_, i64>(0)?;
                    row.get::<_, i64>(1)?;
                    row.get::<_, String>(2)
                },
            )
            .unwrap_err();
        assert_eq!(
            store.drive(|r| Store::list_vm_port_forwards(vm, r)),
            Err(PersistenceError::Database(expected.to_string()))
        );
    }
}

#[test]
fn a_number_out_of_range_is_named_as_the_database_names_it() {
    for number in [-1_i64, 5_000_000_000, i64::MIN] {
        let mut store = Database::opened();
        store.insert(&record(id(), "vm")).unwrap();
        store.sql(&format!("UPDATE vms SET ram = {number}"));
        let expected = store
            .conn
            .query_row("SELECT 0, 0, 0, 0, 0, 0, 0, 0, 0, ram FROM vms", [], |row| {
                row.get::<_, u32>(9)
            })
            .unwrap_err();
        assert_eq!(
            store.load_all(),
            Err(PersistenceError::Database(expected.to_string()))
        );
        assert_eq!(
            expected.to_string(),
            format!("Integer {number} out of range at index 9")
        );
    }
}
