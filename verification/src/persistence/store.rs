//! The VMs, the disk pools, the login, the images registered on this host, and the
//! forwarded ports.

use std::collections::HashMap;
use vstd::prelude::*;

#[allow(unused_imports)]
use super::laws::legible;
#[allow(unused_imports)]
use super::record::{decoded, id_in, in_order, row_of, uuid_text, Vm};
use super::record::{decode_id, decode_record, encode_record, encode_state, uuid_string, VmRecord, VmState};
#[allow(unused_imports)]
use super::{
    cells, decoded_all, decoded_all_fails, int_at, outcome, shown, shown_all, shown_opt, stands,
    table, text_at, Ask, Cell, Fault, Told,
};
use super::{
    int_of, low16, low32, text_of, DockerHubCredential, PersistenceError, Progress, Query, Reply, Store, Value,
};
use crate::dialog::Steps;
#[allow(unused_imports)]
use crate::dialog::{fresh, seen, stand, Dialog};
#[allow(unused_imports)]
use crate::text::ascii_lower;
use crate::text::{lowered, same};

verus! {

pub const SELECT_ALL_SQL: &'static str = "SELECT id, name, state, template, template_version, template_kernel_sha256, template_rootfs_sha256, template_boot_args_sha256, cpu, ram, disk_gb, egress_policy, micro_network_id, storage_root, disk_generation, last_runtime_id, purpose, env FROM vms";

pub const INSERT_SQL: &'static str = "INSERT INTO vms (id, name, state, template, template_version, template_kernel_sha256, template_rootfs_sha256, template_boot_args_sha256, cpu, ram, disk_gb, egress_policy, micro_network_id, storage_root, disk_generation, last_runtime_id, purpose, env) VALUES (?1, ?2, ?3, ?4, ?5, ?6, ?7, ?8, ?9, ?10, ?11, ?12, ?13, ?14, ?15, ?16, ?17, ?18)";

pub const UPDATE_SQL: &'static str = "UPDATE vms SET name = ?2, state = ?3, template = ?4, template_version = ?5, template_kernel_sha256 = ?6, template_rootfs_sha256 = ?7, template_boot_args_sha256 = ?8, cpu = ?9, ram = ?10, disk_gb = ?11, egress_policy = ?12, micro_network_id = ?13, storage_root = ?14, disk_generation = ?15, last_runtime_id = ?16, purpose = ?17, env = ?18 WHERE id = ?1";

pub const DELETE_SQL: &'static str = "DELETE FROM vms WHERE id = ?1";

pub const RESET_SQL: &'static str = "UPDATE vms SET state = ?1 WHERE state IN (?2, ?3, ?4)";

pub const COUNT_STORAGE_ROOT_SQL: &'static str = "SELECT COUNT(*) FROM vms WHERE storage_root = ?1";

pub const SELECT_ALL_MICRO_STORAGES_SQL: &'static str = "SELECT id, name, path FROM micro_storages";

pub const SELECT_MICRO_STORAGE_SQL: &'static str = "SELECT id, name, path FROM micro_storages WHERE id = ?1";

pub const INSERT_MICRO_STORAGE_SQL: &'static str = "INSERT INTO micro_storages (id, name, path) VALUES (?1, ?2, ?3)";

pub const DELETE_MICRO_STORAGE_SQL: &'static str = "DELETE FROM micro_storages WHERE id = ?1";

pub const SELECT_DOCKER_HUB_CREDENTIAL_SQL: &'static str = "SELECT username, secret FROM docker_hub_credential WHERE id = 1";

pub const UPSERT_DOCKER_HUB_CREDENTIAL_SQL: &'static str = "INSERT INTO docker_hub_credential (id, username, secret) VALUES (1, ?1, ?2)\n     ON CONFLICT(id) DO UPDATE SET username = excluded.username, secret = excluded.secret";

pub const DELETE_DOCKER_HUB_CREDENTIAL_SQL: &'static str = "DELETE FROM docker_hub_credential WHERE id = 1";

pub const SELECT_MICROREGISTRY_LOCAL_ALL_SQL: &'static str = "SELECT alias, architecture, version, package, sha256, min_disk_gb, published_at FROM microregistry_local ORDER BY alias";

pub const SELECT_MICROREGISTRY_LOCAL_BY_ARCH_SQL: &'static str = "SELECT alias, architecture, version, package, sha256, min_disk_gb, published_at FROM microregistry_local WHERE architecture = ?1 ORDER BY alias";

pub const SELECT_MICROREGISTRY_LOCAL_ONE_SQL: &'static str = "SELECT alias, architecture, version, package, sha256, min_disk_gb, published_at FROM microregistry_local WHERE alias = ?1 AND architecture = ?2";

pub const INSERT_MICROREGISTRY_LOCAL_SQL: &'static str = "INSERT INTO microregistry_local (alias, architecture, version, package, sha256, min_disk_gb, published_at) VALUES (?1, ?2, ?3, ?4, ?5, ?6, ?7)";

pub const CLEAR_PORT_FORWARDS_SQL: &'static str = "DELETE FROM port_forwards WHERE vm_id = ?1";

pub const INSERT_PORT_FORWARD_SQL: &'static str = "INSERT INTO port_forwards (vm_id, host_port, guest_port, protocol) VALUES (?1, ?2, ?3, ?4)";

pub const SELECT_VM_PORT_FORWARDS_SQL: &'static str = "SELECT host_port, guest_port, protocol FROM port_forwards WHERE vm_id = ?1 ORDER BY host_port ASC";

pub const SELECT_ALL_PORT_FORWARDS_SQL: &'static str = "SELECT vm_id, host_port, guest_port, protocol FROM port_forwards";

/// The records that some rows keep, by their ids; of two with one id the later stays.
pub open spec fn records(rows: Seq<Seq<Cell>>) -> Result<Map<u128, Vm>, Fault>
    decreases rows.len(),
{
    if rows.len() == 0 {
        Ok(Map::empty())
    } else {
        match records(rows.drop_last()) {
            Err(fault) => Err(fault),
            Ok(all) => match decoded(rows.last()) {
                Err(fault) => Err(fault),
                Ok(vm) => Ok(all.insert(vm.id, vm)),
            },
        }
    }
}

proof fn a_fault_stays(rows: Seq<Seq<Cell>>, n: int)
    requires
        0 <= n <= rows.len(),
        records(rows.take(n)) is Err,
    ensures
        records(rows) == records(rows.take(n)),
    decreases rows.len() - n,
{
    if n == rows.len() {
        assert(rows.take(n) =~= rows);
    } else {
        assert(rows.take(n + 1).drop_last() =~= rows.take(n));
        a_fault_stays(rows, n + 1);
    }
}

/// Records by their ids as contracts speak of them.
pub open spec fn known(all: Map<u128, VmRecord>) -> Map<u128, Vm> {
    all.map_values(|vm: VmRecord| vm@)
}

/// Records by their ids, or why they could not be had.
pub open spec fn shown_map(r: Result<HashMap<u128, VmRecord>, PersistenceError>) -> Result<
    Map<u128, Vm>,
    Fault,
> {
    match r {
        Ok(all) => Ok(known(all@)),
        Err(e) => Err(e@),
    }
}

impl Dialog<Ask, Told> {
    /// Stops every VM that has no process behind it any more, and gives the number of them.
    pub open spec fn reset_states(self) -> (Self, Result<u64, Fault>) {
        self.run(
            RESET_SQL@,
            seq![
                Cell::Text(VmState::Stopped.name()),
                Cell::Text(VmState::Starting.name()),
                Cell::Text(VmState::Running.name()),
                Cell::Text(VmState::Stopping.name()),
            ],
        )
    }

    /// Keeps a new disk pool; no two have one path.
    pub open spec fn insert_pool(self, pool: Pool) -> (Self, Result<(), Fault>) {
        self.perform_unless(
            INSERT_MICRO_STORAGE_SQL@,
            seq![Cell::Text(uuid_text(pool.id)), Cell::Text(pool.name), Cell::Text(pool.path)],
            Fault::DuplicateMicroStoragePath { path: pool.path },
        )
    }

    /// Forgets a disk pool.
    pub open spec fn delete_pool(self, id: u128) -> (Self, Result<(), Fault>) {
        self.change(
            DELETE_MICRO_STORAGE_SQL@,
            seq![Cell::Text(uuid_text(id))],
            Fault::MissingMicroStorage { id },
        )
    }

    /// The disk pool with that id.
    pub open spec fn pool(self, id: u128) -> (Self, Result<Option<Pool>, Fault>) {
        self.find(
            SELECT_MICRO_STORAGE_SQL@,
            seq![Cell::Text(uuid_text(id))],
            |row: Seq<Cell>| pool_of(row),
        )
    }

    /// Keeps the login for Docker Hub, in place of an earlier one.
    pub open spec fn put_login(self, login: Login) -> (Self, Result<(), Fault>) {
        self.perform(
            UPSERT_DOCKER_HUB_CREDENTIAL_SQL@,
            seq![Cell::Text(login.username), Cell::Text(login.secret)],
        )
    }

    /// Forgets the login for Docker Hub.
    pub open spec fn drop_login(self) -> (Self, Result<(), Fault>) {
        self.perform(DELETE_DOCKER_HUB_CREDENTIAL_SQL@, Seq::empty())
    }

    /// The login for Docker Hub, where one is kept.
    pub open spec fn login(self) -> (Self, Result<Option<Login>, Fault>) {
        self.find(
            SELECT_DOCKER_HUB_CREDENTIAL_SQL@,
            Seq::empty(),
            |row: Seq<Cell>| login_of(row),
        )
    }

    /// All VMs.
    pub open spec fn load_all(self) -> (Self, Result<Map<u128, Vm>, Fault>) {
        let (next, rows) = self.select(SELECT_ALL_SQL@, Seq::empty());
        (
            next,
            match rows {
                Err(fault) => Err(fault),
                Ok(rows) => records(rows),
            },
        )
    }

    /// The number of VMs with a storage root.
    pub open spec fn count_storage_root(self, root: Seq<char>) -> (Self, Result<u32, Fault>) {
        let (next, rows) = self.select(COUNT_STORAGE_ROOT_SQL@, seq![Cell::Text(root)]);
        (
            next,
            match rows {
                Err(fault) => Err(fault),
                Ok(rows) => if rows.len() == 0 {
                    Err(Fault::Database("Query returned no rows"@))
                } else {
                    match int_at(rows[0], 0, "COUNT(*)"@) {
                        Err(fault) => Err(fault),
                        Ok(n) => Ok(n as u32),
                    }
                },
            },
        )
    }

    /// Puts the forwarded ports of a VM in, one after the other.
    pub open spec fn insert_forwards(self, vm: u128, forwards: Seq<PortForward>) -> (
        Self,
        Result<(), Fault>,
    )
        decreases forwards.len(),
    {
        if forwards.len() == 0 {
            (self, Ok(()))
        } else {
            let (before, result) = self.insert_forwards(vm, forwards.drop_last());
            if result is Err {
                (before, result)
            } else {
                before.perform_unless(
                    INSERT_PORT_FORWARD_SQL@,
                    forward_row(vm, forwards.last()),
                    Fault::DuplicatePortForward {
                        host_port: forwards.last().host_port,
                        protocol: forwards.last().protocol.name(),
                    },
                )
            }
        }
    }

    /// Puts the forwarded ports of a VM in place of those that are there.
    pub open spec fn replace_forwards(self, vm: u128, forwards: Seq<PortForward>) -> (
        Self,
        Result<(), Fault>,
    ) {
        let (cleared, result) = self.perform(
            CLEAR_PORT_FORWARDS_SQL@,
            seq![Cell::Text(uuid_text(vm))],
        );
        if result is Err {
            (cleared, result)
        } else {
            cleared.insert_forwards(vm, forwards)
        }
    }

    /// Replaces the forwarded ports of a VM, all or none.
    pub open spec fn set_forwards(self, vm: u128, forwards: Seq<PortForward>) -> (
        Self,
        Result<(), Fault>,
    ) {
        let (begun, result) = self.transact(Ask::Begin { immediate: false });
        if result is Err {
            (begun, result)
        } else {
            let (put, result) = begun.replace_forwards(vm, forwards);
            put.concluded(result)
        }
    }
}

proof fn a_clash_stays(d: Dialog<Ask, Told>, vm: u128, forwards: Seq<PortForward>, n: int)
    requires
        0 <= n <= forwards.len(),
        d.insert_forwards(vm, forwards.take(n)).1 is Err,
    ensures
        d.insert_forwards(vm, forwards) == d.insert_forwards(vm, forwards.take(n)),
    decreases forwards.len() - n,
{
    if n == forwards.len() {
        assert(forwards.take(n) =~= forwards);
    } else {
        assert(forwards.take(n + 1).drop_last() =~= forwards.take(n));
        a_clash_stays(d, vm, forwards, n + 1);
    }
}

/// A disk pool: its id, its name and its path.
#[derive(Debug, PartialEq, Eq)]
pub struct MicroStorage {
    pub id: u128,
    pub name: String,
    pub path: String,
}

/// [`MicroStorage`] as contracts speak of it.
pub struct Pool {
    pub id: u128,
    pub name: Seq<char>,
    pub path: Seq<char>,
}

impl View for MicroStorage {
    type V = Pool;

    open spec fn view(&self) -> Pool {
        Pool { id: self.id, name: self.name@, path: self.path@ }
    }
}

/// The disk pool that a row keeps.
pub open spec fn pool_of(row: Seq<Cell>) -> Result<Pool, Fault> {
    let id = text_at(row, 0, "id"@)->Ok_0;
    if text_at(row, 0, "id"@) is Err {
        Err(text_at(row, 0, "id"@)->Err_0)
    } else if id_in(id, id, "id is not a UUID"@) is Err {
        Err(id_in(id, id, "id is not a UUID"@)->Err_0)
    } else if text_at(row, 1, "name"@) is Err {
        Err(text_at(row, 1, "name"@)->Err_0)
    } else if text_at(row, 2, "path"@) is Err {
        Err(text_at(row, 2, "path"@)->Err_0)
    } else {
        Ok(
            Pool {
                id: id_in(id, id, "id is not a UUID"@)->Ok_0,
                name: text_at(row, 1, "name"@)->Ok_0,
                path: text_at(row, 2, "path"@)->Ok_0,
            },
        )
    }
}

fn decode_pool(row: &Vec<Value>) -> (r: Result<MicroStorage, PersistenceError>)
    ensures
        shown(r) == pool_of(cells(row@)),
{
    let id_text = text_of(row, 0, "id")?;
    let id: u128 = decode_id(&id_text, &id_text, "id is not a UUID")?;
    let name = text_of(row, 1, "name")?;
    let path = text_of(row, 2, "path")?;
    Ok(MicroStorage { id, name, path })
}

/// [`DockerHubCredential`] as contracts speak of it.
pub struct Login {
    pub username: Seq<char>,
    pub secret: Seq<char>,
}

impl View for DockerHubCredential {
    type V = Login;

    open spec fn view(&self) -> Login {
        Login { username: self.username@, secret: self.secret@ }
    }
}

/// The login that a row keeps.
pub open spec fn login_of(row: Seq<Cell>) -> Result<Login, Fault> {
    if text_at(row, 0, "username"@) is Err {
        Err(text_at(row, 0, "username"@)->Err_0)
    } else if text_at(row, 1, "secret"@) is Err {
        Err(text_at(row, 1, "secret"@)->Err_0)
    } else {
        Ok(Login { username: text_at(row, 0, "username"@)->Ok_0, secret: text_at(row, 1, "secret"@)->Ok_0 })
    }
}

fn decode_login(row: &Vec<Value>) -> (r: Result<DockerHubCredential, PersistenceError>)
    ensures
        shown(r) == login_of(cells(row@)),
{
    let username = text_of(row, 0, "username")?;
    let secret = text_of(row, 1, "secret")?;
    Ok(DockerHubCredential { username, secret })
}

/// An image that was registered on this host.
#[derive(Debug, PartialEq, Eq)]
pub struct LocalCatalogEntry {
    pub alias: String,
    pub architecture: String,
    pub version: String,
    pub package: String,
    pub sha256: String,
    pub min_disk_gb: u16,
    pub published_at: String,
}

/// [`LocalCatalogEntry`] as contracts speak of it.
pub struct LocalImage {
    pub alias: Seq<char>,
    pub architecture: Seq<char>,
    pub version: Seq<char>,
    pub package: Seq<char>,
    pub sha256: Seq<char>,
    pub min_disk_gb: u16,
    pub published_at: Seq<char>,
}

impl View for LocalCatalogEntry {
    type V = LocalImage;

    open spec fn view(&self) -> LocalImage {
        LocalImage {
            alias: self.alias@,
            architecture: self.architecture@,
            version: self.version@,
            package: self.package@,
            sha256: self.sha256@,
            min_disk_gb: self.min_disk_gb,
            published_at: self.published_at@,
        }
    }
}

/// The image that a row keeps.
pub open spec fn image_of(row: Seq<Cell>) -> Result<LocalImage, Fault> {
    if text_at(row, 0, "alias"@) is Err {
        Err(text_at(row, 0, "alias"@)->Err_0)
    } else if text_at(row, 1, "architecture"@) is Err {
        Err(text_at(row, 1, "architecture"@)->Err_0)
    } else if text_at(row, 2, "version"@) is Err {
        Err(text_at(row, 2, "version"@)->Err_0)
    } else if text_at(row, 3, "package"@) is Err {
        Err(text_at(row, 3, "package"@)->Err_0)
    } else if text_at(row, 4, "sha256"@) is Err {
        Err(text_at(row, 4, "sha256"@)->Err_0)
    } else if int_at(row, 5, "min_disk_gb"@) is Err {
        Err(int_at(row, 5, "min_disk_gb"@)->Err_0)
    } else if text_at(row, 6, "published_at"@) is Err {
        Err(text_at(row, 6, "published_at"@)->Err_0)
    } else {
        Ok(
            LocalImage {
                alias: text_at(row, 0, "alias"@)->Ok_0,
                architecture: text_at(row, 1, "architecture"@)->Ok_0,
                version: text_at(row, 2, "version"@)->Ok_0,
                package: text_at(row, 3, "package"@)->Ok_0,
                sha256: text_at(row, 4, "sha256"@)->Ok_0,
                min_disk_gb: int_at(row, 5, "min_disk_gb"@)->Ok_0 as u16,
                published_at: text_at(row, 6, "published_at"@)->Ok_0,
            },
        )
    }
}

/// The row that keeps an image.
pub open spec fn image_row(image: LocalImage) -> Seq<Cell> {
    seq![
        Cell::Text(image.alias),
        Cell::Text(image.architecture),
        Cell::Text(image.version),
        Cell::Text(image.package),
        Cell::Text(image.sha256),
        Cell::Integer(image.min_disk_gb as i64),
        Cell::Text(image.published_at),
    ]
}

/// What was registered is what is listed.
pub proof fn a_local_image_is_read_back(image: LocalImage)
    ensures
        image_of(image_row(image)) == Ok::<LocalImage, Fault>(image),
{
}

fn map_local_catalog_entry(row: &Vec<Value>) -> (r: Result<LocalCatalogEntry, PersistenceError>)
    ensures
        shown(r) == image_of(cells(row@)),
{
    let alias = text_of(row, 0, "alias")?;
    let architecture = text_of(row, 1, "architecture")?;
    let version = text_of(row, 2, "version")?;
    let package = text_of(row, 3, "package")?;
    let sha256 = text_of(row, 4, "sha256")?;
    let min_disk_gb: i64 = int_of(row, 5, "min_disk_gb")?;
    let published_at = text_of(row, 6, "published_at")?;
    Ok(
        LocalCatalogEntry {
            alias,
            architecture,
            version,
            package,
            sha256,
            min_disk_gb: low16(min_disk_gb),
            published_at,
        },
    )
}

/// What a port carries.
#[derive(Debug, Clone, Copy, PartialEq, Eq, Structural)]
pub enum PortProtocol {
    Tcp,
    Udp,
}

impl PortProtocol {
    /// The protocol as it is written.
    pub open spec fn name(self) -> Seq<char> {
        match self {
            PortProtocol::Tcp => "tcp"@,
            PortProtocol::Udp => "udp"@,
        }
    }

    /// The protocol as it is written.
    pub fn id(&self) -> (r: &'static str)
        ensures
            r@ == self.name(),
    {
        match self {
            PortProtocol::Tcp => "tcp",
            PortProtocol::Udp => "udp",
        }
    }
}

/// A port of the host that is forwarded to a port of a VM.
#[derive(Debug, Clone, Copy, PartialEq, Eq, Structural)]
pub struct PortForward {
    pub host_port: u16,
    pub guest_port: u16,
    pub protocol: PortProtocol,
}

impl View for PortForward {
    type V = PortForward;

    open spec fn view(&self) -> PortForward {
        *self
    }
}

/// The row that keeps a forwarded port.
pub open spec fn forward_row(vm: u128, forward: PortForward) -> Seq<Cell> {
    seq![
        Cell::Text(uuid_text(vm)),
        Cell::Integer(forward.host_port as i64),
        Cell::Integer(forward.guest_port as i64),
        Cell::Text(forward.protocol.name()),
    ]
}

/// The protocol of a name: all but `udp` is TCP.
pub open spec fn protocol_of(name: Seq<char>) -> PortProtocol {
    if ascii_lower(name) == "udp"@ {
        PortProtocol::Udp
    } else {
        PortProtocol::Tcp
    }
}

/// The forwarded port in three columns of a row.
pub open spec fn forward_in(row: Seq<Cell>, from: int) -> Result<PortForward, Fault> {
    if int_at(row, from, "host_port"@) is Err {
        Err(int_at(row, from, "host_port"@)->Err_0)
    } else if int_at(row, from + 1, "guest_port"@) is Err {
        Err(int_at(row, from + 1, "guest_port"@)->Err_0)
    } else if text_at(row, from + 2, "protocol"@) is Err {
        Err(text_at(row, from + 2, "protocol"@)->Err_0)
    } else {
        Ok(
            PortForward {
                host_port: int_at(row, from, "host_port"@)->Ok_0 as u16,
                guest_port: int_at(row, from + 1, "guest_port"@)->Ok_0 as u16,
                protocol: protocol_of(text_at(row, from + 2, "protocol"@)->Ok_0),
            },
        )
    }
}

/// The forwarded port that a row keeps.
pub open spec fn forward_of(row: Seq<Cell>) -> Result<PortForward, Fault> {
    forward_in(row, 0)
}

/// The VM and the forwarded port that a row keeps.
pub open spec fn owned_forward_of(row: Seq<Cell>) -> Result<(u128, PortForward), Fault> {
    let id = text_at(row, 0, "vm_id"@)->Ok_0;
    if text_at(row, 0, "vm_id"@) is Err {
        Err(text_at(row, 0, "vm_id"@)->Err_0)
    } else if id_in(id, id, "vm_id is not a UUID"@) is Err {
        Err(id_in(id, id, "vm_id is not a UUID"@)->Err_0)
    } else if forward_in(row, 1) is Err {
        Err(forward_in(row, 1)->Err_0)
    } else {
        Ok((id_in(id, id, "vm_id is not a UUID"@)->Ok_0, forward_in(row, 1)->Ok_0))
    }
}

/// A forwarded port that was kept is read back as it was.
pub proof fn a_forwarded_port_is_read_back(vm: u128, forward: PortForward)
    ensures
        forward_in(forward_row(vm, forward), 1) == Ok::<PortForward, Fault>(forward),
{
    reveal_strlit("udp");
    reveal_strlit("tcp");
    assert(ascii_lower("udp"@) =~= "udp"@);
    assert(ascii_lower("tcp"@)[0] == 't');
    assert("udp"@[0] == 'u');
}

fn decode_forward(row: &Vec<Value>, from: usize) -> (r: Result<PortForward, PersistenceError>)
    requires
        from <= 1,
    ensures
        shown(r) == forward_in(cells(row@), from as int),
{
    let host_port: i64 = int_of(row, from, "host_port")?;
    let guest_port: i64 = int_of(row, from + 1, "guest_port")?;
    let name = text_of(row, from + 2, "protocol")?;
    let protocol = if same(&lowered(&name), "udp") {
        PortProtocol::Udp
    } else {
        PortProtocol::Tcp
    };
    Ok(PortForward { host_port: low16(host_port), guest_port: low16(guest_port), protocol })
}

fn id_params(id: u128) -> (r: Vec<Value>)
    ensures
        cells(r@) == seq![Cell::Text(uuid_text(id))],
{
    let params = vec![Value::Text(uuid_string(id))];
    assert(cells(params@) =~= seq![Cell::Text(uuid_text(id))]);
    params
}

fn no_params() -> (r: Vec<Value>)
    ensures
        cells(r@) == Seq::<Cell>::empty(),
{
    let params: Vec<Value> = Vec::new();
    assert(cells(params@) =~= Seq::<Cell>::empty());
    params
}

fn text_params(texts: &[&str]) -> (r: Vec<Value>)
    ensures
        cells(r@) == crate::text::texts(texts@).map_values(|t: Seq<char>| Cell::Text(t)),
{
    let ghost all = crate::text::texts(texts@).map_values(|t: Seq<char>| Cell::Text(t));
    let mut params: Vec<Value> = Vec::new();
    let mut i: usize = 0;
    while i < texts.len()
        invariant
            i <= texts@.len(),
            all == crate::text::texts(texts@).map_values(|t: Seq<char>| Cell::Text(t)),
            params@.len() == i,
            forall|j: int| 0 <= j < i ==> (#[trigger] params@[j])@ == all[j],
        decreases texts@.len() - i,
    {
        params.push(Value::Text(texts[i].to_owned()));
        i += 1;
    }
    assert(cells(params@) =~= all);
    params
}

/// All VMs, by what the rows of the statement keep.
pub fn records_of(rows: &Vec<Vec<Value>>) -> (r: Result<
    HashMap<u128, VmRecord>,
    PersistenceError,
>)
    ensures
        shown_map(r) == records(table(rows@)),
{
    broadcast use vstd::std_specs::hash::group_hash_axioms;

    let ghost all = table(rows@);
    let mut vms: HashMap<u128, VmRecord> = HashMap::new();
    let mut i: usize = 0;
    assert(known(vms@) =~= Map::<u128, Vm>::empty());
    while i < rows.len()
        invariant
            i <= rows@.len(),
            all == table(rows@),
            records(all.take(i as int)) == Ok::<Map<u128, Vm>, Fault>(known(vms@)),
        decreases rows@.len() - i,
    {
        assert(all.take(i + 1).drop_last() =~= all.take(i as int));
        assert(all.take(i + 1).last() == cells(rows@[i as int]@));
        match decode_record(&rows[i]) {
            Ok(vm) => {
                let ghost before = vms@;
                let ghost kept = vm@;
                let id: u128 = vm.id;
                vms.insert(id, vm);
                assert(known(vms@) =~= known(before).insert(id, kept));
            },
            Err(e) => {
                proof {
                    a_fault_stays(all, i + 1);
                }
                return Err(e);
            },
        }
        i += 1;
    }
    assert(all.take(i as int) =~= all);
    Ok(vms)
}

/// What some rows keep, or the first fault.
pub fn pools_of(rows: &Vec<Vec<Value>>) -> (r: Result<Vec<MicroStorage>, PersistenceError>)
    ensures
        shown_all(r) == decoded_all(table(rows@), |row: Seq<Cell>| pool_of(row)),
{
    let ghost all = table(rows@);
    let ghost decode = |row: Seq<Cell>| pool_of(row);
    let mut out: Vec<MicroStorage> = Vec::new();
    let mut i: usize = 0;
    assert(seen(out@) =~= decoded_all(all.take(0), decode)->Ok_0);
    while i < rows.len()
        invariant
            i <= rows@.len(),
            all == table(rows@),
            decode == (|row: Seq<Cell>| pool_of(row)),
            decoded_all(all.take(i as int), decode) is Ok,
            decoded_all(all.take(i as int), decode)->Ok_0 == seen(out@),
        decreases rows@.len() - i,
    {
        let ghost before = seen(out@);
        assert(all.take(i + 1).drop_last() =~= all.take(i as int));
        assert(all.take(i + 1).last() == cells(rows@[i as int]@));
        match decode_pool(&rows[i]) {
            Ok(value) => {
                out.push(value);
                assert(seen(out@) =~= before.push(value@));
            },
            Err(e) => {
                proof {
                    decoded_all_fails(all, decode, i + 1);
                }
                return Err(e);
            },
        }
        i += 1;
    }
    assert(all.take(i as int) =~= all);
    Ok(out)
}

/// What some rows keep, or the first fault.
pub fn images_of(rows: &Vec<Vec<Value>>) -> (r: Result<Vec<LocalCatalogEntry>, PersistenceError>)
    ensures
        shown_all(r) == decoded_all(table(rows@), |row: Seq<Cell>| image_of(row)),
{
    let ghost all = table(rows@);
    let ghost decode = |row: Seq<Cell>| image_of(row);
    let mut out: Vec<LocalCatalogEntry> = Vec::new();
    let mut i: usize = 0;
    assert(seen(out@) =~= decoded_all(all.take(0), decode)->Ok_0);
    while i < rows.len()
        invariant
            i <= rows@.len(),
            all == table(rows@),
            decode == (|row: Seq<Cell>| image_of(row)),
            decoded_all(all.take(i as int), decode) is Ok,
            decoded_all(all.take(i as int), decode)->Ok_0 == seen(out@),
        decreases rows@.len() - i,
    {
        let ghost before = seen(out@);
        assert(all.take(i + 1).drop_last() =~= all.take(i as int));
        assert(all.take(i + 1).last() == cells(rows@[i as int]@));
        match map_local_catalog_entry(&rows[i]) {
            Ok(value) => {
                out.push(value);
                assert(seen(out@) =~= before.push(value@));
            },
            Err(e) => {
                proof {
                    decoded_all_fails(all, decode, i + 1);
                }
                return Err(e);
            },
        }
        i += 1;
    }
    assert(all.take(i as int) =~= all);
    Ok(out)
}

/// What some rows keep, or the first fault.
pub fn forwards_of(rows: &Vec<Vec<Value>>) -> (r: Result<Vec<PortForward>, PersistenceError>)
    ensures
        shown_all(r) == decoded_all(table(rows@), |row: Seq<Cell>| forward_of(row)),
{
    let ghost all = table(rows@);
    let ghost decode = |row: Seq<Cell>| forward_of(row);
    let mut out: Vec<PortForward> = Vec::new();
    let mut i: usize = 0;
    assert(seen(out@) =~= decoded_all(all.take(0), decode)->Ok_0);
    while i < rows.len()
        invariant
            i <= rows@.len(),
            all == table(rows@),
            decode == (|row: Seq<Cell>| forward_of(row)),
            decoded_all(all.take(i as int), decode) is Ok,
            decoded_all(all.take(i as int), decode)->Ok_0 == seen(out@),
        decreases rows@.len() - i,
    {
        let ghost before = seen(out@);
        assert(all.take(i + 1).drop_last() =~= all.take(i as int));
        assert(all.take(i + 1).last() == cells(rows@[i as int]@));
        match decode_forward(&rows[i], 0) {
            Ok(value) => {
                out.push(value);
                assert(seen(out@) =~= before.push(value@));
            },
            Err(e) => {
                proof {
                    decoded_all_fails(all, decode, i + 1);
                }
                return Err(e);
            },
        }
        i += 1;
    }
    assert(all.take(i as int) =~= all);
    Ok(out)
}

fn decode_owned_forward(row: &Vec<Value>) -> (r: Result<(u128, PortForward), PersistenceError>)
    ensures
        outcome(r) == owned_forward_of(cells(row@)),
{
    let id_text = text_of(row, 0, "vm_id")?;
    let id: u128 = decode_id(&id_text, &id_text, "vm_id is not a UUID")?;
    let forward = decode_forward(row, 1)?;
    Ok((id, forward))
}

/// What some rows keep, or the first fault.
pub fn owned_forwards_of(rows: &Vec<Vec<Value>>) -> (r: Result<Vec<(u128, PortForward)>, PersistenceError>)
    ensures
        (match r {
            Ok(all) => Ok::<Seq<(u128, PortForward)>, Fault>(all@),
            Err(e) => Err(e@),
        }) == decoded_all(table(rows@), |row: Seq<Cell>| owned_forward_of(row)),
{
    let ghost all = table(rows@);
    let ghost decode = |row: Seq<Cell>| owned_forward_of(row);
    let mut out: Vec<(u128, PortForward)> = Vec::new();
    let mut i: usize = 0;
    assert(out@ =~= decoded_all(all.take(0), decode)->Ok_0);
    while i < rows.len()
        invariant
            i <= rows@.len(),
            all == table(rows@),
            decode == (|row: Seq<Cell>| owned_forward_of(row)),
            decoded_all(all.take(i as int), decode) is Ok,
            decoded_all(all.take(i as int), decode)->Ok_0 == out@,
        decreases rows@.len() - i,
    {
        let ghost before = out@;
        assert(all.take(i + 1).drop_last() =~= all.take(i as int));
        assert(all.take(i + 1).last() == cells(rows@[i as int]@));
        match decode_owned_forward(&rows[i]) {
            Ok(value) => {
                out.push(value);
                assert(out@ =~= before.push(value));
            },
            Err(e) => {
                proof {
                    decoded_all_fails(all, decode, i + 1);
                }
                return Err(e);
            },
        }
        i += 1;
    }
    assert(all.take(i as int) =~= all);
    Ok(out)
}

impl Store {
    /// All VMs.
    pub fn load_all(replies: Vec<Reply>) -> (r: Progress<HashMap<u128, VmRecord>>)
        ensures
            stands(r, |x: Result<HashMap<u128, VmRecord>, PersistenceError>| shown_map(x))
                == stand(fresh(seen(replies@)).load_all()),
    {
        let mut steps = Steps::<Query, Reply>::new(replies);
        let result = match steps.select(SELECT_ALL_SQL, no_params()) {
            Err(e) => Err(e),
            Ok(rows) => records_of(&rows),
        };
        steps.finish(result)
    }

    /// Keeps a new VM. Reading the row that keeps it gives the VM back.
    pub fn insert(vm: &VmRecord, replies: Vec<Reply>) -> (r: Progress<()>)
        ensures
            stands(r, |x: Result<(), PersistenceError>| outcome(x)) == stand(
                fresh(seen(replies@)).perform(INSERT_SQL@, row_of(vm@)),
            ),
            in_order(vm@.env) ==> legible(vm@),
    {
        let mut steps = Steps::<Query, Reply>::new(replies);
        let result = steps.perform(INSERT_SQL, encode_record(vm));
        steps.finish(result)
    }

    /// Keeps what became of a VM. Reading the row that keeps it gives the VM back.
    pub fn update(vm: &VmRecord, replies: Vec<Reply>) -> (r: Progress<()>)
        ensures
            stands(r, |x: Result<(), PersistenceError>| outcome(x)) == stand(
                fresh(seen(replies@)).change(
                    UPDATE_SQL@,
                    row_of(vm@),
                    Fault::MissingVm { id: vm@.id },
                ),
            ),
            in_order(vm@.env) ==> legible(vm@),
    {
        let mut steps = Steps::<Query, Reply>::new(replies);
        let result = steps.change(
            UPDATE_SQL,
            encode_record(vm),
            PersistenceError::MissingVm { id: vm.id },
        );
        steps.finish(result)
    }

    /// Forgets a VM.
    pub fn delete(id: u128, replies: Vec<Reply>) -> (r: Progress<()>)
        ensures
            stands(r, |x: Result<(), PersistenceError>| outcome(x)) == stand(
                fresh(seen(replies@)).change(
                    DELETE_SQL@,
                    seq![Cell::Text(uuid_text(id))],
                    Fault::MissingVm { id },
                ),
            ),
    {
        let mut steps = Steps::<Query, Reply>::new(replies);
        let result = steps.change(DELETE_SQL, id_params(id), PersistenceError::MissingVm { id });
        steps.finish(result)
    }

    /// A VM that was starting, running or stopping when the service went down has no process
    /// behind it any more: it is stopped. Gives the number of them.
    pub fn reset_active_states(replies: Vec<Reply>) -> (r: Progress<u64>)
        ensures
            stands(r, |x: Result<u64, PersistenceError>| outcome(x)) == stand(
                fresh(seen(replies@)).reset_states(),
            ),
    {
        let mut steps = Steps::<Query, Reply>::new(replies);
        let params = text_params(
            &[
                encode_state(VmState::Stopped),
                encode_state(VmState::Starting),
                encode_state(VmState::Running),
                encode_state(VmState::Stopping),
            ],
        );
        assert(cells(params@) =~= seq![
            Cell::Text(VmState::Stopped.name()),
            Cell::Text(VmState::Starting.name()),
            Cell::Text(VmState::Running.name()),
            Cell::Text(VmState::Stopping.name()),
        ]);
        let result = steps.run(RESET_SQL, params);
        steps.finish(result)
    }

    /// The number of VMs whose disks are in a storage root.
    pub fn count_vms_with_storage_root(storage_root: &str, replies: Vec<Reply>) -> (r: Progress<u32>)
        ensures
            stands(r, |x: Result<u32, PersistenceError>| outcome(x)) == stand(
                fresh(seen(replies@)).count_storage_root(storage_root@),
            ),
    {
        let mut steps = Steps::<Query, Reply>::new(replies);
        let params = text_params(&[storage_root]);
        assert(cells(params@) =~= seq![Cell::Text(storage_root@)]);
        let result = match steps.first_row(COUNT_STORAGE_ROOT_SQL, params) {
            Err(e) => Err(e),
            Ok(None) => Err(PersistenceError::Database("Query returned no rows".to_owned())),
            Ok(Some(row)) => match int_of(&row, 0, "COUNT(*)") {
                Err(e) => Err(e),
                Ok(n) => Ok(low32(n)),
            },
        };
        steps.finish(result)
    }

    /// All disk pools.
    pub fn list_micro_storages(replies: Vec<Reply>) -> (r: Progress<Vec<MicroStorage>>)
        ensures
            stands(r, |x: Result<Vec<MicroStorage>, PersistenceError>| shown_all(x)) == stand(
                fresh(seen(replies@)).list(
                    SELECT_ALL_MICRO_STORAGES_SQL@,
                    Seq::empty(),
                    |row: Seq<Cell>| pool_of(row),
                ),
            ),
    {
        let mut steps = Steps::<Query, Reply>::new(replies);
        let result = match steps.select(SELECT_ALL_MICRO_STORAGES_SQL, no_params()) {
            Err(e) => Err(e),
            Ok(rows) => pools_of(&rows),
        };
        steps.finish(result)
    }

    /// The disk pool with that id.
    pub fn micro_storage(id: u128, replies: Vec<Reply>) -> (r: Progress<Option<MicroStorage>>)
        ensures
            stands(r, |x: Result<Option<MicroStorage>, PersistenceError>| shown_opt(x)) == stand(
                fresh(seen(replies@)).pool(id),
            ),
    {
        let mut steps = Steps::<Query, Reply>::new(replies);
        let result = match steps.first_row(SELECT_MICRO_STORAGE_SQL, id_params(id)) {
            Err(e) => Err(e),
            Ok(None) => Ok(None),
            Ok(Some(row)) => match decode_pool(&row) {
                Err(e) => Err(e),
                Ok(pool) => Ok(Some(pool)),
            },
        };
        steps.finish(result)
    }

    /// Keeps a new disk pool; no two have one path. Reading the row that keeps it gives the
    /// pool back.
    pub fn insert_micro_storage(id: u128, name: &str, path: &str, replies: Vec<Reply>) -> (r: Progress<
        (),
    >)
        ensures
            stands(r, |x: Result<(), PersistenceError>| outcome(x)) == stand(
                fresh(seen(replies@)).insert_pool(Pool { id, name: name@, path: path@ }),
            ),
            pool_of(seq![Cell::Text(uuid_text(id)), Cell::Text(name@), Cell::Text(path@)]) == Ok::<
                Pool,
                Fault,
            >(Pool { id, name: name@, path: path@ }),
    {
        let mut steps = Steps::<Query, Reply>::new(replies);
        let id_text = uuid_string(id);
        let params = text_params(&[id_text.as_str(), name, path]);
        assert(cells(params@) =~= seq![
            Cell::Text(uuid_text(id)),
            Cell::Text(name@),
            Cell::Text(path@),
        ]);
        let result = steps.perform_unless(
            INSERT_MICRO_STORAGE_SQL,
            params,
            PersistenceError::DuplicateMicroStoragePath { path: path.to_owned() },
        );
        steps.finish(result)
    }

    /// Forgets a disk pool.
    pub fn delete_micro_storage(id: u128, replies: Vec<Reply>) -> (r: Progress<()>)
        ensures
            stands(r, |x: Result<(), PersistenceError>| outcome(x)) == stand(
                fresh(seen(replies@)).delete_pool(id),
            ),
    {
        let mut steps = Steps::<Query, Reply>::new(replies);
        let result = steps.change(
            DELETE_MICRO_STORAGE_SQL,
            id_params(id),
            PersistenceError::MissingMicroStorage { id },
        );
        steps.finish(result)
    }

    /// The login for Docker Hub, where one is kept.
    pub fn docker_hub_credential(replies: Vec<Reply>) -> (r: Progress<Option<DockerHubCredential>>)
        ensures
            stands(r, |x: Result<Option<DockerHubCredential>, PersistenceError>| shown_opt(x))
                == stand(
                fresh(seen(replies@)).login(),
            ),
    {
        let mut steps = Steps::<Query, Reply>::new(replies);
        let result = match steps.first_row(SELECT_DOCKER_HUB_CREDENTIAL_SQL, no_params()) {
            Err(e) => Err(e),
            Ok(None) => Ok(None),
            Ok(Some(row)) => match decode_login(&row) {
                Err(e) => Err(e),
                Ok(login) => Ok(Some(login)),
            },
        };
        steps.finish(result)
    }

    /// Keeps the login for Docker Hub, in place of an earlier one.
    pub fn put_docker_hub_credential(username: &str, secret: &str, replies: Vec<Reply>) -> (r: Progress<
        (),
    >)
        ensures
            stands(r, |x: Result<(), PersistenceError>| outcome(x)) == stand(
                fresh(seen(replies@)).put_login(Login { username: username@, secret: secret@ }),
            ),
    {
        let mut steps = Steps::<Query, Reply>::new(replies);
        let params = text_params(&[username, secret]);
        assert(cells(params@) =~= seq![Cell::Text(username@), Cell::Text(secret@)]);
        let result = steps.perform(UPSERT_DOCKER_HUB_CREDENTIAL_SQL, params);
        steps.finish(result)
    }

    /// Forgets the login for Docker Hub.
    pub fn delete_docker_hub_credential(replies: Vec<Reply>) -> (r: Progress<()>)
        ensures
            stands(r, |x: Result<(), PersistenceError>| outcome(x)) == stand(
                fresh(seen(replies@)).drop_login(),
            ),
    {
        let mut steps = Steps::<Query, Reply>::new(replies);
        let result = steps.perform(DELETE_DOCKER_HUB_CREDENTIAL_SQL, no_params());
        steps.finish(result)
    }

    /// The images that were registered on this host, of one machine or of all.
    pub fn list_microregistry_local(architecture: Option<&str>, replies: Vec<Reply>) -> (r: Progress<
        Vec<LocalCatalogEntry>,
    >)
        ensures
            stands(r, |x: Result<Vec<LocalCatalogEntry>, PersistenceError>| shown_all(x))
                == stand(
                match architecture {
                    Some(name) => fresh(seen(replies@)).list(
                        SELECT_MICROREGISTRY_LOCAL_BY_ARCH_SQL@,
                        seq![Cell::Text(name@)],
                        |row: Seq<Cell>| image_of(row),
                    ),
                    None => fresh(seen(replies@)).list(
                        SELECT_MICROREGISTRY_LOCAL_ALL_SQL@,
                        Seq::empty(),
                        |row: Seq<Cell>| image_of(row),
                    ),
                },
            ),
    {
        let mut steps = Steps::<Query, Reply>::new(replies);
        let rows = match architecture {
            Some(name) => {
                let params = text_params(&[name]);
                assert(cells(params@) =~= seq![Cell::Text(name@)]);
                steps.select(SELECT_MICROREGISTRY_LOCAL_BY_ARCH_SQL, params)
            },
            None => steps.select(SELECT_MICROREGISTRY_LOCAL_ALL_SQL, no_params()),
        };
        let result = match rows {
            Err(e) => Err(e),
            Ok(rows) => images_of(&rows),
        };
        steps.finish(result)
    }

    /// The image of an alias that was registered on this host for a machine.
    pub fn microregistry_local(alias: &str, architecture: &str, replies: Vec<Reply>) -> (r: Progress<
        Option<LocalCatalogEntry>,
    >)
        ensures
            stands(r, |x: Result<Option<LocalCatalogEntry>, PersistenceError>| shown_opt(x))
                == stand(
                fresh(seen(replies@)).find(
                    SELECT_MICROREGISTRY_LOCAL_ONE_SQL@,
                    seq![Cell::Text(alias@), Cell::Text(architecture@)],
                    |row: Seq<Cell>| image_of(row),
                ),
            ),
    {
        let mut steps = Steps::<Query, Reply>::new(replies);
        let params = text_params(&[alias, architecture]);
        assert(cells(params@) =~= seq![Cell::Text(alias@), Cell::Text(architecture@)]);
        let result = match steps.first_row(SELECT_MICROREGISTRY_LOCAL_ONE_SQL, params) {
            Err(e) => Err(e),
            Ok(None) => Ok(None),
            Ok(Some(row)) => match map_local_catalog_entry(&row) {
                Err(e) => Err(e),
                Ok(entry) => Ok(Some(entry)),
            },
        };
        steps.finish(result)
    }

    /// Registers an image on this host; an alias is registered once for a machine.
    pub fn insert_microregistry_local(entry: &LocalCatalogEntry, replies: Vec<Reply>) -> (r: Progress<
        (),
    >)
        ensures
            stands(r, |x: Result<(), PersistenceError>| outcome(x)) == stand(
                fresh(seen(replies@)).perform_unless(
                    INSERT_MICROREGISTRY_LOCAL_SQL@,
                    image_row(entry@),
                    Fault::DuplicateMicroRegistryLocal {
                        alias: entry@.alias,
                        architecture: entry@.architecture,
                    },
                ),
            ),
    {
        let mut steps = Steps::<Query, Reply>::new(replies);
        let mut params: Vec<Value> = Vec::new();
        params.push(Value::Text(entry.alias.clone()));
        params.push(Value::Text(entry.architecture.clone()));
        params.push(Value::Text(entry.version.clone()));
        params.push(Value::Text(entry.package.clone()));
        params.push(Value::Text(entry.sha256.clone()));
        params.push(Value::Integer(entry.min_disk_gb as i64));
        params.push(Value::Text(entry.published_at.clone()));
        assert(cells(params@) =~= image_row(entry@));
        let result = steps.perform_unless(
            INSERT_MICROREGISTRY_LOCAL_SQL,
            params,
            PersistenceError::DuplicateMicroRegistryLocal {
                alias: entry.alias.clone(),
                architecture: entry.architecture.clone(),
            },
        );
        steps.finish(result)
    }

    /// Replaces the forwarded ports of a VM, all or none. A port of the host is forwarded to
    /// one VM.
    pub fn set_vm_port_forwards(vm_id: u128, forwards: &[PortForward], replies: Vec<Reply>) -> (r:
        Progress<()>)
        ensures
            stands(r, |x: Result<(), PersistenceError>| outcome(x)) == stand(
                fresh(seen(replies@)).set_forwards(vm_id, forwards@),
            ),
    {
        let mut steps = Steps::<Query, Reply>::new(replies);
        let result = steps.set_forwards(vm_id, forwards);
        steps.finish(result)
    }

    /// Forgets the forwarded ports of a VM.
    pub fn clear_vm_port_forwards(vm_id: u128, replies: Vec<Reply>) -> (r: Progress<()>)
        ensures
            stands(r, |x: Result<(), PersistenceError>| outcome(x)) == stand(
                fresh(seen(replies@)).perform(
                    CLEAR_PORT_FORWARDS_SQL@,
                    seq![Cell::Text(uuid_text(vm_id))],
                ),
            ),
    {
        let mut steps = Steps::<Query, Reply>::new(replies);
        let result = steps.perform(CLEAR_PORT_FORWARDS_SQL, id_params(vm_id));
        steps.finish(result)
    }

    /// The forwarded ports of a VM.
    pub fn list_vm_port_forwards(vm_id: u128, replies: Vec<Reply>) -> (r: Progress<Vec<PortForward>>)
        ensures
            stands(r, |x: Result<Vec<PortForward>, PersistenceError>| shown_all(x)) == stand(
                fresh(seen(replies@)).list(
                    SELECT_VM_PORT_FORWARDS_SQL@,
                    seq![Cell::Text(uuid_text(vm_id))],
                    |row: Seq<Cell>| forward_of(row),
                ),
            ),
    {
        let mut steps = Steps::<Query, Reply>::new(replies);
        let result = match steps.select(SELECT_VM_PORT_FORWARDS_SQL, id_params(vm_id)) {
            Err(e) => Err(e),
            Ok(rows) => forwards_of(&rows),
        };
        steps.finish(result)
    }

    /// The forwarded ports of all VMs.
    pub fn list_all_port_forwards(replies: Vec<Reply>) -> (r: Progress<Vec<(u128, PortForward)>>)
        ensures
            stands(
                r,
                |x: Result<Vec<(u128, PortForward)>, PersistenceError>|
                    match x {
                        Ok(all) => Ok::<Seq<(u128, PortForward)>, Fault>(all@),
                        Err(e) => Err(e@),
                    },
            ) == stand(
                fresh(seen(replies@)).list(
                    SELECT_ALL_PORT_FORWARDS_SQL@,
                    Seq::empty(),
                    |row: Seq<Cell>| owned_forward_of(row),
                ),
            ),
    {
        let mut steps = Steps::<Query, Reply>::new(replies);
        let result = match steps.select(SELECT_ALL_PORT_FORWARDS_SQL, no_params()) {
            Err(e) => Err(e),
            Ok(rows) => owned_forwards_of(&rows),
        };
        steps.finish(result)
    }
}

impl Steps<Query, Reply> {
    fn insert_forwards(&mut self, vm_id: u128, forwards: &[PortForward]) -> (r: Result<
        (),
        PersistenceError,
    >)
        requires
            old(self).wf(),
        ensures
            final(self).wf(),
            (final(self)@, outcome(r)) == old(self)@.insert_forwards(vm_id, forwards@),
    {
        let ghost start = self@;
        let mut i: usize = 0;
        while i < forwards.len()
            invariant
                self.wf(),
                i <= forwards@.len(),
                start == old(self)@,
                (self@, Ok::<(), Fault>(())) == start.insert_forwards(
                    vm_id,
                    forwards@.take(i as int),
                ),
            decreases forwards@.len() - i,
        {
            let forward = forwards[i];
            assert(forwards@.take(i + 1).drop_last() =~= forwards@.take(i as int));
            assert(forwards@.take(i + 1).last() == forward);
            let mut params: Vec<Value> = Vec::new();
            params.push(Value::Text(uuid_string(vm_id)));
            params.push(Value::Integer(forward.host_port as i64));
            params.push(Value::Integer(forward.guest_port as i64));
            params.push(Value::Text(forward.protocol.id().to_owned()));
            assert(cells(params@) =~= forward_row(vm_id, forward));
            if let Err(e) = self.perform_unless(
                INSERT_PORT_FORWARD_SQL,
                params,
                PersistenceError::DuplicatePortForward {
                    host_port: forward.host_port,
                    protocol: forward.protocol.id().to_owned(),
                },
            ) {
                proof {
                    a_clash_stays(start, vm_id, forwards@, i + 1);
                }
                return Err(e);
            }
            i += 1;
        }
        assert(forwards@.take(i as int) =~= forwards@);
        Ok(())
    }

    fn replace_forwards(&mut self, vm_id: u128, forwards: &[PortForward]) -> (r: Result<
        (),
        PersistenceError,
    >)
        requires
            old(self).wf(),
        ensures
            final(self).wf(),
            (final(self)@, outcome(r)) == old(self)@.replace_forwards(vm_id, forwards@),
    {
        self.perform(CLEAR_PORT_FORWARDS_SQL, id_params(vm_id))?;
        self.insert_forwards(vm_id, forwards)
    }

    fn set_forwards(&mut self, vm_id: u128, forwards: &[PortForward]) -> (r: Result<
        (),
        PersistenceError,
    >)
        requires
            old(self).wf(),
        ensures
            final(self).wf(),
            (final(self)@, outcome(r)) == old(self)@.set_forwards(vm_id, forwards@),
    {
        self.transact(Query::Begin { immediate: false })?;
        let result = self.replace_forwards(vm_id, forwards);
        self.conclude(result)
    }
}

} // verus!
