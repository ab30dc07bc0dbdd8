//! A model of the database: its rows, and what each statement does to them.

use vstd::prelude::*;

#[allow(unused_imports)]
use super::network::INSERT_MICRO_NETWORK_SQL;
#[allow(unused_imports)]
use super::record::Vm;
#[allow(unused_imports)]
use super::schema::{
    ATTACH_LEASES_SQL, ATTACH_VMS_SQL, COUNT_UNATTACHED_LEASES_SQL, COUNT_UNATTACHED_VMS_SQL,
    IMPORT_SQL,
};
#[allow(unused_imports)]
use super::store::{
    CLEAR_PORT_FORWARDS_SQL, DELETE_SQL, INSERT_PORT_FORWARD_SQL, INSERT_SQL, SELECT_ALL_SQL,
    SELECT_VM_PORT_FORWARDS_SQL, UPDATE_SQL,
};
#[allow(unused_imports)]
use super::{Ask, Cell, Told};
#[allow(unused_imports)]
use crate::dialog::Dialog;

verus! {

/// A lease: whether it was given up, the network that it is in, and its other columns.
pub struct Lease {
    pub released: bool,
    pub network: Cell,
    pub rest: Seq<Cell>,
}

/// The rows of the database.
pub struct Tables {
    /// The VMs, by their ids.
    pub vms: Map<Seq<char>, Seq<Cell>>,
    /// The networks, by their ids.
    pub networks: Map<Seq<char>, Seq<Cell>>,
    pub leases: Seq<Lease>,
    /// The forwarded ports, by the port of the host and the protocol.
    pub forwards: Map<(Cell, Cell), Seq<Cell>>,
}

/// The database and the files beside it.
pub struct Database {
    pub tables: Tables,
    /// The rows as they were when the transaction began, where one is under way.
    pub saved: Option<Tables>,
    /// The records in files from before the database, by their paths.
    pub files: Map<Seq<char>, Seq<Vm>>,
}

/// Whether a statement makes a table or an index, or adds a column.
pub open spec fn shapes(sql: Seq<char>) -> bool {
    sql.len() > 0 && (sql[0] == 'C' || sql[0] == 'A')
}

/// Whether a column names no network.
pub open spec fn nowhere(network: Cell) -> bool {
    network is Null || (network is Text && network->Text_0.len() == 0)
}

/// Whether the row of a VM names no network.
pub open spec fn adrift(row: Seq<Cell>) -> bool {
    row.len() > 12 && nowhere(row[12])
}

/// The row of a VM with a network where it names none.
pub open spec fn attached(row: Seq<Cell>, network: Cell) -> Seq<Cell> {
    if adrift(row) {
        row.update(12, network)
    } else {
        row
    }
}

/// A lease with a network where it names none.
pub open spec fn attached_lease(lease: Lease, network: Cell) -> Lease {
    if nowhere(lease.network) {
        Lease { network, ..lease }
    } else {
        lease
    }
}

/// The forwarded ports without those of a VM.
pub open spec fn forwards_but(forwards: Map<(Cell, Cell), Seq<Cell>>, vm: Cell) -> Map<
    (Cell, Cell),
    Seq<Cell>,
> {
    Map::new(
        |k: (Cell, Cell)| forwards.contains_key(k) && forwards[k][0] != vm,
        |k: (Cell, Cell)| forwards[k],
    )
}

impl Tables {
    /// The rows after a statement, or none where a row would clash with another.
    pub open spec fn after(self, sql: Seq<char>, params: Seq<Cell>) -> Option<Tables> {
        let id = params[0]->Text_0;
        if shapes(sql) {
            Some(self)
        } else if sql == INSERT_SQL@ {
            if self.vms.contains_key(id) {
                None
            } else {
                Some(Tables { vms: self.vms.insert(id, params), ..self })
            }
        } else if sql == UPDATE_SQL@ {
            if self.vms.contains_key(id) {
                Some(Tables { vms: self.vms.insert(id, params), ..self })
            } else {
                Some(self)
            }
        } else if sql == DELETE_SQL@ {
            Some(Tables { vms: self.vms.remove(id), ..self })
        } else if sql == IMPORT_SQL@ {
            Some(Tables { vms: self.vms.insert(id, params), ..self })
        } else if sql == INSERT_MICRO_NETWORK_SQL@ {
            if self.networks.contains_key(id) {
                None
            } else {
                Some(Tables { networks: self.networks.insert(id, params), ..self })
            }
        } else if sql == ATTACH_VMS_SQL@ {
            Some(
                Tables {
                    vms: self.vms.map_values(|row: Seq<Cell>| attached(row, params[0])),
                    ..self
                },
            )
        } else if sql == ATTACH_LEASES_SQL@ {
            Some(
                Tables {
                    leases: self.leases.map_values(
                        |lease: Lease| attached_lease(lease, params[0]),
                    ),
                    ..self
                },
            )
        } else if sql == CLEAR_PORT_FORWARDS_SQL@ {
            Some(Tables { forwards: forwards_but(self.forwards, params[0]), ..self })
        } else if sql == INSERT_PORT_FORWARD_SQL@ {
            if self.forwards.contains_key((params[1], params[3])) {
                None
            } else {
                Some(
                    Tables {
                        forwards: self.forwards.insert((params[1], params[3]), params),
                        ..self
                    },
                )
            }
        } else {
            Some(self)
        }
    }

    /// Whether a statement changes that number of rows, where its number of rows matters.
    pub open spec fn counts(self, sql: Seq<char>, params: Seq<Cell>, n: u64) -> bool {
        sql == UPDATE_SQL@ || sql == DELETE_SQL@ ==> n == if self.vms.contains_key(
            params[0]->Text_0,
        ) {
            1u64
        } else {
            0u64
        }
    }

    /// Whether a statement can give those rows.
    pub open spec fn gives(self, sql: Seq<char>, params: Seq<Cell>, rows: Seq<Seq<Cell>>) -> bool {
        if sql == SELECT_ALL_SQL@ {
            exists|keys: Seq<Seq<char>>| #[trigger]
                enumerates(keys, self.vms.dom()) && rows == keys.map_values(
                    |k: Seq<char>| self.vms[k],
                )
        } else if sql == COUNT_UNATTACHED_VMS_SQL@ {
            one_count(rows, self.has_stray_vm())
        } else if sql == COUNT_UNATTACHED_LEASES_SQL@ {
            one_count(rows, self.has_stray_lease())
        } else if sql == SELECT_VM_PORT_FORWARDS_SQL@ {
            &&& exists|keys: Seq<(Cell, Cell)>| #[trigger]
                enumerates(keys, self.forwards_of(params[0])) && rows == keys.map_values(
                    |k: (Cell, Cell)| self.forwards[k].skip(1),
                )
            &&& forall|i: int, j: int|
                #![trigger rows[i], rows[j]]
                0 <= i < j < rows.len() ==> rows[i][0]->Integer_0 <= rows[j][0]->Integer_0
        } else {
            true
        }
    }

    /// Whether a VM is in no network.
    pub open spec fn has_stray_vm(self) -> bool {
        exists|k: Seq<char>| #[trigger] self.vms.contains_key(k) && adrift(self.vms[k])
    }

    /// Whether a lease that was not given up is in no network.
    pub open spec fn has_stray_lease(self) -> bool {
        exists|i: int|
            0 <= i < self.leases.len() && !(#[trigger] self.leases[i]).released && nowhere(
                self.leases[i].network,
            )
    }

    /// The forwarded ports of a VM.
    pub open spec fn forwards_of(self, vm: Cell) -> Set<(Cell, Cell)> {
        Set::new(|k: (Cell, Cell)| self.forwards.contains_key(k) && self.forwards[k][0] == vm)
    }
}

/// Whether a list holds each item of a set once, and nothing else.
pub open spec fn enumerates<A>(list: Seq<A>, all: Set<A>) -> bool {
    list.no_duplicates() && forall|a: A| #[trigger] list.contains(a) == all.contains(a)
}

/// Whether some rows are one count, which is zero where there is nothing to count.
pub open spec fn one_count(rows: Seq<Seq<Cell>>, any: bool) -> bool {
    rows.len() == 1 && rows[0].len() == 1 && rows[0][0] is Integer && (rows[0][0]->Integer_0 == 0)
        == !any
}

/// Whether a request can be answered so, and leave that database. A statement that fails
/// changes nothing; one that clashes with another row always fails.
pub open spec fn does(before: Database, ask: Ask, told: Told, after: Database) -> bool {
    match ask {
        Ask::Run { sql, params } => match before.tables.after(sql, params) {
            None => told is Constraint && after == before,
            Some(tables) => match told {
                Told::Changed(n) => after == (Database { tables, ..before })
                    && before.tables.counts(sql, params, n),
                Told::Constraint(_) => false,
                _ => after == before,
            },
        },
        Ask::Select { sql, params } => after == before && (told is Rows ==> before.tables.gives(
            sql,
            params,
            told->Rows_0,
        )),
        Ask::Begin { .. } => after == if told is Done {
            Database { saved: Some(before.tables), ..before }
        } else {
            before
        },
        Ask::Commit => after == if told is Done {
            Database { saved: None, ..before }
        } else {
            before
        },
        Ask::Rollback => after == match before.saved {
            Some(tables) => Database { tables, saved: None, ..before },
            None => before,
        },
        Ask::ReadLegacy { path } => {
            &&& after == before
            &&& told is NotFound <==> !before.files.contains_key(path)
            &&& told is Legacy ==> told->Legacy_0 == before.files[path]
        },
        Ask::Rename { from, to } => after == if told is Done && before.files.contains_key(from) {
            Database { files: before.files.remove(from).insert(to, before.files[from]), ..before }
        } else {
            before
        },
        _ => after == before,
    }
}

/// Whether the database could go through those states in a dialog.
pub open spec fn played(d: Dialog<Ask, Told>, states: Seq<Database>) -> bool {
    &&& d.asked.len() < states.len()
    &&& forall|i: int|
        0 <= i < d.asked.len() && i < d.answers.len() ==> does(
            states[i],
            #[trigger] d.asked[i],
            d.answers[i],
            states[i + 1],
        )
}

/// The database after a dialog.
pub open spec fn state_of(d: Dialog<Ask, Told>, states: Seq<Database>) -> Database {
    states[d.asked.len() as int]
}

/// One request more.
pub(crate) proof fn one_request(d: Dialog<Ask, Told>, ask: Ask, states: Seq<Database>)
    requires
        !d.ask(ask).0.waiting,
        played(d.ask(ask).0, states),
    ensures
        !d.waiting,
        played(d, states),
        d.asked.len() < d.answers.len(),
        d.ask(ask).0.asked == d.asked.push(ask),
        d.ask(ask).0.answers == d.answers,
        d.ask(ask).1 == d.answers[d.asked.len() as int],
        does(state_of(d, states), ask, d.ask(ask).1, state_of(d.ask(ask).0, states)),
{
    let next = d.ask(ask).0;
    assert(next.asked == d.asked.push(ask));
    assert(next.asked[d.asked.len() as int] == ask);
    assert forall|i: int| 0 <= i < d.asked.len() && i < d.answers.len() implies does(
        states[i],
        #[trigger] d.asked[i],
        d.answers[i],
        states[i + 1],
    ) by {
        assert(next.asked[i] == d.asked[i]);
    }
}

/// The statements are told apart.
pub(crate) proof fn statements_differ()
    ensures
        !shapes(INSERT_SQL@) && !shapes(UPDATE_SQL@) && !shapes(DELETE_SQL@) && !shapes(IMPORT_SQL@),
        !shapes(INSERT_MICRO_NETWORK_SQL@) && !shapes(ATTACH_VMS_SQL@) && !shapes(ATTACH_LEASES_SQL@),
        !shapes(CLEAR_PORT_FORWARDS_SQL@) && !shapes(INSERT_PORT_FORWARD_SQL@),
        INSERT_SQL@.len() == 339 && UPDATE_SQL@.len() == 351 && DELETE_SQL@.len() == 29,
        IMPORT_SQL@.len() == 350 && INSERT_MICRO_NETWORK_SQL@.len() == 142,
        ATTACH_VMS_SQL@.len() == 92 && ATTACH_LEASES_SQL@.len() == 103,
        CLEAR_PORT_FORWARDS_SQL@.len() == 42 && INSERT_PORT_FORWARD_SQL@.len() == 90,
        SELECT_ALL_SQL@.len() == 248 && COUNT_UNATTACHED_VMS_SQL@.len() == 80,
        COUNT_UNATTACHED_LEASES_SQL@.len() == 117 && SELECT_VM_PORT_FORWARDS_SQL@.len() == 97,
{
    reveal_strlit("INSERT INTO vms (id, name, state, template, template_version, template_kernel_sha256, template_rootfs_sha256, template_boot_args_sha256, cpu, ram, disk_gb, egress_policy, micro_network_id, storage_root, disk_generation, last_runtime_id, purpose, env) VALUES (?1, ?2, ?3, ?4, ?5, ?6, ?7, ?8, ?9, ?10, ?11, ?12, ?13, ?14, ?15, ?16, ?17, ?18)");
    reveal_strlit("UPDATE vms SET name = ?2, state = ?3, template = ?4, template_version = ?5, template_kernel_sha256 = ?6, template_rootfs_sha256 = ?7, template_boot_args_sha256 = ?8, cpu = ?9, ram = ?10, disk_gb = ?11, egress_policy = ?12, micro_network_id = ?13, storage_root = ?14, disk_generation = ?15, last_runtime_id = ?16, purpose = ?17, env = ?18 WHERE id = ?1");
    reveal_strlit("DELETE FROM vms WHERE id = ?1");
    reveal_strlit("INSERT OR REPLACE INTO vms (id, name, state, template, template_version, template_kernel_sha256, template_rootfs_sha256, template_boot_args_sha256, cpu, ram, disk_gb, egress_policy, micro_network_id, storage_root, disk_generation, last_runtime_id, purpose, env) VALUES (?1, ?2, ?3, ?4, ?5, ?6, ?7, ?8, ?9, ?10, ?11, ?12, ?13, ?14, ?15, ?16, ?17, ?18)");
    reveal_strlit("INSERT INTO micro_networks (id, name, subnet_cidr, internet_enabled, uplink, ipv6_cidr, ipv6_address_mode) VALUES (?1, ?2, ?3, ?4, ?5, ?6, ?7)");
    reveal_strlit("UPDATE vms SET micro_network_id = ?1 WHERE micro_network_id IS NULL OR micro_network_id = ''");
    reveal_strlit("UPDATE network_leases SET micro_network_id = ?1 WHERE micro_network_id IS NULL OR micro_network_id = ''");
    reveal_strlit("DELETE FROM port_forwards WHERE vm_id = ?1");
    reveal_strlit("INSERT INTO port_forwards (vm_id, host_port, guest_port, protocol) VALUES (?1, ?2, ?3, ?4)");
    reveal_strlit("SELECT id, name, state, template, template_version, template_kernel_sha256, template_rootfs_sha256, template_boot_args_sha256, cpu, ram, disk_gb, egress_policy, micro_network_id, storage_root, disk_generation, last_runtime_id, purpose, env FROM vms");
    reveal_strlit("SELECT COUNT(*) FROM vms WHERE micro_network_id IS NULL OR micro_network_id = ''");
    reveal_strlit("SELECT COUNT(*) FROM network_leases WHERE released_at IS NULL AND (micro_network_id IS NULL OR micro_network_id = '')");
    reveal_strlit("SELECT host_port, guest_port, protocol FROM port_forwards WHERE vm_id = ?1 ORDER BY host_port ASC");
}

} // verus!
