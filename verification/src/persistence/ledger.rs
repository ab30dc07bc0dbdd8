//! A model of the other tables of the database, and what holds of keeping them.

use vstd::prelude::*;

#[allow(unused_imports)]
use super::network::{with_id, Network};
#[allow(unused_imports)]
use super::record::{uuid_of, uuid_text, VmState};
#[allow(unused_imports)]
use super::store::{image_of, image_row, login_of, pool_of, LocalImage, Login, Pool};
#[allow(unused_imports)]
use super::tables::enumerates;
#[allow(unused_imports)]
use super::{int_at, opt_text_at, Ask, Cell, Fault, Told};
#[allow(unused_imports)]
use crate::dialog::{fresh, Dialog};

verus! {

/// The rows of the VMs, the networks and the disk pools, by their ids, with their columns in
/// the order in which the tables have them, and the login for Docker Hub.
pub struct Ledger {
    pub vms: Map<Cell, Seq<Cell>>,
    pub networks: Map<Cell, Seq<Cell>>,
    pub pools: Map<Cell, Seq<Cell>>,
    pub login: Option<(Cell, Cell)>,
}

/// A row of the VMs with another state where it has one of those given.
pub open spec fn restated(row: Seq<Cell>, new: Cell, old_ones: Seq<Cell>) -> Seq<Cell> {
    if row.len() > 2 && old_ones.contains(row[2]) {
        row.update(2, new)
    } else {
        row
    }
}

impl Ledger {
    /// The rows after a statement, or none where a row would clash with another, and whether
    /// it changed a row that it names by its id.
    pub open spec fn after(self, sql: Seq<char>, p: Seq<Cell>) -> Option<Ledger> {
        if sql == "UPDATE vms SET state = ?1 WHERE state IN (?2, ?3, ?4)"@ {
            Some(
                Ledger {
                    vms: self.vms.map_values(|row: Seq<Cell>| restated(row, p[0], p.skip(1))),
                    ..self
                },
            )
        } else if sql == "INSERT INTO micro_storages (id, name, path) VALUES (?1, ?2, ?3)"@ {
            if self.pools.contains_key(p[0]) || exists|k: Cell| #[trigger]
                self.pools.contains_key(k) && self.pools[k][2] == p[2] {
                None
            } else {
                Some(Ledger { pools: self.pools.insert(p[0], p), ..self })
            }
        } else if sql == "DELETE FROM micro_storages WHERE id = ?1"@ {
            Some(Ledger { pools: self.pools.remove(p[0]), ..self })
        } else if sql
            == "INSERT INTO docker_hub_credential (id, username, secret) VALUES (1, ?1, ?2)\n     ON CONFLICT(id) DO UPDATE SET username = excluded.username, secret = excluded.secret"@ {
            Some(Ledger { login: Some((p[0], p[1])), ..self })
        } else if sql == "DELETE FROM docker_hub_credential WHERE id = 1"@ {
            Some(Ledger { login: None, ..self })
        } else if sql == "UPDATE micro_networks SET internet_enabled = ?2 WHERE id = ?1"@ {
            Some(self.with_column(p[0], 3, p[1]))
        } else if sql == "UPDATE micro_networks SET uplink = ?2 WHERE id = ?1"@ {
            Some(self.with_column(p[0], 4, p[1]))
        } else if sql == "DELETE FROM micro_networks WHERE id = ?1"@ {
            Some(Ledger { networks: self.networks.remove(p[0]), ..self })
        } else {
            Some(self)
        }
    }

    /// The rows with another value in a column of a network.
    pub open spec fn with_column(self, id: Cell, column: int, value: Cell) -> Ledger {
        if self.networks.contains_key(id) {
            Ledger {
                networks: self.networks.insert(id, self.networks[id].update(column, value)),
                ..self
            }
        } else {
            self
        }
    }

    /// Whether a statement can change that number of rows, where the number matters: a row
    /// that is named by its id is changed where it is there.
    pub open spec fn counts(self, sql: Seq<char>, p: Seq<Cell>, n: u64) -> bool {
        if sql == "DELETE FROM micro_storages WHERE id = ?1"@ {
            (n > 0) == self.pools.contains_key(p[0])
        } else if sql == "UPDATE micro_networks SET internet_enabled = ?2 WHERE id = ?1"@ || sql
            == "UPDATE micro_networks SET uplink = ?2 WHERE id = ?1"@ || sql
            == "DELETE FROM micro_networks WHERE id = ?1"@ {
            (n > 0) == self.networks.contains_key(p[0])
        } else {
            true
        }
    }

    /// The VMs whose disks are in a storage root.
    pub open spec fn stored_in(self, root: Cell) -> Set<Cell> {
        Set::new(|k: Cell| self.vms.contains_key(k) && self.vms[k][13] == root)
    }

    /// Whether a statement can give those rows.
    pub open spec fn gives(self, sql: Seq<char>, p: Seq<Cell>, rows: Seq<Seq<Cell>>) -> bool {
        if sql == "SELECT id, name, path FROM micro_storages WHERE id = ?1"@ {
            rows == if self.pools.contains_key(p[0]) {
                seq![self.pools[p[0]]]
            } else {
                Seq::empty()
            }
        } else if sql == "SELECT username, secret FROM docker_hub_credential WHERE id = 1"@ {
            rows == match self.login {
                Some((username, secret)) => seq![seq![username, secret]],
                None => Seq::empty(),
            }
        } else if sql == "SELECT COUNT(*) FROM vms WHERE storage_root = ?1"@ {
            exists|keys: Seq<Cell>| #[trigger]
                enumerates(keys, self.stored_in(p[0])) && keys.len() <= i64::MAX && rows == seq![
                    seq![Cell::Integer(keys.len() as i64)],
                ]
        } else {
            true
        }
    }

    /// The rows after a request, by how it was answered.
    pub open spec fn once(self, ask: Ask, told: Told) -> Ledger {
        match ask {
            Ask::Run { sql, params } => match (told, self.after(sql, params)) {
                (Told::Changed(_), Some(next)) => next,
                _ => self,
            },
            _ => self,
        }
    }

    /// Whether a request can be answered so.
    pub open spec fn admits(self, ask: Ask, told: Told) -> bool {
        match ask {
            Ask::Run { sql, params } => match told {
                Told::Changed(n) => self.after(sql, params) is Some && self.counts(sql, params, n),
                Told::Constraint(_) => self.after(sql, params) is None,
                _ => true,
            },
            Ask::Select { sql, params } => told is Rows ==> self.gives(sql, params, told->Rows_0),
            _ => true,
        }
    }
}

/// Whether a dialog of one request was answered by a database with those rows.
pub open spec fn answered_by(l: Ledger, d: Dialog<Ask, Told>) -> bool {
    d.asked.len() == 1 && d.answers.len() >= 1 && l.admits(d.asked[0], d.answers[0])
}

/// The rows after a dialog of one request.
pub open spec fn kept_by(l: Ledger, d: Dialog<Ask, Told>) -> Ledger {
    l.once(d.asked[0], d.answers[0])
}

proof fn statements()
    ensures
        "UPDATE vms SET state = ?1 WHERE state IN (?2, ?3, ?4)"@.len() == 53,
        "INSERT INTO micro_storages (id, name, path) VALUES (?1, ?2, ?3)"@.len() == 63,
        "DELETE FROM micro_storages WHERE id = ?1"@.len() == 40,
        "INSERT INTO docker_hub_credential (id, username, secret) VALUES (1, ?1, ?2)\n     ON CONFLICT(id) DO UPDATE SET username = excluded.username, secret = excluded.secret"@.len()
            == 165,
        "DELETE FROM docker_hub_credential WHERE id = 1"@.len() == 46,
        "UPDATE micro_networks SET internet_enabled = ?2 WHERE id = ?1"@.len() == 61,
        "UPDATE micro_networks SET uplink = ?2 WHERE id = ?1"@.len() == 51,
        "DELETE FROM micro_networks WHERE id = ?1"@.len() == 40,
        "DELETE FROM micro_networks WHERE id = ?1"@ != "DELETE FROM micro_storages WHERE id = ?1"@,
        "SELECT id, name, path FROM micro_storages WHERE id = ?1"@.len() == 55,
        "SELECT username, secret FROM docker_hub_credential WHERE id = 1"@.len() == 63,
        "SELECT COUNT(*) FROM vms WHERE storage_root = ?1"@.len() == 48,
{
    reveal_strlit("UPDATE vms SET state = ?1 WHERE state IN (?2, ?3, ?4)");
    reveal_strlit("INSERT INTO micro_storages (id, name, path) VALUES (?1, ?2, ?3)");
    reveal_strlit("DELETE FROM micro_storages WHERE id = ?1");
    reveal_strlit(
        "INSERT INTO docker_hub_credential (id, username, secret) VALUES (1, ?1, ?2)\n     ON CONFLICT(id) DO UPDATE SET username = excluded.username, secret = excluded.secret",
    );
    reveal_strlit("DELETE FROM docker_hub_credential WHERE id = 1");
    reveal_strlit("UPDATE micro_networks SET internet_enabled = ?2 WHERE id = ?1");
    reveal_strlit("UPDATE micro_networks SET uplink = ?2 WHERE id = ?1");
    reveal_strlit("DELETE FROM micro_networks WHERE id = ?1");
    reveal_strlit("SELECT id, name, path FROM micro_storages WHERE id = ?1");
    reveal_strlit("SELECT username, secret FROM docker_hub_credential WHERE id = 1");
    reveal_strlit("SELECT COUNT(*) FROM vms WHERE storage_root = ?1");
    assert("DELETE FROM micro_networks WHERE id = ?1"@[18]
        != "DELETE FROM micro_storages WHERE id = ?1"@[18]);
}

/// Once the states were reset, no VM counts as starting, running or stopping: each that did is
/// stopped, and nothing else of any VM is changed.
pub proof fn no_vm_counts_as_live_after_a_reset(l: Ledger, told: Seq<Told>, vm: Cell)
    requires
        answered_by(l, fresh::<Ask, Told>(told).reset_states().0),
        fresh::<Ask, Told>(told).reset_states().1 is Ok,
        l.vms.contains_key(vm),
        l.vms[vm].len() > 2,
    ensures
        ({
            let end = kept_by(l, fresh::<Ask, Told>(told).reset_states().0);
            let was = l.vms[vm][2];
            let live = was == Cell::Text("starting"@) || was == Cell::Text("running"@) || was
                == Cell::Text("stopping"@);
            &&& end.vms.contains_key(vm)
            &&& end.vms[vm].len() == l.vms[vm].len()
            &&& end.vms[vm][2] == if live {
                Cell::Text("stopped"@)
            } else {
                was
            }
            &&& forall|i: int|
                0 <= i < l.vms[vm].len() && i != 2 ==> #[trigger] end.vms[vm][i] == l.vms[vm][i]
            &&& end.networks == l.networks && end.pools == l.pools && end.login == l.login
        }),
{
    statements();
    let d = fresh::<Ask, Told>(told).reset_states().0;
    let p = seq![
        Cell::Text("stopped"@),
        Cell::Text("starting"@),
        Cell::Text("running"@),
        Cell::Text("stopping"@),
    ];
    assert(d.asked[0] == (Ask::Run { sql: super::store::RESET_SQL@, params: p }));
    let old_ones = p.skip(1);
    assert(old_ones =~= seq![
        Cell::Text("starting"@),
        Cell::Text("running"@),
        Cell::Text("stopping"@),
    ]);
    let was = l.vms[vm][2];
    assert(old_ones[0] == Cell::Text("starting"@) && old_ones[1] == Cell::Text("running"@)
        && old_ones[2] == Cell::Text("stopping"@));
    assert(old_ones.contains(old_ones[0]) && old_ones.contains(old_ones[1]) && old_ones.contains(
        old_ones[2],
    ));
}

/// A network that was connected to the internet reads as connected, and one that was cut off
/// as cut off; nothing else of it changes, and no other network does. A network that is not
/// there is missed.
pub proof fn a_network_is_connected_or_cut_off(l: Ledger, told: Seq<Told>, id: u128, on: bool)
    requires
        answered_by(l, fresh::<Ask, Told>(told).set_internet(id, on).0),
    ensures
        ({
            let (d, result) = fresh::<Ask, Told>(told).set_internet(id, on);
            let end = kept_by(l, d);
            let key = Cell::Text(uuid_text(id));
            &&& result is Ok ==> l.networks.contains_key(key) && end.networks.contains_key(key)
            &&& result is Ok && l.networks[key].len() == 7 ==> {
                &&& int_at(end.networks[key], 3, "internet_enabled"@) is Ok
                &&& (int_at(end.networks[key], 3, "internet_enabled"@)->Ok_0 != 0) == on
                &&& forall|i: int|
                    0 <= i < 7 && i != 3 ==> #[trigger] end.networks[key][i] == l.networks[key][i]
            }
            &&& forall|k: Cell|
                k != key ==> (#[trigger] end.networks.contains_key(k)) == l.networks.contains_key(
                    k,
                ) && (l.networks.contains_key(k) ==> end.networks[k] == l.networks[k])
            &&& told.len() > 0 && told[0] is Changed && !l.networks.contains_key(key) ==> result
                == Err::<(), Fault>(Fault::MissingMicroNetwork { id })
            &&& end.vms == l.vms && end.pools == l.pools && end.login == l.login
        }),
{
    statements();
    let d = fresh::<Ask, Told>(told).set_internet(id, on).0;
    assert(d.asked[0] is Run);
}

/// The interface that a network's traffic leaves by is the one that was chosen, or none;
/// nothing else of the network changes, and no other network does.
pub proof fn a_network_leaves_by_the_chosen_uplink(
    l: Ledger,
    told: Seq<Told>,
    id: u128,
    uplink: Option<Seq<char>>,
)
    requires
        answered_by(l, fresh::<Ask, Told>(told).set_uplink(id, uplink).0),
    ensures
        ({
            let (d, result) = fresh::<Ask, Told>(told).set_uplink(id, uplink);
            let end = kept_by(l, d);
            let key = Cell::Text(uuid_text(id));
            &&& result is Ok ==> l.networks.contains_key(key) && end.networks.contains_key(key)
            &&& result is Ok && l.networks[key].len() == 7 ==> {
                &&& opt_text_at(end.networks[key], 4, "uplink"@) == Ok::<
                    Option<Seq<char>>,
                    Fault,
                >(uplink)
                &&& forall|i: int|
                    0 <= i < 7 && i != 4 ==> #[trigger] end.networks[key][i] == l.networks[key][i]
            }
            &&& forall|k: Cell|
                k != key ==> (#[trigger] end.networks.contains_key(k)) == l.networks.contains_key(
                    k,
                ) && (l.networks.contains_key(k) ==> end.networks[k] == l.networks[k])
            &&& told.len() > 0 && told[0] is Changed && !l.networks.contains_key(key) ==> result
                == Err::<(), Fault>(Fault::MissingMicroNetwork { id })
        }),
{
    statements();
    let d = fresh::<Ask, Told>(told).set_uplink(id, uplink).0;
    assert(d.asked[0] is Run);
}

/// A network that is forgotten is gone, and no other is; one that is not there is missed.
pub proof fn a_network_is_forgotten(l: Ledger, told: Seq<Told>, id: u128)
    requires
        answered_by(l, fresh::<Ask, Told>(told).delete_network(id).0),
    ensures
        ({
            let (d, result) = fresh::<Ask, Told>(told).delete_network(id);
            let end = kept_by(l, d);
            let key = Cell::Text(uuid_text(id));
            &&& result is Ok ==> l.networks.contains_key(key) && end.networks
                == l.networks.remove(key)
            &&& told.len() > 0 && told[0] is Changed && !l.networks.contains_key(key) ==> result
                == Err::<(), Fault>(Fault::MissingMicroNetwork { id })
            &&& end.vms == l.vms && end.pools == l.pools && end.login == l.login
        }),
{
    statements();
    let d = fresh::<Ask, Told>(told).delete_network(id).0;
    assert(d.asked[0] is Run);
}

/// A disk pool that is kept is found under its id, with its name and its path, and no other is
/// changed; a pool with the path of another one is refused by that path.
pub proof fn a_pool_is_kept_under_its_path(l: Ledger, told: Seq<Told>, pool: Pool, later: Seq<Told>)
    requires
        uuid_of(uuid_text(pool.id)) == Some(pool.id),
        answered_by(l, fresh::<Ask, Told>(told).insert_pool(pool).0),
    ensures
        ({
            let (d, result) = fresh::<Ask, Told>(told).insert_pool(pool);
            let end = kept_by(l, d);
            let key = Cell::Text(uuid_text(pool.id));
            &&& result is Ok ==> end.pools.contains_key(key) && end.pools.remove(key) == l.pools
                && !l.pools.contains_key(key) && forall|k: Cell| #[trigger]
                l.pools.contains_key(k) ==> l.pools[k][2] != Cell::Text(pool.path)
            &&& result is Ok && answered_by(end, fresh::<Ask, Told>(later).pool(pool.id).0)
                && later[0] is Rows ==> fresh::<Ask, Told>(later).pool(pool.id).1 == Ok::<
                Option<Pool>,
                Fault,
            >(Some(pool))
            &&& told.len() > 0 && told[0] is Constraint ==> result == Err::<(), Fault>(
                Fault::DuplicateMicroStoragePath { path: pool.path },
            ) && end == l
        }),
{
    statements();
    let d = fresh::<Ask, Told>(told).insert_pool(pool).0;
    assert(d.asked[0] is Run);
    let key = Cell::Text(uuid_text(pool.id));
    let row = seq![key, Cell::Text(pool.name), Cell::Text(pool.path)];
    assert(d.asked[0] == (Ask::Run { sql: super::store::INSERT_MICRO_STORAGE_SQL@, params: row }));
    let end = kept_by(l, d);
    if fresh::<Ask, Told>(told).insert_pool(pool).1 is Ok {
        assert(end.pools.remove(key) =~= l.pools);
        let look = fresh::<Ask, Told>(later).pool(pool.id).0;
        assert(seq![key][0] == key);
        if answered_by(end, look) && later[0] is Rows {
            assert(look.asked[0] == (Ask::Select {
                sql: super::store::SELECT_MICRO_STORAGE_SQL@,
                params: seq![key],
            }));
            assert(later[0]->Rows_0 == seq![row]);
            assert(later[0]->Rows_0[0] == row);
        }
    }
}

/// A disk pool that is forgotten is not found any more, and no other is changed; one that is
/// not there is missed.
pub proof fn a_pool_is_forgotten(l: Ledger, told: Seq<Told>, id: u128, later: Seq<Told>)
    requires
        answered_by(l, fresh::<Ask, Told>(told).delete_pool(id).0),
    ensures
        ({
            let (d, result) = fresh::<Ask, Told>(told).delete_pool(id);
            let end = kept_by(l, d);
            let key = Cell::Text(uuid_text(id));
            &&& result is Ok ==> l.pools.contains_key(key) && end.pools == l.pools.remove(key)
            &&& result is Ok && answered_by(end, fresh::<Ask, Told>(later).pool(id).0)
                && later[0] is Rows ==> fresh::<Ask, Told>(later).pool(id).1 == Ok::<
                Option<Pool>,
                Fault,
            >(None)
            &&& told.len() > 0 && told[0] is Changed && !l.pools.contains_key(key) ==> result
                == Err::<(), Fault>(Fault::MissingMicroStorage { id })
        }),
{
    statements();
    let key = Cell::Text(uuid_text(id));
    let d = fresh::<Ask, Told>(told).delete_pool(id).0;
    assert(d.asked[0] is Run);
    let look = fresh::<Ask, Told>(later).pool(id).0;
    assert(look.asked[0] is Select);
    assert(seq![key][0] == key);
}

/// The login that is kept is the one that is read, whatever was kept before, and none is read
/// once it was forgotten. No other row changes.
pub proof fn the_last_login_is_read(l: Ledger, told: Seq<Told>, login: Login, later: Seq<Told>)
    ensures
        ({
            let (d, result) = fresh::<Ask, Told>(told).put_login(login);
            let end = kept_by(l, d);
            answered_by(l, d) && result is Ok ==> {
                &&& answered_by(end, fresh::<Ask, Told>(later).login().0) && later[0] is Rows
                    ==> fresh::<Ask, Told>(later).login().1 == Ok::<Option<Login>, Fault>(
                    Some(login),
                )
                &&& end.vms == l.vms && end.networks == l.networks && end.pools == l.pools
            }
        }),
        ({
            let (d, result) = fresh::<Ask, Told>(told).drop_login();
            let end = kept_by(l, d);
            answered_by(l, d) && result is Ok ==> {
                &&& answered_by(end, fresh::<Ask, Told>(later).login().0) && later[0] is Rows
                    ==> fresh::<Ask, Told>(later).login().1 == Ok::<Option<Login>, Fault>(None)
                &&& end.vms == l.vms && end.networks == l.networks && end.pools == l.pools
            }
        }),
{
    statements();
    let put = fresh::<Ask, Told>(told).put_login(login).0;
    let drop = fresh::<Ask, Told>(told).drop_login().0;
    assert(put.asked[0] is Run && drop.asked[0] is Run);
    let look = fresh::<Ask, Told>(later).login().0;
    assert(look.asked[0] is Select);
    let row = seq![Cell::Text(login.username), Cell::Text(login.secret)];
    assert(put.asked[0] == (Ask::Run {
        sql: super::store::UPSERT_DOCKER_HUB_CREDENTIAL_SQL@,
        params: row,
    }));
    assert(seq![row][0] == row);
}

/// The number of VMs of a storage root is the number of rows that name it.
pub proof fn vms_of_a_storage_root_are_counted(
    l: Ledger,
    told: Seq<Told>,
    root: Seq<char>,
    keys: Seq<Cell>,
)
    requires
        answered_by(l, fresh::<Ask, Told>(told).count_storage_root(root).0),
        told[0] is Rows,
        enumerates(keys, l.stored_in(Cell::Text(root))),
        keys.len() <= u32::MAX,
    ensures
        fresh::<Ask, Told>(told).count_storage_root(root).1 == Ok::<u32, Fault>(
            keys.len() as u32,
        ),
{
    statements();
    let d = fresh::<Ask, Told>(told).count_storage_root(root).0;
    let p = seq![Cell::Text(root)];
    assert(d.asked[0] == (Ask::Select { sql: super::store::COUNT_STORAGE_ROOT_SQL@, params: p }));
    assert(p[0] == Cell::Text(root));
    let all = l.stored_in(Cell::Text(root));
    let other = choose|other: Seq<Cell>| #[trigger]
        enumerates(other, all) && other.len() <= i64::MAX && told[0]->Rows_0 == seq![
            seq![Cell::Integer(other.len() as i64)],
        ];
    assert forall|k: Cell| #[trigger] keys.contains(k) == other.contains(k) by {
        assert(keys.contains(k) == all.contains(k));
        assert(other.contains(k) == all.contains(k));
    }
    as_many(keys, other);
    assert(told[0]->Rows_0[0] == seq![Cell::Integer(other.len() as i64)]);
    assert(told[0]->Rows_0[0][0] == Cell::Integer(other.len() as i64));
}

proof fn as_many(a: Seq<Cell>, b: Seq<Cell>)
    requires
        a.no_duplicates(),
        b.no_duplicates(),
        forall|k: Cell| #[trigger] a.contains(k) == b.contains(k),
    ensures
        a.len() == b.len(),
{
    a.unique_seq_to_set();
    b.unique_seq_to_set();
    assert(a.to_set() =~= b.to_set()) by {
        assert forall|k: Cell| a.to_set().contains(k) == b.to_set().contains(k) by {
            assert(a.contains(k) == b.contains(k));
        }
    }
}

/// The network with an id is one that has it, and is missing exactly where none has.
pub proof fn a_network_is_found_by_its_id(all: Seq<Network>, id: u128)
    ensures
        with_id(all, id) matches Some(network) ==> network.id == id && all.contains(network),
        with_id(all, id) is None <==> forall|i: int|
            0 <= i < all.len() ==> (#[trigger] all[i]).id != id,
    decreases all.len(),
{
    if all.len() > 0 {
        let rest = all.skip(1);
        a_network_is_found_by_its_id(rest, id);
        assert forall|i: int| 0 <= i < rest.len() implies #[trigger] rest[i] == all[i + 1] by {}
        if all[0].id == id {
            assert(all.contains(all[0]));
        } else {
            match with_id(all, id) {
                Some(network) => {
                    let i = choose|i: int| 0 <= i < rest.len() && rest[i] == network;
                    assert(all[i + 1] == network);
                },
                None => {
                    assert forall|i: int| 0 <= i < all.len() implies (#[trigger] all[i]).id
                        != id by {
                        if i > 0 {
                            assert(rest[i - 1] == all[i]);
                        }
                    }
                },
            }
        }
    }
}

} // verus!
