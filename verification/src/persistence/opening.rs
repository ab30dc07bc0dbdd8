//! What holds of the rows of the database when it is opened, and opened again.

use vstd::prelude::*;

#[allow(unused_imports)]
use super::laws::{a_row_is_put, keeps, legible, went_well, well_so_far};
#[allow(unused_imports)]
use super::network::INSERT_MICRO_NETWORK_SQL;
#[allow(unused_imports)]
use super::record::{an_id_has_its_length, row_of, uuid_text, Vm};
#[allow(unused_imports)]
use super::schema::{
    default_network, first_measures, last_measures, legacy_file, measures, Leases, Measure,
    ATTACH_LEASES_SQL, ATTACH_VMS_SQL, COLUMN_EXISTS_SQL, COUNT_UNATTACHED_LEASES_SQL,
    COUNT_UNATTACHED_VMS_SQL, IMPORT_SQL, TABLE_EXISTS_SQL,
};
#[allow(unused_imports)]
use super::tables::{
    adrift, attached, attached_lease, nowhere, one_request, played, shapes, state_of,
    statements_differ, Database, Lease, Tables,
};
#[allow(unused_imports)]
use super::{Ask, Cell, Fault, Told};
#[allow(unused_imports)]
use crate::dialog::{fresh, Dialog};
#[allow(unused_imports)]
use crate::path;

verus! {

/// The rows once what is in no network is in one.
pub open spec fn promoted(tables: Tables, id: u128) -> Tables {
    let network = Cell::Text(uuid_text(id));
    Tables {
        vms: tables.vms.map_values(|row: Seq<Cell>| attached(row, network)),
        networks: tables.networks.insert(uuid_text(id), default_network(id)),
        leases: tables.leases.map_values(|lease: Lease| attached_lease(lease, network)),
        ..tables
    }
}

/// Whether nothing that is in use is in no network.
pub open spec fn settled(tables: Tables) -> bool {
    !tables.has_stray_vm() && !tables.has_stray_lease()
}

/// VMs and leases that are in no network get the network that they were in before, and all
/// other rows stay. Where there are none, nothing changes and no network is made.
pub proof fn strays_get_their_network(d: Dialog<Ask, Told>, id: u128, states: Seq<Database>)
    requires
        !d.promote(id).0.waiting,
        played(d.promote(id).0, states),
        went_well(d.promote(id).0),
        !state_of(d, states).tables.networks.contains_key(uuid_text(id)),
    ensures
        d.promote(id).1 is Ok,
        played(d, states),
        !d.waiting,
        went_well(d),
        ({
            let start = state_of(d, states);
            let end = state_of(d.promote(id).0, states);
            if settled(start.tables) {
                end == start
            } else {
                end == (Database { tables: promoted(start.tables, id), ..start })
            }
        }),
{
    statements_differ();
    let vms = Ask::Select { sql: COUNT_UNATTACHED_VMS_SQL@, params: Seq::empty() };
    let leases = Ask::Select { sql: COUNT_UNATTACHED_LEASES_SQL@, params: Seq::empty() };
    let params = seq![Cell::Text(uuid_text(id))];
    let put = Ask::Run { sql: INSERT_MICRO_NETWORK_SQL@, params: default_network(id) };
    let one = Ask::Run { sql: ATTACH_VMS_SQL@, params };
    let two = Ask::Run { sql: ATTACH_LEASES_SQL@, params };
    let (a, strays) = d.count(COUNT_UNATTACHED_VMS_SQL@);
    if strays is Ok {
        let (b, held) = a.count(COUNT_UNATTACHED_LEASES_SQL@);
        if !(strays->Ok_0 == 0 && (held is Err || held->Ok_0 == 0)) {
            let (c, result) = b.perform(INSERT_MICRO_NETWORK_SQL@, default_network(id));
            if result is Ok {
                let (e, result) = c.perform(ATTACH_VMS_SQL@, params);
                if result is Ok {
                    well_so_far(e, two);
                    one_request(e, two, states);
                }
                well_so_far(c, one);
                one_request(c, one, states);
            }
            well_so_far(b, put);
            one_request(b, put, states);
        }
        well_so_far(a, leases);
        one_request(a, leases, states);
    }
    well_so_far(d, vms);
    one_request(d, vms, states);
}

/// Once what was in no network is in one, promoting changes nothing, whatever the id: every
/// VM and every lease names a network.
pub proof fn promoting_again_changes_nothing(
    tables: Tables,
    id: u128,
    d: Dialog<Ask, Told>,
    again: u128,
    states: Seq<Database>,
)
    requires
        state_of(d, states).tables == if settled(tables) {
            tables
        } else {
            promoted(tables, id)
        },
        !d.promote(again).0.waiting,
        played(d.promote(again).0, states),
        went_well(d.promote(again).0),
    ensures
        d.promote(again).1 is Ok,
        state_of(d.promote(again).0, states) == state_of(d, states),
{
    promoting_settles(tables, id);
    settled_rows_stay(d, again, states);
}

proof fn promoting_settles(tables: Tables, id: u128)
    ensures
        settled(promoted(tables, id)),
{
    an_id_has_its_length(id);
    let next = promoted(tables, id);
    let network = Cell::Text(uuid_text(id));
    assert forall|k: Seq<char>| #[trigger] next.vms.contains_key(k) implies !adrift(
        next.vms[k],
    ) by {
        assert(next.vms[k] == attached(tables.vms[k], network));
    }
    assert forall|i: int| 0 <= i < next.leases.len() implies !nowhere(
        (#[trigger] next.leases[i]).network,
    ) by {
        assert(next.leases[i] == attached_lease(tables.leases[i], network));
    }
}

/// Where everything is in a network, promoting changes nothing, also where it fails.
proof fn settled_rows_stay(d: Dialog<Ask, Told>, id: u128, states: Seq<Database>)
    requires
        !d.promote(id).0.waiting,
        played(d.promote(id).0, states),
        settled(state_of(d, states).tables),
    ensures
        played(d, states),
        !d.waiting,
        state_of(d.promote(id).0, states) == state_of(d, states),
        went_well(d.promote(id).0) ==> d.promote(id).1 is Ok,
{
    statements_differ();
    let vms = Ask::Select { sql: COUNT_UNATTACHED_VMS_SQL@, params: Seq::empty() };
    let leases = Ask::Select { sql: COUNT_UNATTACHED_LEASES_SQL@, params: Seq::empty() };
    let params = seq![Cell::Text(uuid_text(id))];
    let put = Ask::Run { sql: INSERT_MICRO_NETWORK_SQL@, params: default_network(id) };
    let one = Ask::Run { sql: ATTACH_VMS_SQL@, params };
    let two = Ask::Run { sql: ATTACH_LEASES_SQL@, params };
    let (a, strays) = d.count(COUNT_UNATTACHED_VMS_SQL@);
    let end = d.promote(id).0;
    if strays is Ok {
        let (b, held) = a.count(COUNT_UNATTACHED_LEASES_SQL@);
        if !(strays->Ok_0 == 0 && (held is Err || held->Ok_0 == 0)) {
            let (c, result) = b.perform(INSERT_MICRO_NETWORK_SQL@, default_network(id));
            if result is Ok {
                let (e, result) = c.perform(ATTACH_VMS_SQL@, params);
                if result is Ok {
                    one_request(e, two, states);
                }
                one_request(c, one, states);
            }
            one_request(b, put, states);
        }
        one_request(a, leases, states);
    }
    one_request(d, vms, states);
    if went_well(end) && end == a {
        well_so_far(d, vms);
    }
}

/// Whether a step only makes a table or an index, or adds a column.
pub open spec fn shaping(measure: Measure) -> bool {
    match measure {
        Measure::Create(sql) => shapes(sql),
        Measure::Column { sql, .. } => shapes(sql),
    }
}

/// Whether the statements for the leases only make tables and indexes, or add columns.
pub open spec fn shaping_leases(leases: Leases) -> bool {
    &&& shapes(leases.create_table) && shapes(leases.add_micro_network) && shapes(leases.add_ipv6)
    &&& forall|i: int| 0 <= i < leases.indexes.len() ==> shapes(#[trigger] leases.indexes[i])
}

proof fn a_select_changes_nothing(
    d: Dialog<Ask, Told>,
    sql: Seq<char>,
    params: Seq<Cell>,
    states: Seq<Database>,
)
    requires
        !d.gives_row(sql, params).0.waiting,
        played(d.gives_row(sql, params).0, states),
    ensures
        played(d, states),
        !d.waiting,
        state_of(d.gives_row(sql, params).0, states) == state_of(d, states),
{
    one_request(d, Ask::Select { sql, params }, states);
}

proof fn a_shape_changes_nothing(
    d: Dialog<Ask, Told>,
    sql: Seq<char>,
    states: Seq<Database>,
)
    requires
        shapes(sql),
        !d.perform(sql, Seq::empty()).0.waiting,
        played(d.perform(sql, Seq::empty()).0, states),
    ensures
        played(d, states),
        !d.waiting,
        state_of(d.perform(sql, Seq::empty()).0, states) == state_of(d, states),
{
    one_request(d, Ask::Run { sql, params: Seq::empty() }, states);
}

proof fn a_measure_changes_nothing(d: Dialog<Ask, Told>, measure: Measure, states: Seq<Database>)
    requires
        shaping(measure),
        !d.measure(measure).0.waiting,
        played(d.measure(measure).0, states),
    ensures
        played(d, states),
        !d.waiting,
        state_of(d.measure(measure).0, states) == state_of(d, states),
{
    match measure {
        Measure::Create(sql) => {
            a_shape_changes_nothing(d, sql, states);
        },
        Measure::Column { table, column, sql, guarded } => {
            let of = seq![Cell::Text(table)];
            let both = seq![Cell::Text(table), Cell::Text(column)];
            let (a, there) = if guarded {
                d.gives_row(TABLE_EXISTS_SQL@, of)
            } else {
                (d, Ok(true))
            };
            if there is Ok {
                let (b, found) = a.gives_row(COLUMN_EXISTS_SQL@, both);
                if found is Ok && there->Ok_0 && !found->Ok_0 {
                    a_shape_changes_nothing(b, sql, states);
                }
                a_select_changes_nothing(a, COLUMN_EXISTS_SQL@, both, states);
            }
            if guarded {
                a_select_changes_nothing(d, TABLE_EXISTS_SQL@, of, states);
            }
        },
    }
}

proof fn measures_change_nothing(d: Dialog<Ask, Told>, all: Seq<Measure>, states: Seq<Database>)
    requires
        forall|i: int| 0 <= i < all.len() ==> shaping(#[trigger] all[i]),
        !d.take_measures(all).0.waiting,
        played(d.take_measures(all).0, states),
    ensures
        played(d, states),
        !d.waiting,
        state_of(d.take_measures(all).0, states) == state_of(d, states),
    decreases all.len(),
{
    if all.len() > 0 {
        let front = all.drop_last();
        assert forall|i: int| 0 <= i < front.len() implies shaping(#[trigger] front[i]) by {
            assert(front[i] == all[i]);
        }
        let (before, result) = d.take_measures(front);
        assert(shaping(all[all.len() - 1]));
        if result is Ok {
            a_measure_changes_nothing(before, all.last(), states);
        }
        measures_change_nothing(d, front, states);
    }
}

proof fn all_measures_shape(leases: Leases)
    requires
        shaping_leases(leases),
    ensures
        forall|i: int| 0 <= i < measures(leases).len() ==> shaping(#[trigger] measures(leases)[i]),
{
    reveal_strlit("ALTER TABLE vms ADD COLUMN disk_gb INTEGER NOT NULL DEFAULT 2");
    reveal_strlit("ALTER TABLE vms ADD COLUMN egress_policy TEXT NOT NULL DEFAULT 'internet'");
    reveal_strlit("ALTER TABLE vms ADD COLUMN micro_network_id TEXT");
    reveal_strlit("ALTER TABLE vms ADD COLUMN storage_root TEXT NOT NULL DEFAULT 'default'");
    reveal_strlit("ALTER TABLE vms ADD COLUMN disk_generation TEXT");
    reveal_strlit("ALTER TABLE vms ADD COLUMN last_runtime_id TEXT");
    reveal_strlit("ALTER TABLE vms ADD COLUMN purpose TEXT NOT NULL DEFAULT 'instance'");
    reveal_strlit("ALTER TABLE vms ADD COLUMN env TEXT NOT NULL DEFAULT '{}'");
    reveal_strlit("ALTER TABLE micro_networks ADD COLUMN internet_enabled INTEGER NOT NULL DEFAULT 1");
    reveal_strlit("ALTER TABLE micro_networks ADD COLUMN uplink TEXT");
    reveal_strlit("ALTER TABLE micro_networks ADD COLUMN ipv6_cidr TEXT");
    reveal_strlit("ALTER TABLE micro_networks ADD COLUMN ipv6_address_mode TEXT");
    reveal_strlit("CREATE TABLE IF NOT EXISTS vms (\n    id TEXT PRIMARY KEY,\n    name TEXT NOT NULL,\n    state TEXT NOT NULL,\n    template TEXT NOT NULL,\n    template_version TEXT NOT NULL,\n    template_kernel_sha256 TEXT NOT NULL,\n    template_rootfs_sha256 TEXT NOT NULL,\n    template_boot_args_sha256 TEXT NOT NULL,\n    cpu INTEGER NOT NULL,\n    ram INTEGER NOT NULL,\n    disk_gb INTEGER NOT NULL DEFAULT 2,\n    egress_policy TEXT NOT NULL DEFAULT 'internet',\n    micro_network_id TEXT,\n    storage_root TEXT NOT NULL DEFAULT 'default',\n    disk_generation TEXT,\n    last_runtime_id TEXT,\n    purpose TEXT NOT NULL DEFAULT 'instance',\n    env TEXT NOT NULL DEFAULT '{}'\n) STRICT");
    reveal_strlit("CREATE TABLE IF NOT EXISTS micro_networks (\n    id TEXT PRIMARY KEY,\n    name TEXT NOT NULL,\n    subnet_cidr TEXT NOT NULL,\n    internet_enabled INTEGER NOT NULL DEFAULT 1,\n    uplink TEXT,\n    ipv6_cidr TEXT,\n    ipv6_address_mode TEXT\n) STRICT");
    reveal_strlit("CREATE TABLE IF NOT EXISTS micro_storages (\n    id TEXT PRIMARY KEY,\n    name TEXT NOT NULL,\n    path TEXT NOT NULL UNIQUE\n) STRICT");
    reveal_strlit("CREATE TABLE IF NOT EXISTS shells (\n    id TEXT PRIMARY KEY,\n    name TEXT NOT NULL,\n    description TEXT,\n    created_at_ms INTEGER NOT NULL,\n    updated_at_ms INTEGER NOT NULL\n) STRICT");
    reveal_strlit("CREATE TABLE IF NOT EXISTS microregistry_local (\n    alias TEXT NOT NULL,\n    architecture TEXT NOT NULL,\n    version TEXT NOT NULL,\n    package TEXT NOT NULL DEFAULT '',\n    sha256 TEXT NOT NULL DEFAULT '',\n    min_disk_gb INTEGER NOT NULL,\n    published_at TEXT NOT NULL,\n    PRIMARY KEY (alias, architecture)\n) STRICT");
    reveal_strlit("CREATE TABLE IF NOT EXISTS docker_hub_credential (\n    id INTEGER PRIMARY KEY CHECK (id = 1),\n    username TEXT NOT NULL,\n    secret TEXT NOT NULL\n) STRICT");
    reveal_strlit("CREATE TABLE IF NOT EXISTS shell_revisions (\n    id TEXT PRIMARY KEY,\n    shell_id TEXT NOT NULL,\n    version INTEGER NOT NULL,\n    content TEXT NOT NULL,\n    content_sha256 TEXT NOT NULL,\n    created_at_ms INTEGER NOT NULL,\n    UNIQUE (shell_id, version)\n) STRICT");
    reveal_strlit("CREATE TABLE IF NOT EXISTS vm_shells (\n    vm_id TEXT NOT NULL,\n    shell_id TEXT NOT NULL,\n    revision_id TEXT NOT NULL,\n    position INTEGER NOT NULL,\n    PRIMARY KEY (vm_id, shell_id)\n) STRICT");
    reveal_strlit("CREATE TABLE IF NOT EXISTS port_forwards (\n    vm_id TEXT NOT NULL,\n    host_port INTEGER NOT NULL,\n    guest_port INTEGER NOT NULL,\n    protocol TEXT NOT NULL DEFAULT 'tcp',\n    PRIMARY KEY (vm_id, host_port, protocol)\n) STRICT");
    reveal_strlit("CREATE UNIQUE INDEX IF NOT EXISTS port_forwards_host_port_protocol ON port_forwards(host_port, protocol)");
    let first = first_measures(leases);
    let indexes = leases.indexes.map_values(|sql: Seq<char>| Measure::Create(sql));
    let last = last_measures();
    assert forall|i: int| 0 <= i < first.len() implies shaping(#[trigger] first[i]) by {
        assert(i == 0 || i == 1 || i == 2 || i == 3 || i == 4 || i == 5 || i == 6 || i == 7 || i == 8 || i == 9 || i == 10 || i == 11);
    }
    assert forall|i: int| 0 <= i < indexes.len() implies shaping(#[trigger] indexes[i]) by {
        assert(indexes[i] == Measure::Create(leases.indexes[i]));
    }
    assert forall|i: int| 0 <= i < last.len() implies shaping(#[trigger] last[i]) by {
        assert(i == 0 || i == 1 || i == 2 || i == 3 || i == 4 || i == 5 || i == 6 || i == 7 || i == 8 || i == 9 || i == 10 || i == 11 || i == 12);
    }
    let all = measures(leases);
    assert forall|i: int| 0 <= i < all.len() implies shaping(#[trigger] all[i]) by {
        if i < first.len() {
            assert(all[i] == first[i]);
        } else if i < first.len() + indexes.len() {
            assert(all[i] == indexes[i - first.len()]);
        } else {
            assert(all[i] == last[i - first.len() - indexes.len()]);
        }
    }
}

/// Records with others put over them, one after the other.
pub open spec fn overlaid(all: Map<u128, Vm>, over: Seq<Vm>) -> Map<u128, Vm>
    decreases over.len(),
{
    if over.len() == 0 {
        all
    } else {
        overlaid(all, over.drop_last()).insert(over.last().id, over.last())
    }
}

proof fn records_are_taken_in(
    d: Dialog<Ask, Told>,
    over: Seq<Vm>,
    all: Map<u128, Vm>,
    states: Seq<Database>,
)
    requires
        !d.take_in(over).0.waiting,
        played(d.take_in(over).0, states),
        keeps(state_of(d, states).tables, all),
        forall|i: int| 0 <= i < over.len() ==> legible(#[trigger] over[i]),
    ensures
        played(d, states),
        !d.waiting,
        ({
            let start = state_of(d, states);
            let end = state_of(d.take_in(over).0, states);
            &&& end == (Database { tables: Tables { vms: end.tables.vms, ..start.tables }, ..start })
            &&& d.take_in(over).1 is Ok ==> keeps(end.tables, overlaid(all, over))
        }),
    decreases over.len(),
{
    statements_differ();
    if over.len() > 0 {
        let front = over.drop_last();
        assert forall|i: int| 0 <= i < front.len() implies legible(#[trigger] front[i]) by {
            assert(front[i] == over[i]);
        }
        let (before, result) = d.take_in(front);
        let vm = over[over.len() - 1];
        assert(legible(vm));
        let put = Ask::Run { sql: IMPORT_SQL@, params: row_of(vm) };
        if result is Ok {
            one_request(before, put, states);
            records_are_taken_in(d, front, all, states);
            if before.ask(put).1 is Changed {
                let next = state_of(before.ask(put).0, states);
                a_row_is_put(
                    state_of(before, states).tables,
                    overlaid(all, front),
                    vm,
                    next.tables,
                );
            }
        } else {
            records_are_taken_in(d, front, all, states);
        }
    }
}

proof fn the_file_put_aside_has_another_name(file: Seq<char>)
    ensures
        path::with_extension(legacy_file(file), "json.imported"@) != legacy_file(file),
{
    reveal_strlit("json.imported");
    reveal_strlit("vms.json");
    let aside = path::with_extension(legacy_file(file), "json.imported"@);
    assert(aside.last() == 'd');
    assert(legacy_file(file).last() == 'n');
}

proof fn the_import(
    d: Dialog<Ask, Told>,
    file: Seq<char>,
    all: Map<u128, Vm>,
    states: Seq<Database>,
)
    requires
        !d.import(legacy_file(file)).0.waiting,
        played(d.import(legacy_file(file)).0, states),
        state_of(d, states).saved is None,
        keeps(state_of(d, states).tables, all),
        state_of(d, states).files.contains_key(legacy_file(file)) ==> forall|i: int|
            0 <= i < state_of(d, states).files[legacy_file(file)].len() ==> legible(
                #[trigger] state_of(d, states).files[legacy_file(file)][i],
            ),
    ensures
        played(d, states),
        !d.waiting,
        ({
            let legacy = legacy_file(file);
            let start = state_of(d, states);
            let (next, result) = d.import(legacy);
            let end = state_of(next, states);
            &&& !start.files.contains_key(legacy) ==> end == start
            &&& result is Ok && start.files.contains_key(legacy) ==> {
                &&& keeps(end.tables, overlaid(all, start.files[legacy]))
                &&& end == (Database {
                    tables: Tables { vms: end.tables.vms, ..start.tables },
                    saved: None,
                    files: end.files,
                })
                &&& !end.files.contains_key(legacy)
                &&& end.files.contains_key(path::with_extension(legacy, "json.imported"@))
            }
        }),
{
    let legacy = legacy_file(file);
    let aside = path::with_extension(legacy, "json.imported"@);
    the_file_put_aside_has_another_name(file);
    let read = Ask::ReadLegacy { path: legacy };
    let (a, told) = d.ask(read);
    let begin = Ask::Begin { immediate: false };
    let rename = Ask::Rename { from: legacy, to: aside };
    if let Told::Legacy(over) = told {
        let (b, result) = a.transact(begin);
        if result is Ok {
            let (c, taken) = b.take_in(over);
            let (e, kept) = c.concluded(taken);
            if kept is Ok {
                one_request(e, rename, states);
                one_request(c, Ask::Commit, states);
            } else if taken is Err {
                one_request(c, Ask::Rollback, states);
            } else {
                let f = c.ask(Ask::Commit).0;
                one_request(f, Ask::Rollback, states);
                one_request(c, Ask::Commit, states);
            }
            taking_in_goes_back(b, over, states);
            one_request(a, begin, states);
            one_request(d, read, states);
            records_are_taken_in(b, over, all, states);
        } else {
            one_request(a, begin, states);
            one_request(d, read, states);
        }
    } else {
        one_request(d, read, states);
    }
}

proof fn taking_in_goes_back(d: Dialog<Ask, Told>, over: Seq<Vm>, states: Seq<Database>)
    requires
        !d.take_in(over).0.waiting,
        played(d.take_in(over).0, states),
    ensures
        played(d, states),
        !d.waiting,
        went_well(d.take_in(over).0) ==> went_well(d),
    decreases over.len(),
{
    if over.len() > 0 {
        let (before, result) = d.take_in(over.drop_last());
        let put = Ask::Run { sql: IMPORT_SQL@, params: row_of(over.last()) };
        if result is Ok {
            one_request(before, put, states);
            if went_well(d.take_in(over).0) {
                well_so_far(before, put);
            }
        }
        taking_in_goes_back(d, over.drop_last(), states);
    }
}

/// How far opening came before it looked for strays.
spec fn readied(d: Dialog<Ask, Told>, file: Seq<char>, leases: Leases) -> (
    Dialog<Ask, Told>,
    Result<(), Fault>,
) {
    let (a, result) = d.make_room(file);
    if result is Err {
        (a, result)
    } else {
        let (b, result) = a.connect(file);
        if result is Err {
            (b, result)
        } else {
            let (c, result) = b.transact(Ask::Configure);
            if result is Err {
                (c, result)
            } else {
                c.take_measures(measures(leases))
            }
        }
    }
}

proof fn readying_changes_nothing(
    d: Dialog<Ask, Told>,
    file: Seq<char>,
    leases: Leases,
    states: Seq<Database>,
)
    requires
        shaping_leases(leases),
        !readied(d, file, leases).0.waiting,
        played(readied(d, file, leases).0, states),
    ensures
        played(d, states),
        !d.waiting,
        state_of(readied(d, file, leases).0, states) == state_of(d, states),
{
    all_measures_shape(leases);
    let (a, made) = d.make_room(file);
    if made is Ok {
        let (b, opened) = a.connect(file);
        if opened is Ok {
            let (c, configured) = b.transact(Ask::Configure);
            if configured is Ok {
                measures_change_nothing(c, measures(leases), states);
            }
            one_request(b, Ask::Configure, states);
        }
        one_request(a, Ask::Open { path: file }, states);
    }
    if let Some(directory) = path::parent(file) {
        if directory.len() > 0 {
            one_request(d, Ask::CreateDirectory { path: directory }, states);
        }
    }
}

proof fn kept_rows_are_settled(tables: Tables, all: Map<u128, Vm>, id: u128)
    requires
        keeps(tables, all),
    ensures
        !tables.has_stray_vm(),
        promoted(tables, id).vms == tables.vms,
        keeps(promoted(tables, id), all),
{
    assert forall|k: Seq<char>| #[trigger] tables.vms.contains_key(k) implies attached(
        tables.vms[k],
        Cell::Text(uuid_text(id)),
    ) == tables.vms[k] by {}
    assert(promoted(tables, id).vms =~= tables.vms);
}

/// Opening a database beside which there are records from before it takes them in, over those
/// with their ids, and puts their file aside; the other records stay. Without such a file all
/// records stay. Afterwards everything is in a network.
pub proof fn opening_takes_old_records_in(
    told: Seq<Told>,
    file: Seq<char>,
    leases: Leases,
    id: u128,
    all: Map<u128, Vm>,
    states: Seq<Database>,
)
    requires
        shaping_leases(leases),
        !fresh::<Ask, Told>(told).open_store(file, leases, id).0.waiting,
        fresh::<Ask, Told>(told).open_store(file, leases, id).1 is Ok,
        played(fresh::<Ask, Told>(told).open_store(file, leases, id).0, states),
        went_well(fresh::<Ask, Told>(told).open_store(file, leases, id).0),
        states[0].saved is None,
        keeps(states[0].tables, all),
        !states[0].tables.networks.contains_key(uuid_text(id)),
        states[0].files.contains_key(legacy_file(file)) ==> forall|i: int|
            0 <= i < states[0].files[legacy_file(file)].len() ==> legible(
                #[trigger] states[0].files[legacy_file(file)][i],
            ),
    ensures
        ({
            let legacy = legacy_file(file);
            let end = state_of(fresh::<Ask, Told>(told).open_store(file, leases, id).0, states);
            &&& settled(end.tables)
            &&& end.saved is None
            &&& !end.files.contains_key(legacy)
            &&& if states[0].files.contains_key(legacy) {
                &&& keeps(end.tables, overlaid(all, states[0].files[legacy]))
                &&& end.files.contains_key(path::with_extension(legacy, "json.imported"@))
            } else {
                keeps(end.tables, all) && end.files == states[0].files
            }
        }),
{
    let d = fresh::<Ask, Told>(told);
    let (ready, first) = readied(d, file, leases);
    let (settling, second) = ready.promote(id);
    let legacy = legacy_file(file);
    let end = settling.import(legacy).0;
    importing_goes_back(settling, legacy, states);
    promoting_goes_back(ready, id, states);
    readying_changes_nothing(d, file, leases, states);
    let start = state_of(d, states);
    assert(start == states[0]);
    strays_get_their_network(ready, id, states);
    kept_rows_are_settled(start.tables, all, id);
    promoting_settles(start.tables, id);
    the_import(settling, file, all, states);
    let last = state_of(end, states).tables;
    let over = if start.files.contains_key(legacy) {
        overlaid(all, start.files[legacy])
    } else {
        all
    };
    kept_rows_are_settled(last, over, id);
}

proof fn promoting_goes_back(d: Dialog<Ask, Told>, id: u128, states: Seq<Database>)
    requires
        !d.promote(id).0.waiting,
        played(d.promote(id).0, states),
    ensures
        !d.waiting,
        played(d, states),
{
    let vms = Ask::Select { sql: COUNT_UNATTACHED_VMS_SQL@, params: Seq::empty() };
    let leases = Ask::Select { sql: COUNT_UNATTACHED_LEASES_SQL@, params: Seq::empty() };
    let params = seq![Cell::Text(uuid_text(id))];
    let (a, strays) = d.count(COUNT_UNATTACHED_VMS_SQL@);
    if strays is Ok {
        let (b, held) = a.count(COUNT_UNATTACHED_LEASES_SQL@);
        if !(strays->Ok_0 == 0 && (held is Err || held->Ok_0 == 0)) {
            let (c, result) = b.perform(INSERT_MICRO_NETWORK_SQL@, default_network(id));
            if result is Ok {
                let (e, result) = c.perform(ATTACH_VMS_SQL@, params);
                if result is Ok {
                    one_request(e, Ask::Run { sql: ATTACH_LEASES_SQL@, params }, states);
                }
                one_request(c, Ask::Run { sql: ATTACH_VMS_SQL@, params }, states);
            }
            one_request(
                b,
                Ask::Run { sql: INSERT_MICRO_NETWORK_SQL@, params: default_network(id) },
                states,
            );
        }
        one_request(a, leases, states);
    }
    one_request(d, vms, states);
}

proof fn importing_goes_back(d: Dialog<Ask, Told>, legacy: Seq<char>, states: Seq<Database>)
    requires
        !d.import(legacy).0.waiting,
        played(d.import(legacy).0, states),
    ensures
        !d.waiting,
        played(d, states),
        went_well(d.import(legacy).0) ==> went_well(d),
{
    let aside = path::with_extension(legacy, "json.imported"@);
    let read = Ask::ReadLegacy { path: legacy };
    let (a, told) = d.ask(read);
    let begin = Ask::Begin { immediate: false };
    let end = d.import(legacy).0;
    let well = went_well(end);
    if let Told::Legacy(over) = told {
        let (b, result) = a.transact(begin);
        if result is Ok {
            let (c, taken) = b.take_in(over);
            let (e, kept) = c.concluded(taken);
            if kept is Ok {
                one_request(e, Ask::Rename { from: legacy, to: aside }, states);
                if well {
                    well_so_far(e, Ask::Rename { from: legacy, to: aside });
                    well_so_far(c, Ask::Commit);
                }
                one_request(c, Ask::Commit, states);
            } else if taken is Err {
                one_request(c, Ask::Rollback, states);
                if well {
                    well_so_far(c, Ask::Rollback);
                }
            } else {
                let f = c.ask(Ask::Commit).0;
                one_request(f, Ask::Rollback, states);
                if well {
                    well_so_far(f, Ask::Rollback);
                    well_so_far(c, Ask::Commit);
                }
                one_request(c, Ask::Commit, states);
            }
            taking_in_goes_back(b, over, states);
        }
        one_request(a, begin, states);
        if well {
            well_so_far(a, begin);
        }
    }
    one_request(d, read, states);
    if well {
        well_so_far(d, read);
    }
}

/// Opening a database again changes nothing in it, whatever was inserted, updated or deleted
/// in between, once the records from before it were taken in and everything is in a network.
pub proof fn opening_again_changes_nothing(
    told: Seq<Told>,
    file: Seq<char>,
    leases: Leases,
    id: u128,
    all: Map<u128, Vm>,
    states: Seq<Database>,
)
    requires
        shaping_leases(leases),
        !fresh::<Ask, Told>(told).open_store(file, leases, id).0.waiting,
        played(fresh::<Ask, Told>(told).open_store(file, leases, id).0, states),
        states[0].saved is None,
        keeps(states[0].tables, all),
        settled(states[0].tables),
        !states[0].files.contains_key(legacy_file(file)),
    ensures
        state_of(fresh::<Ask, Told>(told).open_store(file, leases, id).0, states) == states[0],
{
    let d = fresh::<Ask, Told>(told);
    let (ready, first) = readied(d, file, leases);
    if first is Ok {
        let (settling, second) = ready.promote(id);
        if second is Ok {
            importing_goes_back(settling, legacy_file(file), states);
        }
        promoting_goes_back(ready, id, states);
        readying_changes_nothing(d, file, leases, states);
        settled_rows_stay(ready, id, states);
        if second is Ok {
            the_import(settling, file, all, states);
        }
    } else {
        readying_changes_nothing(d, file, leases, states);
    }
    assert(state_of(d, states) == states[0]);
}

} // verus!
