//! What holds of the rows of the database over one operation after another.

use vstd::prelude::*;

#[allow(unused_imports)]
use super::record::{an_id_has_its_length, decoded, row_of, uuid_of, uuid_text, Vm};
#[allow(unused_imports)]
use super::store::{
    a_forwarded_port_is_read_back, forward_of, forward_row, records, PortForward,
    CLEAR_PORT_FORWARDS_SQL, DELETE_SQL, INSERT_PORT_FORWARD_SQL, INSERT_SQL, SELECT_ALL_SQL,
    SELECT_VM_PORT_FORWARDS_SQL, UPDATE_SQL,
};
#[allow(unused_imports)]
use super::tables::{
    adrift, does, enumerates, forwards_but, one_request, played, state_of, statements_differ, Database,
    Tables,
};
#[allow(unused_imports)]
use super::{decoded_all, int_at, text_at, Ask, Cell, Fault, Told};
#[allow(unused_imports)]
use crate::dialog::{fresh, Dialog};

verus! {

/// Whether the row that is written of a record stands for that record, as it does of every
/// record that is inserted or updated.
pub open spec fn legible(vm: Vm) -> bool {
    decoded(row_of(vm)) == Ok::<Vm, Fault>(vm)
}

/// Whether the rows of the VMs stand for those records, each under its id as it is written.
pub open spec fn keeps(tables: Tables, all: Map<u128, Vm>) -> bool {
    &&& forall|k: Seq<char>| #[trigger]
        tables.vms.contains_key(k) ==> {
            &&& tables.vms[k].len() > 0 && tables.vms[k][0] == Cell::Text(k)
            &&& !adrift(tables.vms[k])
            &&& decoded(tables.vms[k]) is Ok
            &&& k == uuid_text(decoded(tables.vms[k])->Ok_0.id)
            &&& all.contains_key(decoded(tables.vms[k])->Ok_0.id)
        }
    &&& forall|id: u128| #[trigger]
        all.contains_key(id) ==> {
            &&& tables.vms.contains_key(uuid_text(id))
            &&& decoded(tables.vms[uuid_text(id)]) == Ok::<Vm, Fault>(all[id])
            &&& all[id].id == id
        }
}

proof fn an_id_is_read_back(vm: Vm)
    requires
        legible(vm),
    ensures
        uuid_of(uuid_text(vm.id)) == Some(vm.id),
        row_of(vm)[0] == Cell::Text(uuid_text(vm.id)),
        !adrift(row_of(vm)),
{
    an_id_has_its_length(vm.micro_network_id);
}

/// A record is kept where one is under its id as it is written, and only there.
proof fn a_kept_id(tables: Tables, all: Map<u128, Vm>, vm: Vm)
    requires
        keeps(tables, all),
        legible(vm),
    ensures
        tables.vms.contains_key(uuid_text(vm.id)) == all.contains_key(vm.id),
        forall|id: u128| #[trigger]
            all.contains_key(id) && uuid_text(id) == uuid_text(vm.id) ==> id == vm.id,
{
    an_id_is_read_back(vm);
    let k = uuid_text(vm.id);
    if tables.vms.contains_key(k) {
        assert(decoded(tables.vms[k])->Ok_0.id == uuid_of(k)->0);
    }
}

proof fn records_of_rows(tables: Tables, all: Map<u128, Vm>, keys: Seq<Seq<char>>, n: int)
    requires
        keeps(tables, all),
        enumerates(keys, tables.vms.dom()),
        0 <= n <= keys.len(),
    ensures
        ({
            let rows = keys.map_values(|k: Seq<char>| tables.vms[k]);
            let found = records(rows.take(n));
            &&& found is Ok
            &&& forall|id: u128| #[trigger]
                found->Ok_0.contains_key(id) == (all.contains_key(id) && keys.take(n).contains(
                    uuid_text(id),
                ))
            &&& forall|id: u128| #[trigger]
                found->Ok_0.contains_key(id) ==> found->Ok_0[id] == all[id]
        }),
    decreases n,
{
    let rows = keys.map_values(|k: Seq<char>| tables.vms[k]);
    if n > 0 {
        records_of_rows(tables, all, keys, n - 1);
        assert(rows.take(n).drop_last() =~= rows.take(n - 1));
        let key = keys[n - 1];
        assert(rows.take(n).last() == tables.vms[key]);
        assert(keys.contains(key));
        assert(tables.vms.dom().contains(key));
        let vm = decoded(tables.vms[key])->Ok_0;
        assert(key == uuid_text(vm.id));
        assert(all[vm.id] == vm);
        let before = records(rows.take(n - 1))->Ok_0;
        let found = records(rows.take(n))->Ok_0;
        assert(found == before.insert(vm.id, vm));
        assert(keys.take(n) =~= keys.take(n - 1).push(key));
        assert forall|id: u128| #[trigger]
            found.contains_key(id) == (all.contains_key(id) && keys.take(n).contains(
                uuid_text(id),
            )) by {
            if id == vm.id {
                assert(keys.take(n)[n - 1] == uuid_text(id));
            } else {
                if all.contains_key(id) && uuid_text(id) == key {
                    assert(decoded(tables.vms[key])->Ok_0.id == id);
                }
                let first = keys.take(n - 1);
                let more = keys.take(n);
                if first.contains(uuid_text(id)) {
                    let j = choose|j: int| 0 <= j < first.len() && #[trigger] first[j] == uuid_text(id);
                    assert(more[j] == uuid_text(id));
                }
                if more.contains(uuid_text(id)) && uuid_text(id) != key {
                    let j = choose|j: int| 0 <= j < more.len() && #[trigger] more[j] == uuid_text(id);
                    assert(j < n - 1);
                    assert(first[j] == uuid_text(id));
                }
            }
        }
    } else {
        assert(rows.take(0).len() == 0);
        assert(keys.take(0).len() == 0);
    }
}

/// Loading gives the records that the rows stand for, and changes nothing.
pub proof fn loading_gives_what_is_kept(
    before: Database,
    all: Map<u128, Vm>,
    told: Told,
    after: Database,
)
    requires
        keeps(before.tables, all),
        does(before, Ask::Select { sql: SELECT_ALL_SQL@, params: Seq::empty() }, told, after),
        told is Rows,
    ensures
        fresh::<Ask, Told>(seq![told]).load_all().1 == Ok::<Map<u128, Vm>, Fault>(all),
        after == before,
{
    statements_differ();
    let tables = before.tables;
    let rows = told->Rows_0;
    let keys = choose|keys: Seq<Seq<char>>| #[trigger]
        enumerates(keys, tables.vms.dom()) && rows == keys.map_values(
            |k: Seq<char>| tables.vms[k],
        );
    records_of_rows(tables, all, keys, keys.len() as int);
    assert(rows.take(keys.len() as int) =~= rows);
    assert(keys.take(keys.len() as int) =~= keys);
    let found = records(rows)->Ok_0;
    assert forall|id: u128| #[trigger] found.contains_key(id) == all.contains_key(id) by {
        if all.contains_key(id) {
            assert(tables.vms.dom().contains(uuid_text(id)));
            assert(keys.contains(uuid_text(id)));
        }
    }
    assert(found =~= all);
}

/// A VM that was inserted is kept, next to the others; one that could not be changes nothing.
/// A VM whose id is new never clashes with another.
pub proof fn an_inserted_vm_is_kept(
    before: Database,
    all: Map<u128, Vm>,
    vm: Vm,
    told: Told,
    after: Database,
)
    requires
        keeps(before.tables, all),
        legible(vm),
        !all.contains_key(vm.id),
        does(before, Ask::Run { sql: INSERT_SQL@, params: row_of(vm) }, told, after),
    ensures
        fresh::<Ask, Told>(seq![told]).perform(INSERT_SQL@, row_of(vm)).1 is Ok ==> keeps(
            after.tables,
            all.insert(vm.id, vm),
        ),
        fresh::<Ask, Told>(seq![told]).perform(INSERT_SQL@, row_of(vm)).1 is Err ==> after == before,
        !(told is Constraint),
{
    statements_differ();
    a_kept_id(before.tables, all, vm);
    an_id_is_read_back(vm);
    if told is Changed {
        a_row_is_put(before.tables, all, vm, after.tables);
    }
}

pub(crate) proof fn a_row_is_put(before: Tables, all: Map<u128, Vm>, vm: Vm, after: Tables)
    requires
        keeps(before, all),
        legible(vm),
        after.vms == before.vms.insert(uuid_text(vm.id), row_of(vm)),
    ensures
        keeps(after, all.insert(vm.id, vm)),
{
    a_kept_id(before, all, vm);
    an_id_is_read_back(vm);
    let next = all.insert(vm.id, vm);
    assert forall|id: u128| #[trigger] next.contains_key(id) implies {
        &&& after.vms.contains_key(uuid_text(id))
        &&& decoded(after.vms[uuid_text(id)]) == Ok::<Vm, Fault>(next[id])
        &&& next[id].id == id
    } by {
        if id != vm.id {
            assert(all.contains_key(id));
        }
    }
}

/// A VM that is there and is updated is kept as it became. One that is not there is missing,
/// and nothing changes.
pub proof fn an_updated_vm_is_kept(
    before: Database,
    all: Map<u128, Vm>,
    vm: Vm,
    told: Told,
    after: Database,
)
    requires
        keeps(before.tables, all),
        legible(vm),
        told is Changed,
        does(before, Ask::Run { sql: UPDATE_SQL@, params: row_of(vm) }, told, after),
    ensures
        ({
            let missing = Fault::MissingVm { id: vm.id };
            let result = fresh::<Ask, Told>(seq![told]).change(UPDATE_SQL@, row_of(vm), missing).1;
            if all.contains_key(vm.id) {
                result is Ok && keeps(after.tables, all.insert(vm.id, vm))
            } else {
                result == Err::<(), Fault>(missing) && after == before
            }
        }),
{
    statements_differ();
    a_kept_id(before.tables, all, vm);
    an_id_is_read_back(vm);
    if all.contains_key(vm.id) {
        a_row_is_put(before.tables, all, vm, after.tables);
    }
}

/// A VM that is there and is deleted is gone, and the others are kept. One that is not there
/// is missing, and nothing changes.
pub proof fn a_deleted_vm_is_gone(
    before: Database,
    all: Map<u128, Vm>,
    vm: Vm,
    told: Told,
    after: Database,
)
    requires
        keeps(before.tables, all),
        legible(vm),
        told is Changed,
        does(
            before,
            Ask::Run { sql: DELETE_SQL@, params: seq![Cell::Text(uuid_text(vm.id))] },
            told,
            after,
        ),
    ensures
        ({
            let missing = Fault::MissingVm { id: vm.id };
            let result = fresh::<Ask, Told>(seq![told]).change(
                DELETE_SQL@,
                seq![Cell::Text(uuid_text(vm.id))],
                missing,
            ).1;
            if all.contains_key(vm.id) {
                result is Ok && keeps(after.tables, all.remove(vm.id))
            } else {
                result == Err::<(), Fault>(missing) && after == before
            }
        }),
{
    statements_differ();
    a_kept_id(before.tables, all, vm);
    an_id_is_read_back(vm);
    let k = uuid_text(vm.id);
    if all.contains_key(vm.id) {
        let next = all.remove(vm.id);
        assert(after.tables.vms == before.tables.vms.remove(k));
        assert forall|key: Seq<char>| #[trigger] after.tables.vms.contains_key(key) implies {
            &&& after.tables.vms[key].len() > 0 && after.tables.vms[key][0] == Cell::Text(key)
            &&& !adrift(after.tables.vms[key])
            &&& decoded(after.tables.vms[key]) is Ok
            &&& key == uuid_text(decoded(after.tables.vms[key])->Ok_0.id)
            &&& next.contains_key(decoded(after.tables.vms[key])->Ok_0.id)
        } by {
            assert(before.tables.vms.contains_key(key));
        }
        assert(keeps(after.tables, next));
    } else {
        assert(before.tables.vms.remove(k) =~= before.tables.vms);
    }
}

/// The forwarded ports with those of a VM put in, one after the other.
pub open spec fn with_forwards(
    forwards: Map<(Cell, Cell), Seq<Cell>>,
    vm: u128,
    all: Seq<PortForward>,
) -> Map<(Cell, Cell), Seq<Cell>>
    decreases all.len(),
{
    if all.len() == 0 {
        forwards
    } else {
        with_forwards(forwards, vm, all.drop_last()).insert(
            port_key(all.last()),
            forward_row(vm, all.last()),
        )
    }
}

/// What no two forwarded ports share.
pub open spec fn port_key(forward: PortForward) -> (Cell, Cell) {
    (Cell::Integer(forward.host_port as i64), Cell::Text(forward.protocol.name()))
}

/// Whether some forwarded ports go in beside others: no two share a port, and none is taken.
pub open spec fn fit(forwards: Map<(Cell, Cell), Seq<Cell>>, all: Seq<PortForward>) -> bool {
    &&& forall|i: int| 0 <= i < all.len() ==> !forwards.contains_key(#[trigger] port_key(all[i]))
    &&& forall|i: int, j: int|
        #![trigger port_key(all[i]), port_key(all[j])]
        0 <= i < j < all.len() ==> port_key(all[i]) != port_key(all[j])
}

proof fn forwards_in(
    forwards: Map<(Cell, Cell), Seq<Cell>>,
    vm: u128,
    all: Seq<PortForward>,
    k: (Cell, Cell),
)
    requires
        fit(forwards, all),
    ensures
        with_forwards(forwards, vm, all).contains_key(k) == (forwards.contains_key(k) || exists|i: int|
            0 <= i < all.len() && #[trigger] port_key(all[i]) == k),
        forwards.contains_key(k) ==> with_forwards(forwards, vm, all)[k] == forwards[k],
        forall|i: int|
            0 <= i < all.len() && #[trigger] port_key(all[i]) == k ==> with_forwards(
                forwards,
                vm,
                all,
            )[k] == forward_row(vm, all[i]),
    decreases all.len(),
{
    if all.len() > 0 {
        let front = all.drop_last();
        assert forall|i: int| 0 <= i < front.len() implies !forwards.contains_key(
            #[trigger] port_key(front[i]),
        ) by {
            assert(front[i] == all[i]);
            assert(!forwards.contains_key(port_key(all[i])));
        }
        assert forall|i: int, j: int|
            #![trigger port_key(front[i]), port_key(front[j])]
            0 <= i < j < front.len() implies port_key(front[i]) != port_key(front[j]) by {
            assert(port_key(all[i]) != port_key(all[j]));
        }
        forwards_in(forwards, vm, front, k);
        let last = all.len() - 1;
        assert(all[last] == all.last());
        assert forall|i: int| 0 <= i < all.len() && #[trigger] port_key(all[i]) == k implies with_forwards(
            forwards,
            vm,
            all,
        )[k] == forward_row(vm, all[i]) by {
            if i < last {
                assert(port_key(all[i]) != port_key(all[last]));
                assert(port_key(front[i]) == k);
            }
        }
        if exists|i: int| 0 <= i < all.len() && #[trigger] port_key(all[i]) == k {
            let i = choose|i: int| 0 <= i < all.len() && #[trigger] port_key(all[i]) == k;
            if i < last {
                assert(port_key(front[i]) == k);
            }
        }
        if exists|i: int| 0 <= i < front.len() && #[trigger] port_key(front[i]) == k {
            let i = choose|i: int| 0 <= i < front.len() && #[trigger] port_key(front[i]) == k;
            assert(port_key(all[i]) == k);
        }
        if k == port_key(all.last()) {
            assert(port_key(all[last]) == k);
            assert(!forwards.contains_key(k));
        }
    }
}

/// Whether nothing failed in a dialog, other than for a clash with another row.
pub open spec fn went_well(d: Dialog<Ask, Told>) -> bool {
    forall|i: int|
        0 <= i < d.asked.len() && i < d.answers.len() ==> match #[trigger] d.asked[i] {
            Ask::Run { .. } => d.answers[i] is Changed || d.answers[i] is Constraint,
            Ask::Select { .. } => d.answers[i] is Rows,
            Ask::ReadLegacy { .. } => d.answers[i] is Legacy || d.answers[i] is NotFound,
            _ => d.answers[i] is Done,
        }
}

/// Whether a failure is that of one of some ports, which was taken: by a port that is there,
/// or by an earlier one of them.
pub open spec fn names_a_taken_port(
    forwards: Map<(Cell, Cell), Seq<Cell>>,
    all: Seq<PortForward>,
    fault: Fault,
) -> bool {
    exists|i: int|
        0 <= i < all.len() && fault == (Fault::DuplicatePortForward {
            host_port: (#[trigger] all[i]).host_port,
            protocol: all[i].protocol.name(),
        }) && (forwards.contains_key(port_key(all[i])) || exists|j: int|
            0 <= j < i && #[trigger] port_key(all[j]) == port_key(all[i]))
}

proof fn forwards_are_put(
    d: Dialog<Ask, Told>,
    vm: u128,
    all: Seq<PortForward>,
    states: Seq<Database>,
)
    requires
        !d.insert_forwards(vm, all).0.waiting,
        played(d.insert_forwards(vm, all).0, states),
    ensures
        !d.waiting,
        played(d, states),
        ({
            let (next, result) = d.insert_forwards(vm, all);
            let start = state_of(d, states);
            let end = state_of(next, states);
            &&& end.saved == start.saved && end.files == start.files
            &&& result is Ok ==> fit(start.tables.forwards, all) && end.tables == (Tables {
                forwards: with_forwards(start.tables.forwards, vm, all),
                ..start.tables
            })
            &&& (exists|i: int|
                0 <= i < all.len() && start.tables.forwards.contains_key(#[trigger] port_key(all[i])))
                ==> result is Err
            &&& went_well(next) ==> went_well(d)
            &&& went_well(next) && result is Err ==> names_a_taken_port(
                start.tables.forwards,
                all,
                result->Err_0,
            )
        }),
    decreases all.len(),
{
    statements_differ();
    if all.len() > 0 {
        let front = all.drop_last();
        let f = all.last();
        let (before, first) = d.insert_forwards(vm, front);
        let ask = Ask::Run { sql: INSERT_PORT_FORWARD_SQL@, params: forward_row(vm, f) };
        let start = state_of(d, states);
        if first is Ok {
            one_request(before, ask, states);
            forwards_are_put(d, vm, front, states);
            let next = before.ask(ask).0;
            let told = before.ask(ask).1;
            let middle = state_of(before, states);
            let end = state_of(next, states);
            assert(does(middle, ask, told, end));
            forwards_in(start.tables.forwards, vm, front, port_key(f));
            assert((forward_row(vm, f)[1], forward_row(vm, f)[3]) == port_key(f));
            if went_well(next) {
                well_so_far(before, ask);
                if told is Constraint {
                    let last = all.len() - 1;
                    assert(all[last] == f);
                    if !start.tables.forwards.contains_key(port_key(f)) {
                        let j = choose|j: int|
                            0 <= j < front.len() && #[trigger] port_key(front[j]) == port_key(f);
                        assert(port_key(all[j]) == port_key(all[last]));
                    }
                    assert(names_a_taken_port(
                        start.tables.forwards,
                        all,
                        d.insert_forwards(vm, all).1->Err_0,
                    ));
                }
            }
            if told is Changed {
                assert(!middle.tables.forwards.contains_key(port_key(f)));
                assert forall|i: int| 0 <= i < all.len() implies !start.tables.forwards.contains_key(
                    #[trigger] port_key(all[i]),
                ) by {
                    if i < front.len() {
                        assert(port_key(front[i]) == port_key(all[i]));
                    }
                }
                assert forall|i: int, j: int|
                    #![trigger port_key(all[i]), port_key(all[j])]
                    0 <= i < j < all.len() implies port_key(all[i]) != port_key(all[j]) by {
                    assert(port_key(front[i]) == port_key(all[i]));
                    if j < front.len() {
                        assert(port_key(front[j]) == port_key(all[j]));
                    }
                }
            }
        } else {
            forwards_are_put(d, vm, front, states);
            if went_well(before) {
                let i = choose|i: int|
                    0 <= i < front.len() && first->Err_0 == (Fault::DuplicatePortForward {
                        host_port: (#[trigger] front[i]).host_port,
                        protocol: front[i].protocol.name(),
                    }) && (start.tables.forwards.contains_key(port_key(front[i])) || exists|j: int|
                        0 <= j < i && #[trigger] port_key(front[j]) == port_key(front[i]));
                assert(all[i] == front[i]);
                if !start.tables.forwards.contains_key(port_key(front[i])) {
                    let j = choose|j: int|
                        0 <= j < i && #[trigger] port_key(front[j]) == port_key(front[i]);
                    assert(port_key(all[j]) == port_key(all[i]));
                }
            }
        }
    }
}

pub(crate) proof fn well_so_far(d: Dialog<Ask, Told>, ask: Ask)
    requires
        !d.ask(ask).0.waiting,
        went_well(d.ask(ask).0),
    ensures
        went_well(d),
        match ask {
            Ask::Run { .. } => d.ask(ask).1 is Changed || d.ask(ask).1 is Constraint,
            Ask::Select { .. } => d.ask(ask).1 is Rows,
            Ask::ReadLegacy { .. } => d.ask(ask).1 is Legacy || d.ask(ask).1 is NotFound,
            _ => d.ask(ask).1 is Done,
        },
{
    let next = d.ask(ask).0;
    if !d.waiting {
        assert(next.asked == d.asked.push(ask));
        assert(next.asked[d.asked.len() as int] == ask);
        assert forall|i: int| 0 <= i < d.asked.len() && i < d.answers.len() implies match #[trigger] d.asked[i] {
            Ask::Run { .. } => d.answers[i] is Changed || d.answers[i] is Constraint,
            Ask::Select { .. } => d.answers[i] is Rows,
            Ask::ReadLegacy { .. } => d.answers[i] is Legacy || d.answers[i] is NotFound,
            _ => d.answers[i] is Done,
        } by {
            assert(next.asked[i] == d.asked[i]);
        }
    }
}

/// Replacing the forwarded ports of a VM is all or nothing: with a success the VM has exactly
/// those, and with a failure everything is as it was. The ports of other VMs stay either way.
/// A port that another VM has is not to be had, and where nothing else fails the failure names
/// a port that was taken.
pub proof fn ports_are_replaced_or_kept(
    told: Seq<Told>,
    vm: u128,
    all: Seq<PortForward>,
    states: Seq<Database>,
)
    requires
        !fresh::<Ask, Told>(told).set_forwards(vm, all).0.waiting,
        played(fresh::<Ask, Told>(told).set_forwards(vm, all).0, states),
        states[0].saved is None,
    ensures
        ({
            let (d, result) = fresh::<Ask, Told>(told).set_forwards(vm, all);
            let start = states[0];
            let end = state_of(d, states);
            let rest = forwards_but(start.tables.forwards, Cell::Text(uuid_text(vm)));
            &&& result is Err ==> end == start
            &&& result is Ok ==> fit(rest, all) && end == (Database {
                tables: Tables { forwards: with_forwards(rest, vm, all), ..start.tables },
                ..start
            })
            &&& (exists|i: int| 0 <= i < all.len() && rest.contains_key(#[trigger] port_key(all[i])))
                ==> result is Err
            &&& went_well(d) && result is Err ==> names_a_taken_port(rest, all, result->Err_0)
        }),
{
    statements_differ();
    let d = fresh::<Ask, Told>(told);
    let begin = Ask::Begin { immediate: false };
    let begun = d.ask(begin).0;
    let (end, result) = d.set_forwards(vm, all);
    assert(state_of(d, states) == states[0]);
    if d.transact(begin).1 is Err {
        one_request(d, begin, states);
        if went_well(end) {
            well_so_far(d, begin);
        }
    } else {
        let (put, first) = begun.replace_forwards(vm, all);
        // How the transaction ends.
        if first is Err {
            one_request(put, Ask::Rollback, states);
            if went_well(end) {
                well_so_far(put, Ask::Rollback);
            }
        } else {
            let (done, kept) = put.transact(Ask::Commit);
            if kept is Err {
                one_request(done, Ask::Rollback, states);
                if went_well(end) {
                    well_so_far(done, Ask::Rollback);
                    well_so_far(put, Ask::Commit);
                }
            }
            one_request(put, Ask::Commit, states);
        }
        // What is done in it.
        let clear = Ask::Run {
            sql: CLEAR_PORT_FORWARDS_SQL@,
            params: seq![Cell::Text(uuid_text(vm))],
        };
        let cleared = begun.ask(clear).0;
        if begun.perform(CLEAR_PORT_FORWARDS_SQL@, seq![Cell::Text(uuid_text(vm))]).1 is Ok {
            forwards_are_put(cleared, vm, all, states);
        } else if went_well(put) {
            well_so_far(begun, clear);
        }
        one_request(begun, clear, states);
        one_request(d, begin, states);
    }
}

proof fn a_listed_port_is_read_back(vm: u128, forward: PortForward)
    ensures
        forward_of(forward_row(vm, forward).skip(1)) == Ok::<PortForward, Fault>(forward),
{
    a_forwarded_port_is_read_back(vm, forward);
    let row = forward_row(vm, forward);
    let listed = row.skip(1);
    assert(listed.len() == 3);
    assert(listed[0] == row[1] && listed[1] == row[2] && listed[2] == row[3]);
    assert(int_at(row, 1, "host_port"@) is Ok && int_at(row, 2, "guest_port"@) is Ok);
    assert(text_at(row, 3, "protocol"@) is Ok);
}

/// Where the port of a key stands.
spec fn place_of(all: Seq<PortForward>, key: (Cell, Cell)) -> int {
    choose|i: int| 0 <= i < all.len() && #[trigger] port_key(all[i]) == key
}

proof fn a_row_is_a_port(
    tables: Tables,
    rest: Map<(Cell, Cell), Seq<Cell>>,
    vm: u128,
    all: Seq<PortForward>,
    key: (Cell, Cell),
)
    requires
        fit(rest, all),
        forall|k: (Cell, Cell)| #[trigger]
            rest.contains_key(k) ==> rest[k][0] != Cell::Text(uuid_text(vm)),
        tables.forwards == with_forwards(rest, vm, all),
        tables.forwards_of(Cell::Text(uuid_text(vm))).contains(key),
    ensures
        ({
            let i = place_of(all, key);
            &&& 0 <= i < all.len() && port_key(all[i]) == key
            &&& tables.forwards[key] == forward_row(vm, all[i])
            &&& forward_of(tables.forwards[key].skip(1)) == Ok::<PortForward, Fault>(all[i])
        }),
{
    forwards_in(rest, vm, all, key);
    if rest.contains_key(key) {
        assert(tables.forwards[key] == rest[key]);
    }
    let i = place_of(all, key);
    assert(port_key(all[i]) == key);
    a_listed_port_is_read_back(vm, all[i]);
}

/// The keys of the rows that listing a VM's forwarded ports gives.
proof fn listed_keys(tables: Tables, me: Cell, rows: Seq<Seq<Cell>>) -> (keys: Seq<(Cell, Cell)>)
    requires
        tables.gives(SELECT_VM_PORT_FORWARDS_SQL@, seq![me], rows),
    ensures
        enumerates(keys, tables.forwards_of(me)),
        rows == keys.map_values(|k: (Cell, Cell)| tables.forwards[k].skip(1)),
        forall|i: int, j: int|
            #![trigger rows[i], rows[j]]
            0 <= i < j < rows.len() ==> rows[i][0]->Integer_0 <= rows[j][0]->Integer_0,
{
    statements_differ();
    assert(seq![me][0] == me);
    choose|keys: Seq<(Cell, Cell)>| #[trigger]
        enumerates(keys, tables.forwards_of(me)) && rows == keys.map_values(
            |k: (Cell, Cell)| tables.forwards[k].skip(1),
        )
}

/// What a VM's forwarded ports are once they were put in beside those of others: listing them
/// gives each of them once, by the ports of the host.
pub proof fn replaced_ports_are_listed(
    tables: Tables,
    rest: Map<(Cell, Cell), Seq<Cell>>,
    vm: u128,
    all: Seq<PortForward>,
    rows: Seq<Seq<Cell>>,
)
    requires
        fit(rest, all),
        forall|k: (Cell, Cell)| #[trigger]
            rest.contains_key(k) ==> rest[k][0] != Cell::Text(uuid_text(vm)),
        tables.forwards == with_forwards(rest, vm, all),
        tables.gives(
            SELECT_VM_PORT_FORWARDS_SQL@,
            seq![Cell::Text(uuid_text(vm))],
            rows,
        ),
    ensures
        ({
            let listed = decoded_all(rows, |row: Seq<Cell>| forward_of(row));
            &&& listed is Ok
            &&& listed->Ok_0.no_duplicates() && all.no_duplicates()
            &&& forall|f: PortForward| #[trigger] listed->Ok_0.contains(f) == all.contains(f)
            &&& forall|i: int, j: int|
                #![trigger listed->Ok_0[i], listed->Ok_0[j]]
                0 <= i < j < listed->Ok_0.len() ==> listed->Ok_0[i].host_port
                    <= listed->Ok_0[j].host_port
        }),
{
    let me = Cell::Text(uuid_text(vm));
    let decode = |row: Seq<Cell>| forward_of(row);
    let keys = listed_keys(tables, me, rows);
    let at = |n: int| place_of(all, keys[n]);
    assert forall|n: int| 0 <= n < rows.len() implies 0 <= #[trigger] at(n) < all.len()
        && port_key(all[at(n)]) == keys[n] && rows[n] == forward_row(vm, all[at(n)]).skip(1)
        && forward_of(rows[n]) == Ok::<PortForward, Fault>(all[at(n)]) by {
        assert(keys.contains(keys[n]));
        a_row_is_a_port(tables, rest, vm, all, keys[n]);
    }
    rows_are_decoded(rows, all, at, rows.len() as int);
    assert(rows.take(rows.len() as int) =~= rows);
    let listed = decoded_all(rows, decode)->Ok_0;
    assert forall|i: int| 0 <= i < listed.len() implies listed[i] == all[#[trigger] at(i)] by {}
    ports_in_order(tables, rest, vm, all, rows, keys, listed, at);
}

proof fn ports_in_order(
    tables: Tables,
    rest: Map<(Cell, Cell), Seq<Cell>>,
    vm: u128,
    all: Seq<PortForward>,
    rows: Seq<Seq<Cell>>,
    keys: Seq<(Cell, Cell)>,
    listed: Seq<PortForward>,
    at: spec_fn(int) -> int,
)
    requires
        fit(rest, all),
        tables.forwards == with_forwards(rest, vm, all),
        enumerates(keys, tables.forwards_of(Cell::Text(uuid_text(vm)))),
        rows.len() == keys.len() && listed.len() == keys.len(),
        forall|n: int|
            0 <= n < keys.len() ==> 0 <= #[trigger] at(n) < all.len() && port_key(all[at(n)])
                == keys[n] && rows[n] == forward_row(vm, all[at(n)]).skip(1) && listed[n]
                == all[at(n)],
        forall|i: int, j: int|
            #![trigger rows[i], rows[j]]
            0 <= i < j < rows.len() ==> rows[i][0]->Integer_0 <= rows[j][0]->Integer_0,
    ensures
        listed.no_duplicates() && all.no_duplicates(),
        forall|f: PortForward| #[trigger] listed.contains(f) == all.contains(f),
        forall|i: int, j: int|
            #![trigger listed[i], listed[j]]
            0 <= i < j < listed.len() ==> listed[i].host_port <= listed[j].host_port,
{
    let me = Cell::Text(uuid_text(vm));
    assert forall|i: int, j: int| 0 <= i < j < all.len() implies all[i] != all[j] by {
        assert(port_key(all[i]) != port_key(all[j]));
    }
    assert forall|i: int, j: int| 0 <= i < j < listed.len() implies listed[i] != listed[j] by {
        assert(keys[i] != keys[j]);
        assert(listed[i] == all[at(i)] && listed[j] == all[at(j)]);
        assert(port_key(all[at(i)]) == keys[i] && port_key(all[at(j)]) == keys[j]);
    }
    assert forall|f: PortForward| #[trigger] listed.contains(f) == all.contains(f) by {
        if listed.contains(f) {
            let n = choose|n: int| 0 <= n < listed.len() && #[trigger] listed[n] == f;
            assert(all[at(n)] == f);
        }
        if all.contains(f) {
            let i = choose|i: int| 0 <= i < all.len() && #[trigger] all[i] == f;
            let k = port_key(all[i]);
            forwards_in(rest, vm, all, k);
            assert(tables.forwards[k] == forward_row(vm, all[i]));
            assert(tables.forwards_of(me).contains(k));
            assert(keys.contains(k));
            let n = choose|n: int| 0 <= n < keys.len() && #[trigger] keys[n] == k;
            assert(0 <= at(n) < all.len());
            let j = at(n);
            if i != j {
                if i < j {
                    assert(port_key(all[i]) != port_key(all[j]));
                } else {
                    assert(port_key(all[j]) != port_key(all[i]));
                }
            }
            assert(listed[n] == f);
        }
    }
    assert forall|i: int, j: int|
        #![trigger listed[i], listed[j]]
        0 <= i < j < listed.len() implies listed[i].host_port <= listed[j].host_port by {
        assert(rows[i][0]->Integer_0 <= rows[j][0]->Integer_0);
        assert(0 <= at(i) < all.len() && 0 <= at(j) < all.len());
        let a = forward_row(vm, all[at(i)]);
        let b = forward_row(vm, all[at(j)]);
        assert(a.skip(1)[0] == a[1] && b.skip(1)[0] == b[1]);
    }
}

proof fn rows_are_decoded(
    rows: Seq<Seq<Cell>>,
    all: Seq<PortForward>,
    at: spec_fn(int) -> int,
    n: int,
)
    requires
        0 <= n <= rows.len(),
        forall|i: int|
            0 <= i < rows.len() ==> 0 <= #[trigger] at(i) < all.len() && forward_of(rows[i]) == Ok::<
                PortForward,
                Fault,
            >(all[at(i)]),
    ensures
        ({
            let listed = decoded_all(rows.take(n), |row: Seq<Cell>| forward_of(row));
            &&& listed is Ok && listed->Ok_0.len() == n
            &&& forall|i: int| 0 <= i < n ==> #[trigger] listed->Ok_0[i] == all[at(i)]
        }),
    decreases n,
{
    if n > 0 {
        rows_are_decoded(rows, all, at, n - 1);
        assert(rows.take(n).drop_last() =~= rows.take(n - 1));
        assert(rows.take(n).last() == rows[n - 1]);
        assert(0 <= at(n - 1) < all.len());
    }
}

} // verus!
