//! A model of the scripts in the database, and what holds of keeping and pinning them.

use vstd::prelude::*;

#[allow(unused_imports)]
use super::record::{id_in, uuid_of, uuid_text};
#[allow(unused_imports)]
use super::shells::{
    head_of, pin_of, revision_of, script_of, shell_of, summary_of, Head, NewRevision, Pin, Revision,
    Script, Shell, Summary,
};
#[allow(unused_imports)]
use super::tables::enumerates;
#[allow(unused_imports)]
use super::{decoded_all, int_at, nullable, text_at, Ask, Cell, Fault, Told};
#[allow(unused_imports)]
use crate::dialog::{fresh, Dialog};

verus! {

/// The scripts, their revisions, and the scripts of the VMs. Rows hold their columns in the
/// order in which the tables have them.
pub struct Shelf {
    /// By their ids: id, name, description, made, changed.
    pub shells: Map<Cell, Seq<Cell>>,
    /// By their ids: id, script, version, text, digest, made.
    pub revisions: Map<Cell, Seq<Cell>>,
    /// By VM and script: VM, script, revision, position.
    pub pins: Map<(Cell, Cell), Seq<Cell>>,
}

/// The scripts, and as they were when the transaction began, where one is under way.
pub struct Shelved {
    pub now: Shelf,
    pub saved: Option<Shelf>,
}

impl Shelf {
    /// Whether a script has a revision of that version.
    pub open spec fn has_version(self, shell: Cell, version: Cell) -> bool {
        exists|r: Cell| #[trigger]
            self.revisions.contains_key(r) && self.revisions[r][1] == shell
                && self.revisions[r][2] == version
    }

    /// The rows with one revision more, or none where it would clash with another.
    pub open spec fn with_revision(self, row: Seq<Cell>) -> Option<Shelf> {
        if self.revisions.contains_key(row[0]) || self.has_version(row[1], row[2]) {
            None
        } else {
            Some(Shelf { revisions: self.revisions.insert(row[0], row), ..self })
        }
    }

    /// The rows after a statement, or none where a row would clash with another.
    pub open spec fn after(self, sql: Seq<char>, p: Seq<Cell>) -> Option<Shelf> {
        if sql
            == "INSERT INTO shells (id, name, description, created_at_ms, updated_at_ms) VALUES (?1, ?2, ?3, ?4, ?5)"@ {
            if self.shells.contains_key(p[0]) {
                None
            } else {
                Some(Shelf { shells: self.shells.insert(p[0], p), ..self })
            }
        } else if sql
            == "INSERT INTO shell_revisions (id, shell_id, version, content, content_sha256, created_at_ms) VALUES (?1, ?2, 1, ?3, ?4, ?5)"@ {
            self.with_revision(seq![p[0], p[1], Cell::Integer(1), p[2], p[3], p[4]])
        } else if sql
            == "INSERT INTO shell_revisions (id, shell_id, version, content, content_sha256, created_at_ms) VALUES (?1, ?2, ?3, ?4, ?5, ?6)"@ {
            self.with_revision(p)
        } else if sql == "UPDATE shells SET updated_at_ms = ?2 WHERE id = ?1"@ {
            if self.shells.contains_key(p[0]) {
                Some(
                    Shelf {
                        shells: self.shells.insert(p[0], self.shells[p[0]].update(4, p[1])),
                        ..self
                    },
                )
            } else {
                Some(self)
            }
        } else if sql == "DELETE FROM shell_revisions WHERE shell_id = ?1"@ {
            Some(
                Shelf {
                    revisions: Map::new(
                        |r: Cell| self.revisions.contains_key(r) && self.revisions[r][1] != p[0],
                        |r: Cell| self.revisions[r],
                    ),
                    ..self
                },
            )
        } else if sql == "DELETE FROM shells WHERE id = ?1"@ {
            Some(Shelf { shells: self.shells.remove(p[0]), ..self })
        } else if sql == "DELETE FROM vm_shells WHERE vm_id = ?1"@ {
            Some(
                Shelf {
                    pins: Map::new(
                        |k: (Cell, Cell)| self.pins.contains_key(k) && k.0 != p[0],
                        |k: (Cell, Cell)| self.pins[k],
                    ),
                    ..self
                },
            )
        } else if sql
            == "INSERT INTO vm_shells (vm_id, shell_id, revision_id, position) VALUES (?1, ?2, ?3, ?4)"@ {
            if self.pins.contains_key((p[0], p[1])) {
                None
            } else {
                Some(Shelf { pins: self.pins.insert((p[0], p[1]), p), ..self })
            }
        } else {
            Some(self)
        }
    }

    /// Whether a script is pinned to a VM.
    pub open spec fn in_use(self, shell: Cell) -> bool {
        exists|k: (Cell, Cell)| #[trigger] self.pins.contains_key(k) && k.1 == shell
    }

    /// The scripts of a VM whose revision is there.
    pub open spec fn of_vm(self, vm: Cell) -> Set<(Cell, Cell)> {
        Set::new(
            |k: (Cell, Cell)|
                self.pins.contains_key(k) && k.0 == vm && self.revisions.contains_key(
                    self.pins[k][2],
                ),
        )
    }

    /// Whether a revision is the latest of a script.
    pub open spec fn is_latest(self, shell: Cell, revision: Cell) -> bool {
        &&& self.revisions.contains_key(revision) && self.revisions[revision][1] == shell
        &&& forall|r: Cell| #[trigger]
            self.revisions.contains_key(r) && self.revisions[r][1] == shell
                ==> self.revisions[r][2]->Integer_0 <= self.revisions[revision][2]->Integer_0
    }

    /// Whether a number is the version that comes after all versions of a script.
    pub open spec fn is_next(self, shell: Cell, version: i64) -> bool {
        &&& forall|r: Cell| #[trigger]
            self.revisions.contains_key(r) && self.revisions[r][1] == shell
                ==> self.revisions[r][2]->Integer_0 < version
        &&& version != 1 ==> self.has_version(shell, Cell::Integer((version - 1) as i64))
    }

    /// Whether a statement can give those rows.
    pub open spec fn gives(self, sql: Seq<char>, p: Seq<Cell>, rows: Seq<Seq<Cell>>) -> bool {
        if sql == "SELECT 1 FROM shells WHERE id = ?1"@ {
            (rows.len() > 0) == self.shells.contains_key(p[0])
        } else if sql
            == "SELECT COALESCE(MAX(version), 0) + 1 FROM shell_revisions WHERE shell_id = ?1"@ {
            rows.len() == 1 && rows[0].len() == 1 && rows[0][0] is Integer && self.is_next(
                p[0],
                rows[0][0]->Integer_0,
            )
        } else if sql == "SELECT COUNT(*) FROM vm_shells WHERE shell_id = ?1"@ {
            rows.len() == 1 && rows[0].len() == 1 && rows[0][0] is Integer && (
            rows[0][0]->Integer_0 > 0) == self.in_use(p[0])
        } else if sql
            == "SELECT id FROM shell_revisions WHERE shell_id = ?1 ORDER BY version DESC LIMIT 1"@ {
            &&& rows.len() <= 1
            &&& rows.len() == 1 ==> rows[0].len() == 1 && self.is_latest(p[0], rows[0][0])
            &&& rows.len() == 0 ==> forall|r: Cell| #[trigger]
                self.revisions.contains_key(r) ==> self.revisions[r][1] != p[0]
        } else if sql
            == "SELECT vs.revision_id, r.content FROM vm_shells vs JOIN shell_revisions r ON r.id = vs.revision_id WHERE vs.vm_id = ?1 ORDER BY vs.position ASC"@ {
            exists|keys: Seq<(Cell, Cell)>| #[trigger]
                enumerates(keys, self.of_vm(p[0])) && rows == keys.map_values(
                    |k: (Cell, Cell)|
                        seq![self.pins[k][2], self.revisions[self.pins[k][2]][3]],
                ) && forall|i: int, j: int|
                    #![trigger keys[i], keys[j]]
                    0 <= i < j < keys.len() ==> self.pins[keys[i]][3]->Integer_0
                        <= self.pins[keys[j]][3]->Integer_0
        } else {
            true
        }
    }
}

/// What a request does.
pub open spec fn step(s: Shelved, ask: Ask, told: Told) -> Shelved {
    match ask {
        Ask::Run { sql, params } => match (told, s.now.after(sql, params)) {
            (Told::Changed(_), Some(now)) => Shelved { now, ..s },
            _ => s,
        },
        Ask::Begin { .. } => if told is Done {
            Shelved { saved: Some(s.now), ..s }
        } else {
            s
        },
        Ask::Commit => if told is Done {
            Shelved { saved: None, ..s }
        } else {
            s
        },
        Ask::Rollback => match s.saved {
            Some(now) => Shelved { now, saved: None },
            None => s,
        },
        _ => s,
    }
}

/// Whether a request can be answered so: a statement that would clash with another row is
/// not carried out, and a statement that gives rows gives those that are there.
pub open spec fn true_of(s: Shelved, ask: Ask, told: Told) -> bool {
    match ask {
        Ask::Run { sql, params } => told is Changed ==> s.now.after(sql, params) is Some,
        Ask::Select { sql, params } => told is Rows ==> s.now.gives(sql, params, told->Rows_0),
        _ => true,
    }
}

/// The scripts after some requests, by how each was answered.
pub open spec fn kept(s: Shelved, asked: Seq<Ask>, told: Seq<Told>) -> Shelved
    decreases asked.len(),
{
    if asked.len() == 0 {
        s
    } else {
        step(kept(s, asked.drop_last(), told), asked.last(), told[asked.len() - 1])
    }
}

/// Whether all requests can be answered so.
pub open spec fn all_true(s: Shelved, asked: Seq<Ask>, told: Seq<Told>) -> bool
    decreases asked.len(),
{
    asked.len() == 0 || {
        &&& all_true(s, asked.drop_last(), told)
        &&& true_of(kept(s, asked.drop_last(), told), asked.last(), told[asked.len() - 1])
    }
}

/// The scripts after a dialog.
pub open spec fn shelf_of(s: Shelved, d: Dialog<Ask, Told>) -> Shelved {
    kept(s, d.asked, d.answers)
}

/// Whether a dialog was answered by a database with those scripts.
pub open spec fn held(s: Shelved, d: Dialog<Ask, Told>) -> bool {
    all_true(s, d.asked, d.answers)
}

proof fn one_more(s: Shelved, d: Dialog<Ask, Told>, ask: Ask)
    ensures
        ({
            let (next, told) = d.ask(ask);
            &&& next.answers == d.answers
            &&& d.waiting ==> next.waiting
            &&& !next.waiting ==> {
                &&& !d.waiting
                &&& d.asked.len() < d.answers.len()
                &&& told == d.answers[d.asked.len() as int]
                &&& shelf_of(s, next) == step(shelf_of(s, d), ask, told)
                &&& held(s, next) ==> held(s, d) && true_of(shelf_of(s, d), ask, told)
            }
        }),
{
    let (next, told) = d.ask(ask);
    if !next.waiting {
        assert(next.asked.drop_last() =~= d.asked);
    }
}

/// The key under which a script of a VM is kept.
pub open spec fn pin_key(vm: u128, shell: u128) -> (Cell, Cell) {
    (Cell::Text(uuid_text(vm)), Cell::Text(uuid_text(shell)))
}

/// Whether the scripts of a VM are those given, each in its revision, and in their order: a
/// script that is given before another one has the lower position.
pub open spec fn pinned(shelf: Shelf, vm: u128, pins: Seq<(u128, u128)>) -> bool {
    &&& forall|i: int|
        0 <= i < pins.len() ==> {
            let k = pin_key(vm, (#[trigger] pins[i]).0);
            &&& shelf.pins.contains_key(k)
            &&& shelf.pins[k].len() == 4
            &&& shelf.pins[k][2] == Cell::Text(uuid_text(pins[i].1))
            &&& shelf.pins[k][3] is Integer
        }
    &&& forall|i: int, j: int|
        #![trigger pins[i], pins[j]]
        0 <= i < j < pins.len() ==> shelf.pins[pin_key(vm, pins[i].0)][3]->Integer_0
            < shelf.pins[pin_key(vm, pins[j].0)][3]->Integer_0
    &&& forall|k: (Cell, Cell)| #[trigger]
        shelf.pins.contains_key(k) && k.0 == Cell::Text(uuid_text(vm)) ==> exists|i: int|
            0 <= i < pins.len() && k == pin_key(vm, (#[trigger] pins[i]).0)
}

/// Whether the scripts of all other VMs, and all scripts with their revisions, are the same.
pub open spec fn others_stay(before: Shelf, after: Shelf, vm: u128) -> bool {
    &&& before.shells == after.shells
    &&& before.revisions == after.revisions
    &&& forall|k: (Cell, Cell)|
        k.0 != Cell::Text(uuid_text(vm)) ==> (#[trigger] before.pins.contains_key(k))
            == after.pins.contains_key(k) && (before.pins.contains_key(k) ==> before.pins[k]
            == after.pins[k])
}

spec fn top_position(shelf: Shelf, vm: u128, pins: Seq<(u128, u128)>) -> bool {
    forall|i: int|
        0 <= i < pins.len() ==> shelf.pins[pin_key(vm, (#[trigger] pins[i]).0)][3]->Integer_0
            < pins.len()
}

proof fn the_statements()
    ensures
        super::shells::CLEAR_VM_SHELLS_SQL@ == "DELETE FROM vm_shells WHERE vm_id = ?1"@,
        super::shells::INSERT_VM_SHELL_SQL@
            == "INSERT INTO vm_shells (vm_id, shell_id, revision_id, position) VALUES (?1, ?2, ?3, ?4)"@,
        "DELETE FROM vm_shells WHERE vm_id = ?1"@.len() == 38,
        "INSERT INTO vm_shells (vm_id, shell_id, revision_id, position) VALUES (?1, ?2, ?3, ?4)"@.len()
            == 86,
        "INSERT INTO shells (id, name, description, created_at_ms, updated_at_ms) VALUES (?1, ?2, ?3, ?4, ?5)"@.len()
            == 100,
        "INSERT INTO shell_revisions (id, shell_id, version, content, content_sha256, created_at_ms) VALUES (?1, ?2, 1, ?3, ?4, ?5)"@.len()
            == 122,
        "INSERT INTO shell_revisions (id, shell_id, version, content, content_sha256, created_at_ms) VALUES (?1, ?2, ?3, ?4, ?5, ?6)"@.len()
            == 123,
        "UPDATE shells SET updated_at_ms = ?2 WHERE id = ?1"@.len() == 50,
        "DELETE FROM shell_revisions WHERE shell_id = ?1"@.len() == 47,
        "DELETE FROM shells WHERE id = ?1"@.len() == 32,
{
    reveal_strlit("DELETE FROM vm_shells WHERE vm_id = ?1");
    reveal_strlit(
        "INSERT INTO vm_shells (vm_id, shell_id, revision_id, position) VALUES (?1, ?2, ?3, ?4)",
    );
    reveal_strlit(
        "INSERT INTO shells (id, name, description, created_at_ms, updated_at_ms) VALUES (?1, ?2, ?3, ?4, ?5)",
    );
    reveal_strlit(
        "INSERT INTO shell_revisions (id, shell_id, version, content, content_sha256, created_at_ms) VALUES (?1, ?2, 1, ?3, ?4, ?5)",
    );
    reveal_strlit(
        "INSERT INTO shell_revisions (id, shell_id, version, content, content_sha256, created_at_ms) VALUES (?1, ?2, ?3, ?4, ?5, ?6)",
    );
    reveal_strlit("UPDATE shells SET updated_at_ms = ?2 WHERE id = ?1");
    reveal_strlit("DELETE FROM shell_revisions WHERE shell_id = ?1");
    reveal_strlit("DELETE FROM shells WHERE id = ?1");
}

proof fn pins_are_put(s: Shelved, d: Dialog<Ask, Told>, vm: u128, pins: Seq<(u128, u128)>)
    requires
        pins.len() <= i64::MAX,
        !d.insert_pins(vm, pins).0.waiting,
        held(s, d.insert_pins(vm, pins).0),
        d.insert_pins(vm, pins).1 is Ok,
    ensures
        !d.waiting,
        d.insert_pins(vm, pins).0.answers == d.answers,
        held(s, d),
        (forall|k: (Cell, Cell)| #[trigger]
            shelf_of(s, d).now.pins.contains_key(k) ==> k.0 != Cell::Text(uuid_text(vm))) ==> {
            let end = shelf_of(s, d.insert_pins(vm, pins).0);
            &&& end.saved == shelf_of(s, d).saved
            &&& pinned(end.now, vm, pins)
            &&& top_position(end.now, vm, pins)
            &&& others_stay(shelf_of(s, d).now, end.now, vm)
        },
    decreases pins.len(),
{
    if pins.len() > 0 {
        let front = pins.drop_last();
        let last = pins.last();
        let before = d.insert_pins(vm, front).0;
        let row = seq![
            Cell::Text(uuid_text(vm)),
            Cell::Text(uuid_text(last.0)),
            Cell::Text(uuid_text(last.1)),
            Cell::Integer((pins.len() - 1) as i64),
        ];
        the_statements();
        one_more(
            s,
            before,
            Ask::Run { sql: super::shells::INSERT_VM_SHELL_SQL@, params: row },
        );
        assert(d.insert_pins(vm, front).1 is Ok);
        pins_are_put(s, d, vm, front);
        if forall|k: (Cell, Cell)| #[trigger]
            shelf_of(s, d).now.pins.contains_key(k) ==> k.0 != Cell::Text(uuid_text(vm)) {
            let old_shelf = shelf_of(s, before).now;
            let new_shelf = shelf_of(s, d.insert_pins(vm, pins).0).now;
            let key = pin_key(vm, last.0);
            assert(new_shelf.pins == old_shelf.pins.insert(key, row));
            assert forall|i: int| 0 <= i < front.len() implies pin_key(vm, (#[trigger] pins[i]).0)
                != key && pins[i] == front[i] by {
                assert(old_shelf.pins.contains_key(pin_key(vm, front[i].0)));
            }
            assert forall|k: (Cell, Cell)| #[trigger]
                new_shelf.pins.contains_key(k) && k.0 == Cell::Text(uuid_text(vm)) implies exists|
                i: int,
            | 0 <= i < pins.len() && k == pin_key(vm, (#[trigger] pins[i]).0) by {
                if k == key {
                    assert(pins[pins.len() - 1] == last);
                } else {
                    assert(old_shelf.pins.contains_key(k));
                    let i = choose|i: int|
                        0 <= i < front.len() && k == pin_key(vm, (#[trigger] front[i]).0);
                    assert(pins[i] == front[i]);
                }
            }
            assert forall|i: int, j: int|
                #![trigger pins[i], pins[j]]
                0 <= i < j < pins.len() implies new_shelf.pins[pin_key(
                vm,
                pins[i].0,
            )][3]->Integer_0 < new_shelf.pins[pin_key(vm, pins[j].0)][3]->Integer_0 by {
                assert(pins[i] == front[i]);
                if j < front.len() {
                    assert(pins[j] == front[j]);
                }
            }
        }
    }
}

/// Where the scripts of a VM are replaced, they are exactly those given, each in the revision
/// given, and a script that was given before another one has the lower position, so that they
/// come back and run in the order in which they were given. Nothing else changes.
pub proof fn a_vm_has_its_scripts_in_order(
    s: Shelved,
    told: Seq<Told>,
    vm: u128,
    pins: Seq<(u128, u128)>,
)
    requires
        pins.len() <= i64::MAX,
        s.saved is None,
        !fresh::<Ask, Told>(told).set_pins(vm, pins).0.waiting,
        held(s, fresh::<Ask, Told>(told).set_pins(vm, pins).0),
        fresh::<Ask, Told>(told).set_pins(vm, pins).1 is Ok,
    ensures
        ({
            let end = shelf_of(s, fresh::<Ask, Told>(told).set_pins(vm, pins).0);
            &&& pinned(end.now, vm, pins)
            &&& others_stay(s.now, end.now, vm)
            &&& end.saved is None
        }),
{
    let d = fresh::<Ask, Told>(told);
    let begin = Ask::Begin { immediate: true };
    one_more(s, d, begin);
    let begun = d.ask(begin).0;
    let clear = Ask::Run {
        sql: super::shells::CLEAR_VM_SHELLS_SQL@,
        params: seq![Cell::Text(uuid_text(vm))],
    };
    one_more(s, begun, clear);
    let cleared = begun.ask(clear).0;
    the_statements();
    let put = cleared.insert_pins(vm, pins).0;
    one_more(s, put, Ask::Commit);
    pins_are_put(s, cleared, vm, pins);
    assert(shelf_of(s, d) == s);
    assert(shelf_of(s, begun).now == s.now);
    let middle = shelf_of(s, cleared).now;
    let end = shelf_of(s, put).now;
    assert(middle.shells == s.now.shells && middle.revisions == s.now.revisions);
    assert forall|k: (Cell, Cell)| k.0 != Cell::Text(uuid_text(vm)) implies (
    #[trigger] s.now.pins.contains_key(k)) == end.pins.contains_key(k) && (
    s.now.pins.contains_key(k) ==> s.now.pins[k] == end.pins[k]) by {
        assert(middle.pins.contains_key(k) == s.now.pins.contains_key(k));
    }
}

/// Where the scripts of a VM cannot be replaced, the VM keeps those that it had: no row is
/// changed.
pub proof fn a_vm_keeps_its_scripts_otherwise(
    s: Shelved,
    told: Seq<Told>,
    vm: u128,
    pins: Seq<(u128, u128)>,
)
    requires
        s.saved is None,
        !fresh::<Ask, Told>(told).set_pins(vm, pins).0.waiting,
        fresh::<Ask, Told>(told).set_pins(vm, pins).1 is Err,
    ensures
        shelf_of(s, fresh::<Ask, Told>(told).set_pins(vm, pins).0).now == s.now,
{
    let d = fresh::<Ask, Told>(told);
    let begin = Ask::Begin { immediate: true };
    one_more(s, d, begin);
    let begun = d.ask(begin).0;
    if d.transact(begin).1 is Ok {
        let clear = Ask::Run {
            sql: super::shells::CLEAR_VM_SHELLS_SQL@,
            params: seq![Cell::Text(uuid_text(vm))],
        };
        one_more(s, begun, clear);
        let cleared = begun.ask(clear).0;
        pins_keep_the_saved(s, cleared, vm, pins);
        let put = begun.replace_pins(vm, pins).0;
        one_more(s, put, Ask::Commit);
        one_more(s, put, Ask::Rollback);
        one_more(s, put.ask(Ask::Commit).0, Ask::Rollback);
    }
}

proof fn pins_keep_the_saved(s: Shelved, d: Dialog<Ask, Told>, vm: u128, pins: Seq<(u128, u128)>)
    ensures
        d.waiting ==> d.insert_pins(vm, pins).0.waiting,
        !d.insert_pins(vm, pins).0.waiting ==> shelf_of(s, d.insert_pins(vm, pins).0).saved
            == shelf_of(s, d).saved,
    decreases pins.len(),
{
    if pins.len() > 0 {
        let front = pins.drop_last();
        pins_keep_the_saved(s, d, vm, front);
        let row = seq![
            Cell::Text(uuid_text(vm)),
            Cell::Text(uuid_text(pins.last().0)),
            Cell::Text(uuid_text(pins.last().1)),
            Cell::Integer((pins.len() - 1) as i64),
        ];
        one_more(
            s,
            d.insert_pins(vm, front).0,
            Ask::Run { sql: super::shells::INSERT_VM_SHELL_SQL@, params: row },
        );
    }
}

proof fn sorted_alike(a: Seq<(Cell, Cell)>, b: Seq<(Cell, Cell)>, f: spec_fn((Cell, Cell)) -> int)
    requires
        a.no_duplicates(),
        b.no_duplicates(),
        forall|k: (Cell, Cell)| #[trigger] a.contains(k) == b.contains(k),
        forall|i: int, j: int|
            #![trigger a[i], a[j]]
            0 <= i < j < a.len() ==> f(a[i]) <= f(a[j]),
        forall|i: int, j: int|
            #![trigger b[i], b[j]]
            0 <= i < j < b.len() ==> f(b[i]) < f(b[j]),
    ensures
        a == b,
    decreases a.len(),
{
    if a.len() == 0 {
        if b.len() > 0 {
            assert(b.contains(b[0]));
            assert(a.contains(b[0]));
        }
        assert(a =~= b);
    } else {
        assert(a.contains(a[0]));
        assert(b.contains(a[0]));
        let x = a.last();
        let y = b.last();
        assert(a.contains(x) && b.contains(y));
        assert(b.contains(x) && a.contains(y));
        let i = choose|i: int| 0 <= i < b.len() && b[i] == x;
        let j = choose|j: int| 0 <= j < a.len() && a[j] == y;
        assert(x == y) by {
            if i < b.len() - 1 {
                assert(f(b[i]) < f(b[b.len() - 1]));
                assert(j < a.len() - 1);
                assert(f(a[j]) <= f(a[a.len() - 1]));
            }
        }
        let a1 = a.drop_last();
        let b1 = b.drop_last();
        assert forall|k: (Cell, Cell)| #[trigger] a1.contains(k) == b1.contains(k) by {
            if a1.contains(k) {
                let n = choose|n: int| 0 <= n < a1.len() && a1[n] == k;
                assert(a[n] == k && a[n] != a[a.len() - 1]);
                assert(a.contains(k));
                assert(b.contains(k) == a.contains(k));
                let m = choose|m: int| 0 <= m < b.len() && b[m] == k;
                assert(b1[m] == k);
            }
            if b1.contains(k) {
                let n = choose|n: int| 0 <= n < b1.len() && b1[n] == k;
                assert(b[n] == k && b[n] != b[b.len() - 1]);
                assert(b.contains(k));
                assert(a.contains(k) == b.contains(k));
                let m = choose|m: int| 0 <= m < a.len() && a[m] == k;
                assert(a1[m] == k);
            }
        }
        assert forall|i: int, j: int|
            #![trigger a1[i], a1[j]]
            0 <= i < j < a1.len() implies f(a1[i]) <= f(a1[j]) by {
            assert(a1[i] == a[i] && a1[j] == a[j]);
        }
        assert forall|i: int, j: int|
            #![trigger b1[i], b1[j]]
            0 <= i < j < b1.len() implies f(b1[i]) < f(b1[j]) by {
            assert(b1[i] == b[i] && b1[j] == b[j]);
        }
        sorted_alike(a1, b1, f);
        assert(a =~= a1.push(x) && b =~= b1.push(y));
    }
}

/// Rows that each stand for something stand for all of it, in their order.
pub proof fn rows_are_read_in_order<T>(
    rows: Seq<Seq<Cell>>,
    decode: spec_fn(Seq<Cell>) -> Result<T, Fault>,
)
    ensures
        decoded_all(rows, decode) is Ok <==> forall|i: int|
            0 <= i < rows.len() ==> decode(#[trigger] rows[i]) is Ok,
        decoded_all(rows, decode) is Ok ==> decoded_all(rows, decode)->Ok_0.len() == rows.len()
            && forall|i: int|
            0 <= i < rows.len() ==> #[trigger] decoded_all(rows, decode)->Ok_0[i] == decode(
                rows[i],
            )->Ok_0,
    decreases rows.len(),
{
    if rows.len() > 0 {
        let front = rows.drop_last();
        rows_are_read_in_order(front, decode);
        assert forall|i: int| 0 <= i < front.len() implies #[trigger] rows[i] == front[i] by {}
        if decoded_all(front, decode) is Ok && decode(rows.last()) is Ok {
            assert forall|i: int| 0 <= i < rows.len() implies decode(#[trigger] rows[i]) is Ok by {
                if i < front.len() {
                    assert(rows[i] == front[i]);
                }
            }
        }
        if forall|i: int| 0 <= i < rows.len() ==> decode(#[trigger] rows[i]) is Ok {
            assert forall|i: int| 0 <= i < front.len() implies decode(#[trigger] front[i]) is Ok by {
                assert(rows[i] == front[i]);
            }
            assert(decode(rows[rows.len() - 1]) is Ok);
        }
    }
}

proof fn scripts_statement()
    ensures
        super::shells::SELECT_VM_SHELL_SCRIPTS_SQL@
            == "SELECT vs.revision_id, r.content FROM vm_shells vs JOIN shell_revisions r ON r.id = vs.revision_id WHERE vs.vm_id = ?1 ORDER BY vs.position ASC"@,
        "SELECT vs.revision_id, r.content FROM vm_shells vs JOIN shell_revisions r ON r.id = vs.revision_id WHERE vs.vm_id = ?1 ORDER BY vs.position ASC"@.len()
            == 143,
        "SELECT 1 FROM shells WHERE id = ?1"@.len() == 34,
        "SELECT COALESCE(MAX(version), 0) + 1 FROM shell_revisions WHERE shell_id = ?1"@.len() == 77,
        "SELECT COUNT(*) FROM vm_shells WHERE shell_id = ?1"@.len() == 50,
        "SELECT id FROM shell_revisions WHERE shell_id = ?1 ORDER BY version DESC LIMIT 1"@.len()
            == 80,
        super::shells::SHELL_EXISTS_SQL@ == "SELECT 1 FROM shells WHERE id = ?1"@,
        super::shells::NEXT_VERSION_SQL@
            == "SELECT COALESCE(MAX(version), 0) + 1 FROM shell_revisions WHERE shell_id = ?1"@,
        super::shells::COUNT_PINS_SQL@ == "SELECT COUNT(*) FROM vm_shells WHERE shell_id = ?1"@,
        super::shells::LATEST_REVISION_SQL@
            == "SELECT id FROM shell_revisions WHERE shell_id = ?1 ORDER BY version DESC LIMIT 1"@,
{
    reveal_strlit(
        "SELECT vs.revision_id, r.content FROM vm_shells vs JOIN shell_revisions r ON r.id = vs.revision_id WHERE vs.vm_id = ?1 ORDER BY vs.position ASC",
    );
    reveal_strlit("SELECT 1 FROM shells WHERE id = ?1");
    reveal_strlit("SELECT COALESCE(MAX(version), 0) + 1 FROM shell_revisions WHERE shell_id = ?1");
    reveal_strlit("SELECT COUNT(*) FROM vm_shells WHERE shell_id = ?1");
    reveal_strlit("SELECT id FROM shell_revisions WHERE shell_id = ?1 ORDER BY version DESC LIMIT 1");
}

/// Listing the scripts of a VM gives the texts of the revisions that were pinned, one for
/// each, in the order in which they were pinned.
pub proof fn pinned_scripts_are_listed_in_order(
    s: Shelved,
    told: Seq<Told>,
    vm: u128,
    pins: Seq<(u128, u128)>,
)
    requires
        pinned(s.now, vm, pins),
        forall|i: int|
            0 <= i < pins.len() ==> {
                let revision = Cell::Text(uuid_text((#[trigger] pins[i]).1));
                &&& uuid_of(uuid_text(pins[i].1)) == Some(pins[i].1)
                &&& s.now.revisions.contains_key(revision)
                &&& s.now.revisions[revision][3] is Text
            },
        told.len() > 0 && told[0] is Rows,
        held(
            s,
            fresh::<Ask, Told>(told).list(
                super::shells::SELECT_VM_SHELL_SCRIPTS_SQL@,
                seq![Cell::Text(uuid_text(vm))],
                |row: Seq<Cell>| script_of(row),
            ).0,
        ),
    ensures
        ({
            let listed = fresh::<Ask, Told>(told).list(
                super::shells::SELECT_VM_SHELL_SCRIPTS_SQL@,
                seq![Cell::Text(uuid_text(vm))],
                |row: Seq<Cell>| script_of(row),
            ).1;
            &&& listed is Ok
            &&& listed->Ok_0.len() == pins.len()
            &&& forall|i: int|
                0 <= i < pins.len() ==> {
                    let revision = Cell::Text(uuid_text((#[trigger] pins[i]).1));
                    listed->Ok_0[i] == Script {
                        revision_id: pins[i].1,
                        content: s.now.revisions[revision][3]->Text_0,
                    }
                }
        }),
{
    let me = Cell::Text(uuid_text(vm));
    let sql = super::shells::SELECT_VM_SHELL_SCRIPTS_SQL@;
    let decode = |row: Seq<Cell>| script_of(row);
    let d = fresh::<Ask, Told>(told);
    one_more(s, d, Ask::Select { sql, params: seq![me] });
    scripts_statement();
    let shelf = s.now;
    let rows = told[0]->Rows_0;
    assert(shelf.gives(sql, seq![me], rows));
    assert(seq![me][0] == me);
    let keys = choose|keys: Seq<(Cell, Cell)>| #[trigger]
        enumerates(keys, shelf.of_vm(me)) && rows == keys.map_values(
            |k: (Cell, Cell)| seq![shelf.pins[k][2], shelf.revisions[shelf.pins[k][2]][3]],
        ) && forall|i: int, j: int|
            #![trigger keys[i], keys[j]]
            0 <= i < j < keys.len() ==> shelf.pins[keys[i]][3]->Integer_0
                <= shelf.pins[keys[j]][3]->Integer_0;
    let wanted = Seq::new(pins.len(), |i: int| pin_key(vm, pins[i].0));
    let f = |k: (Cell, Cell)| shelf.pins[k][3]->Integer_0 as int;
    assert forall|i: int, j: int|
        #![trigger wanted[i], wanted[j]]
        0 <= i < j < wanted.len() implies f(wanted[i]) < f(wanted[j]) by {
        assert(pin_key(vm, pins[i].0) == wanted[i] && pin_key(vm, pins[j].0) == wanted[j]);
    }
    assert(wanted.no_duplicates()) by {
        assert forall|i: int, j: int|
            0 <= i < wanted.len() && 0 <= j < wanted.len() && i != j implies wanted[i]
            != wanted[j] by {
            if i < j {
                assert(f(wanted[i]) < f(wanted[j]));
            } else {
                assert(f(wanted[j]) < f(wanted[i]));
            }
        }
    }
    assert forall|k: (Cell, Cell)| #[trigger] keys.contains(k) == wanted.contains(k) by {
        assert(keys.contains(k) == shelf.of_vm(me).contains(k));
        if shelf.of_vm(me).contains(k) {
            let i = choose|i: int|
                0 <= i < pins.len() && k == pin_key(vm, (#[trigger] pins[i]).0);
            assert(wanted[i] == k);
        }
        if wanted.contains(k) {
            let i = choose|i: int| 0 <= i < wanted.len() && wanted[i] == k;
            assert(k == pin_key(vm, pins[i].0));
        }
    }
    sorted_alike(keys, wanted, f);
    assert forall|i: int| 0 <= i < rows.len() implies decode(#[trigger] rows[i]) == Ok::<
        Script,
        Fault,
    >(
        Script {
            revision_id: pins[i].1,
            content: shelf.revisions[Cell::Text(uuid_text(pins[i].1))][3]->Text_0,
        },
    ) by {
        assert(keys[i] == pin_key(vm, pins[i].0));
        let row = rows[i];
        assert(row == seq![
            shelf.pins[keys[i]][2],
            shelf.revisions[shelf.pins[keys[i]][2]][3],
        ]);
        assert(row[0] == Cell::Text(uuid_text(pins[i].1)));
        assert(row[1] == shelf.revisions[Cell::Text(uuid_text(pins[i].1))][3]);
    }
    rows_are_read_in_order(rows, decode);
    let listed = d.list(sql, seq![me], decode).1;
    assert(listed == decoded_all(rows, decode));
    assert forall|i: int| 0 <= i < pins.len() implies listed->Ok_0[i] == (Script {
        revision_id: (#[trigger] pins[i]).1,
        content: s.now.revisions[Cell::Text(uuid_text(pins[i].1))][3]->Text_0,
    }) by {
        assert(listed->Ok_0[i] == decode(rows[i])->Ok_0);
    }
}

/// A new script is kept with its name and description, and its text is the only revision that
/// it has, the first. Where it cannot be kept, nothing changes.
pub proof fn a_new_script_has_one_revision(
    s: Shelved,
    told: Seq<Told>,
    id: u128,
    name: Seq<char>,
    description: Option<Seq<char>>,
    revision: NewRevision,
)
    requires
        s.saved is None,
        !fresh::<Ask, Told>(told).create_shell(id, name, description, revision).0.waiting,
        held(s, fresh::<Ask, Told>(told).create_shell(id, name, description, revision).0),
    ensures
        ({
            let (d, result) = fresh::<Ask, Told>(told).create_shell(
                id,
                name,
                description,
                revision,
            );
            let end = shelf_of(s, d).now;
            let shell = Cell::Text(uuid_text(id));
            let first = Cell::Text(uuid_text(revision.id));
            &&& result is Err ==> end == s.now
            &&& result is Ok ==> {
                &&& !s.now.shells.contains_key(shell) && end.shells.contains_key(shell)
                &&& end.shells[shell].len() == 5
                &&& end.shells[shell][1] == Cell::Text(name)
                &&& end.shells[shell][2] == match description {
                    Some(text) => Cell::Text(text),
                    None => Cell::Null,
                }
                &&& end.shells[shell][3] == Cell::Integer(revision.now_ms as i64)
                &&& end.shells[shell][4] == Cell::Integer(revision.now_ms as i64)
                &&& end.revisions.contains_key(first) && end.revisions[first].len() == 6
                &&& end.revisions[first][1] == shell
                &&& end.revisions[first][2] == Cell::Integer(1)
                &&& end.revisions[first][3] == Cell::Text(revision.content)
                &&& end.revisions[first][4] == Cell::Text(revision.sha256)
                &&& end.revisions.remove(first) == s.now.revisions
                &&& end.shells.remove(shell) == s.now.shells
                &&& end.pins == s.now.pins
            }
        }),
{
    let d = fresh::<Ask, Told>(told);
    let begin = Ask::Begin { immediate: true };
    one_more(s, d, begin);
    let begun = d.ask(begin).0;
    the_statements();
    let now = Cell::Integer(revision.now_ms as i64);
    let shell = Cell::Text(uuid_text(id));
    let row = seq![shell, Cell::Text(name), nullable(description), now, now];
    let put_shell = Ask::Run { sql: super::shells::INSERT_SHELL_SQL@, params: row };
    one_more(s, begun, put_shell);
    let shelved = begun.ask(put_shell).0;
    let first = seq![
        Cell::Text(uuid_text(revision.id)),
        shell,
        Cell::Text(revision.content),
        Cell::Text(revision.sha256),
        now,
    ];
    let put_first = Ask::Run { sql: super::shells::INSERT_FIRST_REVISION_SQL@, params: first };
    one_more(s, shelved, put_first);
    let put = begun.put_shell(id, name, description, revision).0;
    one_more(s, put, Ask::Commit);
    one_more(s, put, Ask::Rollback);
    one_more(s, put.ask(Ask::Commit).0, Ask::Rollback);
    let (end, result) = d.create_shell(id, name, description, revision);
    if result is Ok {
        let now_shelf = shelf_of(s, end).now;
        assert(now_shelf.shells.remove(shell) =~= s.now.shells);
        assert(now_shelf.revisions.remove(Cell::Text(uuid_text(revision.id)))
            =~= s.now.revisions);
    }
}

/// A revision that is added is the latest of its script from then on, under the version that
/// is given back, with the text given; revisions that were there stay as they are. A script
/// that is not there gets none, and where none is added nothing changes.
pub proof fn an_added_revision_is_the_latest(
    s: Shelved,
    told: Seq<Told>,
    shell: u128,
    revision: NewRevision,
)
    requires
        s.saved is None,
        !fresh::<Ask, Told>(told).add_revision(shell, revision).0.waiting,
        held(s, fresh::<Ask, Told>(told).add_revision(shell, revision).0),
    ensures
        ({
            let (d, result) = fresh::<Ask, Told>(told).add_revision(shell, revision);
            let end = shelf_of(s, d).now;
            let owner = Cell::Text(uuid_text(shell));
            let new = Cell::Text(uuid_text(revision.id));
            &&& result is Err ==> end == s.now
            &&& result is Ok ==> {
                &&& s.now.shells.contains_key(owner)
                &&& end.is_latest(owner, new)
                &&& end.revisions[new][3] == Cell::Text(revision.content)
                &&& end.revisions[new][4] == Cell::Text(revision.sha256)
                &&& end.revisions[new][2] is Integer
                &&& result->Ok_0 == end.revisions[new][2]->Integer_0 as u32
                &&& forall|r: Cell| #[trigger]
                    s.now.revisions.contains_key(r) && s.now.revisions[r][1] == owner
                        ==> s.now.revisions[r][2]->Integer_0 < end.revisions[new][2]->Integer_0
                &&& end.revisions[new][5] == Cell::Integer(revision.now_ms as i64)
                &&& end.shells.contains_key(owner) && (s.now.shells[owner].len() == 5
                    ==> end.shells[owner][4] == Cell::Integer(revision.now_ms as i64))
                &&& end.revisions.remove(new) == s.now.revisions
                &&& end.pins == s.now.pins
                &&& forall|k: Cell|
                    k != owner ==> (#[trigger] end.shells.contains_key(k))
                        == s.now.shells.contains_key(k) && (s.now.shells.contains_key(k)
                        ==> end.shells[k] == s.now.shells[k])
            }
        }),
{
    let d = fresh::<Ask, Told>(told);
    let begin = Ask::Begin { immediate: true };
    one_more(s, d, begin);
    let begun = d.ask(begin).0;
    the_statements();
    scripts_statement();
    let now = Cell::Integer(revision.now_ms as i64);
    let owner = Cell::Text(uuid_text(shell));
    let new = Cell::Text(uuid_text(revision.id));
    let look = Ask::Select { sql: super::shells::SHELL_EXISTS_SQL@, params: seq![owner] };
    one_more(s, begun, look);
    let looked = begun.ask(look).0;
    let count = Ask::Select { sql: super::shells::NEXT_VERSION_SQL@, params: seq![owner] };
    one_more(s, looked, count);
    let counted = looked.ask(count).0;
    let next = looked.number(
        super::shells::NEXT_VERSION_SQL@,
        shell,
        "COALESCE(MAX(version), 0) + 1"@,
    ).1;
    let row = seq![
        new,
        owner,
        Cell::Integer(next->Ok_0),
        Cell::Text(revision.content),
        Cell::Text(revision.sha256),
        now,
    ];
    let insert = Ask::Run { sql: super::shells::INSERT_REVISION_SQL@, params: row };
    one_more(s, counted, insert);
    let inserted = counted.ask(insert).0;
    let touch = Ask::Run { sql: super::shells::TOUCH_SHELL_SQL@, params: seq![owner, now] };
    one_more(s, inserted, touch);
    let put = begun.put_revision(shell, revision).0;
    one_more(s, put, Ask::Commit);
    one_more(s, put, Ask::Rollback);
    one_more(s, put.ask(Ask::Commit).0, Ask::Rollback);
    let (last, result) = d.add_revision(shell, revision);
    assert(seq![owner][0] == owner);
    if result is Ok {
        let end = shelf_of(s, last).now;
        assert(end.revisions =~= s.now.revisions.insert(new, row));
        assert(end.revisions.remove(new) =~= s.now.revisions);
    }
}

/// A script is forgotten with all its revisions, where it was there and no VM used it; all
/// else stays. Otherwise nothing changes: a script that a VM uses is not forgotten.
pub proof fn a_script_is_forgotten_with_its_revisions(s: Shelved, told: Seq<Told>, id: u128)
    requires
        s.saved is None,
        !fresh::<Ask, Told>(told).delete_shell(id).0.waiting,
        held(s, fresh::<Ask, Told>(told).delete_shell(id).0),
    ensures
        ({
            let (d, result) = fresh::<Ask, Told>(told).delete_shell(id);
            let end = shelf_of(s, d).now;
            let shell = Cell::Text(uuid_text(id));
            &&& result is Err ==> end == s.now
            &&& result is Ok ==> {
                &&& s.now.shells.contains_key(shell) && !s.now.in_use(shell)
                &&& end.shells == s.now.shells.remove(shell)
                &&& end.pins == s.now.pins
                &&& forall|r: Cell| #[trigger]
                    end.revisions.contains_key(r) <==> s.now.revisions.contains_key(r)
                        && s.now.revisions[r][1] != shell
                &&& forall|r: Cell| #[trigger]
                    end.revisions.contains_key(r) ==> end.revisions[r] == s.now.revisions[r]
            }
            &&& result matches Err(Fault::ShellInUse { .. }) ==> s.now.in_use(shell)
            &&& result matches Err(Fault::MissingShell { .. }) ==> !s.now.shells.contains_key(shell)
        }),
{
    let d = fresh::<Ask, Told>(told);
    let begin = Ask::Begin { immediate: true };
    one_more(s, d, begin);
    let begun = d.ask(begin).0;
    the_statements();
    scripts_statement();
    let shell = Cell::Text(uuid_text(id));
    let params = seq![shell];
    assert(params[0] == shell);
    let look = Ask::Select { sql: super::shells::SHELL_EXISTS_SQL@, params };
    one_more(s, begun, look);
    let looked = begun.ask(look).0;
    let count = Ask::Select { sql: super::shells::COUNT_PINS_SQL@, params };
    one_more(s, looked, count);
    let counted = looked.ask(count).0;
    let clear = Ask::Run { sql: super::shells::DELETE_REVISIONS_SQL@, params };
    one_more(s, counted, clear);
    let cleared = counted.ask(clear).0;
    one_more(s, cleared, Ask::Run { sql: super::shells::DELETE_SHELL_SQL@, params });
    let gone = begun.drop_shell(id).0;
    one_more(s, gone, Ask::Commit);
    one_more(s, gone, Ask::Rollback);
    one_more(s, gone.ask(Ask::Commit).0, Ask::Rollback);
}

/// The latest revisions of some scripts come one for each script, in the order of the
/// scripts, and each is the latest of its script.
pub proof fn latest_revisions_are_the_latest(
    s: Shelved,
    d: Dialog<Ask, Told>,
    shells: Seq<u128>,
)
    requires
        !d.latest_revisions(shells).0.waiting,
        held(s, d.latest_revisions(shells).0),
        d.latest_revisions(shells).1 is Ok,
    ensures
        !d.waiting,
        d.latest_revisions(shells).0.answers == d.answers,
        held(s, d),
        shelf_of(s, d.latest_revisions(shells).0) == shelf_of(s, d),
        d.latest_revisions(shells).1->Ok_0.len() == shells.len(),
        forall|i: int|
            0 <= i < shells.len() ==> {
                let (shell, revision) = #[trigger] d.latest_revisions(shells).1->Ok_0[i];
                &&& shell == shells[i]
                &&& exists|text: Seq<char>| #[trigger]
                    uuid_of(text) == Some(revision) && shelf_of(s, d).now.is_latest(
                        Cell::Text(uuid_text(shell)),
                        Cell::Text(text),
                    )
            },
    decreases shells.len(),
{
    if shells.len() > 0 {
        let front = shells.drop_last();
        let before = d.latest_revisions(front).0;
        let owner = Cell::Text(uuid_text(shells.last()));
        let look = Ask::Select {
            sql: super::shells::LATEST_REVISION_SQL@,
            params: seq![owner],
        };
        one_more(s, before, look);
        latest_revisions_are_the_latest(s, d, front);
        scripts_statement();
        assert(seq![owner][0] == owner);
        let told = before.ask(look).1;
        let text = told->Rows_0[0][0]->Text_0;
        assert(uuid_of(text) == Some(d.latest_revisions(shells).1->Ok_0.last().1));
        assert forall|i: int| 0 <= i < shells.len() implies ({
            let (shell, revision) = #[trigger] d.latest_revisions(shells).1->Ok_0[i];
            &&& shell == shells[i]
            &&& exists|text: Seq<char>| #[trigger]
                uuid_of(text) == Some(revision) && shelf_of(s, d).now.is_latest(
                    Cell::Text(uuid_text(shell)),
                    Cell::Text(text),
                )
        }) by {
            if i < front.len() {
                assert(d.latest_revisions(shells).1->Ok_0[i] == d.latest_revisions(
                    front,
                ).1->Ok_0[i]);
            }
        }
    }
}

/// A row of the scripts is read column by column, in the order in which the statements name
/// the columns: times as they were written, versions as they were counted, and the size of a
/// revision as that of its text.
pub proof fn rows_of_scripts_are_read(
    id: u128,
    revision: u128,
    name: Seq<char>,
    description: Option<Seq<char>>,
    made: u64,
    changed: u64,
    version: u32,
    sha256: Seq<char>,
    content: Seq<char>,
)
    requires
        uuid_of(uuid_text(id)) == Some(id),
        uuid_of(uuid_text(revision)) == Some(revision),
    ensures
        ({
            let shell = Cell::Text(uuid_text(id));
            let latest = Cell::Text(uuid_text(revision));
            let told = match description {
                Some(text) => Cell::Text(text),
                None => Cell::Null,
            };
            let a = Cell::Integer(made as i64);
            let b = Cell::Integer(changed as i64);
            let v = Cell::Integer(version as i64);
            &&& shell_of(
                seq![shell, Cell::Text(name), told, a, b, latest, v, Cell::Text(sha256)],
            ) == Ok::<Shell, Fault>(
                Shell {
                    id,
                    name,
                    description,
                    latest_version: version,
                    latest_revision_id: Some(revision),
                    content_sha256: Some(sha256),
                    created_at_ms: made,
                    updated_at_ms: changed,
                },
            )
            &&& shell_of(
                seq![shell, Cell::Text(name), told, a, b, Cell::Null, Cell::Null, Cell::Null],
            ) == Ok::<Shell, Fault>(
                Shell {
                    id,
                    name,
                    description,
                    latest_version: 0,
                    latest_revision_id: None,
                    content_sha256: None,
                    created_at_ms: made,
                    updated_at_ms: changed,
                },
            )
            &&& head_of(seq![shell, Cell::Text(name), told, a, b]) == Ok::<Head, Fault>(
                Head { id, name, description, created_at_ms: made, updated_at_ms: changed },
            )
            &&& pin_of(seq![shell, latest, v, Cell::Text(name)]) == Ok::<Pin, Fault>(
                Pin { shell_id: id, revision_id: revision, version, name },
            )
            &&& script_of(seq![latest, Cell::Text(content)]) == Ok::<Script, Fault>(
                Script { revision_id: revision, content },
            )
            &&& revision_of(
                id,
                seq![latest, v, Cell::Text(sha256), Cell::Text(content), a],
            ) == Ok::<Revision, Fault>(
                Revision {
                    shell_id: id,
                    revision_id: revision,
                    version,
                    content_sha256: sha256,
                    content,
                    created_at_ms: made,
                },
            )
            &&& summary_of(
                seq![latest, v, Cell::Text(sha256), a, Cell::Text(content)],
            ) == Ok::<Summary, Fault>(
                Summary {
                    id: revision,
                    version,
                    content_sha256: sha256,
                    created_at_ms: made,
                    size_bytes: vstd::utf8::encode_utf8(content).len() as u32,
                },
            )
        }),
{
    assert((made as i64) as u64 == made) by (bit_vector);
    assert((changed as i64) as u64 == changed) by (bit_vector);
    assert((version as i64) as u32 == version) by (bit_vector);
}

} // verus!
