//! The record of a VM, and the row that keeps it.

use vstd::prelude::*;

#[allow(unused_imports)]
use super::{cells, opt_text_at, shown, text_at, u32_at, Cell, Fault};
use super::{opt_text_of, text_of, u32_of, PersistenceError, Value};
#[allow(unused_imports)]
use crate::digest::hex_digit;
#[allow(unused_imports)]
use crate::text::{less, opt_view, quoted_text};
use crate::text::{quoted, same};
#[allow(unused_imports)]
use vstd::arithmetic::power::pow;

verus! {

/// The number that an id stands for, where it is one.
pub uninterp spec fn uuid_of(text: Seq<char>) -> Option<u128>;

/// How many digits of an id stand before a place of its text.
pub open spec fn digits_before(i: int) -> int {
    if i <= 8 {
        i
    } else if i <= 13 {
        i - 1
    } else if i <= 18 {
        i - 2
    } else if i <= 23 {
        i - 3
    } else {
        i - 4
    }
}

/// An id as it is written: its 32 hexadecimal digits, with a `-` behind the eighth, the
/// twelfth, the sixteenth and the twentieth.
#[verifier::opaque]
pub open spec fn uuid_text(id: u128) -> Seq<char> {
    Seq::new(
        36,
        |i: int|
            if i == 8 || i == 13 || i == 18 || i == 23 {
                '-'
            } else {
                hex_digit((id as int / pow(16, (31 - digits_before(i)) as nat)) % 16)
            },
    )
}

/// An id is written in 36 characters.
pub proof fn an_id_has_its_length(id: u128)
    ensures
        uuid_text(id).len() == 36,
{
    reveal(uuid_text);
}

/// Calls `uuid::Uuid::parse_str`: its result depends on the text alone.
#[verifier::external_body]
pub(crate) fn parse_uuid(text: &str) -> (r: Option<u128>)
    ensures
        r == uuid_of(text@),
{
    uuid::Uuid::parse_str(text).ok().map(|id| id.as_u128())
}

/// Calls `uuid::Uuid::to_string`: its result is the number in hexadecimal digits, in the five
/// groups of an id, and is an id that stands for that number.
#[verifier::external_body]
pub(crate) fn uuid_string(id: u128) -> (r: String)
    ensures
        r@ == uuid_text(id),
        uuid_of(r@) == Some(id),
{
    uuid::Uuid::from_u128(id).to_string()
}

/// The variables that a text stands for, by their names, where it is a JSON object of
/// strings.
pub uninterp spec fn env_of(text: Seq<char>) -> Option<Seq<(Seq<char>, Seq<char>)>>;

/// Variables as a JSON object.
pub uninterp spec fn env_text(env: Seq<(Seq<char>, Seq<char>)>) -> Seq<char>;

/// Names and values as contracts speak of them.
pub open spec fn pairs(env: Seq<(String, String)>) -> Seq<(Seq<char>, Seq<char>)> {
    env.map_values(|e: (String, String)| (e.0@, e.1@))
}

/// Whether variables stand in the order of their names, each name once.
pub open spec fn in_order(env: Seq<(Seq<char>, Seq<char>)>) -> bool {
    forall|i: int, j: int|
        #![trigger env[i], env[j]]
        0 <= i < j < env.len() ==> less(env[i].0, env[j].0)
}

/// Calls `serde_json::from_str` for a `BTreeMap` of strings: its result depends on the text
/// alone, and a `BTreeMap` gives its entries in the order of their keys, each key once.
#[verifier::external_body]
pub(crate) fn parse_env(text: &str) -> (r: Option<Vec<(String, String)>>)
    ensures
        (match r {
            Some(env) => Some(pairs(env@)),
            None => None,
        }) == env_of(text@),
        r is Some ==> in_order(pairs(r->0@)),
{
    let env: Option<std::collections::BTreeMap<String, String>> = serde_json::from_str(text).ok();
    env.map(|env| env.into_iter().collect())
}

/// Calls `serde_json::to_string` on a `BTreeMap` of strings, which does not fail: its result
/// depends on the entries alone, and stands for them where they are in the order of a
/// `BTreeMap`.
#[verifier::external_body]
pub(crate) fn env_string(env: &Vec<(String, String)>) -> (r: String)
    ensures
        r@ == env_text(pairs(env@)),
        in_order(pairs(env@)) ==> env_of(r@) == Some(pairs(env@)),
{
    let env: std::collections::BTreeMap<&String, &String> = env.iter().map(|e| (&e.0, &e.1)).collect();
    serde_json::to_string(&env).unwrap_or_default()
}

/// What a VM is doing.
#[derive(Debug, Clone, Copy, PartialEq, Eq, Structural)]
pub enum VmState {
    Created,
    Starting,
    Running,
    Stopping,
    Stopped,
    Error,
}

impl VmState {
    /// The state as it is written.
    pub open spec fn name(self) -> Seq<char> {
        match self {
            VmState::Created => "created"@,
            VmState::Starting => "starting"@,
            VmState::Running => "running"@,
            VmState::Stopping => "stopping"@,
            VmState::Stopped => "stopped"@,
            VmState::Error => "error"@,
        }
    }

    /// Whether a process stands behind the VM.
    pub open spec fn live(self) -> bool {
        self is Starting || self is Running || self is Stopping
    }
}

/// The state of a name.
pub open spec fn state_of(name: Seq<char>) -> Option<VmState> {
    if name == "created"@ {
        Some(VmState::Created)
    } else if name == "starting"@ {
        Some(VmState::Starting)
    } else if name == "running"@ {
        Some(VmState::Running)
    } else if name == "stopping"@ {
        Some(VmState::Stopping)
    } else if name == "stopped"@ {
        Some(VmState::Stopped)
    } else if name == "error"@ {
        Some(VmState::Error)
    } else {
        None
    }
}

pub(crate) proof fn names_differ()
    ensures
        forall|s: VmState| #[trigger] state_of(s.name()) == Some(s),
        forall|p: EgressPolicy| #[trigger] policy_of(p.name()) == Some(p),
        forall|p: VmPurpose| #[trigger] purpose_of(p.name()) == Some(p),
{
    reveal_strlit("created");
    reveal_strlit("starting");
    reveal_strlit("running");
    reveal_strlit("stopping");
    reveal_strlit("stopped");
    reveal_strlit("error");
    reveal_strlit("internet");
    reveal_strlit("isolated");
    reveal_strlit("instance");
    reveal_strlit("builder");
    assert("created"@[0] == 'c' && "starting"@[2] == 'a' && "running"@[0] == 'r'
        && "stopping"@[2] == 'o' && "stopped"@[2] == 'o' && "error"@[0] == 'e');
    assert("stopping"@.len() == 8 && "stopped"@.len() == 7 && "starting"@[0] == 's');
    assert("internet"@[1] == 'n' && "isolated"@[1] == 's' && "instance"@[2] == 's'
        && "builder"@[0] == 'b');
    assert forall|s: VmState| #[trigger] state_of(s.name()) == Some(s) by {
        match s {
            VmState::Created => {},
            VmState::Starting => {},
            VmState::Running => {},
            VmState::Stopping => {},
            VmState::Stopped => {},
            VmState::Error => {},
        }
    }
}

/// The state as it is written.
pub fn encode_state(state: VmState) -> (r: &'static str)
    ensures
        r@ == state.name(),
{
    match state {
        VmState::Created => "created",
        VmState::Starting => "starting",
        VmState::Running => "running",
        VmState::Stopping => "stopping",
        VmState::Stopped => "stopped",
        VmState::Error => "error",
    }
}

/// Where a VM may connect to.
#[derive(Debug, Clone, Copy, PartialEq, Eq, Structural)]
pub enum EgressPolicy {
    Internet,
    Isolated,
}

impl EgressPolicy {
    /// The policy as it is written.
    pub open spec fn name(self) -> Seq<char> {
        match self {
            EgressPolicy::Internet => "internet"@,
            EgressPolicy::Isolated => "isolated"@,
        }
    }

    /// The policy as it is written.
    pub fn id(&self) -> (r: &'static str)
        ensures
            r@ == self.name(),
    {
        match self {
            EgressPolicy::Internet => "internet",
            EgressPolicy::Isolated => "isolated",
        }
    }
}

/// The policy of a name.
pub open spec fn policy_of(name: Seq<char>) -> Option<EgressPolicy> {
    if name == "internet"@ {
        Some(EgressPolicy::Internet)
    } else if name == "isolated"@ {
        Some(EgressPolicy::Isolated)
    } else {
        None
    }
}

/// What a VM is for.
#[derive(Debug, Clone, Copy, PartialEq, Eq, Structural)]
pub enum VmPurpose {
    Instance,
    Builder,
}

impl VmPurpose {
    /// The purpose as it is written.
    pub open spec fn name(self) -> Seq<char> {
        match self {
            VmPurpose::Instance => "instance"@,
            VmPurpose::Builder => "builder"@,
        }
    }

    /// The purpose as it is written.
    pub fn id(&self) -> (r: &'static str)
        ensures
            r@ == self.name(),
    {
        match self {
            VmPurpose::Instance => "instance",
            VmPurpose::Builder => "builder",
        }
    }
}

/// The purpose of a name.
pub open spec fn purpose_of(name: Seq<char>) -> Option<VmPurpose> {
    if name == "instance"@ {
        Some(VmPurpose::Instance)
    } else if name == "builder"@ {
        Some(VmPurpose::Builder)
    } else {
        None
    }
}

/// A VM as the database keeps it.
#[derive(Debug, Clone, PartialEq, Eq)]
pub struct VmRecord {
    pub id: u128,
    pub name: String,
    pub purpose: VmPurpose,
    pub state: VmState,
    pub template: String,
    pub template_version: String,
    pub template_kernel_sha256: String,
    pub template_rootfs_sha256: String,
    pub template_boot_args_sha256: String,
    pub cpu: u32,
    pub ram: u32,
    pub disk_gb: u32,
    pub egress_policy: EgressPolicy,
    pub micro_network_id: u128,
    pub storage_root: String,
    pub disk_generation: Option<u128>,
    pub last_runtime_id: Option<u128>,
    /// The VM's variables, in the order of their names.
    pub env: Vec<(String, String)>,
}

/// [`VmRecord`] as contracts speak of it.
pub struct Vm {
    pub id: u128,
    pub name: Seq<char>,
    pub purpose: VmPurpose,
    pub state: VmState,
    pub template: Seq<char>,
    pub template_version: Seq<char>,
    pub template_kernel_sha256: Seq<char>,
    pub template_rootfs_sha256: Seq<char>,
    pub template_boot_args_sha256: Seq<char>,
    pub cpu: u32,
    pub ram: u32,
    pub disk_gb: u32,
    pub egress_policy: EgressPolicy,
    pub micro_network_id: u128,
    pub storage_root: Seq<char>,
    pub disk_generation: Option<u128>,
    pub last_runtime_id: Option<u128>,
    pub env: Seq<(Seq<char>, Seq<char>)>,
}

impl View for VmRecord {
    type V = Vm;

    open spec fn view(&self) -> Vm {
        Vm {
            id: self.id,
            name: self.name@,
            purpose: self.purpose,
            state: self.state,
            template: self.template@,
            template_version: self.template_version@,
            template_kernel_sha256: self.template_kernel_sha256@,
            template_rootfs_sha256: self.template_rootfs_sha256@,
            template_boot_args_sha256: self.template_boot_args_sha256@,
            cpu: self.cpu,
            ram: self.ram,
            disk_gb: self.disk_gb,
            egress_policy: self.egress_policy,
            micro_network_id: self.micro_network_id,
            storage_root: self.storage_root@,
            disk_generation: self.disk_generation,
            last_runtime_id: self.last_runtime_id,
            env: pairs(self.env@),
        }
    }
}

/// The fault of a row that does not hold what it should.
pub open spec fn corrupt(id: Seq<char>, reason: Seq<char>) -> Fault {
    Fault::CorruptRecord { id, reason }
}

pub(crate) fn corrupt_record(id: &str, reason: String) -> (r: PersistenceError)
    ensures
        r@ == corrupt(id@, reason@),
{
    PersistenceError::CorruptRecord { id: id.to_owned(), reason }
}

/// The state that a column stands for.
pub open spec fn state_in(id: Seq<char>, name: Seq<char>) -> Result<VmState, Fault> {
    match state_of(name) {
        Some(state) => Ok(state),
        None => Err(corrupt(id, "unknown state "@ + quoted_text(name))),
    }
}

/// The state that a column stands for.
pub fn decode_state(id: &str, name: &str) -> (r: Result<VmState, PersistenceError>)
    ensures
        super::outcome(r) == state_in(id@, name@),
{
    if same(name, "created") {
        Ok(VmState::Created)
    } else if same(name, "starting") {
        Ok(VmState::Starting)
    } else if same(name, "running") {
        Ok(VmState::Running)
    } else if same(name, "stopping") {
        Ok(VmState::Stopping)
    } else if same(name, "stopped") {
        Ok(VmState::Stopped)
    } else if same(name, "error") {
        Ok(VmState::Error)
    } else {
        Err(corrupt_record(id, "unknown state ".to_owned().concat(&quoted(name))))
    }
}

/// The policy that a column stands for.
pub open spec fn policy_in(id: Seq<char>, name: Seq<char>) -> Result<EgressPolicy, Fault> {
    match policy_of(name) {
        Some(policy) => Ok(policy),
        None => Err(corrupt(id, "unknown egress policy "@ + quoted_text(name))),
    }
}

/// The policy that a column stands for.
pub fn decode_egress_policy(id: &str, policy: &str) -> (r: Result<EgressPolicy, PersistenceError>)
    ensures
        super::outcome(r) == policy_in(id@, policy@),
{
    if same(policy, "internet") {
        Ok(EgressPolicy::Internet)
    } else if same(policy, "isolated") {
        Ok(EgressPolicy::Isolated)
    } else {
        Err(corrupt_record(id, "unknown egress policy ".to_owned().concat(&quoted(policy))))
    }
}

/// The purpose that a column stands for.
pub open spec fn purpose_in(id: Seq<char>, name: Seq<char>) -> Result<VmPurpose, Fault> {
    match purpose_of(name) {
        Some(purpose) => Ok(purpose),
        None => Err(corrupt(id, "unknown purpose "@ + quoted_text(name))),
    }
}

/// The purpose that a column stands for.
pub fn decode_purpose(id: &str, purpose: &str) -> (r: Result<VmPurpose, PersistenceError>)
    ensures
        super::outcome(r) == purpose_in(id@, purpose@),
{
    if same(purpose, "instance") {
        Ok(VmPurpose::Instance)
    } else if same(purpose, "builder") {
        Ok(VmPurpose::Builder)
    } else {
        Err(corrupt_record(id, "unknown purpose ".to_owned().concat(&quoted(purpose))))
    }
}

/// The id that a column stands for; `what` names it where it stands for none.
pub open spec fn id_in(record: Seq<char>, text: Seq<char>, what: Seq<char>) -> Result<u128, Fault> {
    match uuid_of(text) {
        Some(id) => Ok(id),
        None => Err(corrupt(record, what)),
    }
}

/// What a parsed id comes to: the function that reads the column hands it the result.
pub fn required_id(record: &str, parsed: Option<u128>, what: &str) -> (r: Result<
    u128,
    PersistenceError,
>)
    ensures
        super::outcome(r) == match parsed {
            Some(id) => Ok::<u128, Fault>(id),
            None => Err(corrupt(record@, what@)),
        },
{
    match parsed {
        Some(id) => Ok(id),
        None => Err(corrupt_record(record, what.to_owned())),
    }
}

pub(crate) fn decode_id(record: &str, text: &str, what: &str) -> (r: Result<u128, PersistenceError>)
    ensures
        super::outcome(r) == id_in(record@, text@, what@),
{
    required_id(record, parse_uuid(text), what)
}

/// The id that a column stands for, where it holds one.
pub open spec fn optional_id_in(record: Seq<char>, stored: Option<Seq<char>>) -> Result<
    Option<u128>,
    Fault,
> {
    match stored {
        None => Ok(None),
        Some(text) => match uuid_of(text) {
            Some(id) => Ok(Some(id)),
            None => Err(
                corrupt(record, "id column "@ + quoted_text(text) + " is not a UUID"@),
            ),
        },
    }
}

/// The id that a column stands for, where it holds one.
pub fn decode_optional_id(record: &str, stored: Option<String>) -> (r: Result<
    Option<u128>,
    PersistenceError,
>)
    ensures
        super::outcome(r) == optional_id_in(record@, opt_view(stored)),
{
    match stored {
        None => Ok(None),
        Some(text) => {
            let what = "id column ".to_owned().concat(&quoted(&text)).concat(" is not a UUID");
            match required_id(record, parse_uuid(&text), &what) {
                Ok(id) => Ok(Some(id)),
                Err(e) => Err(e),
            }
        },
    }
}

/// The id that a column stands for; it must hold one.
pub open spec fn required_id_in(
    record: Seq<char>,
    stored: Option<Seq<char>>,
    column: Seq<char>,
) -> Result<u128, Fault> {
    match stored {
        None => Err(corrupt(record, column + " is missing"@)),
        Some(text) => match uuid_of(text) {
            Some(id) => Ok(id),
            None => Err(
                corrupt(record, column + " "@ + quoted_text(text) + " is not a UUID"@),
            ),
        },
    }
}

/// The id that a column stands for; it must hold one.
pub fn decode_required_id(record: &str, stored: Option<String>, column: &str) -> (r: Result<
    u128,
    PersistenceError,
>)
    ensures
        super::outcome(r) == required_id_in(record@, opt_view(stored), column@),
{
    match stored {
        None => Err(corrupt_record(record, column.to_owned().concat(" is missing"))),
        Some(text) => {
            let what = column.to_owned().concat(" ").concat(&quoted(&text)).concat(
                " is not a UUID",
            );
            required_id(record, parse_uuid(&text), &what)
        },
    }
}

/// The variables that a column stands for. The fault holds nothing of the column, which may
/// hold secrets.
pub open spec fn env_in(id: Seq<char>, raw: Seq<char>) -> Result<
    Seq<(Seq<char>, Seq<char>)>,
    Fault,
> {
    match env_of(raw) {
        Some(env) => Ok(env),
        None => Err(corrupt(id, "env is not a JSON object of strings"@)),
    }
}

/// The variables that a column stands for.
pub fn decode_env(id: &str, raw: &str) -> (r: Result<Vec<(String, String)>, PersistenceError>)
    ensures
        (match r {
            Ok(env) => Ok::<Seq<(Seq<char>, Seq<char>)>, Fault>(pairs(env@)),
            Err(e) => Err(e@),
        }) == env_in(id@, raw@),
        r is Ok ==> in_order(pairs(r->Ok_0@)),
{
    match parse_env(raw) {
        Some(env) => Ok(env),
        None => Err(
            corrupt_record(id, "env is not a JSON object of strings".to_owned()),
        ),
    }
}

/// Some id as it is written, or nothing.
pub open spec fn id_cell(id: Option<u128>) -> Cell {
    match id {
        Some(id) => Cell::Text(uuid_text(id)),
        None => Cell::Null,
    }
}

/// The row that keeps a record.
pub open spec fn row_of(vm: Vm) -> Seq<Cell> {
    seq![
        Cell::Text(uuid_text(vm.id)),
        Cell::Text(vm.name),
        Cell::Text(vm.state.name()),
        Cell::Text(vm.template),
        Cell::Text(vm.template_version),
        Cell::Text(vm.template_kernel_sha256),
        Cell::Text(vm.template_rootfs_sha256),
        Cell::Text(vm.template_boot_args_sha256),
        Cell::Integer(vm.cpu as i64),
        Cell::Integer(vm.ram as i64),
        Cell::Integer(vm.disk_gb as i64),
        Cell::Text(vm.egress_policy.name()),
        Cell::Text(uuid_text(vm.micro_network_id)),
        Cell::Text(vm.storage_root),
        id_cell(vm.disk_generation),
        id_cell(vm.last_runtime_id),
        Cell::Text(vm.purpose.name()),
        Cell::Text(env_text(vm.env)),
    ]
}

/// What is wrong with a row, where something is: the first of what its columns get wrong.
pub open spec fn row_fault(row: Seq<Cell>) -> Option<Fault> {
    let id = text_at(row, 0, "id"@)->Ok_0;
    if text_at(row, 0, "id"@) is Err {
        Some(text_at(row, 0, "id"@)->Err_0)
    } else if uuid_of(id) is None {
        Some(corrupt(id, "id is not a UUID"@))
    } else if text_at(row, 2, "state"@) is Err {
        Some(text_at(row, 2, "state"@)->Err_0)
    } else if text_at(row, 1, "name"@) is Err {
        Some(text_at(row, 1, "name"@)->Err_0)
    } else if text_at(row, 16, "purpose"@) is Err {
        Some(text_at(row, 16, "purpose"@)->Err_0)
    } else if purpose_in(id, text_at(row, 16, "purpose"@)->Ok_0) is Err {
        Some(purpose_in(id, text_at(row, 16, "purpose"@)->Ok_0)->Err_0)
    } else if state_in(id, text_at(row, 2, "state"@)->Ok_0) is Err {
        Some(state_in(id, text_at(row, 2, "state"@)->Ok_0)->Err_0)
    } else if text_at(row, 3, "template"@) is Err {
        Some(text_at(row, 3, "template"@)->Err_0)
    } else if text_at(row, 4, "template_version"@) is Err {
        Some(text_at(row, 4, "template_version"@)->Err_0)
    } else if text_at(row, 5, "template_kernel_sha256"@) is Err {
        Some(text_at(row, 5, "template_kernel_sha256"@)->Err_0)
    } else if text_at(row, 6, "template_rootfs_sha256"@) is Err {
        Some(text_at(row, 6, "template_rootfs_sha256"@)->Err_0)
    } else if text_at(row, 7, "template_boot_args_sha256"@) is Err {
        Some(text_at(row, 7, "template_boot_args_sha256"@)->Err_0)
    } else if u32_at(row, 8, "cpu"@) is Err {
        Some(u32_at(row, 8, "cpu"@)->Err_0)
    } else if u32_at(row, 9, "ram"@) is Err {
        Some(u32_at(row, 9, "ram"@)->Err_0)
    } else if u32_at(row, 10, "disk_gb"@) is Err {
        Some(u32_at(row, 10, "disk_gb"@)->Err_0)
    } else if text_at(row, 11, "egress_policy"@) is Err {
        Some(text_at(row, 11, "egress_policy"@)->Err_0)
    } else if policy_in(id, text_at(row, 11, "egress_policy"@)->Ok_0) is Err {
        Some(policy_in(id, text_at(row, 11, "egress_policy"@)->Ok_0)->Err_0)
    } else if opt_text_at(row, 12, "micro_network_id"@) is Err {
        Some(opt_text_at(row, 12, "micro_network_id"@)->Err_0)
    } else if required_id_in(id, opt_text_at(row, 12, "micro_network_id"@)->Ok_0, "micro_network_id"@) is Err {
        Some(required_id_in(id, opt_text_at(row, 12, "micro_network_id"@)->Ok_0, "micro_network_id"@)->Err_0)
    } else if text_at(row, 13, "storage_root"@) is Err {
        Some(text_at(row, 13, "storage_root"@)->Err_0)
    } else if opt_text_at(row, 14, "disk_generation"@) is Err {
        Some(opt_text_at(row, 14, "disk_generation"@)->Err_0)
    } else if optional_id_in(id, opt_text_at(row, 14, "disk_generation"@)->Ok_0) is Err {
        Some(optional_id_in(id, opt_text_at(row, 14, "disk_generation"@)->Ok_0)->Err_0)
    } else if opt_text_at(row, 15, "last_runtime_id"@) is Err {
        Some(opt_text_at(row, 15, "last_runtime_id"@)->Err_0)
    } else if optional_id_in(id, opt_text_at(row, 15, "last_runtime_id"@)->Ok_0) is Err {
        Some(optional_id_in(id, opt_text_at(row, 15, "last_runtime_id"@)->Ok_0)->Err_0)
    } else if text_at(row, 17, "env"@) is Err {
        Some(text_at(row, 17, "env"@)->Err_0)
    } else if env_in(id, text_at(row, 17, "env"@)->Ok_0) is Err {
        Some(env_in(id, text_at(row, 17, "env"@)->Ok_0)->Err_0)
    } else {
        None
    }
}

/// The record that a row keeps, where nothing is wrong with the row.
pub open spec fn vm_of(row: Seq<Cell>) -> Vm {
    let id = text_at(row, 0, "id"@)->Ok_0;
    Vm {
        id: uuid_of(id)->0,
        name: text_at(row, 1, "name"@)->Ok_0,
        purpose: purpose_of(text_at(row, 16, "purpose"@)->Ok_0)->0,
        state: state_of(text_at(row, 2, "state"@)->Ok_0)->0,
        template: text_at(row, 3, "template"@)->Ok_0,
        template_version: text_at(row, 4, "template_version"@)->Ok_0,
        template_kernel_sha256: text_at(row, 5, "template_kernel_sha256"@)->Ok_0,
        template_rootfs_sha256: text_at(row, 6, "template_rootfs_sha256"@)->Ok_0,
        template_boot_args_sha256: text_at(row, 7, "template_boot_args_sha256"@)->Ok_0,
        cpu: u32_at(row, 8, "cpu"@)->Ok_0,
        ram: u32_at(row, 9, "ram"@)->Ok_0,
        disk_gb: u32_at(row, 10, "disk_gb"@)->Ok_0,
        egress_policy: policy_of(text_at(row, 11, "egress_policy"@)->Ok_0)->0,
        micro_network_id: required_id_in(
            id,
            opt_text_at(row, 12, "micro_network_id"@)->Ok_0,
            "micro_network_id"@,
        )->Ok_0,
        storage_root: text_at(row, 13, "storage_root"@)->Ok_0,
        disk_generation: optional_id_in(id, opt_text_at(row, 14, "disk_generation"@)->Ok_0)->Ok_0,
        last_runtime_id: optional_id_in(id, opt_text_at(row, 15, "last_runtime_id"@)->Ok_0)->Ok_0,
        env: env_of(text_at(row, 17, "env"@)->Ok_0)->0,
    }
}

/// The record that a row keeps, or what is wrong with the row.
pub open spec fn decoded(row: Seq<Cell>) -> Result<Vm, Fault> {
    match row_fault(row) {
        Some(fault) => Err(fault),
        None => Ok(vm_of(row)),
    }
}

/// The record that a row keeps.
pub fn decode_record(row: &Vec<Value>) -> (r: Result<VmRecord, PersistenceError>)
    ensures
        shown(r) == decoded(cells(row@)),
        r is Ok ==> in_order(r->Ok_0@.env),
{
    let id_text = text_of(row, 0, "id")?;
    let id: u128 = decode_id(&id_text, &id_text, "id is not a UUID")?;
    let state_text = text_of(row, 2, "state")?;
    let name = text_of(row, 1, "name")?;
    let purpose_text = text_of(row, 16, "purpose")?;
    let purpose = decode_purpose(&id_text, &purpose_text)?;
    let state = decode_state(&id_text, &state_text)?;
    let template = text_of(row, 3, "template")?;
    let template_version = text_of(row, 4, "template_version")?;
    let template_kernel_sha256 = text_of(row, 5, "template_kernel_sha256")?;
    let template_rootfs_sha256 = text_of(row, 6, "template_rootfs_sha256")?;
    let template_boot_args_sha256 = text_of(row, 7, "template_boot_args_sha256")?;
    let cpu: u32 = u32_of(row, 8, "cpu")?;
    let ram: u32 = u32_of(row, 9, "ram")?;
    let disk_gb: u32 = u32_of(row, 10, "disk_gb")?;
    let policy_text = text_of(row, 11, "egress_policy")?;
    let egress_policy = decode_egress_policy(&id_text, &policy_text)?;
    let network_text = opt_text_of(row, 12, "micro_network_id")?;
    let micro_network_id: u128 = decode_required_id(&id_text, network_text, "micro_network_id")?;
    let storage_root = text_of(row, 13, "storage_root")?;
    let generation_text = opt_text_of(row, 14, "disk_generation")?;
    let disk_generation = decode_optional_id(&id_text, generation_text)?;
    let runtime_text = opt_text_of(row, 15, "last_runtime_id")?;
    let last_runtime_id = decode_optional_id(&id_text, runtime_text)?;
    let env_raw = text_of(row, 17, "env")?;
    let env = decode_env(&id_text, &env_raw)?;
    Ok(
        VmRecord {
            id,
            name,
            purpose,
            state,
            template,
            template_version,
            template_kernel_sha256,
            template_rootfs_sha256,
            template_boot_args_sha256,
            cpu,
            ram,
            disk_gb,
            egress_policy,
            micro_network_id,
            storage_root,
            disk_generation,
            last_runtime_id,
            env,
        },
    )
}

fn id_value(id: Option<u128>) -> (r: Value)
    ensures
        r@ == id_cell(id),
        id is Some ==> uuid_of(uuid_text(id->0)) == id,
{
    match id {
        Some(id) => Value::Text(uuid_string(id)),
        None => Value::Null,
    }
}

/// The row that keeps a record. Reading the row gives the record back.
pub fn encode_record(vm: &VmRecord) -> (r: Vec<Value>)
    ensures
        cells(r@) == row_of(vm@),
        in_order(vm@.env) ==> decoded(cells(r@)) == Ok::<Vm, Fault>(vm@),
{
    let id = uuid_string(vm.id);
    let network = uuid_string(vm.micro_network_id);
    let env = env_string(&vm.env);
    let mut row: Vec<Value> = Vec::new();
    row.push(Value::Text(id));
    row.push(Value::Text(vm.name.clone()));
    row.push(Value::Text(encode_state(vm.state).to_owned()));
    row.push(Value::Text(vm.template.clone()));
    row.push(Value::Text(vm.template_version.clone()));
    row.push(Value::Text(vm.template_kernel_sha256.clone()));
    row.push(Value::Text(vm.template_rootfs_sha256.clone()));
    row.push(Value::Text(vm.template_boot_args_sha256.clone()));
    row.push(Value::Integer(vm.cpu as i64));
    row.push(Value::Integer(vm.ram as i64));
    row.push(Value::Integer(vm.disk_gb as i64));
    row.push(Value::Text(vm.egress_policy.id().to_owned()));
    row.push(Value::Text(network));
    row.push(Value::Text(vm.storage_root.clone()));
    row.push(id_value(vm.disk_generation));
    row.push(id_value(vm.last_runtime_id));
    row.push(Value::Text(vm.purpose.id().to_owned()));
    row.push(Value::Text(env));
    assert(cells(row@) =~= row_of(vm@));
    proof {
        names_differ();
        if in_order(vm@.env) {
            let all = cells(row@);
            assert(row_fault(all) is None);
            assert(vm_of(all) == vm@);
        }
    }
    row
}

} // verus!
