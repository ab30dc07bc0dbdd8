//! Which column keeps what of a VM.

use vstd::prelude::*;

#[allow(unused_imports)]
use super::network::{network_row, Ipv6AddressMode, Network};
#[allow(unused_imports)]
use super::record::{
    decoded, policy_of, purpose_of, row_of, state_of, uuid_of, uuid_text, EgressPolicy, Vm,
    VmPurpose, VmState,
};
#[allow(unused_imports)]
use super::store::{forward_of, forward_row, owned_forward_of, PortForward, PortProtocol};
#[allow(unused_imports)]
use super::{int_at, nullable, opt_int_at, opt_text_at, text_at, u32_at, Cell, Fault};

verus! {

/// The columns of the table of VMs, in their order.
pub open spec fn vm_columns() -> Seq<Seq<char>> {
    seq![
        "id"@,
        "name"@,
        "state"@,
        "template"@,
        "template_version"@,
        "template_kernel_sha256"@,
        "template_rootfs_sha256"@,
        "template_boot_args_sha256"@,
        "cpu"@,
        "ram"@,
        "disk_gb"@,
        "egress_policy"@,
        "micro_network_id"@,
        "storage_root"@,
        "disk_generation"@,
        "last_runtime_id"@,
        "purpose"@,
        "env"@,
    ]
}

/// A VM is kept column by column, in the order in which the table has its columns: its name
/// under `name`, its processors under `cpu`, its memory under `ram`, its disk under `disk_gb`,
/// and so on.
pub proof fn a_vm_is_kept_column_by_column(vm: Vm)
    ensures
        row_of(vm).len() == vm_columns().len(),
        vm_columns()[0] == "id"@ && row_of(vm)[0] == Cell::Text(uuid_text(vm.id)),
        vm_columns()[1] == "name"@ && row_of(vm)[1] == Cell::Text(vm.name),
        vm_columns()[2] == "state"@ && row_of(vm)[2] is Text && state_of(row_of(vm)[2]->Text_0)
            == Some(vm.state),
        vm_columns()[3] == "template"@ && row_of(vm)[3] == Cell::Text(vm.template),
        vm_columns()[4] == "template_version"@ && row_of(vm)[4] == Cell::Text(vm.template_version),
        vm_columns()[5] == "template_kernel_sha256"@ && row_of(vm)[5] == Cell::Text(
            vm.template_kernel_sha256,
        ),
        vm_columns()[6] == "template_rootfs_sha256"@ && row_of(vm)[6] == Cell::Text(
            vm.template_rootfs_sha256,
        ),
        vm_columns()[7] == "template_boot_args_sha256"@ && row_of(vm)[7] == Cell::Text(
            vm.template_boot_args_sha256,
        ),
        vm_columns()[8] == "cpu"@ && row_of(vm)[8] == Cell::Integer(vm.cpu as i64),
        vm_columns()[9] == "ram"@ && row_of(vm)[9] == Cell::Integer(vm.ram as i64),
        vm_columns()[10] == "disk_gb"@ && row_of(vm)[10] == Cell::Integer(vm.disk_gb as i64),
        vm_columns()[11] == "egress_policy"@ && row_of(vm)[11] is Text && policy_of(
            row_of(vm)[11]->Text_0,
        ) == Some(vm.egress_policy),
        vm_columns()[12] == "micro_network_id"@ && row_of(vm)[12] == Cell::Text(
            uuid_text(vm.micro_network_id),
        ),
        vm_columns()[13] == "storage_root"@ && row_of(vm)[13] == Cell::Text(vm.storage_root),
        vm_columns()[14] == "disk_generation"@ && row_of(vm)[14] == match vm.disk_generation {
            Some(id) => Cell::Text(uuid_text(id)),
            None => Cell::Null,
        },
        vm_columns()[15] == "last_runtime_id"@ && row_of(vm)[15] == match vm.last_runtime_id {
            Some(id) => Cell::Text(uuid_text(id)),
            None => Cell::Null,
        },
        vm_columns()[16] == "purpose"@ && row_of(vm)[16] is Text && purpose_of(
            row_of(vm)[16]->Text_0,
        ) == Some(vm.purpose),
        vm_columns()[17] == "env"@,
{
    words_differ();
}

/// A row that stands for a VM holds under each column what the VM has there: nothing is made
/// up, and nothing is taken from another column.
pub proof fn a_row_stands_for_what_it_holds(row: Seq<Cell>)
    requires
        decoded(row) is Ok,
    ensures
        ({
            let vm = decoded(row)->Ok_0;
            &&& row.len() == 18 || row.len() > 18
            &&& row[0] is Text && uuid_of(row[0]->Text_0) == Some(vm.id)
            &&& row[1] == Cell::Text(vm.name)
            &&& row[2] is Text && state_of(row[2]->Text_0) == Some(vm.state)
            &&& row[3] == Cell::Text(vm.template)
            &&& row[4] == Cell::Text(vm.template_version)
            &&& row[5] == Cell::Text(vm.template_kernel_sha256)
            &&& row[6] == Cell::Text(vm.template_rootfs_sha256)
            &&& row[7] == Cell::Text(vm.template_boot_args_sha256)
            &&& row[8] is Integer && row[8]->Integer_0 == vm.cpu
            &&& row[9] is Integer && row[9]->Integer_0 == vm.ram
            &&& row[10] is Integer && row[10]->Integer_0 == vm.disk_gb
            &&& row[11] is Text && policy_of(row[11]->Text_0) == Some(vm.egress_policy)
            &&& row[12] is Text && uuid_of(row[12]->Text_0) == Some(vm.micro_network_id)
            &&& row[13] == Cell::Text(vm.storage_root)
            &&& row[14] is Null <==> vm.disk_generation is None
            &&& row[14] is Text ==> uuid_of(row[14]->Text_0) == vm.disk_generation
            &&& row[15] is Null <==> vm.last_runtime_id is None
            &&& row[15] is Text ==> uuid_of(row[15]->Text_0) == vm.last_runtime_id
            &&& row[16] is Text && purpose_of(row[16]->Text_0) == Some(vm.purpose)
        }),
{
}

proof fn words_differ()
    ensures
        state_of("created"@) == Some(VmState::Created),
        state_of("starting"@) == Some(VmState::Starting),
        state_of("running"@) == Some(VmState::Running),
        state_of("stopping"@) == Some(VmState::Stopping),
        state_of("stopped"@) == Some(VmState::Stopped),
        state_of("error"@) == Some(VmState::Error),
        forall|s: VmState| #[trigger] state_of(s.name()) == Some(s),
        forall|p: EgressPolicy| #[trigger] policy_of(p.name()) == Some(p),
        forall|p: VmPurpose| #[trigger] purpose_of(p.name()) == Some(p),
{
    reveal_strlit("created");
    reveal_strlit("starting");
    reveal_strlit("running");
    reveal_strlit("stopping");
    reveal_strlit("stopped");
    reveal_strlit("error");
    assert("created"@.len() == 7 && "starting"@.len() == 8 && "running"@.len() == 7
        && "stopping"@.len() == 8 && "stopped"@.len() == 7 && "error"@.len() == 5);
    assert("created"@[0] == 'c' && "running"@[0] == 'r' && "stopped"@[0] == 's');
    assert("starting"@[2] == 'a' && "stopping"@[2] == 'o');
    super::record::names_differ();
}

/// Every state is read back from the word that it is written as, and a word that is none of
/// the six stands for no state.
pub proof fn a_state_is_its_word(word: Seq<char>)
    ensures
        forall|s: VmState| state_of(word) == Some(s) <==> word == #[trigger] s.name(),
        state_of(word) is None <==> word != "created"@ && word != "starting"@ && word != "running"@
            && word != "stopping"@ && word != "stopped"@ && word != "error"@,
{
    words_differ();
}

/// A network is kept column by column: id, name, subnet, whether it reaches the internet, the
/// interface that its traffic leaves by, its IPv6 prefix and how addresses are given there.
pub proof fn a_network_is_kept_column_by_column(network: Network)
    ensures
        ({
            let row = network_row(network);
            &&& row.len() == 7
            &&& row[0] == Cell::Text(uuid_text(network.id))
            &&& row[1] == Cell::Text(network.name)
            &&& row[2] == Cell::Text(network.subnet_cidr)
            &&& row[3] is Integer && (row[3]->Integer_0 != 0) == network.internet_enabled
            &&& row[4] == match network.uplink {
                Some(text) => Cell::Text(text),
                None => Cell::Null,
            }
            &&& row[5] == match network.ipv6_cidr {
                Some(text) => Cell::Text(text),
                None => Cell::Null,
            }
            &&& row[6] == match network.ipv6_address_mode {
                Some(Ipv6AddressMode::Slaac) => Cell::Text("slaac"@),
                Some(Ipv6AddressMode::Dhcpv6) => Cell::Text("dhcpv6"@),
                None => Cell::Null,
            }
        }),
{
}

/// A forwarded port is kept with its VM, the port of the host before that of the guest, and
/// its protocol.
pub proof fn a_forwarded_port_is_kept_column_by_column(vm: u128, forward: PortForward)
    ensures
        ({
            let row = forward_row(vm, forward);
            &&& row.len() == 4
            &&& row[0] == Cell::Text(uuid_text(vm))
            &&& row[1] == Cell::Integer(forward.host_port as i64)
            &&& row[2] == Cell::Integer(forward.guest_port as i64)
            &&& row[3] == Cell::Text(
                match forward.protocol {
                    PortProtocol::Tcp => "tcp"@,
                    PortProtocol::Udp => "udp"@,
                },
            )
        }),
{
}

/// A column is read as it was written: a text is that text, a number that number, and nothing
/// is nothing where that may be. A column of another kind, or one that is not there, is never
/// taken for a value.
pub proof fn a_column_is_read_as_it_was_written(
    row: Seq<Cell>,
    column: int,
    name: Seq<char>,
    text: Option<Seq<char>>,
)
    ensures
        0 <= column < row.len() && row[column] == nullable(text) ==> opt_text_at(row, column, name)
            == Ok::<Option<Seq<char>>, Fault>(text),
        text_at(row, column, name) is Ok <==> 0 <= column < row.len() && row[column] is Text,
        text_at(row, column, name) matches Ok(t) ==> row[column] == Cell::Text(t),
        int_at(row, column, name) is Ok <==> 0 <= column < row.len() && row[column] is Integer,
        int_at(row, column, name) matches Ok(n) ==> row[column] == Cell::Integer(n),
        opt_text_at(row, column, name) is Ok <==> 0 <= column < row.len() && (row[column] is Text
            || row[column] is Null),
        opt_int_at(row, column, name) is Ok <==> 0 <= column < row.len() && (row[column] is Integer
            || row[column] is Null),
        opt_int_at(row, column, name) matches Ok(n) ==> row[column] == match n {
            Some(n) => Cell::Integer(n),
            None => Cell::Null,
        },
        u32_at(row, column, name) matches Ok(n) ==> row[column] == Cell::Integer(n as i64),
        u32_at(row, column, name) is Ok <==> 0 <= column < row.len() && row[column] is Integer && 0
            <= row[column]->Integer_0 < 0x1_0000_0000,
{
}

} // verus!
