//! The networks.

use vstd::prelude::*;

#[allow(unused_imports)]
use super::record::{corrupt, id_in, uuid_text};
use super::record::{corrupt_record, decode_id, uuid_string};
#[allow(unused_imports)]
use super::{
    cells, int_at, nullable, opt_text_at, outcome, shown_all, shown_opt, stands, table, text_at,
    Ask, Cell, Fault, Told,
};
use super::{
    int_of, nullable_of, opt_text_of, text_of, PersistenceError, Progress, Query, Reply, Store, Value,
};
use crate::dialog::Steps;
#[allow(unused_imports)]
use crate::dialog::{fresh, seen, stand, Dialog};
#[allow(unused_imports)]
use crate::text::opt_view;
use crate::text::same;
#[allow(unused_imports)]
use crate::text::quoted_text;
use crate::text::quoted;

verus! {

/// How the VMs of a network get their IPv6 addresses.
#[derive(Debug, Clone, Copy, PartialEq, Eq, Structural)]
pub enum Ipv6AddressMode {
    Slaac,
    Dhcpv6,
}

/// How the VMs of a network reach the internet with IPv6.
#[derive(Debug, Clone, Copy, PartialEq, Eq, Structural)]
pub enum Ipv6EgressMode {
    /// Their addresses are translated.
    Nat66,
    /// Their addresses are global.
    Direct,
}

impl Ipv6AddressMode {
    /// The mode as it is written.
    pub open spec fn name(self) -> Seq<char> {
        match self {
            Ipv6AddressMode::Slaac => "slaac"@,
            Ipv6AddressMode::Dhcpv6 => "dhcpv6"@,
        }
    }

    /// The mode as it is written.
    pub fn id(&self) -> (r: &'static str)
        ensures
            r@ == self.name(),
    {
        match self {
            Ipv6AddressMode::Slaac => "slaac",
            Ipv6AddressMode::Dhcpv6 => "dhcpv6",
        }
    }
}

/// A network.
#[derive(Debug, PartialEq, Eq)]
pub struct MicroNetwork {
    pub id: u128,
    pub name: String,
    pub subnet_cidr: String,
    pub gateway: String,
    pub internet_enabled: bool,
    /// The interface of the host that its traffic leaves by, where one was chosen.
    pub uplink: Option<String>,
    pub ipv6_cidr: Option<String>,
    pub ipv6_gateway: Option<String>,
    pub ipv6_address_mode: Option<Ipv6AddressMode>,
    pub ipv6_egress: Option<Ipv6EgressMode>,
}

/// [`MicroNetwork`] as contracts speak of it.
pub struct Network {
    pub id: u128,
    pub name: Seq<char>,
    pub subnet_cidr: Seq<char>,
    pub gateway: Seq<char>,
    pub internet_enabled: bool,
    pub uplink: Option<Seq<char>>,
    pub ipv6_cidr: Option<Seq<char>>,
    pub ipv6_gateway: Option<Seq<char>>,
    pub ipv6_address_mode: Option<Ipv6AddressMode>,
    pub ipv6_egress: Option<Ipv6EgressMode>,
}

impl View for MicroNetwork {
    type V = Network;

    open spec fn view(&self) -> Network {
        Network {
            id: self.id,
            name: self.name@,
            subnet_cidr: self.subnet_cidr@,
            gateway: self.gateway@,
            internet_enabled: self.internet_enabled,
            uplink: opt_view(self.uplink),
            ipv6_cidr: opt_view(self.ipv6_cidr),
            ipv6_gateway: opt_view(self.ipv6_gateway),
            ipv6_address_mode: self.ipv6_address_mode,
            ipv6_egress: self.ipv6_egress,
        }
    }
}

pub const SELECT_ALL_MICRO_NETWORKS_SQL: &'static str = "SELECT id, name, subnet_cidr, internet_enabled, uplink, ipv6_cidr, ipv6_address_mode FROM micro_networks";

pub const INSERT_MICRO_NETWORK_SQL: &'static str = "INSERT INTO micro_networks (id, name, subnet_cidr, internet_enabled, uplink, ipv6_cidr, ipv6_address_mode) VALUES (?1, ?2, ?3, ?4, ?5, ?6, ?7)";

pub const SET_INTERNET_SQL: &'static str = "UPDATE micro_networks SET internet_enabled = ?2 WHERE id = ?1";

pub const SET_UPLINK_SQL: &'static str = "UPDATE micro_networks SET uplink = ?2 WHERE id = ?1";

pub const DELETE_MICRO_NETWORK_SQL: &'static str = "DELETE FROM micro_networks WHERE id = ?1";

/// A choice between two as a column keeps it.
pub open spec fn flag(on: bool) -> Cell {
    Cell::Integer(
        if on {
            1
        } else {
            0
        },
    )
}

/// The row that keeps a network. What can be worked out of the rest is not kept.
pub open spec fn network_row(network: Network) -> Seq<Cell> {
    seq![
        Cell::Text(uuid_text(network.id)),
        Cell::Text(network.name),
        Cell::Text(network.subnet_cidr),
        flag(network.internet_enabled),
        nullable(network.uplink),
        nullable(network.ipv6_cidr),
        match network.ipv6_address_mode {
            Some(mode) => Cell::Text(mode.name()),
            None => Cell::Null,
        },
    ]
}

impl Network {
    /// Whether the IPv6 side of the network is there where it has a prefix, and only there.
    pub open spec fn whole(self) -> bool {
        &&& self.ipv6_cidr is Some <==> self.ipv6_address_mode is Some
        &&& self.ipv6_gateway is Some <==> self.ipv6_egress is Some
        &&& self.ipv6_gateway is Some ==> self.ipv6_cidr is Some
    }

    /// Whether the answers to come work out the network's gateways as they are.
    pub open spec fn worked_out(self, d: Dialog<Ask, Told>) -> bool {
        let (next, told) = d.ask(Ask::Gateway { cidr: self.subnet_cidr });
        &&& told == Told::Gateway(self.gateway)
        &&& self.whole() && self.ipv6_cidr is Some ==> next.ipv6_side(
            self.ipv6_cidr,
            self.ipv6_address_mode->0,
        ).1 == match self.ipv6_gateway {
            Some(gateway) => Some((gateway, self.ipv6_egress->0)),
            None => None,
        }
    }
}

/// What is wrong with the row of a network before its gateway is worked out.
pub open spec fn head_fault(row: Seq<Cell>) -> Option<Fault> {
    let id = text_at(row, 0, "id"@)->Ok_0;
    if text_at(row, 0, "id"@) is Err {
        Some(text_at(row, 0, "id"@)->Err_0)
    } else if id_in(id, id, "id is not a UUID"@) is Err {
        Some(id_in(id, id, "id is not a UUID"@)->Err_0)
    } else if text_at(row, 2, "subnet_cidr"@) is Err {
        Some(text_at(row, 2, "subnet_cidr"@)->Err_0)
    } else {
        None
    }
}

/// What else is wrong with the row of a network.
pub open spec fn tail_fault(row: Seq<Cell>) -> Option<Fault> {
    if text_at(row, 1, "name"@) is Err {
        Some(text_at(row, 1, "name"@)->Err_0)
    } else if int_at(row, 3, "internet_enabled"@) is Err {
        Some(int_at(row, 3, "internet_enabled"@)->Err_0)
    } else if opt_text_at(row, 4, "uplink"@) is Err {
        Some(opt_text_at(row, 4, "uplink"@)->Err_0)
    } else {
        None
    }
}

/// The way that addresses are given in a network with an IPv6 prefix: by the router, unless
/// the column says otherwise.
pub open spec fn mode_in(row: Seq<Cell>) -> Ipv6AddressMode {
    if opt_text_at(row, 6, "ipv6_address_mode"@) == Ok::<Option<Seq<char>>, Fault>(Some("dhcpv6"@)) {
        Ipv6AddressMode::Dhcpv6
    } else {
        Ipv6AddressMode::Slaac
    }
}

impl Dialog<Ask, Told> {
    /// Connects a network to the internet, or cuts it off.
    pub open spec fn set_internet(self, id: u128, on: bool) -> (Self, Result<(), Fault>) {
        self.change(
            SET_INTERNET_SQL@,
            seq![Cell::Text(uuid_text(id)), flag(on)],
            Fault::MissingMicroNetwork { id },
        )
    }

    /// Chooses the interface of the host that a network's traffic leaves by.
    pub open spec fn set_uplink(self, id: u128, uplink: Option<Seq<char>>) -> (
        Self,
        Result<(), Fault>,
    ) {
        self.change(
            SET_UPLINK_SQL@,
            seq![Cell::Text(uuid_text(id)), nullable(uplink)],
            Fault::MissingMicroNetwork { id },
        )
    }

    /// Forgets a network.
    pub open spec fn delete_network(self, id: u128) -> (Self, Result<(), Fault>) {
        self.change(
            DELETE_MICRO_NETWORK_SQL@,
            seq![Cell::Text(uuid_text(id))],
            Fault::MissingMicroNetwork { id },
        )
    }

    /// The IPv6 side of a network: its gateway and its way out are worked out of its prefix.
    pub open spec fn ipv6_side(self, cidr: Option<Seq<char>>, mode: Ipv6AddressMode) -> (
        Self,
        Option<(Seq<char>, Ipv6EgressMode)>,
    ) {
        match cidr {
            None => (self, None),
            Some(cidr) => {
                let (next, told) = self.ask(Ask::Gateway6 { cidr, mode });
                (
                    next,
                    match told {
                        Told::Gateway6(gateway, egress) => Some((gateway, egress)),
                        _ => None,
                    },
                )
            },
        }
    }

    /// The network that a row keeps.
    pub open spec fn network(self, row: Seq<Cell>) -> (Self, Result<Network, Fault>) {
        let id = text_at(row, 0, "id"@)->Ok_0;
        let subnet = text_at(row, 2, "subnet_cidr"@)->Ok_0;
        if head_fault(row) is Some {
            (self, Err(head_fault(row)->0))
        } else {
            let (looked, told) = self.ask(Ask::Gateway { cidr: subnet });
            match told {
                Told::Gateway(gateway) => if opt_text_at(row, 5, "ipv6_cidr"@) is Err {
                    (looked, Err(opt_text_at(row, 5, "ipv6_cidr"@)->Err_0))
                } else {
                    let cidr = opt_text_at(row, 5, "ipv6_cidr"@)->Ok_0;
                    let (done, ipv6) = looked.ipv6_side(cidr, mode_in(row));
                    if tail_fault(row) is Some {
                        (done, Err(tail_fault(row)->0))
                    } else {
                        (
                            done,
                            Ok(
                                Network {
                                    id: id_in(id, id, "id is not a UUID"@)->Ok_0,
                                    name: text_at(row, 1, "name"@)->Ok_0,
                                    subnet_cidr: subnet,
                                    gateway,
                                    internet_enabled: int_at(row, 3, "internet_enabled"@)->Ok_0 != 0,
                                    uplink: opt_text_at(row, 4, "uplink"@)->Ok_0,
                                    ipv6_cidr: cidr,
                                    ipv6_gateway: match ipv6 {
                                        Some(side) => Some(side.0),
                                        None => None,
                                    },
                                    ipv6_address_mode: match cidr {
                                        Some(_) => Some(mode_in(row)),
                                        None => None,
                                    },
                                    ipv6_egress: match ipv6 {
                                        Some(side) => Some(side.1),
                                        None => None,
                                    },
                                },
                            ),
                        )
                    }
                },
                _ => (
                    looked,
                    Err(
                        corrupt(
                            id,
                            "subnet_cidr "@ + quoted_text(subnet) + " does not parse"@,
                        ),
                    ),
                ),
            }
        }
    }

    /// The networks that some rows keep.
    pub open spec fn networks(self, rows: Seq<Seq<Cell>>) -> (Self, Result<Seq<Network>, Fault>)
        decreases rows.len(),
    {
        if rows.len() == 0 {
            (self, Ok(Seq::empty()))
        } else {
            let (before, all) = self.networks(rows.drop_last());
            match all {
                Err(fault) => (before, Err(fault)),
                Ok(all) => {
                    let (next, network) = before.network(rows.last());
                    (
                        next,
                        match network {
                            Err(fault) => Err(fault),
                            Ok(network) => Ok(all.push(network)),
                        },
                    )
                },
            }
        }
    }

    /// All networks.
    pub open spec fn list_micro_networks(self) -> (Self, Result<Seq<Network>, Fault>) {
        let (next, rows) = self.select(SELECT_ALL_MICRO_NETWORKS_SQL@, Seq::empty());
        match rows {
            Err(fault) => (next, Err(fault)),
            Ok(rows) => next.networks(rows),
        }
    }

    /// The first of all networks with that id.
    pub open spec fn micro_network(self, id: u128) -> (Self, Result<Option<Network>, Fault>) {
        let (next, all) = self.list_micro_networks();
        (
            next,
            match all {
                Err(fault) => Err(fault),
                Ok(all) => Ok(with_id(all, id)),
            },
        )
    }
}

/// The first of some networks with that id.
pub open spec fn with_id(all: Seq<Network>, id: u128) -> Option<Network>
    decreases all.len(),
{
    if all.len() == 0 {
        None
    } else if all[0].id == id {
        Some(all[0])
    } else {
        with_id(all.skip(1), id)
    }
}

proof fn a_fault_stays(d: Dialog<Ask, Told>, rows: Seq<Seq<Cell>>, n: int)
    requires
        0 <= n <= rows.len(),
        d.networks(rows.take(n)).1 is Err,
    ensures
        d.networks(rows) == d.networks(rows.take(n)),
    decreases rows.len() - n,
{
    if n == rows.len() {
        assert(rows.take(n) =~= rows);
    } else {
        assert(rows.take(n + 1).drop_last() =~= rows.take(n));
        a_fault_stays(d, rows, n + 1);
    }
}

fn flag_of(on: bool) -> (r: Value)
    ensures
        r@ == flag(on),
{
    if on {
        Value::Integer(1)
    } else {
        Value::Integer(0)
    }
}

impl Steps<Query, Reply> {
    fn network(&mut self, row: &Vec<Value>) -> (r: Result<MicroNetwork, PersistenceError>)
        requires
            old(self).wf(),
        ensures
            final(self).wf(),
            (final(self)@, super::shown(r)) == old(self)@.network(cells(row@)),
    {
        let id_text = text_of(row, 0, "id")?;
        let id: u128 = decode_id(&id_text, &id_text, "id is not a UUID")?;
        let subnet_cidr = text_of(row, 2, "subnet_cidr")?;
        let gateway = match self.ask(Query::Gateway { cidr: subnet_cidr.clone() }) {
            Reply::Gateway(gateway) => gateway,
            _ => {
                return Err(
                    corrupt_record(
                        &id_text,
                        "subnet_cidr ".to_owned().concat(&quoted(&subnet_cidr)).concat(
                            " does not parse",
                        ),
                    ),
                );
            },
        };
        let ipv6_cidr = opt_text_of(row, 5, "ipv6_cidr")?;
        let mode = match opt_text_of(row, 6, "ipv6_address_mode") {
            Ok(Some(text)) => if same(&text, "dhcpv6") {
                Ipv6AddressMode::Dhcpv6
            } else {
                Ipv6AddressMode::Slaac
            },
            _ => Ipv6AddressMode::Slaac,
        };
        let mut ipv6_gateway: Option<String> = None;
        let mut ipv6_address_mode: Option<Ipv6AddressMode> = None;
        let mut ipv6_egress: Option<Ipv6EgressMode> = None;
        if let Some(cidr) = &ipv6_cidr {
            ipv6_address_mode = Some(mode);
            if let Reply::Gateway6(gateway6, egress) = self.ask(
                Query::Gateway6 { cidr: cidr.clone(), mode },
            ) {
                ipv6_gateway = Some(gateway6);
                ipv6_egress = Some(egress);
            }
        }
        let name = text_of(row, 1, "name")?;
        let internet: i64 = int_of(row, 3, "internet_enabled")?;
        let uplink = opt_text_of(row, 4, "uplink")?;
        Ok(
            MicroNetwork {
                id,
                name,
                subnet_cidr,
                gateway,
                internet_enabled: internet != 0,
                uplink,
                ipv6_cidr,
                ipv6_gateway,
                ipv6_address_mode,
                ipv6_egress,
            },
        )
    }

    fn all_networks(&mut self) -> (r: Result<Vec<MicroNetwork>, PersistenceError>)
        requires
            old(self).wf(),
        ensures
            final(self).wf(),
            (final(self)@, shown_all(r)) == old(self)@.list_micro_networks(),
    {
        let none: Vec<Value> = Vec::new();
        assert(cells(none@) =~= Seq::empty());
        let rows = self.select(SELECT_ALL_MICRO_NETWORKS_SQL, none)?;
        let ghost all = table(rows@);
        let ghost start = self@;
        let mut out: Vec<MicroNetwork> = Vec::new();
        let mut i: usize = 0;
        assert(start.networks(all.take(0)).1->Ok_0 =~= Seq::empty());
        assert(seen(out@) =~= Seq::empty());
        while i < rows.len()
            invariant
                self.wf(),
                i <= rows@.len(),
                all == table(rows@),
                (start, Ok::<Seq<Seq<Cell>>, Fault>(all)) == old(self)@.select(
                    SELECT_ALL_MICRO_NETWORKS_SQL@,
                    Seq::empty(),
                ),
                (self@, Ok::<Seq<Network>, Fault>(seen(out@))) == start.networks(
                    all.take(i as int),
                ),
            decreases rows@.len() - i,
        {
            let ghost before = seen(out@);
            assert(all.take(i + 1).drop_last() =~= all.take(i as int));
            assert(all.take(i + 1).last() == cells(rows@[i as int]@));
            match self.network(&rows[i]) {
                Ok(network) => {
                    out.push(network);
                    assert(seen(out@) =~= before.push(network@));
                },
                Err(e) => {
                    proof {
                        a_fault_stays(start, all, i + 1);
                    }
                    return Err(e);
                },
            }
            i += 1;
        }
        assert(all.take(i as int) =~= all);
        Ok(out)
    }
}

impl Store {
    /// Keeps a new network. Reading the row that keeps it gives the network back.
    pub fn insert_micro_network(network: &MicroNetwork, replies: Vec<Reply>) -> (r: Progress<()>)
        ensures
            stands(r, |x: Result<(), PersistenceError>| outcome(x)) == stand(
                fresh(seen(replies@)).perform(INSERT_MICRO_NETWORK_SQL@, network_row(network@)),
            ),
            forall|d: Dialog<Ask, Told>|
                network@.whole() && network@.worked_out(d) ==> (#[trigger] d.network(
                    network_row(network@),
                )).1 == Ok::<Network, Fault>(network@),
    {
        let mut steps = Steps::<Query, Reply>::new(replies);
        let mut params: Vec<Value> = Vec::new();
        params.push(Value::Text(uuid_string(network.id)));
        params.push(Value::Text(network.name.clone()));
        params.push(Value::Text(network.subnet_cidr.clone()));
        params.push(flag_of(network.internet_enabled));
        params.push(nullable_of(&network.uplink));
        params.push(nullable_of(&network.ipv6_cidr));
        params.push(
            match network.ipv6_address_mode {
                Some(mode) => Value::Text(mode.id().to_owned()),
                None => Value::Null,
            },
        );
        assert(cells(params@) =~= network_row(network@));
        proof {
            reveal_strlit("slaac");
            reveal_strlit("dhcpv6");
            assert("slaac"@.len() != "dhcpv6"@.len());
        }
        let result = steps.perform(INSERT_MICRO_NETWORK_SQL, params);
        steps.finish(result)
    }

    /// Connects a network to the internet, or cuts it off.
    pub fn set_micro_network_internet(id: u128, internet_enabled: bool, replies: Vec<Reply>) -> (r:
        Progress<()>)
        ensures
            stands(r, |x: Result<(), PersistenceError>| outcome(x)) == stand(
                fresh(seen(replies@)).set_internet(id, internet_enabled),
            ),
    {
        let mut steps = Steps::<Query, Reply>::new(replies);
        let params = vec![Value::Text(uuid_string(id)), flag_of(internet_enabled)];
        assert(cells(params@) =~= seq![Cell::Text(uuid_text(id)), flag(internet_enabled)]);
        let result = steps.change(
            SET_INTERNET_SQL,
            params,
            PersistenceError::MissingMicroNetwork { id },
        );
        steps.finish(result)
    }

    /// Chooses the interface of the host that a network's traffic leaves by.
    pub fn set_micro_network_uplink(id: u128, uplink: &Option<String>, replies: Vec<Reply>) -> (r:
        Progress<()>)
        ensures
            stands(r, |x: Result<(), PersistenceError>| outcome(x)) == stand(
                fresh(seen(replies@)).set_uplink(id, opt_view(*uplink)),
            ),
    {
        let mut steps = Steps::<Query, Reply>::new(replies);
        let params = vec![Value::Text(uuid_string(id)), nullable_of(uplink)];
        assert(cells(params@) =~= seq![Cell::Text(uuid_text(id)), nullable(opt_view(*uplink))]);
        let result = steps.change(
            SET_UPLINK_SQL,
            params,
            PersistenceError::MissingMicroNetwork { id },
        );
        steps.finish(result)
    }

    /// All networks.
    pub fn list_micro_networks(replies: Vec<Reply>) -> (r: Progress<Vec<MicroNetwork>>)
        ensures
            stands(r, |x: Result<Vec<MicroNetwork>, PersistenceError>| shown_all(x)) == stand(
                fresh(seen(replies@)).list_micro_networks(),
            ),
    {
        let mut steps = Steps::<Query, Reply>::new(replies);
        let result = steps.all_networks();
        steps.finish(result)
    }

    /// The network with that id.
    pub fn micro_network(id: u128, replies: Vec<Reply>) -> (r: Progress<Option<MicroNetwork>>)
        ensures
            stands(r, |x: Result<Option<MicroNetwork>, PersistenceError>| shown_opt(x)) == stand(
                fresh(seen(replies@)).micro_network(id),
            ),
    {
        let mut steps = Steps::<Query, Reply>::new(replies);
        let result = match steps.all_networks() {
            Err(e) => Err(e),
            Ok(networks) => Ok(pick(networks, id)),
        };
        steps.finish(result)
    }

    /// Forgets a network.
    pub fn delete_micro_network(id: u128, replies: Vec<Reply>) -> (r: Progress<()>)
        ensures
            stands(r, |x: Result<(), PersistenceError>| outcome(x)) == stand(
                fresh(seen(replies@)).delete_network(id),
            ),
    {
        let mut steps = Steps::<Query, Reply>::new(replies);
        let params = vec![Value::Text(uuid_string(id))];
        assert(cells(params@) =~= seq![Cell::Text(uuid_text(id))]);
        let result = steps.change(
            DELETE_MICRO_NETWORK_SQL,
            params,
            PersistenceError::MissingMicroNetwork { id },
        );
        steps.finish(result)
    }
}

fn pick(networks: Vec<MicroNetwork>, id: u128) -> (r: Option<MicroNetwork>)
    ensures
        (match r {
            Some(network) => Some(network@),
            None => None,
        }) == with_id(seen(networks@), id),
{
    let mut left = networks;
    let ghost all = seen(networks@);
    let mut i: usize = 0;
    assert(all.skip(0) =~= all);
    while i < left.len()
        invariant
            i <= left@.len(),
            all == seen(left@),
            all == seen(networks@),
            with_id(all.skip(i as int), id) == with_id(all, id),
        decreases left@.len() - i,
    {
        assert(all.skip(i as int)[0] == left@[i as int]@);
        assert(all.skip(i as int).skip(1) =~= all.skip(i + 1));
        if left[i].id == id {
            return Some(left.remove(i));
        }
        i += 1;
    }
    None
}

} // verus!
