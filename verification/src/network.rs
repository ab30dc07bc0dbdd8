//! The commands on networks.

use vstd::prelude::*;

use crate::api_client::{ApiClient, HttpRequest};
#[allow(unused_imports)]
use crate::api_client::{asks, DEFAULT_REQUEST_TIMEOUT_SECS};
use crate::persistence::network::MicroNetwork;
#[allow(unused_imports)]
use crate::persistence::record::uuid_text;
use crate::persistence::record::uuid_string;

verus! {

/// A command on networks.
#[derive(Debug)]
pub enum Command {
    /// List the networks.
    List { json: bool },
    /// Make a network.
    Create { name: String, subnet_cidr: String, json: bool },
    /// Remove a network that no VM is in.
    Delete { id: u128, json: bool },
}

/// A network to make. It is connected to the internet, by the interface that the host's
/// default route uses, and has IPv4 alone.
#[derive(Debug, PartialEq, Eq)]
pub struct CreateMicroNetworkRequest {
    pub name: String,
    pub subnet_cidr: String,
    pub internet_enabled: bool,
    pub uplink: Option<String>,
    pub ipv6_cidr: Option<String>,
}

/// What a command asks of the API.
#[derive(Debug)]
pub struct NetworkRequest {
    pub request: HttpRequest,
    pub body: Option<CreateMicroNetworkRequest>,
    /// Whether the answer is shown as JSON.
    pub json: bool,
}

/// What a command asks of the API.
pub fn run(client: &ApiClient, command: Command) -> (r: NetworkRequest)
    ensures
        match command {
            Command::List { json } => {
                &&& asks(
                    r.request,
                    "GET"@,
                    client.base(),
                    "/api/micro-networks"@,
                    DEFAULT_REQUEST_TIMEOUT_SECS,
                )
                &&& r.body is None
                &&& r.json == json
            },
            Command::Create { name, subnet_cidr, json } => {
                &&& asks(
                    r.request,
                    "POST"@,
                    client.base(),
                    "/api/micro-networks"@,
                    DEFAULT_REQUEST_TIMEOUT_SECS,
                )
                &&& r.body == Some(
                    CreateMicroNetworkRequest {
                        name,
                        subnet_cidr,
                        internet_enabled: true,
                        uplink: None,
                        ipv6_cidr: None,
                    },
                )
                &&& r.json == json
            },
            Command::Delete { id, json } => {
                &&& asks(
                    r.request,
                    "DELETE"@,
                    client.base(),
                    "/api/micro-networks/"@ + uuid_text(id),
                    DEFAULT_REQUEST_TIMEOUT_SECS,
                )
                &&& r.body is None
                &&& r.json == json
            },
        },
{
    match command {
        Command::List { json } => NetworkRequest {
            request: client.get("/api/micro-networks"),
            body: None,
            json,
        },
        Command::Create { name, subnet_cidr, json } => NetworkRequest {
            request: client.post("/api/micro-networks"),
            body: Some(
                CreateMicroNetworkRequest {
                    name,
                    subnet_cidr,
                    internet_enabled: true,
                    uplink: None,
                    ipv6_cidr: None,
                },
            ),
            json,
        },
        Command::Delete { id, json } => NetworkRequest {
            request: client.delete(&"/api/micro-networks/".to_owned().concat(&uuid_string(id))),
            body: None,
            json,
        },
    }
}

/// The line of a network, with its id as it is written.
pub open spec fn network_line(id: Seq<char>, network: MicroNetwork) -> Seq<char> {
    id + "\t"@ + network.name@ + "\t"@ + network.subnet_cidr@ + "\t"@ + network.gateway@ + "\t"@ + (
    if network.internet_enabled {
        "yes"@
    } else {
        "no"@
    }) + "\t"@ + (match network.uplink {
        Some(uplink) => uplink@,
        None => "auto"@,
    }) + "\n"@
}

/// A heading and the lines of some networks.
pub open spec fn network_list(networks: Seq<MicroNetwork>) -> Seq<char>
    decreases networks.len(),
{
    if networks.len() == 0 {
        "ID\tNAME\tSUBNET\tGATEWAY\tINTERNET\tUPLINK\n"@
    } else {
        network_list(networks.drop_last()) + network_line(
            uuid_text(networks.last().id),
            networks.last(),
        )
    }
}

/// The line of a network, with its id as it is written.
pub fn format_line(id: &str, network: &MicroNetwork) -> (r: String)
    ensures
        r@ == network_line(id@, *network),
{
    let internet = if network.internet_enabled {
        "yes"
    } else {
        "no"
    };
    let uplink = match &network.uplink {
        Some(uplink) => uplink.clone(),
        None => "auto".to_owned(),
    };
    id.to_owned().concat("\t").concat(&network.name).concat("\t").concat(
        &network.subnet_cidr,
    ).concat("\t").concat(&network.gateway).concat("\t").concat(internet).concat("\t").concat(
        &uplink,
    ).concat("\n")
}

/// A heading and the lines of some networks.
pub fn format_list(networks: &[MicroNetwork]) -> (r: String)
    ensures
        r@ == network_list(networks@),
{
    let mut output = "ID\tNAME\tSUBNET\tGATEWAY\tINTERNET\tUPLINK\n".to_owned();
    let mut i: usize = 0;
    while i < networks.len()
        invariant
            i <= networks@.len(),
            output@ == network_list(networks@.take(i as int)),
        decreases networks@.len() - i,
    {
        assert(networks@.take(i + 1).drop_last() =~= networks@.take(i as int));
        assert(networks@.take(i + 1).last() == networks@[i as int]);
        output = output.concat(&format_line(&uuid_string(networks[i].id), &networks[i]));
        i += 1;
    }
    assert(networks@.take(i as int) =~= networks@);
    output
}

/// What was done with a network, with its id as it is written.
pub fn format_done(action: &str, id: &str, network: &MicroNetwork) -> (r: String)
    ensures
        r@ == action@ + " network "@ + id@ + " ("@ + network.name@ + ", "@ + network.subnet_cidr@
            + ", gateway "@ + network.gateway@ + ")"@,
{
    action.to_owned().concat(" network ").concat(id).concat(" (").concat(&network.name).concat(
        ", ",
    ).concat(&network.subnet_cidr).concat(", gateway ").concat(&network.gateway).concat(")")
}

/// What was done with a network.
pub fn format_one(action: &str, network: &MicroNetwork) -> (r: String)
    ensures
        r@ == action@ + " network "@ + uuid_text(network.id) + " ("@ + network.name@ + ", "@
            + network.subnet_cidr@ + ", gateway "@ + network.gateway@ + ")"@,
{
    format_done(action, &uuid_string(network.id), network)
}

} // verus!
