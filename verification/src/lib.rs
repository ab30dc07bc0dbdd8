use vstd::prelude::*;

pub mod api_client;
pub mod cli_laws;
pub mod dialog;
pub mod digest;
pub mod digest_laws;
pub mod files;
pub mod image;
pub mod network;
pub mod oci;
pub mod path;
pub mod path_laws;
pub mod persistence;
pub mod rootfs;
pub mod server;
pub mod server_laws;
pub mod server_routes;
pub mod service;
pub mod shell;
pub mod status;
pub mod table;
pub mod templates;
pub mod text;
pub mod text_laws;

verus! {

} // verus!
