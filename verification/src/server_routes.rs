//! What holds of the routes of the API.

use vstd::prelude::*;

#[allow(unused_imports)]
use crate::server::ROUTES;
#[allow(unused_imports)]
use crate::text::{contains, occurs_at, starts_with};

verus! {

/// Whether a handler does what a word says.
pub open spec fn does(handler: Seq<char>, word: Seq<char>) -> bool {
    contains(handler, "::"@ + word)
}

/// Whether a method is the one for what a handler does: what is only looked at is got, what is
/// made or set going is posted, what is replaced is put or patched, and what goes is deleted.
pub open spec fn method_fits(method: Seq<char>, handler: Seq<char>) -> bool {
    ||| method == "GET"@ && (does(handler, "list_"@) || does(handler, "get_"@) || does(handler, "download_"@) || does(handler, "check_"@) || does(handler, "inspect_"@) || does(handler, "console_"@))
    ||| method == "POST"@ && (does(handler, "create_"@) || does(handler, "start_"@) || does(handler, "stop_"@))
    ||| (method == "PUT"@ || method == "PATCH"@) && (does(handler, "update_"@) || does(handler, "put_"@) || does(handler, "assign_"@))
    ||| method == "DELETE"@ && (does(handler, "delete_"@) || does(handler, "cancel_"@))
}

/// Whether a path is one of those that the part of the API with the handler serves.
pub open spec fn path_fits(path: Seq<char>, handler: Seq<char>) -> bool {
    ||| starts_with(handler, "vms::"@) && starts_with(path, "/api/vms"@)
    ||| starts_with(handler, "network::"@) && starts_with(path, "/api/network"@)
    ||| starts_with(handler, "network::"@) && starts_with(path, "/api/host"@)
    ||| starts_with(handler, "update::"@) && starts_with(path, "/api/update"@)
    ||| starts_with(handler, "microregistry::"@) && starts_with(path, "/api/microregistry"@)
    ||| starts_with(handler, "oci::"@) && starts_with(path, "/api/oci/"@)
    ||| starts_with(handler, "images::"@) && starts_with(path, "/api/images"@)
    ||| starts_with(handler, "kernels::"@) && starts_with(path, "/api/kernels"@)
    ||| starts_with(handler, "bootstrap::"@) && starts_with(path, "/api/images/"@)
    ||| starts_with(handler, "storage::"@) && starts_with(path, "/api/storage"@)
    ||| starts_with(handler, "micro_storages::"@) && starts_with(path, "/api/micro-storages"@)
    ||| starts_with(handler, "micro_networks::"@) && starts_with(path, "/api/micro-networks"@)
    ||| starts_with(handler, "shells::"@) && starts_with(path, "/api/shells"@)
    ||| starts_with(handler, "console::"@) && starts_with(path, "/ws/vms/"@)
}

proof fn route_0_fits()
    ensures
        method_fits("GET"@, "vms::list_vms"@),
        path_fits("/api/vms"@, "vms::list_vms"@),
{
    reveal_strlit("vms::list_vms");
    reveal_strlit("/api/vms");
    reveal_strlit("::");
    reveal_strlit("list_");
    reveal_strlit("vms::");
    reveal_strlit("/api/vms");
    let handler = "vms::list_vms"@;
    let word = "::"@ + "list_"@;
    assert(handler.subrange(3, 10) =~= word);
    assert(occurs_at(handler, word, 3));
    assert(does(handler, "list_"@));
    assert(handler.subrange(0, 5) =~= "vms::"@);
    assert("/api/vms"@.subrange(0, 8) =~= "/api/vms"@);
}

proof fn route_1_fits()
    ensures
        method_fits("POST"@, "vms::create_vm_route"@),
        path_fits("/api/vms"@, "vms::create_vm_route"@),
{
    reveal_strlit("vms::create_vm_route");
    reveal_strlit("/api/vms");
    reveal_strlit("::");
    reveal_strlit("create_");
    reveal_strlit("vms::");
    reveal_strlit("/api/vms");
    let handler = "vms::create_vm_route"@;
    let word = "::"@ + "create_"@;
    assert(handler.subrange(3, 12) =~= word);
    assert(occurs_at(handler, word, 3));
    assert(does(handler, "create_"@));
    assert(handler.subrange(0, 5) =~= "vms::"@);
    assert("/api/vms"@.subrange(0, 8) =~= "/api/vms"@);
}

proof fn route_2_fits()
    ensures
        method_fits("GET"@, "vms::get_vm"@),
        path_fits("/api/vms/{id}"@, "vms::get_vm"@),
{
    reveal_strlit("vms::get_vm");
    reveal_strlit("/api/vms/{id}");
    reveal_strlit("::");
    reveal_strlit("get_");
    reveal_strlit("vms::");
    reveal_strlit("/api/vms");
    let handler = "vms::get_vm"@;
    let word = "::"@ + "get_"@;
    assert(handler.subrange(3, 9) =~= word);
    assert(occurs_at(handler, word, 3));
    assert(does(handler, "get_"@));
    assert(handler.subrange(0, 5) =~= "vms::"@);
    assert("/api/vms/{id}"@.subrange(0, 8) =~= "/api/vms"@);
}

proof fn route_3_fits()
    ensures
        method_fits("PUT"@, "vms::update_vm"@),
        path_fits("/api/vms/{id}"@, "vms::update_vm"@),
{
    reveal_strlit("vms::update_vm");
    reveal_strlit("/api/vms/{id}");
    reveal_strlit("::");
    reveal_strlit("update_");
    reveal_strlit("vms::");
    reveal_strlit("/api/vms");
    let handler = "vms::update_vm"@;
    let word = "::"@ + "update_"@;
    assert(handler.subrange(3, 12) =~= word);
    assert(occurs_at(handler, word, 3));
    assert(does(handler, "update_"@));
    assert(handler.subrange(0, 5) =~= "vms::"@);
    assert("/api/vms/{id}"@.subrange(0, 8) =~= "/api/vms"@);
}

proof fn route_4_fits()
    ensures
        method_fits("DELETE"@, "vms::delete_vm"@),
        path_fits("/api/vms/{id}"@, "vms::delete_vm"@),
{
    reveal_strlit("vms::delete_vm");
    reveal_strlit("/api/vms/{id}");
    reveal_strlit("::");
    reveal_strlit("delete_");
    reveal_strlit("vms::");
    reveal_strlit("/api/vms");
    let handler = "vms::delete_vm"@;
    let word = "::"@ + "delete_"@;
    assert(handler.subrange(3, 12) =~= word);
    assert(occurs_at(handler, word, 3));
    assert(does(handler, "delete_"@));
    assert(handler.subrange(0, 5) =~= "vms::"@);
    assert("/api/vms/{id}"@.subrange(0, 8) =~= "/api/vms"@);
}

proof fn route_5_fits()
    ensures
        method_fits("POST"@, "vms::start_vm_request"@),
        path_fits("/api/vms/{id}/start"@, "vms::start_vm_request"@),
{
    reveal_strlit("vms::start_vm_request");
    reveal_strlit("/api/vms/{id}/start");
    reveal_strlit("::");
    reveal_strlit("start_");
    reveal_strlit("vms::");
    reveal_strlit("/api/vms");
    let handler = "vms::start_vm_request"@;
    let word = "::"@ + "start_"@;
    assert(handler.subrange(3, 11) =~= word);
    assert(occurs_at(handler, word, 3));
    assert(does(handler, "start_"@));
    assert(handler.subrange(0, 5) =~= "vms::"@);
    assert("/api/vms/{id}/start"@.subrange(0, 8) =~= "/api/vms"@);
}

proof fn route_6_fits()
    ensures
        method_fits("POST"@, "vms::stop_vm"@),
        path_fits("/api/vms/{id}/stop"@, "vms::stop_vm"@),
{
    reveal_strlit("vms::stop_vm");
    reveal_strlit("/api/vms/{id}/stop");
    reveal_strlit("::");
    reveal_strlit("stop_");
    reveal_strlit("vms::");
    reveal_strlit("/api/vms");
    let handler = "vms::stop_vm"@;
    let word = "::"@ + "stop_"@;
    assert(handler.subrange(3, 10) =~= word);
    assert(occurs_at(handler, word, 3));
    assert(does(handler, "stop_"@));
    assert(handler.subrange(0, 5) =~= "vms::"@);
    assert("/api/vms/{id}/stop"@.subrange(0, 8) =~= "/api/vms"@);
}

proof fn route_7_fits()
    ensures
        method_fits("GET"@, "vms::get_vm_log"@),
        path_fits("/api/vms/{id}/log"@, "vms::get_vm_log"@),
{
    reveal_strlit("vms::get_vm_log");
    reveal_strlit("/api/vms/{id}/log");
    reveal_strlit("::");
    reveal_strlit("get_");
    reveal_strlit("vms::");
    reveal_strlit("/api/vms");
    let handler = "vms::get_vm_log"@;
    let word = "::"@ + "get_"@;
    assert(handler.subrange(3, 9) =~= word);
    assert(occurs_at(handler, word, 3));
    assert(does(handler, "get_"@));
    assert(handler.subrange(0, 5) =~= "vms::"@);
    assert("/api/vms/{id}/log"@.subrange(0, 8) =~= "/api/vms"@);
}

proof fn route_8_fits()
    ensures
        method_fits("GET"@, "vms::download_ssh_key"@),
        path_fits("/api/vms/{id}/ssh-key"@, "vms::download_ssh_key"@),
{
    reveal_strlit("vms::download_ssh_key");
    reveal_strlit("/api/vms/{id}/ssh-key");
    reveal_strlit("::");
    reveal_strlit("download_");
    reveal_strlit("vms::");
    reveal_strlit("/api/vms");
    let handler = "vms::download_ssh_key"@;
    let word = "::"@ + "download_"@;
    assert(handler.subrange(3, 14) =~= word);
    assert(occurs_at(handler, word, 3));
    assert(does(handler, "download_"@));
    assert(handler.subrange(0, 5) =~= "vms::"@);
    assert("/api/vms/{id}/ssh-key"@.subrange(0, 8) =~= "/api/vms"@);
}

proof fn route_9_fits()
    ensures
        method_fits("GET"@, "vms::get_ssh_host_key"@),
        path_fits("/api/vms/{id}/ssh-host-key"@, "vms::get_ssh_host_key"@),
{
    reveal_strlit("vms::get_ssh_host_key");
    reveal_strlit("/api/vms/{id}/ssh-host-key");
    reveal_strlit("::");
    reveal_strlit("get_");
    reveal_strlit("vms::");
    reveal_strlit("/api/vms");
    let handler = "vms::get_ssh_host_key"@;
    let word = "::"@ + "get_"@;
    assert(handler.subrange(3, 9) =~= word);
    assert(occurs_at(handler, word, 3));
    assert(does(handler, "get_"@));
    assert(handler.subrange(0, 5) =~= "vms::"@);
    assert("/api/vms/{id}/ssh-host-key"@.subrange(0, 8) =~= "/api/vms"@);
}

proof fn route_10_fits()
    ensures
        method_fits("GET"@, "vms::check_ssh_host_key"@),
        path_fits("/api/vms/{id}/ssh-host-key/check"@, "vms::check_ssh_host_key"@),
{
    reveal_strlit("vms::check_ssh_host_key");
    reveal_strlit("/api/vms/{id}/ssh-host-key/check");
    reveal_strlit("::");
    reveal_strlit("check_");
    reveal_strlit("vms::");
    reveal_strlit("/api/vms");
    let handler = "vms::check_ssh_host_key"@;
    let word = "::"@ + "check_"@;
    assert(handler.subrange(3, 11) =~= word);
    assert(occurs_at(handler, word, 3));
    assert(does(handler, "check_"@));
    assert(handler.subrange(0, 5) =~= "vms::"@);
    assert("/api/vms/{id}/ssh-host-key/check"@.subrange(0, 8) =~= "/api/vms"@);
}

proof fn route_11_fits()
    ensures
        method_fits("GET"@, "network::get_network_info"@),
        path_fits("/api/network"@, "network::get_network_info"@),
{
    reveal_strlit("network::get_network_info");
    reveal_strlit("/api/network");
    reveal_strlit("::");
    reveal_strlit("get_");
    reveal_strlit("network::");
    reveal_strlit("/api/network");
    let handler = "network::get_network_info"@;
    let word = "::"@ + "get_"@;
    assert(handler.subrange(7, 13) =~= word);
    assert(occurs_at(handler, word, 7));
    assert(does(handler, "get_"@));
    assert(handler.subrange(0, 9) =~= "network::"@);
    assert("/api/network"@.subrange(0, 12) =~= "/api/network"@);
}

proof fn route_12_fits()
    ensures
        method_fits("GET"@, "network::get_host_status"@),
        path_fits("/api/host"@, "network::get_host_status"@),
{
    reveal_strlit("network::get_host_status");
    reveal_strlit("/api/host");
    reveal_strlit("::");
    reveal_strlit("get_");
    reveal_strlit("network::");
    reveal_strlit("/api/host");
    let handler = "network::get_host_status"@;
    let word = "::"@ + "get_"@;
    assert(handler.subrange(7, 13) =~= word);
    assert(occurs_at(handler, word, 7));
    assert(does(handler, "get_"@));
    assert(handler.subrange(0, 9) =~= "network::"@);
    assert("/api/host"@.subrange(0, 9) =~= "/api/host"@);
}

proof fn route_13_fits()
    ensures
        method_fits("GET"@, "update::get_update_check"@),
        path_fits("/api/update"@, "update::get_update_check"@),
{
    reveal_strlit("update::get_update_check");
    reveal_strlit("/api/update");
    reveal_strlit("::");
    reveal_strlit("get_");
    reveal_strlit("update::");
    reveal_strlit("/api/update");
    let handler = "update::get_update_check"@;
    let word = "::"@ + "get_"@;
    assert(handler.subrange(6, 12) =~= word);
    assert(occurs_at(handler, word, 6));
    assert(does(handler, "get_"@));
    assert(handler.subrange(0, 8) =~= "update::"@);
    assert("/api/update"@.subrange(0, 11) =~= "/api/update"@);
}

proof fn route_14_fits()
    ensures
        method_fits("POST"@, "update::start_update"@),
        path_fits("/api/update"@, "update::start_update"@),
{
    reveal_strlit("update::start_update");
    reveal_strlit("/api/update");
    reveal_strlit("::");
    reveal_strlit("start_");
    reveal_strlit("update::");
    reveal_strlit("/api/update");
    let handler = "update::start_update"@;
    let word = "::"@ + "start_"@;
    assert(handler.subrange(6, 14) =~= word);
    assert(occurs_at(handler, word, 6));
    assert(does(handler, "start_"@));
    assert(handler.subrange(0, 8) =~= "update::"@);
    assert("/api/update"@.subrange(0, 11) =~= "/api/update"@);
}

proof fn route_15_fits()
    ensures
        method_fits("GET"@, "microregistry::list_microregistry"@),
        path_fits("/api/microregistry"@, "microregistry::list_microregistry"@),
{
    reveal_strlit("microregistry::list_microregistry");
    reveal_strlit("/api/microregistry");
    reveal_strlit("::");
    reveal_strlit("list_");
    reveal_strlit("microregistry::");
    reveal_strlit("/api/microregistry");
    let handler = "microregistry::list_microregistry"@;
    let word = "::"@ + "list_"@;
    assert(handler.subrange(13, 20) =~= word);
    assert(occurs_at(handler, word, 13));
    assert(does(handler, "list_"@));
    assert(handler.subrange(0, 15) =~= "microregistry::"@);
    assert("/api/microregistry"@.subrange(0, 18) =~= "/api/microregistry"@);
}

proof fn route_16_fits()
    ensures
        method_fits("POST"@, "microregistry::start_microregistry_register"@),
        path_fits("/api/microregistry/register"@, "microregistry::start_microregistry_register"@),
{
    reveal_strlit("microregistry::start_microregistry_register");
    reveal_strlit("/api/microregistry/register");
    reveal_strlit("::");
    reveal_strlit("start_");
    reveal_strlit("microregistry::");
    reveal_strlit("/api/microregistry");
    let handler = "microregistry::start_microregistry_register"@;
    let word = "::"@ + "start_"@;
    assert(handler.subrange(13, 21) =~= word);
    assert(occurs_at(handler, word, 13));
    assert(does(handler, "start_"@));
    assert(handler.subrange(0, 15) =~= "microregistry::"@);
    assert("/api/microregistry/register"@.subrange(0, 18) =~= "/api/microregistry"@);
}

proof fn route_17_fits()
    ensures
        method_fits("GET"@, "microregistry::get_microregistry_register"@),
        path_fits("/api/microregistry/register/{alias}"@, "microregistry::get_microregistry_register"@),
{
    reveal_strlit("microregistry::get_microregistry_register");
    reveal_strlit("/api/microregistry/register/{alias}");
    reveal_strlit("::");
    reveal_strlit("get_");
    reveal_strlit("microregistry::");
    reveal_strlit("/api/microregistry");
    let handler = "microregistry::get_microregistry_register"@;
    let word = "::"@ + "get_"@;
    assert(handler.subrange(13, 19) =~= word);
    assert(occurs_at(handler, word, 13));
    assert(does(handler, "get_"@));
    assert(handler.subrange(0, 15) =~= "microregistry::"@);
    assert("/api/microregistry/register/{alias}"@.subrange(0, 18) =~= "/api/microregistry"@);
}

proof fn route_18_fits()
    ensures
        method_fits("GET"@, "microregistry::get_docker_hub_credential"@),
        path_fits("/api/microregistry/docker-hub"@, "microregistry::get_docker_hub_credential"@),
{
    reveal_strlit("microregistry::get_docker_hub_credential");
    reveal_strlit("/api/microregistry/docker-hub");
    reveal_strlit("::");
    reveal_strlit("get_");
    reveal_strlit("microregistry::");
    reveal_strlit("/api/microregistry");
    let handler = "microregistry::get_docker_hub_credential"@;
    let word = "::"@ + "get_"@;
    assert(handler.subrange(13, 19) =~= word);
    assert(occurs_at(handler, word, 13));
    assert(does(handler, "get_"@));
    assert(handler.subrange(0, 15) =~= "microregistry::"@);
    assert("/api/microregistry/docker-hub"@.subrange(0, 18) =~= "/api/microregistry"@);
}

proof fn route_19_fits()
    ensures
        method_fits("PUT"@, "microregistry::put_docker_hub_credential"@),
        path_fits("/api/microregistry/docker-hub"@, "microregistry::put_docker_hub_credential"@),
{
    reveal_strlit("microregistry::put_docker_hub_credential");
    reveal_strlit("/api/microregistry/docker-hub");
    reveal_strlit("::");
    reveal_strlit("put_");
    reveal_strlit("microregistry::");
    reveal_strlit("/api/microregistry");
    let handler = "microregistry::put_docker_hub_credential"@;
    let word = "::"@ + "put_"@;
    assert(handler.subrange(13, 19) =~= word);
    assert(occurs_at(handler, word, 13));
    assert(does(handler, "put_"@));
    assert(handler.subrange(0, 15) =~= "microregistry::"@);
    assert("/api/microregistry/docker-hub"@.subrange(0, 18) =~= "/api/microregistry"@);
}

proof fn route_20_fits()
    ensures
        method_fits("DELETE"@, "microregistry::delete_docker_hub_credential"@),
        path_fits("/api/microregistry/docker-hub"@, "microregistry::delete_docker_hub_credential"@),
{
    reveal_strlit("microregistry::delete_docker_hub_credential");
    reveal_strlit("/api/microregistry/docker-hub");
    reveal_strlit("::");
    reveal_strlit("delete_");
    reveal_strlit("microregistry::");
    reveal_strlit("/api/microregistry");
    let handler = "microregistry::delete_docker_hub_credential"@;
    let word = "::"@ + "delete_"@;
    assert(handler.subrange(13, 22) =~= word);
    assert(occurs_at(handler, word, 13));
    assert(does(handler, "delete_"@));
    assert(handler.subrange(0, 15) =~= "microregistry::"@);
    assert("/api/microregistry/docker-hub"@.subrange(0, 18) =~= "/api/microregistry"@);
}

proof fn route_21_fits()
    ensures
        method_fits("GET"@, "oci::inspect_oci_image"@),
        path_fits("/api/oci/inspect"@, "oci::inspect_oci_image"@),
{
    reveal_strlit("oci::inspect_oci_image");
    reveal_strlit("/api/oci/inspect");
    reveal_strlit("::");
    reveal_strlit("inspect_");
    reveal_strlit("oci::");
    reveal_strlit("/api/oci/");
    let handler = "oci::inspect_oci_image"@;
    let word = "::"@ + "inspect_"@;
    assert(handler.subrange(3, 13) =~= word);
    assert(occurs_at(handler, word, 3));
    assert(does(handler, "inspect_"@));
    assert(handler.subrange(0, 5) =~= "oci::"@);
    assert("/api/oci/inspect"@.subrange(0, 9) =~= "/api/oci/"@);
}

proof fn route_22_fits()
    ensures
        method_fits("POST"@, "oci::start_oci_import"@),
        path_fits("/api/oci/import"@, "oci::start_oci_import"@),
{
    reveal_strlit("oci::start_oci_import");
    reveal_strlit("/api/oci/import");
    reveal_strlit("::");
    reveal_strlit("start_");
    reveal_strlit("oci::");
    reveal_strlit("/api/oci/");
    let handler = "oci::start_oci_import"@;
    let word = "::"@ + "start_"@;
    assert(handler.subrange(3, 11) =~= word);
    assert(occurs_at(handler, word, 3));
    assert(does(handler, "start_"@));
    assert(handler.subrange(0, 5) =~= "oci::"@);
    assert("/api/oci/import"@.subrange(0, 9) =~= "/api/oci/"@);
}

proof fn route_23_fits()
    ensures
        method_fits("GET"@, "oci::get_oci_import"@),
        path_fits("/api/oci/import/{alias}"@, "oci::get_oci_import"@),
{
    reveal_strlit("oci::get_oci_import");
    reveal_strlit("/api/oci/import/{alias}");
    reveal_strlit("::");
    reveal_strlit("get_");
    reveal_strlit("oci::");
    reveal_strlit("/api/oci/");
    let handler = "oci::get_oci_import"@;
    let word = "::"@ + "get_"@;
    assert(handler.subrange(3, 9) =~= word);
    assert(occurs_at(handler, word, 3));
    assert(does(handler, "get_"@));
    assert(handler.subrange(0, 5) =~= "oci::"@);
    assert("/api/oci/import/{alias}"@.subrange(0, 9) =~= "/api/oci/"@);
}

proof fn route_24_fits()
    ensures
        method_fits("GET"@, "images::list_images"@),
        path_fits("/api/images"@, "images::list_images"@),
{
    reveal_strlit("images::list_images");
    reveal_strlit("/api/images");
    reveal_strlit("::");
    reveal_strlit("list_");
    reveal_strlit("images::");
    reveal_strlit("/api/images");
    let handler = "images::list_images"@;
    let word = "::"@ + "list_"@;
    assert(handler.subrange(6, 13) =~= word);
    assert(occurs_at(handler, word, 6));
    assert(does(handler, "list_"@));
    assert(handler.subrange(0, 8) =~= "images::"@);
    assert("/api/images"@.subrange(0, 11) =~= "/api/images"@);
}

proof fn route_25_fits()
    ensures
        method_fits("GET"@, "images::list_image_detail"@),
        path_fits("/api/images/{alias}"@, "images::list_image_detail"@),
{
    reveal_strlit("images::list_image_detail");
    reveal_strlit("/api/images/{alias}");
    reveal_strlit("::");
    reveal_strlit("list_");
    reveal_strlit("images::");
    reveal_strlit("/api/images");
    let handler = "images::list_image_detail"@;
    let word = "::"@ + "list_"@;
    assert(handler.subrange(6, 13) =~= word);
    assert(occurs_at(handler, word, 6));
    assert(does(handler, "list_"@));
    assert(handler.subrange(0, 8) =~= "images::"@);
    assert("/api/images/{alias}"@.subrange(0, 11) =~= "/api/images"@);
}

proof fn route_26_fits()
    ensures
        method_fits("DELETE"@, "images::delete_image"@),
        path_fits("/api/images/{alias}"@, "images::delete_image"@),
{
    reveal_strlit("images::delete_image");
    reveal_strlit("/api/images/{alias}");
    reveal_strlit("::");
    reveal_strlit("delete_");
    reveal_strlit("images::");
    reveal_strlit("/api/images");
    let handler = "images::delete_image"@;
    let word = "::"@ + "delete_"@;
    assert(handler.subrange(6, 15) =~= word);
    assert(occurs_at(handler, word, 6));
    assert(does(handler, "delete_"@));
    assert(handler.subrange(0, 8) =~= "images::"@);
    assert("/api/images/{alias}"@.subrange(0, 11) =~= "/api/images"@);
}

proof fn route_27_fits()
    ensures
        method_fits("PUT"@, "images::update_image_kernel"@),
        path_fits("/api/images/{alias}/kernel"@, "images::update_image_kernel"@),
{
    reveal_strlit("images::update_image_kernel");
    reveal_strlit("/api/images/{alias}/kernel");
    reveal_strlit("::");
    reveal_strlit("update_");
    reveal_strlit("images::");
    reveal_strlit("/api/images");
    let handler = "images::update_image_kernel"@;
    let word = "::"@ + "update_"@;
    assert(handler.subrange(6, 15) =~= word);
    assert(occurs_at(handler, word, 6));
    assert(does(handler, "update_"@));
    assert(handler.subrange(0, 8) =~= "images::"@);
    assert("/api/images/{alias}/kernel"@.subrange(0, 11) =~= "/api/images"@);
}

proof fn route_28_fits()
    ensures
        method_fits("GET"@, "kernels::list_kernels"@),
        path_fits("/api/kernels"@, "kernels::list_kernels"@),
{
    reveal_strlit("kernels::list_kernels");
    reveal_strlit("/api/kernels");
    reveal_strlit("::");
    reveal_strlit("list_");
    reveal_strlit("kernels::");
    reveal_strlit("/api/kernels");
    let handler = "kernels::list_kernels"@;
    let word = "::"@ + "list_"@;
    assert(handler.subrange(7, 14) =~= word);
    assert(occurs_at(handler, word, 7));
    assert(does(handler, "list_"@));
    assert(handler.subrange(0, 9) =~= "kernels::"@);
    assert("/api/kernels"@.subrange(0, 12) =~= "/api/kernels"@);
}

proof fn route_29_fits()
    ensures
        method_fits("DELETE"@, "kernels::delete_kernel"@),
        path_fits("/api/kernels/{version}"@, "kernels::delete_kernel"@),
{
    reveal_strlit("kernels::delete_kernel");
    reveal_strlit("/api/kernels/{version}");
    reveal_strlit("::");
    reveal_strlit("delete_");
    reveal_strlit("kernels::");
    reveal_strlit("/api/kernels");
    let handler = "kernels::delete_kernel"@;
    let word = "::"@ + "delete_"@;
    assert(handler.subrange(7, 16) =~= word);
    assert(occurs_at(handler, word, 7));
    assert(does(handler, "delete_"@));
    assert(handler.subrange(0, 9) =~= "kernels::"@);
    assert("/api/kernels/{version}"@.subrange(0, 12) =~= "/api/kernels"@);
}

proof fn route_30_fits()
    ensures
        method_fits("GET"@, "kernels::get_kernel_install"@),
        path_fits("/api/kernels/{version}/install"@, "kernels::get_kernel_install"@),
{
    reveal_strlit("kernels::get_kernel_install");
    reveal_strlit("/api/kernels/{version}/install");
    reveal_strlit("::");
    reveal_strlit("get_");
    reveal_strlit("kernels::");
    reveal_strlit("/api/kernels");
    let handler = "kernels::get_kernel_install"@;
    let word = "::"@ + "get_"@;
    assert(handler.subrange(7, 13) =~= word);
    assert(occurs_at(handler, word, 7));
    assert(does(handler, "get_"@));
    assert(handler.subrange(0, 9) =~= "kernels::"@);
    assert("/api/kernels/{version}/install"@.subrange(0, 12) =~= "/api/kernels"@);
}

proof fn route_31_fits()
    ensures
        method_fits("POST"@, "kernels::start_kernel_install"@),
        path_fits("/api/kernels/{version}/install"@, "kernels::start_kernel_install"@),
{
    reveal_strlit("kernels::start_kernel_install");
    reveal_strlit("/api/kernels/{version}/install");
    reveal_strlit("::");
    reveal_strlit("start_");
    reveal_strlit("kernels::");
    reveal_strlit("/api/kernels");
    let handler = "kernels::start_kernel_install"@;
    let word = "::"@ + "start_"@;
    assert(handler.subrange(7, 15) =~= word);
    assert(occurs_at(handler, word, 7));
    assert(does(handler, "start_"@));
    assert(handler.subrange(0, 9) =~= "kernels::"@);
    assert("/api/kernels/{version}/install"@.subrange(0, 12) =~= "/api/kernels"@);
}

proof fn route_32_fits()
    ensures
        method_fits("GET"@, "images::get_image_install"@),
        path_fits("/api/images/{alias}/install"@, "images::get_image_install"@),
{
    reveal_strlit("images::get_image_install");
    reveal_strlit("/api/images/{alias}/install");
    reveal_strlit("::");
    reveal_strlit("get_");
    reveal_strlit("images::");
    reveal_strlit("/api/images");
    let handler = "images::get_image_install"@;
    let word = "::"@ + "get_"@;
    assert(handler.subrange(6, 12) =~= word);
    assert(occurs_at(handler, word, 6));
    assert(does(handler, "get_"@));
    assert(handler.subrange(0, 8) =~= "images::"@);
    assert("/api/images/{alias}/install"@.subrange(0, 11) =~= "/api/images"@);
}

proof fn route_33_fits()
    ensures
        method_fits("POST"@, "images::start_image_install"@),
        path_fits("/api/images/{alias}/install"@, "images::start_image_install"@),
{
    reveal_strlit("images::start_image_install");
    reveal_strlit("/api/images/{alias}/install");
    reveal_strlit("::");
    reveal_strlit("start_");
    reveal_strlit("images::");
    reveal_strlit("/api/images");
    let handler = "images::start_image_install"@;
    let word = "::"@ + "start_"@;
    assert(handler.subrange(6, 14) =~= word);
    assert(occurs_at(handler, word, 6));
    assert(does(handler, "start_"@));
    assert(handler.subrange(0, 8) =~= "images::"@);
    assert("/api/images/{alias}/install"@.subrange(0, 11) =~= "/api/images"@);
}

proof fn route_34_fits()
    ensures
        method_fits("GET"@, "images::get_image_package"@),
        path_fits("/api/images/{alias}/package"@, "images::get_image_package"@),
{
    reveal_strlit("images::get_image_package");
    reveal_strlit("/api/images/{alias}/package");
    reveal_strlit("::");
    reveal_strlit("get_");
    reveal_strlit("images::");
    reveal_strlit("/api/images");
    let handler = "images::get_image_package"@;
    let word = "::"@ + "get_"@;
    assert(handler.subrange(6, 12) =~= word);
    assert(occurs_at(handler, word, 6));
    assert(does(handler, "get_"@));
    assert(handler.subrange(0, 8) =~= "images::"@);
    assert("/api/images/{alias}/package"@.subrange(0, 11) =~= "/api/images"@);
}

proof fn route_35_fits()
    ensures
        method_fits("POST"@, "images::start_image_package"@),
        path_fits("/api/images/{alias}/package"@, "images::start_image_package"@),
{
    reveal_strlit("images::start_image_package");
    reveal_strlit("/api/images/{alias}/package");
    reveal_strlit("::");
    reveal_strlit("start_");
    reveal_strlit("images::");
    reveal_strlit("/api/images");
    let handler = "images::start_image_package"@;
    let word = "::"@ + "start_"@;
    assert(handler.subrange(6, 14) =~= word);
    assert(occurs_at(handler, word, 6));
    assert(does(handler, "start_"@));
    assert(handler.subrange(0, 8) =~= "images::"@);
    assert("/api/images/{alias}/package"@.subrange(0, 11) =~= "/api/images"@);
}

proof fn route_36_fits()
    ensures
        method_fits("DELETE"@, "images::delete_staged_package"@),
        path_fits("/api/images/{alias}/package"@, "images::delete_staged_package"@),
{
    reveal_strlit("images::delete_staged_package");
    reveal_strlit("/api/images/{alias}/package");
    reveal_strlit("::");
    reveal_strlit("delete_");
    reveal_strlit("images::");
    reveal_strlit("/api/images");
    let handler = "images::delete_staged_package"@;
    let word = "::"@ + "delete_"@;
    assert(handler.subrange(6, 15) =~= word);
    assert(occurs_at(handler, word, 6));
    assert(does(handler, "delete_"@));
    assert(handler.subrange(0, 8) =~= "images::"@);
    assert("/api/images/{alias}/package"@.subrange(0, 11) =~= "/api/images"@);
}

proof fn route_37_fits()
    ensures
        method_fits("POST"@, "bootstrap::start_bootstrap"@),
        path_fits("/api/images/{alias}/bootstrap"@, "bootstrap::start_bootstrap"@),
{
    reveal_strlit("bootstrap::start_bootstrap");
    reveal_strlit("/api/images/{alias}/bootstrap");
    reveal_strlit("::");
    reveal_strlit("start_");
    reveal_strlit("bootstrap::");
    reveal_strlit("/api/images/");
    let handler = "bootstrap::start_bootstrap"@;
    let word = "::"@ + "start_"@;
    assert(handler.subrange(9, 17) =~= word);
    assert(occurs_at(handler, word, 9));
    assert(does(handler, "start_"@));
    assert(handler.subrange(0, 11) =~= "bootstrap::"@);
    assert("/api/images/{alias}/bootstrap"@.subrange(0, 12) =~= "/api/images/"@);
}

proof fn route_38_fits()
    ensures
        method_fits("GET"@, "bootstrap::get_active_bootstrap"@),
        path_fits("/api/images/bootstrap"@, "bootstrap::get_active_bootstrap"@),
{
    reveal_strlit("bootstrap::get_active_bootstrap");
    reveal_strlit("/api/images/bootstrap");
    reveal_strlit("::");
    reveal_strlit("get_");
    reveal_strlit("bootstrap::");
    reveal_strlit("/api/images/");
    let handler = "bootstrap::get_active_bootstrap"@;
    let word = "::"@ + "get_"@;
    assert(handler.subrange(9, 15) =~= word);
    assert(occurs_at(handler, word, 9));
    assert(does(handler, "get_"@));
    assert(handler.subrange(0, 11) =~= "bootstrap::"@);
    assert("/api/images/bootstrap"@.subrange(0, 12) =~= "/api/images/"@);
}

proof fn route_39_fits()
    ensures
        method_fits("GET"@, "bootstrap::get_bootstrap"@),
        path_fits("/api/images/bootstrap/{bootstrapId}"@, "bootstrap::get_bootstrap"@),
{
    reveal_strlit("bootstrap::get_bootstrap");
    reveal_strlit("/api/images/bootstrap/{bootstrapId}");
    reveal_strlit("::");
    reveal_strlit("get_");
    reveal_strlit("bootstrap::");
    reveal_strlit("/api/images/");
    let handler = "bootstrap::get_bootstrap"@;
    let word = "::"@ + "get_"@;
    assert(handler.subrange(9, 15) =~= word);
    assert(occurs_at(handler, word, 9));
    assert(does(handler, "get_"@));
    assert(handler.subrange(0, 11) =~= "bootstrap::"@);
    assert("/api/images/bootstrap/{bootstrapId}"@.subrange(0, 12) =~= "/api/images/"@);
}

proof fn route_40_fits()
    ensures
        method_fits("DELETE"@, "bootstrap::cancel_bootstrap"@),
        path_fits("/api/images/bootstrap/{bootstrapId}"@, "bootstrap::cancel_bootstrap"@),
{
    reveal_strlit("bootstrap::cancel_bootstrap");
    reveal_strlit("/api/images/bootstrap/{bootstrapId}");
    reveal_strlit("::");
    reveal_strlit("cancel_");
    reveal_strlit("bootstrap::");
    reveal_strlit("/api/images/");
    let handler = "bootstrap::cancel_bootstrap"@;
    let word = "::"@ + "cancel_"@;
    assert(handler.subrange(9, 18) =~= word);
    assert(occurs_at(handler, word, 9));
    assert(does(handler, "cancel_"@));
    assert(handler.subrange(0, 11) =~= "bootstrap::"@);
    assert("/api/images/bootstrap/{bootstrapId}"@.subrange(0, 12) =~= "/api/images/"@);
}

proof fn route_41_fits()
    ensures
        method_fits("GET"@, "storage::list_storage"@),
        path_fits("/api/storage"@, "storage::list_storage"@),
{
    reveal_strlit("storage::list_storage");
    reveal_strlit("/api/storage");
    reveal_strlit("::");
    reveal_strlit("list_");
    reveal_strlit("storage::");
    reveal_strlit("/api/storage");
    let handler = "storage::list_storage"@;
    let word = "::"@ + "list_"@;
    assert(handler.subrange(7, 14) =~= word);
    assert(occurs_at(handler, word, 7));
    assert(does(handler, "list_"@));
    assert(handler.subrange(0, 9) =~= "storage::"@);
    assert("/api/storage"@.subrange(0, 12) =~= "/api/storage"@);
}

proof fn route_42_fits()
    ensures
        method_fits("GET"@, "storage::list_storage_devices"@),
        path_fits("/api/storage/devices"@, "storage::list_storage_devices"@),
{
    reveal_strlit("storage::list_storage_devices");
    reveal_strlit("/api/storage/devices");
    reveal_strlit("::");
    reveal_strlit("list_");
    reveal_strlit("storage::");
    reveal_strlit("/api/storage");
    let handler = "storage::list_storage_devices"@;
    let word = "::"@ + "list_"@;
    assert(handler.subrange(7, 14) =~= word);
    assert(occurs_at(handler, word, 7));
    assert(does(handler, "list_"@));
    assert(handler.subrange(0, 9) =~= "storage::"@);
    assert("/api/storage/devices"@.subrange(0, 12) =~= "/api/storage"@);
}

proof fn route_43_fits()
    ensures
        method_fits("GET"@, "micro_storages::list_micro_storages"@),
        path_fits("/api/micro-storages"@, "micro_storages::list_micro_storages"@),
{
    reveal_strlit("micro_storages::list_micro_storages");
    reveal_strlit("/api/micro-storages");
    reveal_strlit("::");
    reveal_strlit("list_");
    reveal_strlit("micro_storages::");
    reveal_strlit("/api/micro-storages");
    let handler = "micro_storages::list_micro_storages"@;
    let word = "::"@ + "list_"@;
    assert(handler.subrange(14, 21) =~= word);
    assert(occurs_at(handler, word, 14));
    assert(does(handler, "list_"@));
    assert(handler.subrange(0, 16) =~= "micro_storages::"@);
    assert("/api/micro-storages"@.subrange(0, 19) =~= "/api/micro-storages"@);
}

proof fn route_44_fits()
    ensures
        method_fits("POST"@, "micro_storages::create_micro_storage"@),
        path_fits("/api/micro-storages"@, "micro_storages::create_micro_storage"@),
{
    reveal_strlit("micro_storages::create_micro_storage");
    reveal_strlit("/api/micro-storages");
    reveal_strlit("::");
    reveal_strlit("create_");
    reveal_strlit("micro_storages::");
    reveal_strlit("/api/micro-storages");
    let handler = "micro_storages::create_micro_storage"@;
    let word = "::"@ + "create_"@;
    assert(handler.subrange(14, 23) =~= word);
    assert(occurs_at(handler, word, 14));
    assert(does(handler, "create_"@));
    assert(handler.subrange(0, 16) =~= "micro_storages::"@);
    assert("/api/micro-storages"@.subrange(0, 19) =~= "/api/micro-storages"@);
}

proof fn route_45_fits()
    ensures
        method_fits("GET"@, "micro_storages::get_micro_storage"@),
        path_fits("/api/micro-storages/{id}"@, "micro_storages::get_micro_storage"@),
{
    reveal_strlit("micro_storages::get_micro_storage");
    reveal_strlit("/api/micro-storages/{id}");
    reveal_strlit("::");
    reveal_strlit("get_");
    reveal_strlit("micro_storages::");
    reveal_strlit("/api/micro-storages");
    let handler = "micro_storages::get_micro_storage"@;
    let word = "::"@ + "get_"@;
    assert(handler.subrange(14, 20) =~= word);
    assert(occurs_at(handler, word, 14));
    assert(does(handler, "get_"@));
    assert(handler.subrange(0, 16) =~= "micro_storages::"@);
    assert("/api/micro-storages/{id}"@.subrange(0, 19) =~= "/api/micro-storages"@);
}

proof fn route_46_fits()
    ensures
        method_fits("DELETE"@, "micro_storages::delete_micro_storage"@),
        path_fits("/api/micro-storages/{id}"@, "micro_storages::delete_micro_storage"@),
{
    reveal_strlit("micro_storages::delete_micro_storage");
    reveal_strlit("/api/micro-storages/{id}");
    reveal_strlit("::");
    reveal_strlit("delete_");
    reveal_strlit("micro_storages::");
    reveal_strlit("/api/micro-storages");
    let handler = "micro_storages::delete_micro_storage"@;
    let word = "::"@ + "delete_"@;
    assert(handler.subrange(14, 23) =~= word);
    assert(occurs_at(handler, word, 14));
    assert(does(handler, "delete_"@));
    assert(handler.subrange(0, 16) =~= "micro_storages::"@);
    assert("/api/micro-storages/{id}"@.subrange(0, 19) =~= "/api/micro-storages"@);
}

proof fn route_47_fits()
    ensures
        method_fits("PUT"@, "vms::assign_vm_storage"@),
        path_fits("/api/vms/{id}/storage"@, "vms::assign_vm_storage"@),
{
    reveal_strlit("vms::assign_vm_storage");
    reveal_strlit("/api/vms/{id}/storage");
    reveal_strlit("::");
    reveal_strlit("assign_");
    reveal_strlit("vms::");
    reveal_strlit("/api/vms");
    let handler = "vms::assign_vm_storage"@;
    let word = "::"@ + "assign_"@;
    assert(handler.subrange(3, 12) =~= word);
    assert(occurs_at(handler, word, 3));
    assert(does(handler, "assign_"@));
    assert(handler.subrange(0, 5) =~= "vms::"@);
    assert("/api/vms/{id}/storage"@.subrange(0, 8) =~= "/api/vms"@);
}

proof fn route_48_fits()
    ensures
        method_fits("GET"@, "micro_networks::list_micro_networks"@),
        path_fits("/api/micro-networks"@, "micro_networks::list_micro_networks"@),
{
    reveal_strlit("micro_networks::list_micro_networks");
    reveal_strlit("/api/micro-networks");
    reveal_strlit("::");
    reveal_strlit("list_");
    reveal_strlit("micro_networks::");
    reveal_strlit("/api/micro-networks");
    let handler = "micro_networks::list_micro_networks"@;
    let word = "::"@ + "list_"@;
    assert(handler.subrange(14, 21) =~= word);
    assert(occurs_at(handler, word, 14));
    assert(does(handler, "list_"@));
    assert(handler.subrange(0, 16) =~= "micro_networks::"@);
    assert("/api/micro-networks"@.subrange(0, 19) =~= "/api/micro-networks"@);
}

proof fn route_49_fits()
    ensures
        method_fits("POST"@, "micro_networks::create_micro_network"@),
        path_fits("/api/micro-networks"@, "micro_networks::create_micro_network"@),
{
    reveal_strlit("micro_networks::create_micro_network");
    reveal_strlit("/api/micro-networks");
    reveal_strlit("::");
    reveal_strlit("create_");
    reveal_strlit("micro_networks::");
    reveal_strlit("/api/micro-networks");
    let handler = "micro_networks::create_micro_network"@;
    let word = "::"@ + "create_"@;
    assert(handler.subrange(14, 23) =~= word);
    assert(occurs_at(handler, word, 14));
    assert(does(handler, "create_"@));
    assert(handler.subrange(0, 16) =~= "micro_networks::"@);
    assert("/api/micro-networks"@.subrange(0, 19) =~= "/api/micro-networks"@);
}

proof fn route_50_fits()
    ensures
        method_fits("GET"@, "micro_networks::get_micro_network"@),
        path_fits("/api/micro-networks/{id}"@, "micro_networks::get_micro_network"@),
{
    reveal_strlit("micro_networks::get_micro_network");
    reveal_strlit("/api/micro-networks/{id}");
    reveal_strlit("::");
    reveal_strlit("get_");
    reveal_strlit("micro_networks::");
    reveal_strlit("/api/micro-networks");
    let handler = "micro_networks::get_micro_network"@;
    let word = "::"@ + "get_"@;
    assert(handler.subrange(14, 20) =~= word);
    assert(occurs_at(handler, word, 14));
    assert(does(handler, "get_"@));
    assert(handler.subrange(0, 16) =~= "micro_networks::"@);
    assert("/api/micro-networks/{id}"@.subrange(0, 19) =~= "/api/micro-networks"@);
}

proof fn route_51_fits()
    ensures
        method_fits("PATCH"@, "micro_networks::update_micro_network"@),
        path_fits("/api/micro-networks/{id}"@, "micro_networks::update_micro_network"@),
{
    reveal_strlit("micro_networks::update_micro_network");
    reveal_strlit("/api/micro-networks/{id}");
    reveal_strlit("::");
    reveal_strlit("update_");
    reveal_strlit("micro_networks::");
    reveal_strlit("/api/micro-networks");
    let handler = "micro_networks::update_micro_network"@;
    let word = "::"@ + "update_"@;
    assert(handler.subrange(14, 23) =~= word);
    assert(occurs_at(handler, word, 14));
    assert(does(handler, "update_"@));
    assert(handler.subrange(0, 16) =~= "micro_networks::"@);
    assert("/api/micro-networks/{id}"@.subrange(0, 19) =~= "/api/micro-networks"@);
}

proof fn route_52_fits()
    ensures
        method_fits("DELETE"@, "micro_networks::delete_micro_network"@),
        path_fits("/api/micro-networks/{id}"@, "micro_networks::delete_micro_network"@),
{
    reveal_strlit("micro_networks::delete_micro_network");
    reveal_strlit("/api/micro-networks/{id}");
    reveal_strlit("::");
    reveal_strlit("delete_");
    reveal_strlit("micro_networks::");
    reveal_strlit("/api/micro-networks");
    let handler = "micro_networks::delete_micro_network"@;
    let word = "::"@ + "delete_"@;
    assert(handler.subrange(14, 23) =~= word);
    assert(occurs_at(handler, word, 14));
    assert(does(handler, "delete_"@));
    assert(handler.subrange(0, 16) =~= "micro_networks::"@);
    assert("/api/micro-networks/{id}"@.subrange(0, 19) =~= "/api/micro-networks"@);
}

proof fn route_53_fits()
    ensures
        method_fits("GET"@, "shells::list_shells"@),
        path_fits("/api/shells"@, "shells::list_shells"@),
{
    reveal_strlit("shells::list_shells");
    reveal_strlit("/api/shells");
    reveal_strlit("::");
    reveal_strlit("list_");
    reveal_strlit("shells::");
    reveal_strlit("/api/shells");
    let handler = "shells::list_shells"@;
    let word = "::"@ + "list_"@;
    assert(handler.subrange(6, 13) =~= word);
    assert(occurs_at(handler, word, 6));
    assert(does(handler, "list_"@));
    assert(handler.subrange(0, 8) =~= "shells::"@);
    assert("/api/shells"@.subrange(0, 11) =~= "/api/shells"@);
}

proof fn route_54_fits()
    ensures
        method_fits("POST"@, "shells::create_shell"@),
        path_fits("/api/shells"@, "shells::create_shell"@),
{
    reveal_strlit("shells::create_shell");
    reveal_strlit("/api/shells");
    reveal_strlit("::");
    reveal_strlit("create_");
    reveal_strlit("shells::");
    reveal_strlit("/api/shells");
    let handler = "shells::create_shell"@;
    let word = "::"@ + "create_"@;
    assert(handler.subrange(6, 15) =~= word);
    assert(occurs_at(handler, word, 6));
    assert(does(handler, "create_"@));
    assert(handler.subrange(0, 8) =~= "shells::"@);
    assert("/api/shells"@.subrange(0, 11) =~= "/api/shells"@);
}

proof fn route_55_fits()
    ensures
        method_fits("GET"@, "shells::get_shell"@),
        path_fits("/api/shells/{id}"@, "shells::get_shell"@),
{
    reveal_strlit("shells::get_shell");
    reveal_strlit("/api/shells/{id}");
    reveal_strlit("::");
    reveal_strlit("get_");
    reveal_strlit("shells::");
    reveal_strlit("/api/shells");
    let handler = "shells::get_shell"@;
    let word = "::"@ + "get_"@;
    assert(handler.subrange(6, 12) =~= word);
    assert(occurs_at(handler, word, 6));
    assert(does(handler, "get_"@));
    assert(handler.subrange(0, 8) =~= "shells::"@);
    assert("/api/shells/{id}"@.subrange(0, 11) =~= "/api/shells"@);
}

proof fn route_56_fits()
    ensures
        method_fits("DELETE"@, "shells::delete_shell"@),
        path_fits("/api/shells/{id}"@, "shells::delete_shell"@),
{
    reveal_strlit("shells::delete_shell");
    reveal_strlit("/api/shells/{id}");
    reveal_strlit("::");
    reveal_strlit("delete_");
    reveal_strlit("shells::");
    reveal_strlit("/api/shells");
    let handler = "shells::delete_shell"@;
    let word = "::"@ + "delete_"@;
    assert(handler.subrange(6, 15) =~= word);
    assert(occurs_at(handler, word, 6));
    assert(does(handler, "delete_"@));
    assert(handler.subrange(0, 8) =~= "shells::"@);
    assert("/api/shells/{id}"@.subrange(0, 11) =~= "/api/shells"@);
}

proof fn route_57_fits()
    ensures
        method_fits("POST"@, "shells::create_shell_revision"@),
        path_fits("/api/shells/{id}/revisions"@, "shells::create_shell_revision"@),
{
    reveal_strlit("shells::create_shell_revision");
    reveal_strlit("/api/shells/{id}/revisions");
    reveal_strlit("::");
    reveal_strlit("create_");
    reveal_strlit("shells::");
    reveal_strlit("/api/shells");
    let handler = "shells::create_shell_revision"@;
    let word = "::"@ + "create_"@;
    assert(handler.subrange(6, 15) =~= word);
    assert(occurs_at(handler, word, 6));
    assert(does(handler, "create_"@));
    assert(handler.subrange(0, 8) =~= "shells::"@);
    assert("/api/shells/{id}/revisions"@.subrange(0, 11) =~= "/api/shells"@);
}

proof fn route_58_fits()
    ensures
        method_fits("GET"@, "shells::get_shell_revision"@),
        path_fits("/api/shells/{id}/revisions/{revision_id}"@, "shells::get_shell_revision"@),
{
    reveal_strlit("shells::get_shell_revision");
    reveal_strlit("/api/shells/{id}/revisions/{revision_id}");
    reveal_strlit("::");
    reveal_strlit("get_");
    reveal_strlit("shells::");
    reveal_strlit("/api/shells");
    let handler = "shells::get_shell_revision"@;
    let word = "::"@ + "get_"@;
    assert(handler.subrange(6, 12) =~= word);
    assert(occurs_at(handler, word, 6));
    assert(does(handler, "get_"@));
    assert(handler.subrange(0, 8) =~= "shells::"@);
    assert("/api/shells/{id}/revisions/{revision_id}"@.subrange(0, 11) =~= "/api/shells"@);
}

proof fn route_59_fits()
    ensures
        method_fits("PUT"@, "vms::update_vm_shells"@),
        path_fits("/api/vms/{id}/shells"@, "vms::update_vm_shells"@),
{
    reveal_strlit("vms::update_vm_shells");
    reveal_strlit("/api/vms/{id}/shells");
    reveal_strlit("::");
    reveal_strlit("update_");
    reveal_strlit("vms::");
    reveal_strlit("/api/vms");
    let handler = "vms::update_vm_shells"@;
    let word = "::"@ + "update_"@;
    assert(handler.subrange(3, 12) =~= word);
    assert(occurs_at(handler, word, 3));
    assert(does(handler, "update_"@));
    assert(handler.subrange(0, 5) =~= "vms::"@);
    assert("/api/vms/{id}/shells"@.subrange(0, 8) =~= "/api/vms"@);
}

proof fn route_60_fits()
    ensures
        method_fits("PUT"@, "vms::update_vm_port_forwards"@),
        path_fits("/api/vms/{id}/port-forwards"@, "vms::update_vm_port_forwards"@),
{
    reveal_strlit("vms::update_vm_port_forwards");
    reveal_strlit("/api/vms/{id}/port-forwards");
    reveal_strlit("::");
    reveal_strlit("update_");
    reveal_strlit("vms::");
    reveal_strlit("/api/vms");
    let handler = "vms::update_vm_port_forwards"@;
    let word = "::"@ + "update_"@;
    assert(handler.subrange(3, 12) =~= word);
    assert(occurs_at(handler, word, 3));
    assert(does(handler, "update_"@));
    assert(handler.subrange(0, 5) =~= "vms::"@);
    assert("/api/vms/{id}/port-forwards"@.subrange(0, 8) =~= "/api/vms"@);
}

proof fn route_61_fits()
    ensures
        method_fits("GET"@, "console::console_ws"@),
        path_fits("/ws/vms/{id}/console"@, "console::console_ws"@),
{
    reveal_strlit("console::console_ws");
    reveal_strlit("/ws/vms/{id}/console");
    reveal_strlit("::");
    reveal_strlit("console_");
    reveal_strlit("console::");
    reveal_strlit("/ws/vms/");
    let handler = "console::console_ws"@;
    let word = "::"@ + "console_"@;
    assert(handler.subrange(7, 17) =~= word);
    assert(occurs_at(handler, word, 7));
    assert(does(handler, "console_"@));
    assert(handler.subrange(0, 9) =~= "console::"@);
    assert("/ws/vms/{id}/console"@.subrange(0, 8) =~= "/ws/vms/"@);
}

/// Every route of the API has the method for what its handler does, and a path of the part of
/// the API that the handler is of.
pub proof fn routes_do_what_their_methods_say(i: int)
    requires
        0 <= i < 62,
    ensures
        method_fits(ROUTES[i].0@, ROUTES[i].2@),
        path_fits(ROUTES[i].1@, ROUTES[i].2@),
{
    route_0_fits();
    route_1_fits();
    route_2_fits();
    route_3_fits();
    route_4_fits();
    route_5_fits();
    route_6_fits();
    route_7_fits();
    route_8_fits();
    route_9_fits();
    route_10_fits();
    route_11_fits();
    route_12_fits();
    route_13_fits();
    route_14_fits();
    route_15_fits();
    route_16_fits();
    route_17_fits();
    route_18_fits();
    route_19_fits();
    route_20_fits();
    route_21_fits();
    route_22_fits();
    route_23_fits();
    route_24_fits();
    route_25_fits();
    route_26_fits();
    route_27_fits();
    route_28_fits();
    route_29_fits();
    route_30_fits();
    route_31_fits();
    route_32_fits();
    route_33_fits();
    route_34_fits();
    route_35_fits();
    route_36_fits();
    route_37_fits();
    route_38_fits();
    route_39_fits();
    route_40_fits();
    route_41_fits();
    route_42_fits();
    route_43_fits();
    route_44_fits();
    route_45_fits();
    route_46_fits();
    route_47_fits();
    route_48_fits();
    route_49_fits();
    route_50_fits();
    route_51_fits();
    route_52_fits();
    route_53_fits();
    route_54_fits();
    route_55_fits();
    route_56_fits();
    route_57_fits();
    route_58_fits();
    route_59_fits();
    route_60_fits();
    route_61_fits();
    assert(i == 0 || i == 1 || i == 2 || i == 3 || i == 4 || i == 5 || i == 6 || i == 7 || i == 8 || i == 9 || i == 10 || i == 11 || i == 12 || i == 13 || i == 14 || i == 15 || i == 16 || i == 17 || i == 18 || i == 19 || i == 20 || i == 21 || i == 22 || i == 23 || i == 24 || i == 25 || i == 26 || i == 27 || i == 28 || i == 29 || i == 30 || i == 31 || i == 32 || i == 33 || i == 34 || i == 35 || i == 36 || i == 37 || i == 38 || i == 39 || i == 40 || i == 41 || i == 42 || i == 43 || i == 44 || i == 45 || i == 46 || i == 47 || i == 48 || i == 49 || i == 50 || i == 51 || i == 52 || i == 53 || i == 54 || i == 55 || i == 56 || i == 57 || i == 58 || i == 59 || i == 60 || i == 61);
}

} // verus!
