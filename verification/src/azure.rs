//! Curated Azure service catalogue: legacy `mxgraph.azure.<key>`
//! stencils drawn in Azure cyan.

use vstd::prelude::*;
use crate::author::{Node, tile_node};
use crate::shapes::{azure_node, azure_style, AZURE_TILE};

verus! {

/// Azure brand cyan, the fill of every `mxgraph.azure.*` stencil.
pub const AZURE_FILL: &'static str = "#00BEF2";

/// Azure Active Directory (Identity).
pub fn active_directory(id: &str, label: &str) -> (r: Node)
    ensures
        r@ == tile_node(id@, label@, AZURE_TILE as int, AZURE_TILE as int, azure_style("azure_active_directory"@)),
{
    azure_node(id, label, "azure_active_directory")
}

/// Entra ID (Identity). Microsoft renamed Azure Active Directory to Entra ID
/// in 2023; the legacy stencil set still carries the old product name, so
/// this is the same glyph as [`active_directory`] under the current name —
/// the one authors reach for in a fresh diagram.
pub fn entra_id(id: &str, label: &str) -> (r: Node)
    ensures
        r@ == tile_node(id@, label@, AZURE_TILE as int, AZURE_TILE as int, azure_style("azure_active_directory"@)),
{
    azure_node(id, label, "azure_active_directory")
}

/// Multi-Factor Authentication (Identity) — the MFA challenge that commonly
/// sits alongside Entra ID in hybrid identity diagrams.
pub fn multi_factor_authentication(id: &str, label: &str) -> (r: Node)
    ensures
        r@ == tile_node(id@, label@, AZURE_TILE as int, AZURE_TILE as int, azure_style("multi_factor_authentication"@)),
{
    azure_node(id, label, "multi_factor_authentication")
}

/// Generic on-premises/Azure server (Compute) — the "on-prem" side of a
/// hybrid topology diagram (e.g. behind `ExpressRoute` or a VPN gateway).
pub fn server(id: &str, label: &str) -> (r: Node)
    ensures
        r@ == tile_node(id@, label@, AZURE_TILE as int, AZURE_TILE as int, azure_style("server"@)),
{
    azure_node(id, label, "server")
}

/// Generic Storage account (Storage), distinct from the specific
/// [`storage_blob`]/[`storage_queue`] data-type glyphs.
pub fn storage(id: &str, label: &str) -> (r: Node)
    ensures
        r@ == tile_node(id@, label@, AZURE_TILE as int, AZURE_TILE as int, azure_style("storage"@)),
{
    azure_node(id, label, "storage")
}

/// Azure Cache (Databases / Redis).
pub fn cache(id: &str, label: &str) -> (r: Node)
    ensures
        r@ == tile_node(id@, label@, AZURE_TILE as int, AZURE_TILE as int, azure_style("azure_cache"@)),
{
    azure_node(id, label, "azure_cache")
}

/// Azure Load Balancer (Networking).
pub fn load_balancer(id: &str, label: &str) -> (r: Node)
    ensures
        r@ == tile_node(id@, label@, AZURE_TILE as int, AZURE_TILE as int, azure_style("azure_load_balancer"@)),
{
    azure_node(id, label, "azure_load_balancer")
}

/// Azure Website / App Service (Compute).
pub fn website(id: &str, label: &str) -> (r: Node)
    ensures
        r@ == tile_node(id@, label@, AZURE_TILE as int, AZURE_TILE as int, azure_style("azure_website"@)),
{
    azure_node(id, label, "azure_website")
}

/// Cloud Service / App Service plan (Compute).
pub fn cloud_service(id: &str, label: &str) -> (r: Node)
    ensures
        r@ == tile_node(id@, label@, AZURE_TILE as int, AZURE_TILE as int, azure_style("cloud_service"@)),
{
    azure_node(id, label, "cloud_service")
}

/// Content Delivery Network (Networking).
pub fn cdn(id: &str, label: &str) -> (r: Node)
    ensures
        r@ == tile_node(id@, label@, AZURE_TILE as int, AZURE_TILE as int, azure_style("content_delivery_network"@)),
{
    azure_node(id, label, "content_delivery_network")
}

/// Express Route (Networking).
pub fn express_route(id: &str, label: &str) -> (r: Node)
    ensures
        r@ == tile_node(id@, label@, AZURE_TILE as int, AZURE_TILE as int, azure_style("express_route"@)),
{
    azure_node(id, label, "express_route")
}

/// Notification Hub (Application Integration).
pub fn notification_hub(id: &str, label: &str) -> (r: Node)
    ensures
        r@ == tile_node(id@, label@, AZURE_TILE as int, AZURE_TILE as int, azure_style("notification_hub"@)),
{
    azure_node(id, label, "notification_hub")
}

/// Service Bus (Application Integration).
pub fn service_bus(id: &str, label: &str) -> (r: Node)
    ensures
        r@ == tile_node(id@, label@, AZURE_TILE as int, AZURE_TILE as int, azure_style("service_bus"@)),
{
    azure_node(id, label, "service_bus")
}

/// SQL Database (Databases).
pub fn sql_database(id: &str, label: &str) -> (r: Node)
    ensures
        r@ == tile_node(id@, label@, AZURE_TILE as int, AZURE_TILE as int, azure_style("sql_database"@)),
{
    azure_node(id, label, "sql_database")
}

/// Storage Blob (Storage).
pub fn storage_blob(id: &str, label: &str) -> (r: Node)
    ensures
        r@ == tile_node(id@, label@, AZURE_TILE as int, AZURE_TILE as int, azure_style("storage_blob"@)),
{
    azure_node(id, label, "storage_blob")
}

/// Storage Queue (Storage).
pub fn storage_queue(id: &str, label: &str) -> (r: Node)
    ensures
        r@ == tile_node(id@, label@, AZURE_TILE as int, AZURE_TILE as int, azure_style("storage_queue"@)),
{
    azure_node(id, label, "storage_queue")
}

/// Traffic Manager (Networking).
pub fn traffic_manager(id: &str, label: &str) -> (r: Node)
    ensures
        r@ == tile_node(id@, label@, AZURE_TILE as int, AZURE_TILE as int, azure_style("traffic_manager"@)),
{
    azure_node(id, label, "traffic_manager")
}

/// Virtual Machine (Compute).
pub fn virtual_machine(id: &str, label: &str) -> (r: Node)
    ensures
        r@ == tile_node(id@, label@, AZURE_TILE as int, AZURE_TILE as int, azure_style("virtual_machine"@)),
{
    azure_node(id, label, "virtual_machine")
}

/// Virtual Network (Networking).
pub fn virtual_network(id: &str, label: &str) -> (r: Node)
    ensures
        r@ == tile_node(id@, label@, AZURE_TILE as int, AZURE_TILE as int, azure_style("virtual_network"@)),
{
    azure_node(id, label, "virtual_network")
}

} // verus!
