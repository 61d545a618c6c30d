//! Curated Google Cloud catalogue: `mxgraph.gcp.<category>.<key>`
//! stencils drawn in Google blue.

use vstd::prelude::*;
use crate::author::{Node, tile_node};
use crate::shapes::{gcp_node, gcp_style, GCP_TILE};

verus! {

/// Google blue, the glyph colour of the `mxgraph.gcp.*` palette.
pub const GCP_FILL: &'static str = "#4285F4";

/// App Engine (Compute).
pub fn app_engine(id: &str, label: &str) -> (r: Node)
    ensures
        r@ == tile_node(id@, label@, GCP_TILE as int, GCP_TILE as int, gcp_style("compute"@, "app_engine"@)),
{
    gcp_node(id, label, "compute", "app_engine")
}

/// Cloud Functions (Compute / Serverless).
pub fn cloud_functions(id: &str, label: &str) -> (r: Node)
    ensures
        r@ == tile_node(id@, label@, GCP_TILE as int, GCP_TILE as int, gcp_style("compute"@, "cloud_functions"@)),
{
    gcp_node(id, label, "compute", "cloud_functions")
}

/// Compute Engine (Compute).
pub fn compute_engine(id: &str, label: &str) -> (r: Node)
    ensures
        r@ == tile_node(id@, label@, GCP_TILE as int, GCP_TILE as int, gcp_style("compute"@, "compute_engine"@)),
{
    gcp_node(id, label, "compute", "compute_engine")
}

/// Container Engine / Google Kubernetes Engine (Compute).
pub fn gke(id: &str, label: &str) -> (r: Node)
    ensures
        r@ == tile_node(id@, label@, GCP_TILE as int, GCP_TILE as int, gcp_style("compute"@, "container_engine"@)),
{
    gcp_node(id, label, "compute", "container_engine")
}

/// Cloud Storage (Storage).
pub fn cloud_storage(id: &str, label: &str) -> (r: Node)
    ensures
        r@ == tile_node(id@, label@, GCP_TILE as int, GCP_TILE as int, gcp_style("storage_databases"@, "cloud_storage"@)),
{
    gcp_node(id, label, "storage_databases", "cloud_storage")
}

/// `BigQuery` (Big Data / Analytics).
pub fn bigquery(id: &str, label: &str) -> (r: Node)
    ensures
        r@ == tile_node(id@, label@, GCP_TILE as int, GCP_TILE as int, gcp_style("big_data"@, "bigquery"@)),
{
    gcp_node(id, label, "big_data", "bigquery")
}

/// Cloud Pub/Sub (Big Data / Messaging).
pub fn pubsub(id: &str, label: &str) -> (r: Node)
    ensures
        r@ == tile_node(id@, label@, GCP_TILE as int, GCP_TILE as int, gcp_style("big_data"@, "cloud_pubsub"@)),
{
    gcp_node(id, label, "big_data", "cloud_pubsub")
}

/// Cloud SQL (Storage / Databases).
pub fn cloud_sql(id: &str, label: &str) -> (r: Node)
    ensures
        r@ == tile_node(id@, label@, GCP_TILE as int, GCP_TILE as int, gcp_style("storage_databases"@, "cloud_sql"@)),
{
    gcp_node(id, label, "storage_databases", "cloud_sql")
}

/// Cloud Datastore (Storage / Databases — predecessor to Firestore).
pub fn cloud_datastore(id: &str, label: &str) -> (r: Node)
    ensures
        r@ == tile_node(id@, label@, GCP_TILE as int, GCP_TILE as int, gcp_style("storage_databases"@, "cloud_datastore"@)),
{
    gcp_node(id, label, "storage_databases", "cloud_datastore")
}

/// Cloud Bigtable (Storage / Databases).
pub fn bigtable(id: &str, label: &str) -> (r: Node)
    ensures
        r@ == tile_node(id@, label@, GCP_TILE as int, GCP_TILE as int, gcp_style("storage_databases"@, "cloud_bigtable"@)),
{
    gcp_node(id, label, "storage_databases", "cloud_bigtable")
}

/// Cloud CDN (Networking).
pub fn cloud_cdn(id: &str, label: &str) -> (r: Node)
    ensures
        r@ == tile_node(id@, label@, GCP_TILE as int, GCP_TILE as int, gcp_style("networking"@, "cloud_cdn"@)),
{
    gcp_node(id, label, "networking", "cloud_cdn")
}

/// Cloud Load Balancing (Networking).
pub fn cloud_load_balancing(id: &str, label: &str) -> (r: Node)
    ensures
        r@ == tile_node(id@, label@, GCP_TILE as int, GCP_TILE as int, gcp_style("networking"@, "cloud_load_balancing"@)),
{
    gcp_node(id, label, "networking", "cloud_load_balancing")
}

/// Cloud DNS (Networking).
pub fn cloud_dns(id: &str, label: &str) -> (r: Node)
    ensures
        r@ == tile_node(id@, label@, GCP_TILE as int, GCP_TILE as int, gcp_style("networking"@, "cloud_dns"@)),
{
    gcp_node(id, label, "networking", "cloud_dns")
}

/// Cloud IAM (Identity & Security).
pub fn iam(id: &str, label: &str) -> (r: Node)
    ensures
        r@ == tile_node(id@, label@, GCP_TILE as int, GCP_TILE as int, gcp_style("identity_and_security"@, "cloud_iam"@)),
{
    gcp_node(id, label, "identity_and_security", "cloud_iam")
}

/// Cloud Logging (Management Tools).
pub fn logging(id: &str, label: &str) -> (r: Node)
    ensures
        r@ == tile_node(id@, label@, GCP_TILE as int, GCP_TILE as int, gcp_style("management_tools"@, "logging"@)),
{
    gcp_node(id, label, "management_tools", "logging")
}

} // verus!
