use drawio_headless::author::Node;
use drawio_headless::gcp::{bigquery, cloud_functions, cloud_load_balancing, cloud_storage, compute_engine, gke, iam, pubsub, GCP_FILL};

fn assert_gcp_style(node: &Node, category: &str, shape_key: &str) {
    let expected = format!("shape=mxgraph.gcp.{category}.{shape_key};");
    assert!(
        node.style.contains(&expected),
        "missing {expected} in style: {}",
        node.style,
    );
    assert!(
        node.style.contains(&format!("fillColor={GCP_FILL}")),
        "missing GCP fill in style: {}",
        node.style,
    );
}

#[test]
fn compute_engine_factory() {
    assert_gcp_style(&compute_engine("vm", "VM"), "compute", "compute_engine");
}

#[test]
fn bigquery_factory() {
    assert_gcp_style(&bigquery("bq", "Warehouse"), "big_data", "bigquery");
}

#[test]
fn cloud_storage_factory() {
    assert_gcp_style(
        &cloud_storage("gcs", "Bucket"),
        "storage_databases",
        "cloud_storage",
    );
}

#[test]
fn pubsub_factory() {
    assert_gcp_style(&pubsub("ps", "Topic"), "big_data", "cloud_pubsub");
}

#[test]
fn gke_factory() {
    assert_gcp_style(&gke("gke", "Cluster"), "compute", "container_engine");
}

#[test]
fn cloud_functions_factory() {
    assert_gcp_style(&cloud_functions("fn", "Fn"), "compute", "cloud_functions");
}

#[test]
fn gcp_iam_factory() {
    assert_gcp_style(&iam("iam", "Roles"), "identity_and_security", "cloud_iam");
}

#[test]
fn cloud_load_balancing_factory() {
    assert_gcp_style(
        &cloud_load_balancing("lb", "LB"),
        "networking",
        "cloud_load_balancing",
    );
}
