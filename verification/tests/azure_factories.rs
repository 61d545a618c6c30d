use drawio_headless::author::Node;
use drawio_headless::azure::{active_directory, entra_id, multi_factor_authentication, server, service_bus, sql_database, storage, storage_blob, traffic_manager, virtual_machine, virtual_network, website, AZURE_FILL};

fn assert_azure_style(node: &Node, shape_key: &str) {
    let expected_shape = format!("shape=mxgraph.azure.{shape_key};");
    assert!(
        node.style.contains(&expected_shape),
        "missing {expected_shape} in style: {}",
        node.style,
    );
    assert!(
        node.style.contains(&format!("fillColor={AZURE_FILL}")),
        "missing Azure fill in style: {}",
        node.style,
    );
}

#[test]
fn active_directory_factory() {
    assert_azure_style(&active_directory("ad", "Tenant"), "azure_active_directory");
}

#[test]
fn entra_id_factory() {
    // Same underlying glyph as active_directory, under the current
    // product name.
    assert_azure_style(&entra_id("eid", "Entra ID"), "azure_active_directory");
}

#[test]
fn multi_factor_authentication_factory() {
    assert_azure_style(
        &multi_factor_authentication("mfa", "MFA"),
        "multi_factor_authentication",
    );
}

#[test]
fn server_factory() {
    assert_azure_style(&server("srv", "On-prem server"), "server");
}

#[test]
fn storage_factory() {
    assert_azure_style(&storage("st", "Storage account"), "storage");
}

#[test]
fn sql_database_factory() {
    assert_azure_style(&sql_database("db", "Orders"), "sql_database");
}

#[test]
fn service_bus_factory() {
    assert_azure_style(&service_bus("sb", "Bus"), "service_bus");
}

#[test]
fn virtual_machine_factory() {
    assert_azure_style(&virtual_machine("vm", "App"), "virtual_machine");
}

#[test]
fn website_factory() {
    assert_azure_style(&website("w", "App"), "azure_website");
}

#[test]
fn storage_blob_factory() {
    assert_azure_style(&storage_blob("sb", "Files"), "storage_blob");
}

#[test]
fn traffic_manager_factory() {
    assert_azure_style(&traffic_manager("tm", "Geo"), "traffic_manager");
}

#[test]
fn virtual_network_factory() {
    assert_azure_style(&virtual_network("vnet", "Net"), "virtual_network");
}
