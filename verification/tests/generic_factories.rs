use drawio_headless::author::Node;
use drawio_headless::decimal::Decimal;
use drawio_headless::generic::{cloud, database, document, queue, GENERIC_FILL};
use drawio_headless::shapes::{CLOUD_H, CLOUD_W};

fn assert_generic_style(node: &Node, res_icon: &str) {
    assert!(
        node.style.contains(&format!("resIcon={res_icon}")),
        "missing resIcon={res_icon} in style: {}",
        node.style,
    );
    assert!(
        node.style.contains(&format!("fillColor={GENERIC_FILL}")),
        "missing generic fill in style: {}",
        node.style,
    );
    assert!(node.style.contains("shape=mxgraph.aws4.resourceIcon"));
}

#[test]
fn database_factory() {
    assert_generic_style(&database("db", "Database"), "mxgraph.aws4.database");
}

#[test]
fn queue_factory() {
    assert_generic_style(&queue("q", "Job queue"), "mxgraph.aws4.queue");
}

#[test]
fn document_factory() {
    assert_generic_style(&document("d", "Report"), "mxgraph.aws4.document");
}

#[test]
fn cloud_factory() {
    let node = cloud("c", "Internet");
    assert!(node.style.contains("shape=mxgraph.azure.cloud;"));
    assert!(node.style.contains(&format!("fillColor={GENERIC_FILL}")));
    assert_eq!(node.w, Decimal::from_int(CLOUD_W));
    assert_eq!(node.h, Decimal::from_int(CLOUD_H));
}
