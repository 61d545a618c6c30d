use drawio_headless::author::Node;
use drawio_headless::k8s::{config_map, deployment, ingress, namespace, node, persistent_volume, pod, replica_set, secret, service, K8S_FILL};

fn assert_k8s_style(node: &Node, pr_icon: &str) {
    let expected = format!("prIcon={pr_icon};");
    assert!(
        node.style.contains(&expected),
        "missing {expected} in style: {}",
        node.style,
    );
    assert!(
        node.style.contains("shape=mxgraph.kubernetes.icon2"),
        "missing K8s icon2 shape in style: {}",
        node.style,
    );
    assert!(
        node.style.contains(&format!("fillColor={K8S_FILL}")),
        "missing K8s fill in style: {}",
        node.style,
    );
}

#[test]
fn pod_factory() {
    assert_k8s_style(&pod("p", "Pod"), "pod");
}

#[test]
fn deployment_factory() {
    assert_k8s_style(&deployment("d", "Deploy"), "deploy");
}

#[test]
fn service_factory() {
    assert_k8s_style(&service("s", "Svc"), "svc");
}

#[test]
fn ingress_factory() {
    assert_k8s_style(&ingress("i", "Ing"), "ing");
}

#[test]
fn config_map_factory() {
    assert_k8s_style(&config_map("cm", "Cfg"), "cm");
}

#[test]
fn secret_factory() {
    assert_k8s_style(&secret("sec", "Sec"), "secret");
}

#[test]
fn namespace_factory() {
    assert_k8s_style(&namespace("ns", "NS"), "ns");
}

#[test]
fn node_factory() {
    assert_k8s_style(&node("n", "Node"), "node");
}

#[test]
fn persistent_volume_factory() {
    assert_k8s_style(&persistent_volume("pv", "PV"), "pv");
}

#[test]
fn replica_set_factory() {
    assert_k8s_style(&replica_set("rs", "RS"), "rs");
}
