//! Curated Kubernetes resource catalogue: `mxgraph.kubernetes.icon2`
//! tiles whose `prIcon` selects the glyph.

use vstd::prelude::*;
use crate::author::{Node, tile_node};
use crate::shapes::{k8s_node, k8s_style, K8S_TILE_W, K8S_TILE_H};

verus! {

/// Kubernetes brand blue.
pub const K8S_FILL: &'static str = "#2875E2";

/// Pod — the smallest deployable unit.
pub fn pod(id: &str, label: &str) -> (r: Node)
    ensures
        r@ == tile_node(id@, label@, K8S_TILE_W as int, K8S_TILE_H as int, k8s_style("pod"@)),
{
    k8s_node(id, label, "pod")
}

/// Deployment.
pub fn deployment(id: &str, label: &str) -> (r: Node)
    ensures
        r@ == tile_node(id@, label@, K8S_TILE_W as int, K8S_TILE_H as int, k8s_style("deploy"@)),
{
    k8s_node(id, label, "deploy")
}

/// Service (`svc`).
pub fn service(id: &str, label: &str) -> (r: Node)
    ensures
        r@ == tile_node(id@, label@, K8S_TILE_W as int, K8S_TILE_H as int, k8s_style("svc"@)),
{
    k8s_node(id, label, "svc")
}

/// Ingress (`ing`).
pub fn ingress(id: &str, label: &str) -> (r: Node)
    ensures
        r@ == tile_node(id@, label@, K8S_TILE_W as int, K8S_TILE_H as int, k8s_style("ing"@)),
{
    k8s_node(id, label, "ing")
}

/// `ConfigMap` (`cm`).
pub fn config_map(id: &str, label: &str) -> (r: Node)
    ensures
        r@ == tile_node(id@, label@, K8S_TILE_W as int, K8S_TILE_H as int, k8s_style("cm"@)),
{
    k8s_node(id, label, "cm")
}

/// Secret.
pub fn secret(id: &str, label: &str) -> (r: Node)
    ensures
        r@ == tile_node(id@, label@, K8S_TILE_W as int, K8S_TILE_H as int, k8s_style("secret"@)),
{
    k8s_node(id, label, "secret")
}

/// Namespace (`ns`).
pub fn namespace(id: &str, label: &str) -> (r: Node)
    ensures
        r@ == tile_node(id@, label@, K8S_TILE_W as int, K8S_TILE_H as int, k8s_style("ns"@)),
{
    k8s_node(id, label, "ns")
}

/// Node.
pub fn node(id: &str, label: &str) -> (r: Node)
    ensures
        r@ == tile_node(id@, label@, K8S_TILE_W as int, K8S_TILE_H as int, k8s_style("node"@)),
{
    k8s_node(id, label, "node")
}

/// Persistent Volume (`pv`).
pub fn persistent_volume(id: &str, label: &str) -> (r: Node)
    ensures
        r@ == tile_node(id@, label@, K8S_TILE_W as int, K8S_TILE_H as int, k8s_style("pv"@)),
{
    k8s_node(id, label, "pv")
}

/// `ReplicaSet` (`rs`).
pub fn replica_set(id: &str, label: &str) -> (r: Node)
    ensures
        r@ == tile_node(id@, label@, K8S_TILE_W as int, K8S_TILE_H as int, k8s_style("rs"@)),
{
    k8s_node(id, label, "rs")
}

} // verus!
