//! Style strings of the curated shape catalogues and the node builders
//! the vendor modules share.

use vstd::prelude::*;
use crate::author::{Node, tile, tile_node};
use crate::text::push_str;

verus! {

/// Resource-icon style for an AWS tile with the given fill colour and
/// `resIcon` identifier.
pub open spec fn aws_style(fill: Seq<char>, res_icon: Seq<char>) -> Seq<char> {
    "sketch=0;points=[[0,0,0],[0.25,0,0],[0.5,0,0],[0.75,0,0],[1,0,0],[0,1,0],[0.25,1,0],[0.5,1,0],[0.75,1,0],[1,1,0],[0,0.25,0],[0,0.5,0],[0,0.75,0],[1,0.25,0],[1,0.5,0],[1,0.75,0]];outlineConnect=0;fontColor=#232F3E;fillColor="@ + fill
        + ";strokeColor=#ffffff;dashed=0;verticalLabelPosition=bottom;verticalAlign=top;align=center;html=0;fontSize=12;aspect=fixed;shape=mxgraph.aws4.resourceIcon;resIcon="@ + res_icon + ";"@
}

/// Style of a legacy `mxgraph.azure.<key>` stencil.
pub open spec fn azure_style(shape_key: Seq<char>) -> Seq<char> {
    "verticalLabelPosition=bottom;html=0;verticalAlign=top;align=center;strokeColor=none;fillColor=#00BEF2;shape=mxgraph.azure."@ + shape_key + ";"@
}

/// Style of an `mxgraph.gcp.<category>.<key>` stencil.
pub open spec fn gcp_style(category: Seq<char>, shape_key: Seq<char>) -> Seq<char> {
    "verticalLabelPosition=bottom;html=0;verticalAlign=top;align=center;strokeColor=none;fillColor=#4285F4;shape=mxgraph.gcp."@ + category + "."@ + shape_key + ";"@
}

/// Style of a Kubernetes `icon2` tile with the given `prIcon`.
pub open spec fn k8s_style(pr_icon: Seq<char>) -> Seq<char> {
    "sketch=0;html=1;dashed=0;whitespace=wrap;verticalLabelPosition=bottom;verticalAlign=top;fillColor=#2875E2;strokeColor=#ffffff;points=[[0.005,0.63,0],[0.1,0.2,0],[0.9,0.2,0],[0.5,0,0],[0.995,0.63,0],[0.72,0.99,0],[0.5,1,0],[0.28,0.99,0]];shape=mxgraph.kubernetes.icon2;prIcon="@ + pr_icon + ";"@
}

/// Style of the vendor-neutral cloud silhouette.
pub open spec fn cloud_style() -> Seq<char> {
    "verticalLabelPosition=bottom;html=0;verticalAlign=top;align=center;strokeColor=none;fillColor=#5A6C86;shape=mxgraph.azure.cloud;"@
}

/// AWS tile size, in units.
pub const AWS_TILE: i64 = 78;

/// Azure tile size, in units.
pub const AZURE_TILE: i64 = 50;

/// GCP tile size, in units.
pub const GCP_TILE: i64 = 78;

/// Kubernetes tile width, in units.
pub const K8S_TILE_W: i64 = 50;

/// Kubernetes tile height, in units.
pub const K8S_TILE_H: i64 = 48;

/// Cloud silhouette width, in units.
pub const CLOUD_W: i64 = 100;

/// Cloud silhouette height, in units.
pub const CLOUD_H: i64 = 66;

/// Build a resource-icon style string.
pub fn res_icon_style(fill: &str, res_icon: &str) -> (r: String)
    ensures
        r@ == aws_style(fill@, res_icon@),
{
    let mut s = String::new();
    push_str(&mut s, "sketch=0;points=[[0,0,0],[0.25,0,0],[0.5,0,0],[0.75,0,0],[1,0,0],[0,1,0],[0.25,1,0],[0.5,1,0],[0.75,1,0],[1,1,0],[0,0.25,0],[0,0.5,0],[0,0.75,0],[1,0.25,0],[1,0.5,0],[1,0.75,0]];outlineConnect=0;fontColor=#232F3E;fillColor=");
    push_str(&mut s, fill);
    push_str(&mut s, ";strokeColor=#ffffff;dashed=0;verticalLabelPosition=bottom;verticalAlign=top;align=center;html=0;fontSize=12;aspect=fixed;shape=mxgraph.aws4.resourceIcon;resIcon=");
    push_str(&mut s, res_icon);
    push_str(&mut s, ";");
    s
}

/// An AWS resource-icon tile at the origin.
pub fn aws_node(id: &str, label: &str, fill: &str, res_icon: &str) -> (r: Node)
    ensures
        r@ == tile_node(id@, label@, AWS_TILE as int, AWS_TILE as int, aws_style(fill@, res_icon@)),
{
    tile(id, label, AWS_TILE, AWS_TILE, res_icon_style(fill, res_icon))
}

/// An Azure stencil node at the origin.
pub fn azure_node(id: &str, label: &str, shape_key: &str) -> (r: Node)
    ensures
        r@ == tile_node(id@, label@, AZURE_TILE as int, AZURE_TILE as int, azure_style(shape_key@)),
{
    let mut s = String::new();
    push_str(&mut s, "verticalLabelPosition=bottom;html=0;verticalAlign=top;align=center;strokeColor=none;fillColor=#00BEF2;shape=mxgraph.azure.");
    push_str(&mut s, shape_key);
    push_str(&mut s, ";");
    tile(id, label, AZURE_TILE, AZURE_TILE, s)
}

/// A GCP stencil node at the origin.
pub fn gcp_node(id: &str, label: &str, category: &str, shape_key: &str) -> (r: Node)
    ensures
        r@ == tile_node(id@, label@, GCP_TILE as int, GCP_TILE as int, gcp_style(category@, shape_key@)),
{
    let mut s = String::new();
    push_str(&mut s, "verticalLabelPosition=bottom;html=0;verticalAlign=top;align=center;strokeColor=none;fillColor=#4285F4;shape=mxgraph.gcp.");
    push_str(&mut s, category);
    push_str(&mut s, ".");
    push_str(&mut s, shape_key);
    push_str(&mut s, ";");
    tile(id, label, GCP_TILE, GCP_TILE, s)
}

/// A Kubernetes tile at the origin.
pub fn k8s_node(id: &str, label: &str, pr_icon: &str) -> (r: Node)
    ensures
        r@ == tile_node(id@, label@, K8S_TILE_W as int, K8S_TILE_H as int, k8s_style(pr_icon@)),
{
    let mut s = String::new();
    push_str(&mut s, "sketch=0;html=1;dashed=0;whitespace=wrap;verticalLabelPosition=bottom;verticalAlign=top;fillColor=#2875E2;strokeColor=#ffffff;points=[[0.005,0.63,0],[0.1,0.2,0],[0.9,0.2,0],[0.5,0,0],[0.995,0.63,0],[0.72,0.99,0],[0.5,1,0],[0.28,0.99,0]];shape=mxgraph.kubernetes.icon2;prIcon=");
    push_str(&mut s, pr_icon);
    push_str(&mut s, ";");
    tile(id, label, K8S_TILE_W, K8S_TILE_H, s)
}

/// The vendor-neutral cloud silhouette node at the origin.
pub fn cloud_node(id: &str, label: &str) -> (r: Node)
    ensures
        r@ == tile_node(id@, label@, CLOUD_W as int, CLOUD_H as int, cloud_style()),
{
    let mut s = String::new();
    push_str(&mut s, "verticalLabelPosition=bottom;html=0;verticalAlign=top;align=center;strokeColor=none;fillColor=#5A6C86;shape=mxgraph.azure.cloud;");
    tile(id, label, CLOUD_W, CLOUD_H, s)
}

} // verus!
