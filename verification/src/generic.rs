//! Vendor-neutral infrastructure shapes: cloud, database, queue and
//! document.

use vstd::prelude::*;
use crate::author::{Node, tile_node};
use crate::shapes::{aws_node, aws_style, cloud_node, cloud_style, AWS_TILE, CLOUD_W, CLOUD_H};

verus! {

/// Neutral slate-gray fill shared with the client catalogue.
pub const GENERIC_FILL: &'static str = "#5A6C86";

/// Database (cylinder).
pub fn database(id: &str, label: &str) -> (r: Node)
    ensures
        r@ == tile_node(id@, label@, AWS_TILE as int, AWS_TILE as int, aws_style("#5A6C86"@, "mxgraph.aws4.database"@)),
{
    aws_node(id, label, "#5A6C86", "mxgraph.aws4.database")
}

/// Queue.
pub fn queue(id: &str, label: &str) -> (r: Node)
    ensures
        r@ == tile_node(id@, label@, AWS_TILE as int, AWS_TILE as int, aws_style("#5A6C86"@, "mxgraph.aws4.queue"@)),
{
    aws_node(id, label, "#5A6C86", "mxgraph.aws4.queue")
}

/// Document.
pub fn document(id: &str, label: &str) -> (r: Node)
    ensures
        r@ == tile_node(id@, label@, AWS_TILE as int, AWS_TILE as int, aws_style("#5A6C86"@, "mxgraph.aws4.document"@)),
{
    aws_node(id, label, "#5A6C86", "mxgraph.aws4.document")
}

/// Vendor-neutral cloud silhouette (the internet, or an unspecified
/// hosting environment), sourced from the legacy Azure "Cloud" stencil.
pub fn cloud(id: &str, label: &str) -> (r: Node)
    ensures
        r@ == tile_node(id@, label@, CLOUD_W as int, CLOUD_H as int, cloud_style()),
{
    cloud_node(id, label)
}

} // verus!
