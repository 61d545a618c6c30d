//! Vendor-neutral clients and actors, drawn as solid slate tiles with
//! glyphs from the AWS "General Icons" set.

use vstd::prelude::*;
use crate::author::{Node, tile_node};
use crate::shapes::{aws_node, aws_style, AWS_TILE};

verus! {

/// Neutral slate-gray fill for client and actor tiles.
pub const CLIENT_FILL: &'static str = "#5A6C86";

/// Browser / web client.
pub fn browser(id: &str, label: &str) -> (r: Node)
    ensures
        r@ == tile_node(id@, label@, AWS_TILE as int, AWS_TILE as int, aws_style("#5A6C86"@, "mxgraph.aws4.client"@)),
{
    aws_node(id, label, "#5A6C86", "mxgraph.aws4.client")
}

/// Mobile app / mobile client.
pub fn mobile(id: &str, label: &str) -> (r: Node)
    ensures
        r@ == tile_node(id@, label@, AWS_TILE as int, AWS_TILE as int, aws_style("#5A6C86"@, "mxgraph.aws4.mobile_client"@)),
{
    aws_node(id, label, "#5A6C86", "mxgraph.aws4.mobile_client")
}

/// End user / person / actor.
pub fn person(id: &str, label: &str) -> (r: Node)
    ensures
        r@ == tile_node(id@, label@, AWS_TILE as int, AWS_TILE as int, aws_style("#5A6C86"@, "mxgraph.aws4.user"@)),
{
    aws_node(id, label, "#5A6C86", "mxgraph.aws4.user")
}

/// Generic external system reachable over the network — the diagram's
/// boundary, not owned by whatever's being drawn.
pub fn external_system(id: &str, label: &str) -> (r: Node)
    ensures
        r@ == tile_node(id@, label@, AWS_TILE as int, AWS_TILE as int, aws_style("#5A6C86"@, "mxgraph.aws4.internet"@)),
{
    aws_node(id, label, "#5A6C86", "mxgraph.aws4.internet")
}

} // verus!
