//! Curated AWS service catalogue. Each factory returns a [`Node`] with
//! the resource-icon style of the upstream drawio app
//! (`shape=mxgraph.aws4.resourceIcon`); `resIcon` names the glyph.

use vstd::prelude::*;
use crate::author::{Node, tile_node};
use crate::shapes::{aws_node, aws_style, AWS_TILE};

verus! {

/// API Gateway tile.
pub fn api_gateway(id: &str, label: &str) -> (r: Node)
    ensures
        r@ == tile_node(id@, label@, AWS_TILE as int, AWS_TILE as int, aws_style("#E7157B"@, "mxgraph.aws4.api_gateway"@)),
{
    aws_node(id, label, "#E7157B", "mxgraph.aws4.api_gateway")
}

/// Lambda tile.
pub fn lambda(id: &str, label: &str) -> (r: Node)
    ensures
        r@ == tile_node(id@, label@, AWS_TILE as int, AWS_TILE as int, aws_style("#ED7100"@, "mxgraph.aws4.lambda"@)),
{
    aws_node(id, label, "#ED7100", "mxgraph.aws4.lambda")
}

/// S3 tile.
pub fn s3(id: &str, label: &str) -> (r: Node)
    ensures
        r@ == tile_node(id@, label@, AWS_TILE as int, AWS_TILE as int, aws_style("#7AA116"@, "mxgraph.aws4.s3"@)),
{
    aws_node(id, label, "#7AA116", "mxgraph.aws4.s3")
}

/// `DynamoDB` tile.
pub fn dynamodb(id: &str, label: &str) -> (r: Node)
    ensures
        r@ == tile_node(id@, label@, AWS_TILE as int, AWS_TILE as int, aws_style("#C925D1"@, "mxgraph.aws4.dynamodb"@)),
{
    aws_node(id, label, "#C925D1", "mxgraph.aws4.dynamodb")
}

/// EC2 tile.
pub fn ec2(id: &str, label: &str) -> (r: Node)
    ensures
        r@ == tile_node(id@, label@, AWS_TILE as int, AWS_TILE as int, aws_style("#ED7100"@, "mxgraph.aws4.ec2"@)),
{
    aws_node(id, label, "#ED7100", "mxgraph.aws4.ec2")
}

/// SQS tile (Application Integration).
pub fn sqs(id: &str, label: &str) -> (r: Node)
    ensures
        r@ == tile_node(id@, label@, AWS_TILE as int, AWS_TILE as int, aws_style("#E7157B"@, "mxgraph.aws4.sqs"@)),
{
    aws_node(id, label, "#E7157B", "mxgraph.aws4.sqs")
}

/// SNS tile (Application Integration).
pub fn sns(id: &str, label: &str) -> (r: Node)
    ensures
        r@ == tile_node(id@, label@, AWS_TILE as int, AWS_TILE as int, aws_style("#E7157B"@, "mxgraph.aws4.sns"@)),
{
    aws_node(id, label, "#E7157B", "mxgraph.aws4.sns")
}

/// `CloudFront` tile (Networking & Content Delivery).
pub fn cloudfront(id: &str, label: &str) -> (r: Node)
    ensures
        r@ == tile_node(id@, label@, AWS_TILE as int, AWS_TILE as int, aws_style("#8C4FFF"@, "mxgraph.aws4.cloudfront"@)),
{
    aws_node(id, label, "#8C4FFF", "mxgraph.aws4.cloudfront")
}

/// MSK tile (Analytics) — Amazon Managed Streaming for Apache Kafka.
pub fn msk(id: &str, label: &str) -> (r: Node)
    ensures
        r@ == tile_node(id@, label@, AWS_TILE as int, AWS_TILE as int, aws_style("#8C4FFF"@, "mxgraph.aws4.managed_streaming_for_kafka"@)),
{
    aws_node(id, label, "#8C4FFF", "mxgraph.aws4.managed_streaming_for_kafka")
}

/// IAM tile (Security, Identity & Compliance).
pub fn iam(id: &str, label: &str) -> (r: Node)
    ensures
        r@ == tile_node(id@, label@, AWS_TILE as int, AWS_TILE as int, aws_style("#DD344C"@, "mxgraph.aws4.identity_and_access_management"@)),
{
    aws_node(id, label, "#DD344C", "mxgraph.aws4.identity_and_access_management")
}

/// VPC tile (Networking & Content Delivery).
pub fn vpc(id: &str, label: &str) -> (r: Node)
    ensures
        r@ == tile_node(id@, label@, AWS_TILE as int, AWS_TILE as int, aws_style("#8C4FFF"@, "mxgraph.aws4.virtual_private_cloud"@)),
{
    aws_node(id, label, "#8C4FFF", "mxgraph.aws4.virtual_private_cloud")
}

/// `EventBridge` tile (Application Integration).
pub fn eventbridge(id: &str, label: &str) -> (r: Node)
    ensures
        r@ == tile_node(id@, label@, AWS_TILE as int, AWS_TILE as int, aws_style("#E7157B"@, "mxgraph.aws4.eventbridge"@)),
{
    aws_node(id, label, "#E7157B", "mxgraph.aws4.eventbridge")
}

/// Step Functions tile (Application Integration).
pub fn step_functions(id: &str, label: &str) -> (r: Node)
    ensures
        r@ == tile_node(id@, label@, AWS_TILE as int, AWS_TILE as int, aws_style("#E7157B"@, "mxgraph.aws4.step_functions"@)),
{
    aws_node(id, label, "#E7157B", "mxgraph.aws4.step_functions")
}

/// `AppSync` tile (Application Integration).
pub fn appsync(id: &str, label: &str) -> (r: Node)
    ensures
        r@ == tile_node(id@, label@, AWS_TILE as int, AWS_TILE as int, aws_style("#E7157B"@, "mxgraph.aws4.appsync"@)),
{
    aws_node(id, label, "#E7157B", "mxgraph.aws4.appsync")
}

/// ECS tile (Compute) — Amazon Elastic Container Service.
pub fn ecs(id: &str, label: &str) -> (r: Node)
    ensures
        r@ == tile_node(id@, label@, AWS_TILE as int, AWS_TILE as int, aws_style("#ED7100"@, "mxgraph.aws4.ecs"@)),
{
    aws_node(id, label, "#ED7100", "mxgraph.aws4.ecs")
}

/// EKS tile (Compute) — Amazon Elastic Kubernetes Service.
pub fn eks(id: &str, label: &str) -> (r: Node)
    ensures
        r@ == tile_node(id@, label@, AWS_TILE as int, AWS_TILE as int, aws_style("#ED7100"@, "mxgraph.aws4.eks"@)),
{
    aws_node(id, label, "#ED7100", "mxgraph.aws4.eks")
}

/// Fargate tile (Compute).
pub fn fargate(id: &str, label: &str) -> (r: Node)
    ensures
        r@ == tile_node(id@, label@, AWS_TILE as int, AWS_TILE as int, aws_style("#ED7100"@, "mxgraph.aws4.fargate"@)),
{
    aws_node(id, label, "#ED7100", "mxgraph.aws4.fargate")
}

/// App Runner tile (Compute).
pub fn app_runner(id: &str, label: &str) -> (r: Node)
    ensures
        r@ == tile_node(id@, label@, AWS_TILE as int, AWS_TILE as int, aws_style("#ED7100"@, "mxgraph.aws4.app_runner"@)),
{
    aws_node(id, label, "#ED7100", "mxgraph.aws4.app_runner")
}

/// AWS Batch tile (Compute).
pub fn batch(id: &str, label: &str) -> (r: Node)
    ensures
        r@ == tile_node(id@, label@, AWS_TILE as int, AWS_TILE as int, aws_style("#ED7100"@, "mxgraph.aws4.batch"@)),
{
    aws_node(id, label, "#ED7100", "mxgraph.aws4.batch")
}

/// RDS tile (Database) — Amazon Relational Database Service.
pub fn rds(id: &str, label: &str) -> (r: Node)
    ensures
        r@ == tile_node(id@, label@, AWS_TILE as int, AWS_TILE as int, aws_style("#C925D1"@, "mxgraph.aws4.rds"@)),
{
    aws_node(id, label, "#C925D1", "mxgraph.aws4.rds")
}

/// `ElastiCache` tile (Database).
pub fn elasticache(id: &str, label: &str) -> (r: Node)
    ensures
        r@ == tile_node(id@, label@, AWS_TILE as int, AWS_TILE as int, aws_style("#C925D1"@, "mxgraph.aws4.elasticache"@)),
{
    aws_node(id, label, "#C925D1", "mxgraph.aws4.elasticache")
}

/// EFS tile (Storage) — Amazon Elastic File System.
///
/// The catalogue exposes this as `efs` but the underlying stencil is named
/// `elastic file system` (no bare `efs` stencil exists at the top level —
/// only `efs standard` / `efs infrequentaccess` variants).
pub fn efs(id: &str, label: &str) -> (r: Node)
    ensures
        r@ == tile_node(id@, label@, AWS_TILE as int, AWS_TILE as int, aws_style("#7AA116"@, "mxgraph.aws4.elastic_file_system"@)),
{
    aws_node(id, label, "#7AA116", "mxgraph.aws4.elastic_file_system")
}

/// Route 53 tile (Networking & Content Delivery).
pub fn route_53(id: &str, label: &str) -> (r: Node)
    ensures
        r@ == tile_node(id@, label@, AWS_TILE as int, AWS_TILE as int, aws_style("#8C4FFF"@, "mxgraph.aws4.route_53"@)),
{
    aws_node(id, label, "#8C4FFF", "mxgraph.aws4.route_53")
}

/// Elastic Load Balancing tile (Networking & Content Delivery).
pub fn elastic_load_balancing(id: &str, label: &str) -> (r: Node)
    ensures
        r@ == tile_node(id@, label@, AWS_TILE as int, AWS_TILE as int, aws_style("#8C4FFF"@, "mxgraph.aws4.elastic_load_balancing"@)),
{
    aws_node(id, label, "#8C4FFF", "mxgraph.aws4.elastic_load_balancing")
}

/// Cognito tile (Security, Identity & Compliance).
pub fn cognito(id: &str, label: &str) -> (r: Node)
    ensures
        r@ == tile_node(id@, label@, AWS_TILE as int, AWS_TILE as int, aws_style("#DD344C"@, "mxgraph.aws4.cognito"@)),
{
    aws_node(id, label, "#DD344C", "mxgraph.aws4.cognito")
}

/// Secrets Manager tile (Security, Identity & Compliance).
pub fn secrets_manager(id: &str, label: &str) -> (r: Node)
    ensures
        r@ == tile_node(id@, label@, AWS_TILE as int, AWS_TILE as int, aws_style("#DD344C"@, "mxgraph.aws4.secrets_manager"@)),
{
    aws_node(id, label, "#DD344C", "mxgraph.aws4.secrets_manager")
}

/// KMS tile (Security, Identity & Compliance) — AWS Key Management Service.
///
/// The stencil is registered under the full product name; no `kms`
/// short-form exists in `aws4.xml`.
pub fn kms(id: &str, label: &str) -> (r: Node)
    ensures
        r@ == tile_node(id@, label@, AWS_TILE as int, AWS_TILE as int, aws_style("#DD344C"@, "mxgraph.aws4.key_management_service"@)),
{
    aws_node(id, label, "#DD344C", "mxgraph.aws4.key_management_service")
}

/// Kinesis tile (Analytics).
pub fn kinesis(id: &str, label: &str) -> (r: Node)
    ensures
        r@ == tile_node(id@, label@, AWS_TILE as int, AWS_TILE as int, aws_style("#8C4FFF"@, "mxgraph.aws4.kinesis"@)),
{
    aws_node(id, label, "#8C4FFF", "mxgraph.aws4.kinesis")
}

/// Athena tile (Analytics).
pub fn athena(id: &str, label: &str) -> (r: Node)
    ensures
        r@ == tile_node(id@, label@, AWS_TILE as int, AWS_TILE as int, aws_style("#8C4FFF"@, "mxgraph.aws4.athena"@)),
{
    aws_node(id, label, "#8C4FFF", "mxgraph.aws4.athena")
}

/// `OpenSearch` Service tile (Analytics).
///
/// drawio labels this service group "`OpenSearch` Service" but still keys the
/// tile on the pre-rename `elasticsearch_service` stencil; use that name so
/// the glyph resolves against the vendored `aws4.xml`.
pub fn opensearch(id: &str, label: &str) -> (r: Node)
    ensures
        r@ == tile_node(id@, label@, AWS_TILE as int, AWS_TILE as int, aws_style("#8C4FFF"@, "mxgraph.aws4.elasticsearch_service"@)),
{
    aws_node(id, label, "#8C4FFF", "mxgraph.aws4.elasticsearch_service")
}

/// `CloudWatch` tile (Management & Governance).
pub fn cloudwatch(id: &str, label: &str) -> (r: Node)
    ensures
        r@ == tile_node(id@, label@, AWS_TILE as int, AWS_TILE as int, aws_style("#E7157B"@, "mxgraph.aws4.cloudwatch"@)),
{
    aws_node(id, label, "#E7157B", "mxgraph.aws4.cloudwatch")
}

} // verus!
