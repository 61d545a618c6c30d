//! Node kinds of the authoring schema: `raw`, or `<library>.<key>` where
//! `<key>` names a factory of that library's module.

use vstd::prelude::*;
use crate::author::{Node, NodeV, tile_node};
use crate::shapes::{aws_style, azure_style, cloud_style, gcp_style, k8s_style, AWS_TILE, AZURE_TILE, CLOUD_H, CLOUD_W, GCP_TILE, K8S_TILE_H, K8S_TILE_W};
use crate::text::{chars_of, starts_with, str_eq, string_of_range};
use crate::aws;
use crate::azure;
use crate::gcp;
use crate::k8s;
use crate::client;
use crate::generic;

verus! {
/// The `aws` factory called `key`, applied to `id` and `label`.
pub open spec fn aws_kind(key: Seq<char>, id: Seq<char>, label: Seq<char>) -> Option<NodeV> {
    if key == "api_gateway"@ {
        Some(tile_node(id, label, AWS_TILE as int, AWS_TILE as int, aws_style("#E7157B"@, "mxgraph.aws4.api_gateway"@)))
    }     else if key == "lambda"@ {
        Some(tile_node(id, label, AWS_TILE as int, AWS_TILE as int, aws_style("#ED7100"@, "mxgraph.aws4.lambda"@)))
    }     else if key == "s3"@ {
        Some(tile_node(id, label, AWS_TILE as int, AWS_TILE as int, aws_style("#7AA116"@, "mxgraph.aws4.s3"@)))
    }     else if key == "dynamodb"@ {
        Some(tile_node(id, label, AWS_TILE as int, AWS_TILE as int, aws_style("#C925D1"@, "mxgraph.aws4.dynamodb"@)))
    }     else if key == "ec2"@ {
        Some(tile_node(id, label, AWS_TILE as int, AWS_TILE as int, aws_style("#ED7100"@, "mxgraph.aws4.ec2"@)))
    }     else if key == "sqs"@ {
        Some(tile_node(id, label, AWS_TILE as int, AWS_TILE as int, aws_style("#E7157B"@, "mxgraph.aws4.sqs"@)))
    }     else if key == "sns"@ {
        Some(tile_node(id, label, AWS_TILE as int, AWS_TILE as int, aws_style("#E7157B"@, "mxgraph.aws4.sns"@)))
    }     else if key == "cloudfront"@ {
        Some(tile_node(id, label, AWS_TILE as int, AWS_TILE as int, aws_style("#8C4FFF"@, "mxgraph.aws4.cloudfront"@)))
    }     else if key == "msk"@ {
        Some(tile_node(id, label, AWS_TILE as int, AWS_TILE as int, aws_style("#8C4FFF"@, "mxgraph.aws4.managed_streaming_for_kafka"@)))
    }     else if key == "iam"@ {
        Some(tile_node(id, label, AWS_TILE as int, AWS_TILE as int, aws_style("#DD344C"@, "mxgraph.aws4.identity_and_access_management"@)))
    }     else if key == "vpc"@ {
        Some(tile_node(id, label, AWS_TILE as int, AWS_TILE as int, aws_style("#8C4FFF"@, "mxgraph.aws4.virtual_private_cloud"@)))
    }     else if key == "eventbridge"@ {
        Some(tile_node(id, label, AWS_TILE as int, AWS_TILE as int, aws_style("#E7157B"@, "mxgraph.aws4.eventbridge"@)))
    }     else if key == "step_functions"@ {
        Some(tile_node(id, label, AWS_TILE as int, AWS_TILE as int, aws_style("#E7157B"@, "mxgraph.aws4.step_functions"@)))
    }     else if key == "appsync"@ {
        Some(tile_node(id, label, AWS_TILE as int, AWS_TILE as int, aws_style("#E7157B"@, "mxgraph.aws4.appsync"@)))
    }     else if key == "ecs"@ {
        Some(tile_node(id, label, AWS_TILE as int, AWS_TILE as int, aws_style("#ED7100"@, "mxgraph.aws4.ecs"@)))
    }     else if key == "eks"@ {
        Some(tile_node(id, label, AWS_TILE as int, AWS_TILE as int, aws_style("#ED7100"@, "mxgraph.aws4.eks"@)))
    }     else if key == "fargate"@ {
        Some(tile_node(id, label, AWS_TILE as int, AWS_TILE as int, aws_style("#ED7100"@, "mxgraph.aws4.fargate"@)))
    }     else if key == "app_runner"@ {
        Some(tile_node(id, label, AWS_TILE as int, AWS_TILE as int, aws_style("#ED7100"@, "mxgraph.aws4.app_runner"@)))
    }     else if key == "batch"@ {
        Some(tile_node(id, label, AWS_TILE as int, AWS_TILE as int, aws_style("#ED7100"@, "mxgraph.aws4.batch"@)))
    }     else if key == "rds"@ {
        Some(tile_node(id, label, AWS_TILE as int, AWS_TILE as int, aws_style("#C925D1"@, "mxgraph.aws4.rds"@)))
    }     else if key == "elasticache"@ {
        Some(tile_node(id, label, AWS_TILE as int, AWS_TILE as int, aws_style("#C925D1"@, "mxgraph.aws4.elasticache"@)))
    }     else if key == "efs"@ {
        Some(tile_node(id, label, AWS_TILE as int, AWS_TILE as int, aws_style("#7AA116"@, "mxgraph.aws4.elastic_file_system"@)))
    }     else if key == "route_53"@ {
        Some(tile_node(id, label, AWS_TILE as int, AWS_TILE as int, aws_style("#8C4FFF"@, "mxgraph.aws4.route_53"@)))
    }     else if key == "elastic_load_balancing"@ {
        Some(tile_node(id, label, AWS_TILE as int, AWS_TILE as int, aws_style("#8C4FFF"@, "mxgraph.aws4.elastic_load_balancing"@)))
    }     else if key == "cognito"@ {
        Some(tile_node(id, label, AWS_TILE as int, AWS_TILE as int, aws_style("#DD344C"@, "mxgraph.aws4.cognito"@)))
    }     else if key == "secrets_manager"@ {
        Some(tile_node(id, label, AWS_TILE as int, AWS_TILE as int, aws_style("#DD344C"@, "mxgraph.aws4.secrets_manager"@)))
    }     else if key == "kms"@ {
        Some(tile_node(id, label, AWS_TILE as int, AWS_TILE as int, aws_style("#DD344C"@, "mxgraph.aws4.key_management_service"@)))
    }     else if key == "kinesis"@ {
        Some(tile_node(id, label, AWS_TILE as int, AWS_TILE as int, aws_style("#8C4FFF"@, "mxgraph.aws4.kinesis"@)))
    }     else if key == "athena"@ {
        Some(tile_node(id, label, AWS_TILE as int, AWS_TILE as int, aws_style("#8C4FFF"@, "mxgraph.aws4.athena"@)))
    }     else if key == "opensearch"@ {
        Some(tile_node(id, label, AWS_TILE as int, AWS_TILE as int, aws_style("#8C4FFF"@, "mxgraph.aws4.elasticsearch_service"@)))
    }     else if key == "cloudwatch"@ {
        Some(tile_node(id, label, AWS_TILE as int, AWS_TILE as int, aws_style("#E7157B"@, "mxgraph.aws4.cloudwatch"@)))
    } else {
        None
    }
}

fn aws_factory(key: &str, id: &str, label: &str) -> (r: Option<Node>)
    ensures
        match r {
            Some(n) => aws_kind(key@, id@, label@) == Some(n@),
            None => aws_kind(key@, id@, label@) == None::<NodeV>,
        },
{
    if str_eq(key, "api_gateway") {
        Some(aws::api_gateway(id, label))
    }     else if str_eq(key, "lambda") {
        Some(aws::lambda(id, label))
    }     else if str_eq(key, "s3") {
        Some(aws::s3(id, label))
    }     else if str_eq(key, "dynamodb") {
        Some(aws::dynamodb(id, label))
    }     else if str_eq(key, "ec2") {
        Some(aws::ec2(id, label))
    }     else if str_eq(key, "sqs") {
        Some(aws::sqs(id, label))
    }     else if str_eq(key, "sns") {
        Some(aws::sns(id, label))
    }     else if str_eq(key, "cloudfront") {
        Some(aws::cloudfront(id, label))
    }     else if str_eq(key, "msk") {
        Some(aws::msk(id, label))
    }     else if str_eq(key, "iam") {
        Some(aws::iam(id, label))
    }     else if str_eq(key, "vpc") {
        Some(aws::vpc(id, label))
    }     else if str_eq(key, "eventbridge") {
        Some(aws::eventbridge(id, label))
    }     else if str_eq(key, "step_functions") {
        Some(aws::step_functions(id, label))
    }     else if str_eq(key, "appsync") {
        Some(aws::appsync(id, label))
    }     else if str_eq(key, "ecs") {
        Some(aws::ecs(id, label))
    }     else if str_eq(key, "eks") {
        Some(aws::eks(id, label))
    }     else if str_eq(key, "fargate") {
        Some(aws::fargate(id, label))
    }     else if str_eq(key, "app_runner") {
        Some(aws::app_runner(id, label))
    }     else if str_eq(key, "batch") {
        Some(aws::batch(id, label))
    }     else if str_eq(key, "rds") {
        Some(aws::rds(id, label))
    }     else if str_eq(key, "elasticache") {
        Some(aws::elasticache(id, label))
    }     else if str_eq(key, "efs") {
        Some(aws::efs(id, label))
    }     else if str_eq(key, "route_53") {
        Some(aws::route_53(id, label))
    }     else if str_eq(key, "elastic_load_balancing") {
        Some(aws::elastic_load_balancing(id, label))
    }     else if str_eq(key, "cognito") {
        Some(aws::cognito(id, label))
    }     else if str_eq(key, "secrets_manager") {
        Some(aws::secrets_manager(id, label))
    }     else if str_eq(key, "kms") {
        Some(aws::kms(id, label))
    }     else if str_eq(key, "kinesis") {
        Some(aws::kinesis(id, label))
    }     else if str_eq(key, "athena") {
        Some(aws::athena(id, label))
    }     else if str_eq(key, "opensearch") {
        Some(aws::opensearch(id, label))
    }     else if str_eq(key, "cloudwatch") {
        Some(aws::cloudwatch(id, label))
    } else {
        None
    }
}

/// The `azure` factory called `key`, applied to `id` and `label`.
pub open spec fn azure_kind(key: Seq<char>, id: Seq<char>, label: Seq<char>) -> Option<NodeV> {
    if key == "active_directory"@ {
        Some(tile_node(id, label, AZURE_TILE as int, AZURE_TILE as int, azure_style("azure_active_directory"@)))
    }     else if key == "entra_id"@ {
        Some(tile_node(id, label, AZURE_TILE as int, AZURE_TILE as int, azure_style("azure_active_directory"@)))
    }     else if key == "multi_factor_authentication"@ {
        Some(tile_node(id, label, AZURE_TILE as int, AZURE_TILE as int, azure_style("multi_factor_authentication"@)))
    }     else if key == "server"@ {
        Some(tile_node(id, label, AZURE_TILE as int, AZURE_TILE as int, azure_style("server"@)))
    }     else if key == "storage"@ {
        Some(tile_node(id, label, AZURE_TILE as int, AZURE_TILE as int, azure_style("storage"@)))
    }     else if key == "cache"@ {
        Some(tile_node(id, label, AZURE_TILE as int, AZURE_TILE as int, azure_style("azure_cache"@)))
    }     else if key == "load_balancer"@ {
        Some(tile_node(id, label, AZURE_TILE as int, AZURE_TILE as int, azure_style("azure_load_balancer"@)))
    }     else if key == "website"@ {
        Some(tile_node(id, label, AZURE_TILE as int, AZURE_TILE as int, azure_style("azure_website"@)))
    }     else if key == "cloud_service"@ {
        Some(tile_node(id, label, AZURE_TILE as int, AZURE_TILE as int, azure_style("cloud_service"@)))
    }     else if key == "cdn"@ {
        Some(tile_node(id, label, AZURE_TILE as int, AZURE_TILE as int, azure_style("content_delivery_network"@)))
    }     else if key == "express_route"@ {
        Some(tile_node(id, label, AZURE_TILE as int, AZURE_TILE as int, azure_style("express_route"@)))
    }     else if key == "notification_hub"@ {
        Some(tile_node(id, label, AZURE_TILE as int, AZURE_TILE as int, azure_style("notification_hub"@)))
    }     else if key == "service_bus"@ {
        Some(tile_node(id, label, AZURE_TILE as int, AZURE_TILE as int, azure_style("service_bus"@)))
    }     else if key == "sql_database"@ {
        Some(tile_node(id, label, AZURE_TILE as int, AZURE_TILE as int, azure_style("sql_database"@)))
    }     else if key == "storage_blob"@ {
        Some(tile_node(id, label, AZURE_TILE as int, AZURE_TILE as int, azure_style("storage_blob"@)))
    }     else if key == "storage_queue"@ {
        Some(tile_node(id, label, AZURE_TILE as int, AZURE_TILE as int, azure_style("storage_queue"@)))
    }     else if key == "traffic_manager"@ {
        Some(tile_node(id, label, AZURE_TILE as int, AZURE_TILE as int, azure_style("traffic_manager"@)))
    }     else if key == "virtual_machine"@ {
        Some(tile_node(id, label, AZURE_TILE as int, AZURE_TILE as int, azure_style("virtual_machine"@)))
    }     else if key == "virtual_network"@ {
        Some(tile_node(id, label, AZURE_TILE as int, AZURE_TILE as int, azure_style("virtual_network"@)))
    } else {
        None
    }
}

fn azure_factory(key: &str, id: &str, label: &str) -> (r: Option<Node>)
    ensures
        match r {
            Some(n) => azure_kind(key@, id@, label@) == Some(n@),
            None => azure_kind(key@, id@, label@) == None::<NodeV>,
        },
{
    if str_eq(key, "active_directory") {
        Some(azure::active_directory(id, label))
    }     else if str_eq(key, "entra_id") {
        Some(azure::entra_id(id, label))
    }     else if str_eq(key, "multi_factor_authentication") {
        Some(azure::multi_factor_authentication(id, label))
    }     else if str_eq(key, "server") {
        Some(azure::server(id, label))
    }     else if str_eq(key, "storage") {
        Some(azure::storage(id, label))
    }     else if str_eq(key, "cache") {
        Some(azure::cache(id, label))
    }     else if str_eq(key, "load_balancer") {
        Some(azure::load_balancer(id, label))
    }     else if str_eq(key, "website") {
        Some(azure::website(id, label))
    }     else if str_eq(key, "cloud_service") {
        Some(azure::cloud_service(id, label))
    }     else if str_eq(key, "cdn") {
        Some(azure::cdn(id, label))
    }     else if str_eq(key, "express_route") {
        Some(azure::express_route(id, label))
    }     else if str_eq(key, "notification_hub") {
        Some(azure::notification_hub(id, label))
    }     else if str_eq(key, "service_bus") {
        Some(azure::service_bus(id, label))
    }     else if str_eq(key, "sql_database") {
        Some(azure::sql_database(id, label))
    }     else if str_eq(key, "storage_blob") {
        Some(azure::storage_blob(id, label))
    }     else if str_eq(key, "storage_queue") {
        Some(azure::storage_queue(id, label))
    }     else if str_eq(key, "traffic_manager") {
        Some(azure::traffic_manager(id, label))
    }     else if str_eq(key, "virtual_machine") {
        Some(azure::virtual_machine(id, label))
    }     else if str_eq(key, "virtual_network") {
        Some(azure::virtual_network(id, label))
    } else {
        None
    }
}

/// The `gcp` factory called `key`, applied to `id` and `label`.
pub open spec fn gcp_kind(key: Seq<char>, id: Seq<char>, label: Seq<char>) -> Option<NodeV> {
    if key == "app_engine"@ {
        Some(tile_node(id, label, GCP_TILE as int, GCP_TILE as int, gcp_style("compute"@, "app_engine"@)))
    }     else if key == "cloud_functions"@ {
        Some(tile_node(id, label, GCP_TILE as int, GCP_TILE as int, gcp_style("compute"@, "cloud_functions"@)))
    }     else if key == "compute_engine"@ {
        Some(tile_node(id, label, GCP_TILE as int, GCP_TILE as int, gcp_style("compute"@, "compute_engine"@)))
    }     else if key == "gke"@ {
        Some(tile_node(id, label, GCP_TILE as int, GCP_TILE as int, gcp_style("compute"@, "container_engine"@)))
    }     else if key == "cloud_storage"@ {
        Some(tile_node(id, label, GCP_TILE as int, GCP_TILE as int, gcp_style("storage_databases"@, "cloud_storage"@)))
    }     else if key == "bigquery"@ {
        Some(tile_node(id, label, GCP_TILE as int, GCP_TILE as int, gcp_style("big_data"@, "bigquery"@)))
    }     else if key == "pubsub"@ {
        Some(tile_node(id, label, GCP_TILE as int, GCP_TILE as int, gcp_style("big_data"@, "cloud_pubsub"@)))
    }     else if key == "cloud_sql"@ {
        Some(tile_node(id, label, GCP_TILE as int, GCP_TILE as int, gcp_style("storage_databases"@, "cloud_sql"@)))
    }     else if key == "cloud_datastore"@ {
        Some(tile_node(id, label, GCP_TILE as int, GCP_TILE as int, gcp_style("storage_databases"@, "cloud_datastore"@)))
    }     else if key == "bigtable"@ {
        Some(tile_node(id, label, GCP_TILE as int, GCP_TILE as int, gcp_style("storage_databases"@, "cloud_bigtable"@)))
    }     else if key == "cloud_cdn"@ {
        Some(tile_node(id, label, GCP_TILE as int, GCP_TILE as int, gcp_style("networking"@, "cloud_cdn"@)))
    }     else if key == "cloud_load_balancing"@ {
        Some(tile_node(id, label, GCP_TILE as int, GCP_TILE as int, gcp_style("networking"@, "cloud_load_balancing"@)))
    }     else if key == "cloud_dns"@ {
        Some(tile_node(id, label, GCP_TILE as int, GCP_TILE as int, gcp_style("networking"@, "cloud_dns"@)))
    }     else if key == "iam"@ {
        Some(tile_node(id, label, GCP_TILE as int, GCP_TILE as int, gcp_style("identity_and_security"@, "cloud_iam"@)))
    }     else if key == "logging"@ {
        Some(tile_node(id, label, GCP_TILE as int, GCP_TILE as int, gcp_style("management_tools"@, "logging"@)))
    } else {
        None
    }
}

fn gcp_factory(key: &str, id: &str, label: &str) -> (r: Option<Node>)
    ensures
        match r {
            Some(n) => gcp_kind(key@, id@, label@) == Some(n@),
            None => gcp_kind(key@, id@, label@) == None::<NodeV>,
        },
{
    if str_eq(key, "app_engine") {
        Some(gcp::app_engine(id, label))
    }     else if str_eq(key, "cloud_functions") {
        Some(gcp::cloud_functions(id, label))
    }     else if str_eq(key, "compute_engine") {
        Some(gcp::compute_engine(id, label))
    }     else if str_eq(key, "gke") {
        Some(gcp::gke(id, label))
    }     else if str_eq(key, "cloud_storage") {
        Some(gcp::cloud_storage(id, label))
    }     else if str_eq(key, "bigquery") {
        Some(gcp::bigquery(id, label))
    }     else if str_eq(key, "pubsub") {
        Some(gcp::pubsub(id, label))
    }     else if str_eq(key, "cloud_sql") {
        Some(gcp::cloud_sql(id, label))
    }     else if str_eq(key, "cloud_datastore") {
        Some(gcp::cloud_datastore(id, label))
    }     else if str_eq(key, "bigtable") {
        Some(gcp::bigtable(id, label))
    }     else if str_eq(key, "cloud_cdn") {
        Some(gcp::cloud_cdn(id, label))
    }     else if str_eq(key, "cloud_load_balancing") {
        Some(gcp::cloud_load_balancing(id, label))
    }     else if str_eq(key, "cloud_dns") {
        Some(gcp::cloud_dns(id, label))
    }     else if str_eq(key, "iam") {
        Some(gcp::iam(id, label))
    }     else if str_eq(key, "logging") {
        Some(gcp::logging(id, label))
    } else {
        None
    }
}

/// The `k8s` factory called `key`, applied to `id` and `label`.
pub open spec fn k8s_kind(key: Seq<char>, id: Seq<char>, label: Seq<char>) -> Option<NodeV> {
    if key == "pod"@ {
        Some(tile_node(id, label, K8S_TILE_W as int, K8S_TILE_H as int, k8s_style("pod"@)))
    }     else if key == "deployment"@ {
        Some(tile_node(id, label, K8S_TILE_W as int, K8S_TILE_H as int, k8s_style("deploy"@)))
    }     else if key == "service"@ {
        Some(tile_node(id, label, K8S_TILE_W as int, K8S_TILE_H as int, k8s_style("svc"@)))
    }     else if key == "ingress"@ {
        Some(tile_node(id, label, K8S_TILE_W as int, K8S_TILE_H as int, k8s_style("ing"@)))
    }     else if key == "config_map"@ {
        Some(tile_node(id, label, K8S_TILE_W as int, K8S_TILE_H as int, k8s_style("cm"@)))
    }     else if key == "secret"@ {
        Some(tile_node(id, label, K8S_TILE_W as int, K8S_TILE_H as int, k8s_style("secret"@)))
    }     else if key == "namespace"@ {
        Some(tile_node(id, label, K8S_TILE_W as int, K8S_TILE_H as int, k8s_style("ns"@)))
    }     else if key == "node"@ {
        Some(tile_node(id, label, K8S_TILE_W as int, K8S_TILE_H as int, k8s_style("node"@)))
    }     else if key == "persistent_volume"@ {
        Some(tile_node(id, label, K8S_TILE_W as int, K8S_TILE_H as int, k8s_style("pv"@)))
    }     else if key == "replica_set"@ {
        Some(tile_node(id, label, K8S_TILE_W as int, K8S_TILE_H as int, k8s_style("rs"@)))
    } else {
        None
    }
}

fn k8s_factory(key: &str, id: &str, label: &str) -> (r: Option<Node>)
    ensures
        match r {
            Some(n) => k8s_kind(key@, id@, label@) == Some(n@),
            None => k8s_kind(key@, id@, label@) == None::<NodeV>,
        },
{
    if str_eq(key, "pod") {
        Some(k8s::pod(id, label))
    }     else if str_eq(key, "deployment") {
        Some(k8s::deployment(id, label))
    }     else if str_eq(key, "service") {
        Some(k8s::service(id, label))
    }     else if str_eq(key, "ingress") {
        Some(k8s::ingress(id, label))
    }     else if str_eq(key, "config_map") {
        Some(k8s::config_map(id, label))
    }     else if str_eq(key, "secret") {
        Some(k8s::secret(id, label))
    }     else if str_eq(key, "namespace") {
        Some(k8s::namespace(id, label))
    }     else if str_eq(key, "node") {
        Some(k8s::node(id, label))
    }     else if str_eq(key, "persistent_volume") {
        Some(k8s::persistent_volume(id, label))
    }     else if str_eq(key, "replica_set") {
        Some(k8s::replica_set(id, label))
    } else {
        None
    }
}

/// The `client` factory called `key`, applied to `id` and `label`.
pub open spec fn client_kind(key: Seq<char>, id: Seq<char>, label: Seq<char>) -> Option<NodeV> {
    if key == "browser"@ {
        Some(tile_node(id, label, AWS_TILE as int, AWS_TILE as int, aws_style("#5A6C86"@, "mxgraph.aws4.client"@)))
    }     else if key == "mobile"@ {
        Some(tile_node(id, label, AWS_TILE as int, AWS_TILE as int, aws_style("#5A6C86"@, "mxgraph.aws4.mobile_client"@)))
    }     else if key == "person"@ {
        Some(tile_node(id, label, AWS_TILE as int, AWS_TILE as int, aws_style("#5A6C86"@, "mxgraph.aws4.user"@)))
    }     else if key == "external_system"@ {
        Some(tile_node(id, label, AWS_TILE as int, AWS_TILE as int, aws_style("#5A6C86"@, "mxgraph.aws4.internet"@)))
    } else {
        None
    }
}

fn client_factory(key: &str, id: &str, label: &str) -> (r: Option<Node>)
    ensures
        match r {
            Some(n) => client_kind(key@, id@, label@) == Some(n@),
            None => client_kind(key@, id@, label@) == None::<NodeV>,
        },
{
    if str_eq(key, "browser") {
        Some(client::browser(id, label))
    }     else if str_eq(key, "mobile") {
        Some(client::mobile(id, label))
    }     else if str_eq(key, "person") {
        Some(client::person(id, label))
    }     else if str_eq(key, "external_system") {
        Some(client::external_system(id, label))
    } else {
        None
    }
}

/// The `generic` factory called `key`, applied to `id` and `label`.
pub open spec fn generic_kind(key: Seq<char>, id: Seq<char>, label: Seq<char>) -> Option<NodeV> {
    if key == "database"@ {
        Some(tile_node(id, label, AWS_TILE as int, AWS_TILE as int, aws_style("#5A6C86"@, "mxgraph.aws4.database"@)))
    }     else if key == "queue"@ {
        Some(tile_node(id, label, AWS_TILE as int, AWS_TILE as int, aws_style("#5A6C86"@, "mxgraph.aws4.queue"@)))
    }     else if key == "document"@ {
        Some(tile_node(id, label, AWS_TILE as int, AWS_TILE as int, aws_style("#5A6C86"@, "mxgraph.aws4.document"@)))
    }     else if key == "cloud"@ {
        Some(tile_node(id, label, CLOUD_W as int, CLOUD_H as int, cloud_style()))
    } else {
        None
    }
}

fn generic_factory(key: &str, id: &str, label: &str) -> (r: Option<Node>)
    ensures
        match r {
            Some(n) => generic_kind(key@, id@, label@) == Some(n@),
            None => generic_kind(key@, id@, label@) == None::<NodeV>,
        },
{
    if str_eq(key, "database") {
        Some(generic::database(id, label))
    }     else if str_eq(key, "queue") {
        Some(generic::queue(id, label))
    }     else if str_eq(key, "document") {
        Some(generic::document(id, label))
    }     else if str_eq(key, "cloud") {
        Some(generic::cloud(id, label))
    } else {
        None
    }
}

/// The node a kind other than `raw` makes: the factory `<key>` of the
/// library `<library>` named by `<library>.<key>`.
pub open spec fn kind_node(kind: Seq<char>, id: Seq<char>, label: Seq<char>) -> Option<NodeV> {
    if 4 <= kind.len() && kind.take(4) == "aws."@ {
        aws_kind(kind.skip(4), id, label)
    }     else if 6 <= kind.len() && kind.take(6) == "azure."@ {
        azure_kind(kind.skip(6), id, label)
    }     else if 4 <= kind.len() && kind.take(4) == "gcp."@ {
        gcp_kind(kind.skip(4), id, label)
    }     else if 4 <= kind.len() && kind.take(4) == "k8s."@ {
        k8s_kind(kind.skip(4), id, label)
    }     else if 7 <= kind.len() && kind.take(7) == "client."@ {
        client_kind(kind.skip(7), id, label)
    }     else if 8 <= kind.len() && kind.take(8) == "generic."@ {
        generic_kind(kind.skip(8), id, label)
    } else {
        None
    }
}

/// The node a factory kind `<library>.<key>` makes for `id` and `label`.
pub fn factory_node(kind: &str, id: &str, label: &str) -> (r: Option<Node>)
    ensures
        match r {
            Some(n) => kind_node(kind@, id@, label@) == Some(n@),
            None => kind_node(kind@, id@, label@) == None::<NodeV>,
        },
{
    proof {
        reveal_strlit("aws.");
        reveal_strlit("azure.");
        reveal_strlit("gcp.");
        reveal_strlit("k8s.");
        reveal_strlit("client.");
        reveal_strlit("generic.");
    }
    let v = chars_of(kind);
    if starts_with(kind, "aws.") {
        let key = string_of_range(&v, 4, v.len());
        proof {
            assert(kind@.skip(4) =~= v@.subrange(4, v@.len() as int));
        }
        return aws_factory(key.as_str(), id, label);
    }
    if starts_with(kind, "azure.") {
        let key = string_of_range(&v, 6, v.len());
        proof {
            assert(kind@.skip(6) =~= v@.subrange(6, v@.len() as int));
        }
        return azure_factory(key.as_str(), id, label);
    }
    if starts_with(kind, "gcp.") {
        let key = string_of_range(&v, 4, v.len());
        proof {
            assert(kind@.skip(4) =~= v@.subrange(4, v@.len() as int));
        }
        return gcp_factory(key.as_str(), id, label);
    }
    if starts_with(kind, "k8s.") {
        let key = string_of_range(&v, 4, v.len());
        proof {
            assert(kind@.skip(4) =~= v@.subrange(4, v@.len() as int));
        }
        return k8s_factory(key.as_str(), id, label);
    }
    if starts_with(kind, "client.") {
        let key = string_of_range(&v, 7, v.len());
        proof {
            assert(kind@.skip(7) =~= v@.subrange(7, v@.len() as int));
        }
        return client_factory(key.as_str(), id, label);
    }
    if starts_with(kind, "generic.") {
        let key = string_of_range(&v, 8, v.len());
        proof {
            assert(kind@.skip(8) =~= v@.subrange(8, v@.len() as int));
        }
        return generic_factory(key.as_str(), id, label);
    }
    None
}

/// Every node kind the schema accepts: `raw`, then the factories of each
/// library.
pub open spec fn node_kinds_spec() -> Seq<Seq<char>> {
    seq![
        "raw"@,
        "aws.api_gateway"@,
        "aws.lambda"@,
        "aws.s3"@,
        "aws.dynamodb"@,
        "aws.ec2"@,
        "aws.sqs"@,
        "aws.sns"@,
        "aws.cloudfront"@,
        "aws.msk"@,
        "aws.iam"@,
        "aws.vpc"@,
        "aws.eventbridge"@,
        "aws.step_functions"@,
        "aws.appsync"@,
        "aws.ecs"@,
        "aws.eks"@,
        "aws.fargate"@,
        "aws.app_runner"@,
        "aws.batch"@,
        "aws.rds"@,
        "aws.elasticache"@,
        "aws.efs"@,
        "aws.route_53"@,
        "aws.elastic_load_balancing"@,
        "aws.cognito"@,
        "aws.secrets_manager"@,
        "aws.kms"@,
        "aws.kinesis"@,
        "aws.athena"@,
        "aws.cloudwatch"@,
        "aws.opensearch"@,
        "azure.active_directory"@,
        "azure.entra_id"@,
        "azure.multi_factor_authentication"@,
        "azure.server"@,
        "azure.storage"@,
        "azure.cache"@,
        "azure.load_balancer"@,
        "azure.website"@,
        "azure.cloud_service"@,
        "azure.cdn"@,
        "azure.express_route"@,
        "azure.notification_hub"@,
        "azure.service_bus"@,
        "azure.sql_database"@,
        "azure.storage_blob"@,
        "azure.storage_queue"@,
        "azure.traffic_manager"@,
        "azure.virtual_machine"@,
        "azure.virtual_network"@,
        "gcp.app_engine"@,
        "gcp.cloud_functions"@,
        "gcp.compute_engine"@,
        "gcp.gke"@,
        "gcp.cloud_storage"@,
        "gcp.bigquery"@,
        "gcp.pubsub"@,
        "gcp.cloud_sql"@,
        "gcp.cloud_datastore"@,
        "gcp.bigtable"@,
        "gcp.cloud_cdn"@,
        "gcp.cloud_load_balancing"@,
        "gcp.cloud_dns"@,
        "gcp.iam"@,
        "gcp.logging"@,
        "k8s.pod"@,
        "k8s.deployment"@,
        "k8s.service"@,
        "k8s.ingress"@,
        "k8s.config_map"@,
        "k8s.secret"@,
        "k8s.namespace"@,
        "k8s.node"@,
        "k8s.persistent_volume"@,
        "k8s.replica_set"@,
        "client.browser"@,
        "client.mobile"@,
        "client.person"@,
        "client.external_system"@,
        "generic.database"@,
        "generic.queue"@,
        "generic.document"@,
        "generic.cloud"@,
    ]
}

/// Every node kind the schema accepts.
pub fn node_kinds() -> (r: Vec<&'static str>)
    ensures
        r@.map_values(|s: &'static str| s@) == node_kinds_spec(),
{
    let mut v: Vec<&'static str> = Vec::new();
    v.push("raw");
    v.push("aws.api_gateway");
    v.push("aws.lambda");
    v.push("aws.s3");
    v.push("aws.dynamodb");
    v.push("aws.ec2");
    v.push("aws.sqs");
    v.push("aws.sns");
    v.push("aws.cloudfront");
    v.push("aws.msk");
    v.push("aws.iam");
    v.push("aws.vpc");
    v.push("aws.eventbridge");
    v.push("aws.step_functions");
    v.push("aws.appsync");
    v.push("aws.ecs");
    v.push("aws.eks");
    v.push("aws.fargate");
    v.push("aws.app_runner");
    v.push("aws.batch");
    v.push("aws.rds");
    v.push("aws.elasticache");
    v.push("aws.efs");
    v.push("aws.route_53");
    v.push("aws.elastic_load_balancing");
    v.push("aws.cognito");
    v.push("aws.secrets_manager");
    v.push("aws.kms");
    v.push("aws.kinesis");
    v.push("aws.athena");
    v.push("aws.cloudwatch");
    v.push("aws.opensearch");
    v.push("azure.active_directory");
    v.push("azure.entra_id");
    v.push("azure.multi_factor_authentication");
    v.push("azure.server");
    v.push("azure.storage");
    v.push("azure.cache");
    v.push("azure.load_balancer");
    v.push("azure.website");
    v.push("azure.cloud_service");
    v.push("azure.cdn");
    v.push("azure.express_route");
    v.push("azure.notification_hub");
    v.push("azure.service_bus");
    v.push("azure.sql_database");
    v.push("azure.storage_blob");
    v.push("azure.storage_queue");
    v.push("azure.traffic_manager");
    v.push("azure.virtual_machine");
    v.push("azure.virtual_network");
    v.push("gcp.app_engine");
    v.push("gcp.cloud_functions");
    v.push("gcp.compute_engine");
    v.push("gcp.gke");
    v.push("gcp.cloud_storage");
    v.push("gcp.bigquery");
    v.push("gcp.pubsub");
    v.push("gcp.cloud_sql");
    v.push("gcp.cloud_datastore");
    v.push("gcp.bigtable");
    v.push("gcp.cloud_cdn");
    v.push("gcp.cloud_load_balancing");
    v.push("gcp.cloud_dns");
    v.push("gcp.iam");
    v.push("gcp.logging");
    v.push("k8s.pod");
    v.push("k8s.deployment");
    v.push("k8s.service");
    v.push("k8s.ingress");
    v.push("k8s.config_map");
    v.push("k8s.secret");
    v.push("k8s.namespace");
    v.push("k8s.node");
    v.push("k8s.persistent_volume");
    v.push("k8s.replica_set");
    v.push("client.browser");
    v.push("client.mobile");
    v.push("client.person");
    v.push("client.external_system");
    v.push("generic.database");
    v.push("generic.queue");
    v.push("generic.document");
    v.push("generic.cloud");
    assert(v@.map_values(|s: &'static str| s@) =~= node_kinds_spec());
    v
}

} // verus!
