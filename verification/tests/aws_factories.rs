use drawio_headless::author::Node;
use drawio_headless::aws::{app_runner, appsync, athena, batch, cloudfront, cloudwatch, cognito, ecs, efs, eks, elastic_load_balancing, elasticache, eventbridge, fargate, iam, kinesis, kms, lambda, msk, opensearch, rds, route_53, secrets_manager, sns, sqs, step_functions, vpc};

fn assert_aws_style(node: &Node, res_icon: &str, fill: &str) {
    assert!(
        node.style.contains(&format!("resIcon={res_icon}")),
        "missing resIcon={res_icon} in style: {}",
        node.style,
    );
    assert!(
        node.style.contains(&format!("fillColor={fill}")),
        "missing fillColor={fill} in style: {}",
        node.style,
    );
    assert!(node.style.contains("shape=mxgraph.aws4.resourceIcon"));
    // Canonical 16-point AWS resource-icon constraint set: 5 along the
    // top edge, 5 along the bottom, 3 interior on each vertical side.
    assert!(
        node.style.contains(
            "points=[[0,0,0],[0.25,0,0],[0.5,0,0],[0.75,0,0],[1,0,0],\
             [0,1,0],[0.25,1,0],[0.5,1,0],[0.75,1,0],[1,1,0],\
             [0,0.25,0],[0,0.5,0],[0,0.75,0],[1,0.25,0],[1,0.5,0],[1,0.75,0]]"
        ),
        "missing 16-point connection set in style: {}",
        node.style,
    );
}

#[test]
fn lambda_factory() {
    assert_aws_style(&lambda("l", "Lambda"), "mxgraph.aws4.lambda", "#ED7100");
}

#[test]
fn sqs_factory() {
    assert_aws_style(&sqs("q", "Orders"), "mxgraph.aws4.sqs", "#E7157B");
}

#[test]
fn sns_factory() {
    assert_aws_style(&sns("t", "Notify"), "mxgraph.aws4.sns", "#E7157B");
}

#[test]
fn cloudfront_factory() {
    assert_aws_style(
        &cloudfront("cf", "CDN"),
        "mxgraph.aws4.cloudfront",
        "#8C4FFF",
    );
}

#[test]
fn msk_factory() {
    assert_aws_style(
        &msk("k", "Kafka"),
        "mxgraph.aws4.managed_streaming_for_kafka",
        "#8C4FFF",
    );
}

#[test]
fn aws_iam_factory() {
    assert_aws_style(
        &iam("r", "Role"),
        "mxgraph.aws4.identity_and_access_management",
        "#DD344C",
    );
}

#[test]
fn vpc_factory() {
    assert_aws_style(
        &vpc("v", "VPC"),
        "mxgraph.aws4.virtual_private_cloud",
        "#8C4FFF",
    );
}

#[test]
fn eventbridge_factory() {
    assert_aws_style(
        &eventbridge("eb", "Events"),
        "mxgraph.aws4.eventbridge",
        "#E7157B",
    );
}

#[test]
fn step_functions_factory() {
    assert_aws_style(
        &step_functions("sf", "Workflow"),
        "mxgraph.aws4.step_functions",
        "#E7157B",
    );
}

#[test]
fn appsync_factory() {
    assert_aws_style(&appsync("as", "GraphQL"), "mxgraph.aws4.appsync", "#E7157B");
}

#[test]
fn ecs_factory() {
    assert_aws_style(&ecs("c", "Containers"), "mxgraph.aws4.ecs", "#ED7100");
}

#[test]
fn eks_factory() {
    assert_aws_style(&eks("k", "Kubernetes"), "mxgraph.aws4.eks", "#ED7100");
}

#[test]
fn fargate_factory() {
    assert_aws_style(&fargate("f", "Fargate"), "mxgraph.aws4.fargate", "#ED7100");
}

#[test]
fn app_runner_factory() {
    assert_aws_style(
        &app_runner("ar", "App Runner"),
        "mxgraph.aws4.app_runner",
        "#ED7100",
    );
}

#[test]
fn batch_factory() {
    assert_aws_style(&batch("b", "Batch"), "mxgraph.aws4.batch", "#ED7100");
}

#[test]
fn rds_factory() {
    assert_aws_style(&rds("db", "Postgres"), "mxgraph.aws4.rds", "#C925D1");
}

#[test]
fn elasticache_factory() {
    assert_aws_style(
        &elasticache("ec", "Cache"),
        "mxgraph.aws4.elasticache",
        "#C925D1",
    );
}

#[test]
fn efs_factory() {
    assert_aws_style(
        &efs("fs", "File system"),
        "mxgraph.aws4.elastic_file_system",
        "#7AA116",
    );
}

#[test]
fn route_53_factory() {
    assert_aws_style(&route_53("r53", "DNS"), "mxgraph.aws4.route_53", "#8C4FFF");
}

#[test]
fn elastic_load_balancing_factory() {
    assert_aws_style(
        &elastic_load_balancing("elb", "ELB"),
        "mxgraph.aws4.elastic_load_balancing",
        "#8C4FFF",
    );
}

#[test]
fn cognito_factory() {
    assert_aws_style(&cognito("cog", "Users"), "mxgraph.aws4.cognito", "#DD344C");
}

#[test]
fn secrets_manager_factory() {
    assert_aws_style(
        &secrets_manager("sm", "Secrets"),
        "mxgraph.aws4.secrets_manager",
        "#DD344C",
    );
}

#[test]
fn kms_factory() {
    assert_aws_style(
        &kms("kms", "Keys"),
        "mxgraph.aws4.key_management_service",
        "#DD344C",
    );
}

#[test]
fn kinesis_factory() {
    assert_aws_style(&kinesis("ki", "Stream"), "mxgraph.aws4.kinesis", "#8C4FFF");
}

#[test]
fn athena_factory() {
    assert_aws_style(&athena("at", "Query"), "mxgraph.aws4.athena", "#8C4FFF");
}

#[test]
fn opensearch_factory() {
    assert_aws_style(
        &opensearch("os", "Search"),
        "mxgraph.aws4.elasticsearch_service",
        "#8C4FFF",
    );
}

#[test]
fn cloudwatch_factory() {
    assert_aws_style(
        &cloudwatch("cw", "Metrics"),
        "mxgraph.aws4.cloudwatch",
        "#E7157B",
    );
}
