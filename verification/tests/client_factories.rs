use drawio_headless::author::Node;
use drawio_headless::client::{browser, external_system, mobile, person, CLIENT_FILL};

fn assert_client_style(node: &Node, res_icon: &str) {
    assert!(
        node.style.contains(&format!("resIcon={res_icon}")),
        "missing resIcon={res_icon} in style: {}",
        node.style,
    );
    assert!(
        node.style.contains(&format!("fillColor={CLIENT_FILL}")),
        "missing client fill in style: {}",
        node.style,
    );
    assert!(node.style.contains("shape=mxgraph.aws4.resourceIcon"));
}

#[test]
fn browser_factory() {
    assert_client_style(&browser("b", "Browser"), "mxgraph.aws4.client");
}

#[test]
fn mobile_factory() {
    assert_client_style(&mobile("m", "Mobile app"), "mxgraph.aws4.mobile_client");
}

#[test]
fn person_factory() {
    assert_client_style(&person("p", "End user"), "mxgraph.aws4.user");
}

#[test]
fn external_system_factory() {
    assert_client_style(
        &external_system("e", "Partner API"),
        "mxgraph.aws4.internet",
    );
}
