use load_thing::config::parser::{parse_config, NixKind, NixNode, NixTree, config_from_tree};

const SAMPLE: &str = r#"{
  proxy = {
    target = "https://example.com/";
    port = 443;
    path = "/api";
  };
  web = {
    port = 8080;
    hostname = "0.0.0.0";
  };
  features = {
    log = false;
  };
}"#;

#[test]
fn parse_config_reads_every_setting() {
    let config = parse_config(SAMPLE);
    assert_eq!(config.proxy_config.target, "https://example.com/");
    assert_eq!(config.proxy_config.port, 443);
    assert_eq!(config.proxy_config.path, "/api");
    assert_eq!(config.web_config.port, 8080);
    assert_eq!(config.web_config.hostname, "0.0.0.0");
    assert!(!config.features_config.log);
}

#[test]
fn parse_config_defaults_when_empty() {
    let config = parse_config("{ }");
    assert_eq!(config.proxy_config.target, "http://localhost");
    assert_eq!(config.proxy_config.port, 80);
    assert_eq!(config.proxy_config.path, "/");
    assert_eq!(config.web_config.port, 9595);
    assert_eq!(config.web_config.hostname, "127.0.0.1");
    assert!(config.features_config.log);
}

#[test]
fn parse_config_defaults_for_missing_keys() {
    let config = parse_config("{ proxy = { port = 8000; }; features = { log = true; }; }");
    assert_eq!(config.proxy_config.target, "http://localhost");
    assert_eq!(config.proxy_config.port, 8000);
    assert_eq!(config.proxy_config.path, "/");
    assert_eq!(config.web_config.port, 9595);
    assert!(config.features_config.log);
}

#[test]
fn parse_config_port_out_of_range_takes_default() {
    let config = parse_config("{ proxy = { port = 70000; }; web = { port = \"12\"; }; }");
    assert_eq!(config.proxy_config.port, 80);
    assert_eq!(config.web_config.port, 12);
}

#[test]
fn parse_config_log_other_than_true_is_off() {
    let config = parse_config("{ features = { log = \"yes\"; }; }");
    assert!(!config.features_config.log);
}

#[test]
fn parse_config_ignores_unknown_identifiers() {
    let config = parse_config("{ features = { log = maybe; }; }");
    assert!(config.features_config.log);
}

#[test]
fn find_attrset_and_value_on_parsed_tree() {
    let tree = NixTree::parse("{ web = { hostname = \"h\"; }; }");
    let set = tree.find_attrset(0, "web").expect("web set");
    assert_eq!(tree.find_attr_value(set, "hostname").as_deref(), Some("h"));
    assert_eq!(tree.find_attr_value(set, "port"), None);
    assert_eq!(tree.find_attrset(0, "proxy"), None);
}

fn node(kind: NixKind, text: &str, size: usize) -> NixNode {
    NixNode { kind, text: text.to_string(), size }
}

#[test]
fn config_from_hand_built_tree() {
    // { proxy = { port = 1234; }; }
    let tree = NixTree {
        nodes: vec![
            node(NixKind::Other, "{ proxy = { port = 1234; }; }", 8),
            node(NixKind::AttrSet, "{ proxy = { port = 1234; }; }", 7),
            node(NixKind::AttrpathValue, "proxy = { port = 1234; };", 6),
            node(NixKind::Attrpath, "proxy", 2),
            node(NixKind::Ident, "proxy", 1),
            node(NixKind::AttrSet, "{ port = 1234; }", 3),
            node(NixKind::AttrpathValue, "port = 1234;", 2),
            node(NixKind::Attrpath, "port", 1),
        ],
    };
    let config = config_from_tree(&tree);
    assert_eq!(config.proxy_config.port, 80);
    let tree2 = NixTree {
        nodes: vec![
            node(NixKind::Other, "", 9),
            node(NixKind::AttrSet, "", 8),
            node(NixKind::AttrpathValue, "", 7),
            node(NixKind::Attrpath, "proxy", 1),
            node(NixKind::AttrSet, "", 5),
            node(NixKind::AttrpathValue, "", 4),
            node(NixKind::Attrpath, "port", 2),
            node(NixKind::Ident, "port", 1),
            node(NixKind::Literal, "1234", 1),
        ],
    };
    let config2 = config_from_tree(&tree2);
    assert_eq!(config2.proxy_config.port, 1234);
    assert_eq!(config2.web_config.port, 9595);
}
