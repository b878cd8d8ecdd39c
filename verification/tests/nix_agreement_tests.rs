//! Configuration lookups checked against the same walk written over rnix's
//! own syntax nodes.

use load_thing::config::parser::parse_config;
use rnix::{Root, SyntaxKind, SyntaxNode};

fn rnix_attr_value(node: &SyntaxNode, attr_name: &str) -> Option<String> {
    for child in node.descendants() {
        if child.kind() == SyntaxKind::NODE_ATTRPATH_VALUE {
            let mut key_found = false;
            let mut value = None;
            for inner in child.children() {
                if inner.kind() == SyntaxKind::NODE_ATTRPATH && inner.text().to_string() == attr_name {
                    key_found = true;
                }
                if key_found && inner.kind() == SyntaxKind::NODE_STRING {
                    value = Some(inner.text().to_string().trim_matches('"').to_string());
                    break;
                } else if key_found && inner.kind() == SyntaxKind::NODE_LITERAL {
                    value = Some(inner.text().to_string());
                    break;
                } else if key_found && inner.kind() == SyntaxKind::NODE_IDENT {
                    let text = inner.text().to_string();
                    if text == "true" || text == "false" {
                        value = Some(text);
                        break;
                    }
                }
            }
            if value.is_some() {
                return value;
            }
        }
    }
    None
}

fn rnix_attrset(node: &SyntaxNode, set_name: &str) -> Option<SyntaxNode> {
    for child in node.descendants() {
        if child.kind() == SyntaxKind::NODE_ATTRPATH_VALUE {
            let mut is_target = false;
            for inner in child.children() {
                if inner.kind() == SyntaxKind::NODE_ATTRPATH && inner.text().to_string() == set_name {
                    is_target = true;
                }
                if is_target && inner.kind() == SyntaxKind::NODE_ATTR_SET {
                    return Some(inner);
                }
            }
        }
    }
    None
}

fn lookup(root: &SyntaxNode, set: &str, key: &str) -> Option<String> {
    rnix_attrset(root, set).and_then(|node| rnix_attr_value(&node, key))
}

#[test]
fn config_agrees_with_rnix_walk() {
    let sources = [
        "{ proxy = { target = \"http://a\"; port = 81; path = \"/p\"; }; web = { port = 1; hostname = \"h\"; }; features = { log = false; }; }",
        "{ outer = { proxy = { port = 99; }; }; proxy = { port = 98; }; }",
        "{ proxy = { inner = { port = 7; }; port = 8; }; }",
        "{ proxy.port = 5; proxy = { target = ''multi''; }; }",
        "# comment\n{ web = { hostname = \"\\\"quoted\\\"\"; port = \"0x10\"; }; }",
        "let x = 1; in { features = { log = true; }; web = { port = x; }; }",
        "{ proxy = { target = \"${y}z\"; }; }",
        "not valid nix {{{",
        "",
        "{ features = { log = null; }; }",
    ];
    for source in sources {
        let root = Root::parse(source).syntax();
        let config = parse_config(source);
        assert_eq!(
            config.proxy_config.target,
            lookup(&root, "proxy", "target").unwrap_or_else(|| "http://localhost".to_string()),
            "{source}"
        );
        assert_eq!(
            config.proxy_config.port,
            lookup(&root, "proxy", "port").and_then(|s| s.parse().ok()).unwrap_or(80),
            "{source}"
        );
        assert_eq!(
            config.proxy_config.path,
            lookup(&root, "proxy", "path").unwrap_or_else(|| "/".to_string()),
            "{source}"
        );
        assert_eq!(
            config.web_config.port,
            lookup(&root, "web", "port").and_then(|s| s.parse().ok()).unwrap_or(9595),
            "{source}"
        );
        assert_eq!(
            config.web_config.hostname,
            lookup(&root, "web", "hostname").unwrap_or_else(|| "127.0.0.1".to_string()),
            "{source}"
        );
        assert_eq!(
            config.features_config.log,
            lookup(&root, "features", "log").map(|s| s == "true").unwrap_or(true),
            "{source}"
        );
    }
}
