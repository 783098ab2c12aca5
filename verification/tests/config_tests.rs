use otcbot::config::{ImageConfig, Registry};

fn image(up: &str, down: &str) -> ImageConfig {
    ImageConfig { upstream: up.to_string(), downstream: down.to_string() }
}

#[test]
fn duplicate_image_keys_are_rejected() {
    let registry = Registry {
        username: None,
        images: vec![
            ("foo".to_string(), image("a/b", "c/d")),
            ("foo".to_string(), image("e/f", "g/h")),
        ],
    };
    assert!(!registry.validate());
}

#[test]
fn unique_image_keys_are_accepted() {
    let registry = Registry {
        username: Some("robot".to_string()),
        images: vec![
            ("foo".to_string(), image("a/b", "c/d")),
            ("bar".to_string(), image("e/f", "g/h")),
        ],
    };
    assert!(registry.validate());
}

#[test]
fn empty_mapping_is_accepted() {
    let registry = Registry { username: None, images: vec![] };
    assert!(registry.validate());
}

#[test]
fn lookup_finds_exactly_the_configured_key() {
    let registry = Registry {
        username: None,
        images: vec![
            ("foo".to_string(), image("a/b", "c/d")),
            ("bar".to_string(), image("e/f", "g/h")),
        ],
    };
    let found = registry.lookup(&"bar".to_string()).expect("configured key");
    assert_eq!(found.upstream, "e/f");
    assert_eq!(found.downstream, "g/h");
    assert!(registry.lookup(&"baz".to_string()).is_none());
}
