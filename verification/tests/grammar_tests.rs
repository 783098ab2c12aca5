use otcbot::grammar::{parse, render_full_help, Command};

fn toks(words: &[&str]) -> Vec<String> {
    words.iter().map(|w| w.to_string()).collect()
}

#[test]
fn test_1_cmd() {
    let matches = parse(&toks(&["!otcbot", "help", "registry"]));
    assert!(matches!(matches, Command::HelpText(_)));
}

#[test]
fn parse_gm_is_greet() {
    assert_eq!(parse(&toks(&["!otcbot", "gm"])), Command::Greet);
}

#[test]
fn parse_party_is_party() {
    assert_eq!(parse(&toks(&["!otcbot", "party"])), Command::Party);
}

#[test]
fn parse_registry_import_with_both_args() {
    assert_eq!(
        parse(&toks(&["!otcbot", "registry", "import", "foo", "v1"])),
        Command::RegistryImport { image: "foo".to_string(), tag: "v1".to_string() }
    );
}

#[test]
fn parse_registry_import_missing_tag_is_nonempty_help() {
    match parse(&toks(&["!otcbot", "registry", "import", "foo"])) {
        Command::HelpText(h) => assert!(!h.is_empty()),
        other => panic!("expected help text, got {:?}", other),
    }
}

#[test]
fn parse_registry_import_missing_both_args_is_full_help() {
    assert_eq!(
        parse(&toks(&["!otcbot", "registry", "import"])),
        Command::HelpText(render_full_help())
    );
}

#[test]
fn parse_registry_import_extra_arg_is_full_help() {
    assert_eq!(
        parse(&toks(&["!otcbot", "registry", "import", "foo", "v1", "x"])),
        Command::HelpText(render_full_help())
    );
}

#[test]
fn parse_unknown_subcommand_is_full_help() {
    assert_eq!(parse(&toks(&["!otcbot", "frobnicate"])), Command::HelpText(render_full_help()));
}

#[test]
fn parse_prefix_alone_is_full_help() {
    assert_eq!(parse(&toks(&["!otcbot"])), Command::HelpText(render_full_help()));
}

#[test]
fn parse_gm_with_extra_arg_is_full_help() {
    assert_eq!(parse(&toks(&["!otcbot", "gm", "now"])), Command::HelpText(render_full_help()));
}

#[test]
fn parse_registry_alone_is_full_help() {
    assert_eq!(parse(&toks(&["!otcbot", "registry"])), Command::HelpText(render_full_help()));
}

#[test]
fn parse_help_requests_give_scoped_nonempty_help() {
    let root = match parse(&toks(&["!otcbot", "help"])) {
        Command::HelpText(h) => h,
        other => panic!("expected help text, got {:?}", other),
    };
    assert!(!root.is_empty());
    let registry = match parse(&toks(&["!otcbot", "help", "registry"])) {
        Command::HelpText(h) => h,
        other => panic!("expected help text, got {:?}", other),
    };
    assert!(!registry.is_empty());
    assert_ne!(root, registry);
    let import = match parse(&toks(&["!otcbot", "registry", "import", "--help"])) {
        Command::HelpText(h) => h,
        other => panic!("expected help text, got {:?}", other),
    };
    assert!(import.contains("<IMAGE>"));
    assert!(import.contains("<TAG>"));
}

#[test]
fn parse_help_flag_is_root_help() {
    let a = parse(&toks(&["!otcbot", "--help"]));
    let b = parse(&toks(&["!otcbot", "-h"]));
    assert_eq!(a, b);
    assert!(matches!(a, Command::HelpText(_)));
}

#[test]
fn parse_empty_token_is_full_help() {
    assert_eq!(parse(&toks(&["!otcbot", "", "gm"])), Command::HelpText(render_full_help()));
}
