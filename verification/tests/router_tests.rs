use otcbot::grammar::render_full_help;
use otcbot::router::{route, tokenize, MessageContent, Reply};

fn text(body: &str) -> MessageContent {
    MessageContent::Text { body: body.to_string() }
}

fn sender() -> String {
    "@alice:example.org".to_string()
}

#[test]
fn route_ignores_non_text_messages() {
    let out = route(&MessageContent::Other, &sender());
    assert_eq!(out.reply, Reply::Silent);
    assert!(!out.mark_read);
}

#[test]
fn route_without_prefix_never_replies() {
    let out = route(&text("hello there"), &sender());
    assert_eq!(out.reply, Reply::Silent);
    assert!(out.mark_read);
    // Even a body holding valid command words is never parsed when the
    // prefix is missing.
    let out = route(&text("please !otcbot gm"), &sender());
    assert_eq!(out.reply, Reply::Silent);
    assert!(out.mark_read);
}

#[test]
fn route_empty_body_is_not_acknowledged() {
    let out = route(&text(""), &sender());
    assert_eq!(out.reply, Reply::Silent);
    assert!(!out.mark_read);
}

#[test]
fn route_gm_greets_the_sender() {
    let out = route(&text("!otcbot gm"), &sender());
    assert_eq!(out.reply, Reply::Plain("Hey @alice:example.org".to_string()));
    assert!(out.mark_read);
}

#[test]
fn route_party_sends_the_fixed_message() {
    let out = route(&text("!otcbot party"), &sender());
    assert_eq!(out.reply, Reply::Plain("🎉🎊🥳 let's PARTY!! 🥳🎊🎉".to_string()));
}

#[test]
fn route_registry_import_dispatches_the_action() {
    let out = route(&text("!otcbot registry import foo v1"), &sender());
    assert_eq!(out.reply, Reply::Import { image: "foo".to_string(), tag: "v1".to_string() });
    assert!(out.mark_read);
}

#[test]
fn route_parse_failure_sends_help_verbatim() {
    let out = route(&text("!otcbot dance"), &sender());
    assert_eq!(out.reply, Reply::Plain(render_full_help()));
}

#[test]
fn route_double_space_makes_an_empty_token() {
    let out = route(&text("!otcbot  gm"), &sender());
    assert_eq!(out.reply, Reply::Plain(render_full_help()));
}

#[test]
fn route_is_deterministic_on_repeat() {
    let msg = text("!otcbot gm");
    let first = route(&msg, &sender());
    let second = route(&msg, &sender());
    assert_eq!(first, second);
}

#[test]
fn tokenize_splits_at_single_spaces() {
    assert_eq!(tokenize(&"a b".to_string()), vec!["a".to_string(), "b".to_string()]);
    assert_eq!(
        tokenize(&"a  b".to_string()),
        vec!["a".to_string(), "".to_string(), "b".to_string()]
    );
    assert_eq!(tokenize(&"".to_string()), vec!["".to_string()]);
    assert_eq!(
        tokenize(&"!otcbot registry import foo v1".to_string()),
        vec![
            "!otcbot".to_string(),
            "registry".to_string(),
            "import".to_string(),
            "foo".to_string(),
            "v1".to_string()
        ]
    );
}
