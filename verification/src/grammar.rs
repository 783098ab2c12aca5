//! The bot's command grammar.
//!
//! A qualifying message body is tokenized by the router and handed here as a
//! sequence of tokens whose first element is the command prefix. The grammar
//! recognizes `gm`, `party` and `registry import <IMAGE> <TAG>`; an explicit
//! help request yields the usage text for the requested scope, and every
//! other parse failure yields the full help text for the whole grammar.
//! Parsing is pure: the result is a function of the token sequence alone.

use vstd::prelude::*;

verus! {

/// A parsed bot command, or the help text to send back when the tokens do
/// not form one.
#[derive(Debug, PartialEq, Eq)]
pub enum Command {
    /// Send a personalized greeting to the sender.
    Greet,
    /// Send the fixed celebratory message.
    Party,
    /// Copy the configured image `image` at version `tag` between registries.
    RegistryImport { image: String, tag: String },
    /// The rendered usage text to send back verbatim.
    HelpText(String),
}

/// The mathematical value of a [`Command`]: the same variants over
/// character sequences.
pub ghost enum CommandView {
    Greet,
    Party,
    RegistryImport { image: Seq<char>, tag: Seq<char> },
    HelpText(Seq<char>),
}

impl View for Command {
    type V = CommandView;

    open spec fn view(&self) -> CommandView {
        match self {
            Command::Greet => CommandView::Greet,
            Command::Party => CommandView::Party,
            Command::RegistryImport { image, tag } => CommandView::RegistryImport {
                image: image@,
                tag: tag@,
            },
            Command::HelpText(h) => CommandView::HelpText(h@),
        }
    }
}

/// The full help text for the whole grammar, sent on any parse failure.
pub open spec fn full_help() -> Seq<char> {
    "An awesome OTC Bot\n\nUsage: !otcbot <COMMAND>\n\nCommands:\n  gm        Greet me\n  party     Party time\n  registry  Manage Container Registry\n  help      Print help for a command\n"@
}

/// The short usage for the top-level scope, sent on an explicit help request.
pub open spec fn root_help() -> Seq<char> {
    "Usage: !otcbot <COMMAND>\n\nCommands:\n  gm        Greet me\n  party     Party time\n  registry  Manage Container Registry\n  help      Print help for a command\n"@
}

/// The short usage for the `gm` scope.
pub open spec fn gm_help() -> Seq<char> {
    "Greet me\n\nUsage: !otcbot gm\n"@
}

/// The short usage for the `party` scope.
pub open spec fn party_help() -> Seq<char> {
    "Party time\n\nUsage: !otcbot party\n"@
}

/// The short usage for the `registry` scope.
pub open spec fn registry_help() -> Seq<char> {
    "Manage Container Registry\n\nUsage: !otcbot registry <COMMAND>\n\nCommands:\n  import  Import image into registry\n"@
}

/// The short usage for the `registry import` scope.
pub open spec fn import_help() -> Seq<char> {
    "Import image into registry\n\nUsage: !otcbot registry import <IMAGE> <TAG>\n\nArguments:\n  <IMAGE>  Image name\n  <TAG>    Image version\n"@
}

/// Whether a token is an explicit help flag.
pub open spec fn is_help_flag(t: Seq<char>) -> bool {
    t == "--help"@ || t == "-h"@
}

/// What parsing the tokens of a `registry import` invocation yields:
/// `toks[0]` is the prefix, `toks[1]` is `registry`, `toks[2]` is `import`.
pub open spec fn parse_import_spec(toks: Seq<Seq<char>>) -> CommandView {
    if toks.len() >= 4 && is_help_flag(toks[3]) {
        CommandView::HelpText(import_help())
    } else if toks.len() == 5 && is_help_flag(toks[4]) {
        CommandView::HelpText(import_help())
    } else if toks.len() == 5 {
        CommandView::RegistryImport { image: toks[3], tag: toks[4] }
    } else {
        CommandView::HelpText(full_help())
    }
}

/// What an explicit `help` subcommand yields: the usage for the named scope,
/// or the full help when the scope is unknown.
pub open spec fn parse_help_spec(toks: Seq<Seq<char>>) -> CommandView {
    if toks.len() == 2 {
        CommandView::HelpText(root_help())
    } else if toks.len() == 3 && toks[2] == "gm"@ {
        CommandView::HelpText(gm_help())
    } else if toks.len() == 3 && toks[2] == "party"@ {
        CommandView::HelpText(party_help())
    } else if toks[2] == "registry"@ {
        if toks.len() == 3 {
            CommandView::HelpText(registry_help())
        } else if toks.len() == 4 && toks[3] == "import"@ {
            CommandView::HelpText(import_help())
        } else {
            CommandView::HelpText(full_help())
        }
    } else {
        CommandView::HelpText(full_help())
    }
}

/// What parsing a token sequence yields. `toks[0]` is the command prefix and
/// carries no information of its own: the caller filters on it before
/// tokenizing. Subcommands taking no arguments reject trailing tokens.
pub open spec fn parse_spec(toks: Seq<Seq<char>>) -> CommandView {
    if toks.len() < 2 {
        CommandView::HelpText(full_help())
    } else if is_help_flag(toks[1]) {
        CommandView::HelpText(root_help())
    } else if toks[1] == "gm"@ {
        if toks.len() == 2 {
            CommandView::Greet
        } else if is_help_flag(toks[2]) {
            CommandView::HelpText(gm_help())
        } else {
            CommandView::HelpText(full_help())
        }
    } else if toks[1] == "party"@ {
        if toks.len() == 2 {
            CommandView::Party
        } else if is_help_flag(toks[2]) {
            CommandView::HelpText(party_help())
        } else {
            CommandView::HelpText(full_help())
        }
    } else if toks[1] == "registry"@ {
        if toks.len() == 2 {
            CommandView::HelpText(full_help())
        } else if is_help_flag(toks[2]) {
            CommandView::HelpText(registry_help())
        } else if toks[2] == "import"@ {
            parse_import_spec(toks)
        } else {
            CommandView::HelpText(full_help())
        }
    } else if toks[1] == "help"@ {
        parse_help_spec(toks)
    } else {
        CommandView::HelpText(full_help())
    }
}

/// The character sequences of a sequence of owned tokens.
pub open spec fn token_views(ts: Seq<String>) -> Seq<Seq<char>> {
    ts.map_values(|t: String| t@)
}

/// Whether the token equals the literal, as character sequences.
fn tok_is(t: &String, lit: &str) -> (r: bool)
    ensures
        r == (t@ == lit@),
{
    let owned: String = lit.to_owned();
    *t == owned
}

/// Whether the token is an explicit help flag.
fn is_help_tok(t: &String) -> (r: bool)
    ensures
        r == is_help_flag(t@),
{
    tok_is(t, "--help") || tok_is(t, "-h")
}

/// The full help text for the whole grammar.
pub fn render_full_help() -> (r: String)
    ensures
        r@ == full_help(),
{
    String::from_str("An awesome OTC Bot\n\nUsage: !otcbot <COMMAND>\n\nCommands:\n  gm        Greet me\n  party     Party time\n  registry  Manage Container Registry\n  help      Print help for a command\n")
}

fn render_root_help() -> (r: String)
    ensures
        r@ == root_help(),
{
    String::from_str("Usage: !otcbot <COMMAND>\n\nCommands:\n  gm        Greet me\n  party     Party time\n  registry  Manage Container Registry\n  help      Print help for a command\n")
}

fn render_gm_help() -> (r: String)
    ensures
        r@ == gm_help(),
{
    String::from_str("Greet me\n\nUsage: !otcbot gm\n")
}

fn render_party_help() -> (r: String)
    ensures
        r@ == party_help(),
{
    String::from_str("Party time\n\nUsage: !otcbot party\n")
}

fn render_registry_help() -> (r: String)
    ensures
        r@ == registry_help(),
{
    String::from_str("Manage Container Registry\n\nUsage: !otcbot registry <COMMAND>\n\nCommands:\n  import  Import image into registry\n")
}

fn render_import_help() -> (r: String)
    ensures
        r@ == import_help(),
{
    String::from_str("Import image into registry\n\nUsage: !otcbot registry import <IMAGE> <TAG>\n\nArguments:\n  <IMAGE>  Image name\n  <TAG>    Image version\n")
}

/// Parse a tokenized message body against the grammar. The first token is
/// the command prefix; the caller has already filtered on it.
pub fn parse(tokens: &Vec<String>) -> (r: Command)
    ensures
        r@ == parse_spec(token_views(tokens@)),
{
    if tokens.len() < 2 {
        Command::HelpText(render_full_help())
    } else if is_help_tok(&tokens[1]) {
        Command::HelpText(render_root_help())
    } else if tok_is(&tokens[1], "gm") {
        if tokens.len() == 2 {
            Command::Greet
        } else if is_help_tok(&tokens[2]) {
            Command::HelpText(render_gm_help())
        } else {
            Command::HelpText(render_full_help())
        }
    } else if tok_is(&tokens[1], "party") {
        if tokens.len() == 2 {
            Command::Party
        } else if is_help_tok(&tokens[2]) {
            Command::HelpText(render_party_help())
        } else {
            Command::HelpText(render_full_help())
        }
    } else if tok_is(&tokens[1], "registry") {
        if tokens.len() == 2 {
            Command::HelpText(render_full_help())
        } else if is_help_tok(&tokens[2]) {
            Command::HelpText(render_registry_help())
        } else if tok_is(&tokens[2], "import") {
            parse_import(tokens)
        } else {
            Command::HelpText(render_full_help())
        }
    } else if tok_is(&tokens[1], "help") {
        parse_help(tokens)
    } else {
        Command::HelpText(render_full_help())
    }
}

/// Parse the arguments of `registry import`.
fn parse_import(tokens: &Vec<String>) -> (r: Command)
    requires
        tokens@.len() >= 3,
    ensures
        r@ == parse_import_spec(token_views(tokens@)),
{
    if tokens.len() >= 4 && is_help_tok(&tokens[3]) {
        Command::HelpText(render_import_help())
    } else if tokens.len() == 5 && is_help_tok(&tokens[4]) {
        Command::HelpText(render_import_help())
    } else if tokens.len() == 5 {
        Command::RegistryImport { image: tokens[3].clone(), tag: tokens[4].clone() }
    } else {
        Command::HelpText(render_full_help())
    }
}

/// Parse the scope of an explicit `help` request.
fn parse_help(tokens: &Vec<String>) -> (r: Command)
    requires
        tokens@.len() >= 2,
    ensures
        r@ == parse_help_spec(token_views(tokens@)),
{
    if tokens.len() == 2 {
        Command::HelpText(render_root_help())
    } else if tokens.len() == 3 && tok_is(&tokens[2], "gm") {
        Command::HelpText(render_gm_help())
    } else if tokens.len() == 3 && tok_is(&tokens[2], "party") {
        Command::HelpText(render_party_help())
    } else if tok_is(&tokens[2], "registry") {
        if tokens.len() == 3 {
            Command::HelpText(render_registry_help())
        } else if tokens.len() == 4 && tok_is(&tokens[3], "import") {
            Command::HelpText(render_import_help())
        } else {
            Command::HelpText(render_full_help())
        }
    } else {
        Command::HelpText(render_full_help())
    }
}

/// Every help text the grammar can yield is non-empty: a parse failure is
/// never reported by silence.
pub proof fn lemma_help_nonempty(toks: Seq<Seq<char>>)
    ensures
        parse_spec(toks) matches CommandView::HelpText(h) ==> h.len() > 0,
{
    reveal_strlit("An awesome OTC Bot\n\nUsage: !otcbot <COMMAND>\n\nCommands:\n  gm        Greet me\n  party     Party time\n  registry  Manage Container Registry\n  help      Print help for a command\n");
    reveal_strlit("Usage: !otcbot <COMMAND>\n\nCommands:\n  gm        Greet me\n  party     Party time\n  registry  Manage Container Registry\n  help      Print help for a command\n");
    reveal_strlit("Greet me\n\nUsage: !otcbot gm\n");
    reveal_strlit("Party time\n\nUsage: !otcbot party\n");
    reveal_strlit("Manage Container Registry\n\nUsage: !otcbot registry <COMMAND>\n\nCommands:\n  import  Import image into registry\n");
    reveal_strlit("Import image into registry\n\nUsage: !otcbot registry import <IMAGE> <TAG>\n\nArguments:\n  <IMAGE>  Image name\n  <TAG>    Image version\n");
}

} // verus!
