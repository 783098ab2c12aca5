//! The message router.
//!
//! For each inbound room-message notification the router decides, as a pure
//! function of the message and its sender, what response to give: nothing
//! for a non-text message; nothing but a read acknowledgement for text not
//! starting with the command prefix; otherwise the reply the parsed command
//! calls for. The surrounding program performs the sends; a send failure
//! aborts only that one message's handling.

use vstd::prelude::*;
use crate::grammar::{parse, parse_spec, token_views, Command, CommandView};

verus! {

/// The fixed command prefix a text body must start with.
pub open spec fn command_prefix() -> Seq<char> {
    "!otcbot"@
}

/// Whether the body begins with the command prefix.
pub open spec fn has_prefix(body: Seq<char>) -> bool {
    body.len() >= command_prefix().len() && body.subrange(
        0,
        command_prefix().len() as int,
    ) == command_prefix()
}

/// The body split at single spaces, empty tokens kept: what tokenizing a
/// message yields. An empty body yields one empty token.
pub open spec fn split_body(s: Seq<char>) -> Seq<Seq<char>>
    decreases s.len(),
{
    if s.len() == 0 {
        seq![Seq::<char>::empty()]
    } else {
        let rest = split_body(s.drop_last());
        if s.last() == ' ' {
            rest.push(Seq::<char>::empty())
        } else {
            rest.update(rest.len() - 1, rest.last().push(s.last()))
        }
    }
}

/// The personalized greeting for a `gm` command.
pub open spec fn greeting(sender: Seq<char>) -> Seq<char> {
    "Hey "@ + sender
}

/// The fixed celebratory message for a `party` command.
pub open spec fn party_message() -> Seq<char> {
    "🎉🎊🥳 let's PARTY!! 🥳🎊🎉"@
}

/// The room-visible response the router decides on.
#[derive(Debug, PartialEq, Eq)]
pub enum Reply {
    /// No room-visible response.
    Silent,
    /// Send this text as a plain message.
    Plain(String),
    /// Run the registry-import action for this image key and tag.
    Import { image: String, tag: String },
}

/// The mathematical value of a [`Reply`].
pub ghost enum ReplyView {
    Silent,
    Plain(Seq<char>),
    Import { image: Seq<char>, tag: Seq<char> },
}

impl View for Reply {
    type V = ReplyView;

    open spec fn view(&self) -> ReplyView {
        match self {
            Reply::Silent => ReplyView::Silent,
            Reply::Plain(t) => ReplyView::Plain(t@),
            Reply::Import { image, tag } => ReplyView::Import { image: image@, tag: tag@ },
        }
    }
}

/// What the router decides for one message: the response, and whether to
/// acknowledge the message as read.
#[derive(Debug, PartialEq, Eq)]
pub struct RouterOutcome {
    pub reply: Reply,
    pub mark_read: bool,
}

/// The mathematical value of a [`RouterOutcome`].
pub ghost struct RouterOutcomeView {
    pub reply: ReplyView,
    pub mark_read: bool,
}

impl View for RouterOutcome {
    type V = RouterOutcomeView;

    open spec fn view(&self) -> RouterOutcomeView {
        RouterOutcomeView { reply: self.reply@, mark_read: self.mark_read }
    }
}

/// An inbound room message as the router sees it: a plain-text body, or
/// anything else.
pub enum MessageContent {
    Text { body: String },
    Other,
}

/// The reply a parsed command calls for.
pub open spec fn reply_for(cmd: CommandView, sender: Seq<char>) -> ReplyView {
    match cmd {
        CommandView::Greet => ReplyView::Plain(greeting(sender)),
        CommandView::Party => ReplyView::Plain(party_message()),
        CommandView::RegistryImport { image, tag } => ReplyView::Import { image, tag },
        CommandView::HelpText(h) => ReplyView::Plain(h),
    }
}

/// What the router decides for a plain-text body: a body without the
/// command prefix gets no reply whatever it holds — the grammar is reached
/// only through the prefix — and any non-empty body is acknowledged as read.
pub open spec fn route_text_spec(body: Seq<char>, sender: Seq<char>) -> RouterOutcomeView {
    RouterOutcomeView {
        reply: if has_prefix(body) {
            reply_for(parse_spec(split_body(body)), sender)
        } else {
            ReplyView::Silent
        },
        mark_read: body.len() > 0,
    }
}

/// Whether the body begins with the command prefix.
fn starts_with_prefix(body: &String) -> (r: bool)
    ensures
        r == has_prefix(body@),
{
    proof {
        reveal_strlit("!otcbot");
    }
    let n = body.as_str().unicode_len();
    if n < 7 {
        return false;
    }
    let head: String = body.as_str().substring_char(0, 7).to_owned();
    let prefix: String = String::from_str("!otcbot");
    head == prefix
}

/// Split the body at single spaces, keeping empty tokens: how a message
/// body is tokenized before parsing.
pub fn tokenize(body: &String) -> (tokens: Vec<String>)
    ensures
        token_views(tokens@) == split_body(body@),
{
    let s = body.as_str();
    let n = s.unicode_len();
    let mut tokens: Vec<String> = Vec::new();
    let mut start: usize = 0;
    let mut i: usize = 0;
    proof {
        assert(body@.take(0) =~= Seq::<char>::empty());
        assert(token_views(tokens@).push(body@.subrange(0, 0)) =~~= seq![Seq::<char>::empty()]);
    }
    while i < n
        invariant
            n == body@.len(),
            start <= i <= n,
            s@ == body@,
            split_body(body@.take(i as int)) == token_views(tokens@).push(
                body@.subrange(start as int, i as int),
            ),
        decreases n - i,
    {
        let ghost prev_tokens = tokens@;
        let ghost cur = body@.subrange(start as int, i as int);
        let c = s.get_char(i);
        if c == ' ' {
            let tok: String = s.substring_char(start, i).to_owned();
            tokens.push(tok);
            start = i + 1;
        }
        i += 1;
        proof {
            let taken = body@.take(i as int);
            assert(taken.drop_last() =~= body@.take(i - 1));
            assert(taken.last() == body@[i - 1]);
            if c == ' ' {
                assert(token_views(tokens@) =~~= token_views(prev_tokens).push(cur));
                assert(body@.subrange(start as int, i as int) =~= Seq::<char>::empty());
                assert(split_body(taken) =~~= token_views(tokens@).push(
                    body@.subrange(start as int, i as int),
                ));
            } else {
                let rest = split_body(body@.take(i - 1));
                assert(rest == token_views(prev_tokens).push(cur));
                assert(rest.len() == token_views(prev_tokens).len() + 1);
                assert(split_body(taken) == rest.update(rest.len() - 1, rest.last().push(c)));
                assert(rest.last() == cur);
                assert(rest.update(rest.len() - 1, cur.push(c)) =~~= token_views(
                    prev_tokens,
                ).push(cur.push(c)));
                assert(body@.subrange(start as int, i as int) =~= cur.push(c));
            }
        }
    }
    let tok: String = s.substring_char(start, n).to_owned();
    tokens.push(tok);
    proof {
        assert(body@.take(n as int) =~= body@);
        assert(token_views(tokens@) =~~= token_views(tokens@.drop_last()).push(
            body@.subrange(start as int, n as int),
        ));
    }
    tokens
}

/// Decide the response to one inbound message. A non-text message is
/// ignored outright; a text body is acknowledged as read exactly when it is
/// non-empty, and answered only when it begins with the command prefix.
pub fn route(content: &MessageContent, sender: &String) -> (r: RouterOutcome)
    ensures
        content matches MessageContent::Text { body } ==> r@ == route_text_spec(body@, sender@),
        content is Other ==> r@ == (RouterOutcomeView { reply: ReplyView::Silent, mark_read: false }),
{
    match content {
        MessageContent::Other => RouterOutcome { reply: Reply::Silent, mark_read: false },
        MessageContent::Text { body } => {
            let mark_read = body.as_str().unicode_len() > 0;
            let reply = if starts_with_prefix(body) {
                let tokens = tokenize(body);
                match parse(&tokens) {
                    Command::Greet => Reply::Plain(
                        String::from_str("Hey ").concat(sender.as_str()),
                    ),
                    Command::Party => Reply::Plain(
                        String::from_str("🎉🎊🥳 let's PARTY!! 🥳🎊🎉"),
                    ),
                    Command::RegistryImport { image, tag } => Reply::Import { image, tag },
                    Command::HelpText(h) => Reply::Plain(h),
                }
            } else {
                Reply::Silent
            };
            RouterOutcome { reply, mark_read }
        },
    }
}

/// A body without the command prefix is never answered: the router
/// short-circuits before the grammar, whatever the rest of the body holds.
pub proof fn lemma_no_prefix_no_reply(body: Seq<char>, sender: Seq<char>)
    requires
        !has_prefix(body),
    ensures
        route_text_spec(body, sender).reply == ReplyView::Silent,
{
}

} // verus!
