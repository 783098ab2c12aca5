//! The registry-import action.
//!
//! Given the configured image mapping, an image key and a tag, the action
//! either reports that the key is not configured — one plain message, no
//! external invocation — or yields the acknowledgement message and the exact
//! argument list for the external copy process. Once the process has run,
//! [`transcript`] renders its captured output as the single formatted
//! message sent back into the room.

use vstd::prelude::*;
use crate::config::Registry;
use crate::grammar::token_views;

verus! {

/// The message sent when an image key is not configured.
pub open spec fn not_configured_message(image: Seq<char>) -> Seq<char> {
    "Image "@ + image + " is not configured"@
}

/// The acknowledgement sent before a configured import runs.
pub open spec fn ack_message(up: Seq<char>, down: Seq<char>, tag: Seq<char>) -> Seq<char> {
    "Got it. Importing "@ + up + ":"@ + tag + " to "@ + down + ":"@ + tag + " ..."@
}

/// A fully qualified image reference handed to the copy process.
pub open spec fn image_ref(r: Seq<char>, tag: Seq<char>) -> Seq<char> {
    "docker://"@ + r + ":"@ + tag
}

/// The exact argument list of the external copy invocation.
pub open spec fn import_args(up: Seq<char>, down: Seq<char>, tag: Seq<char>) -> Seq<Seq<char>> {
    seq!["copy"@, image_ref(up, tag), image_ref(down, tag), "-a"@]
}

/// The arguments joined by single spaces, as the transcript prints them.
pub open spec fn join_spaces(ts: Seq<Seq<char>>) -> Seq<char>
    decreases ts.len(),
{
    if ts.len() == 0 {
        Seq::empty()
    } else if ts.len() == 1 {
        ts[0]
    } else {
        join_spaces(ts.drop_last()) + " "@ + ts.last()
    }
}

/// The transcript of one external invocation: a fixed banner, the invocation
/// line, the captured standard output on success or standard error on
/// failure, and a closing delimiter.
pub open spec fn transcript_text(
    args: Seq<Seq<char>>,
    success: bool,
    out: Seq<char>,
    err: Seq<char>,
) -> Seq<char> {
    "```\notcbot$> skopeo "@ + join_spaces(args) + "\n\n"@ + (if success {
        out
    } else {
        err
    }) + "\n```"@
}

/// What a registry-import command amounts to.
#[derive(Debug, PartialEq, Eq)]
pub enum ImportPlan {
    /// The image key is not configured: send exactly this one plain message
    /// and invoke nothing.
    NotConfigured { message: String },
    /// The key is configured: send `ack`, then run the external copy process
    /// with exactly `args`.
    Run { ack: String, args: Vec<String> },
}

/// A fully qualified image reference.
fn render_image_ref(r: &String, tag: &String) -> (s: String)
    ensures
        s@ == image_ref(r@, tag@),
{
    String::from_str("docker://").concat(r.as_str()).concat(":").concat(tag.as_str())
}

/// Decide a registry-import command against the configured mapping.
pub fn plan_import(registry: &Registry, image: &String, tag: &String) -> (p: ImportPlan)
    requires
        registry.wf(),
    ensures
        match p {
            ImportPlan::NotConfigured { message } => !registry.images_map().contains_key(image@)
                && message@ == not_configured_message(image@),
            ImportPlan::Run { ack, args } => registry.images_map().contains_key(image@) && {
                let refs = registry.images_map()[image@];
                &&& ack@ == ack_message(refs.upstream, refs.downstream, tag@)
                &&& token_views(args@) == import_args(refs.upstream, refs.downstream, tag@)
            },
        },
{
    match registry.lookup(image) {
        Some(ic) => {
            let ack = String::from_str("Got it. Importing ").concat(ic.upstream.as_str()).concat(
                ":",
            ).concat(tag.as_str()).concat(" to ").concat(ic.downstream.as_str()).concat(
                ":",
            ).concat(tag.as_str()).concat(" ...");
            let mut args: Vec<String> = Vec::new();
            args.push(String::from_str("copy"));
            args.push(render_image_ref(&ic.upstream, tag));
            args.push(render_image_ref(&ic.downstream, tag));
            args.push(String::from_str("-a"));
            proof {
                let refs = registry.images_map()[image@];
                assert(token_views(args@) =~~= import_args(refs.upstream, refs.downstream, tag@));
            }
            ImportPlan::Run { ack, args }
        },
        None => {
            let message = String::from_str("Image ").concat(image.as_str()).concat(
                " is not configured",
            );
            ImportPlan::NotConfigured { message }
        },
    }
}

/// The arguments joined by single spaces.
fn join_args(args: &Vec<String>) -> (r: String)
    ensures
        r@ == join_spaces(token_views(args@)),
{
    let ghost tv = token_views(args@);
    let n = args.len();
    let mut r = String::new();
    let mut i: usize = 0;
    while i < n
        invariant
            n == args@.len(),
            i <= n,
            tv == token_views(args@),
            r@ == join_spaces(tv.take(i as int)),
        decreases n - i,
    {
        if i > 0 {
            r.append(" ");
        }
        r.append(args[i].as_str());
        proof {
            assert(tv.take(i + 1 as int).drop_last() =~~= tv.take(i as int));
            if i == 0 {
                assert(r@ =~= tv[0]);
                assert(tv.take(1)[0] == tv[0]);
            }
        }
        i += 1;
    }
    proof {
        assert(tv.take(n as int) =~~= tv);
    }
    r
}

/// Render the transcript of one finished external invocation.
pub fn transcript(args: &Vec<String>, success: bool, stdout: &String, stderr: &String) -> (log:
    String)
    ensures
        log@ == transcript_text(token_views(args@), success, stdout@, stderr@),
{
    let mut log = String::from_str("```\notcbot$> skopeo ");
    let joined = join_args(args);
    log.append(joined.as_str());
    log.append("\n\n");
    if success {
        log.append(stdout.as_str());
    } else {
        log.append(stderr.as_str());
    }
    log.append("\n```");
    log
}

} // verus!
