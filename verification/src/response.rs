//! What each channel's response loop does with one incoming message.
//!
//! The loops themselves block on a socket, so they live with the caller;
//! everything they decide — which editor side effect a message causes,
//! and with what text — is computed here. One stream item is either a
//! response or the text of a transport error; the definition and
//! completion channels additionally receive the outcome of the external
//! location / completion-list parse of a returned payload.

use vstd::prelude::*;

use crate::text::{
    concat_str, decimal, message_lines, prefixed, split_lines, split_lines_exec, u64_to_string,
    views_of,
};

verus! {

/// One message from a channel, as the wire protocol hands it over:
/// an evaluation result, an out-of-band tapped value, captured stdout,
/// or runtime-side error text.
#[derive(Debug)]
pub enum Response {
    Ret(String, u64),
    Tap(String, u64),
    Out(String),
    RunErr(String),
}

/// A source position the editor can jump to, as the external location
/// parse reports it.
#[derive(Debug)]
pub struct Location {
    pub path: String,
    pub line: u64,
    pub column: u64,
}

/// The editor side effect one response loop step asks for.
#[derive(Debug)]
pub enum ServerAction {
    /// Write `lines` to the log, tagged with `tag`.
    LogLines { tag: String, lines: Vec<String> },
    /// Write one error line.
    ErrLine { line: String },
    /// Jump the editor view to `loc`.
    JumpTo { loc: Location },
    /// Replace the completion candidate set with `items`.
    SetCompletions { items: Vec<String> },
    /// Ignore the message.
    NoEffect,
}

pub open spec fn is_log(a: ServerAction, tag: Seq<char>, lines: Seq<Seq<char>>) -> bool {
    match a {
        ServerAction::LogLines { tag: t, lines: l } => t@ == tag && views_of(l@) == lines,
        _ => false,
    }
}

pub open spec fn is_err_line(a: ServerAction, line: Seq<char>) -> bool {
    match a {
        ServerAction::ErrLine { line: l } => l@ == line,
        _ => false,
    }
}

/// The log tag of a timed response: the connection's label, the response
/// kind, and the elapsed milliseconds.
pub open spec fn timed_tag(label: Seq<char>, kind_sep: Seq<char>, ms: u64) -> Seq<char> {
    label + kind_sep + decimal(ms as nat) + "ms"@
}

/// What the eval channel's loop does with one stream item: every
/// response becomes one tagged log write (`Out`/`Err` payloads get a
/// comment prefix on every line, `Ret`/`Tap` none), and a transport
/// error becomes one error line.
pub open spec fn eval_action_is(
    label: Seq<char>,
    item: Result<Response, String>,
    a: ServerAction,
) -> bool {
    match item {
        Ok(Response::Ret(msg, ms)) => is_log(
            a,
            timed_tag(label, " ret "@, ms),
            split_lines(msg@),
        ),
        Ok(Response::Tap(msg, ms)) => is_log(
            a,
            timed_tag(label, " tap "@, ms),
            split_lines(msg@),
        ),
        Ok(Response::Out(msg)) => is_log(a, label + " out"@, prefixed(";; "@, split_lines(msg@))),
        Ok(Response::RunErr(msg)) => is_log(a, label + " err"@, prefixed(";; "@, split_lines(msg@))),
        Err(msg) => is_err_line(a, "Error from eval connection: "@ + msg@),
    }
}

fn timed_tag_exec(label: &str, kind_sep: &str, ms: u64) -> (r: String)
    ensures
        r@ == timed_tag(label@, kind_sep@, ms),
{
    let digits = u64_to_string(ms);
    let r = concat_str(&concat_str(&concat_str(label, kind_sep), digits.as_str()), "ms");
    proof {
        assert(r@ =~= timed_tag(label@, kind_sep@, ms));
    }
    r
}

/// One step of the eval channel's loop.
pub fn eval_action(label: &str, item: Result<Response, String>) -> (a: ServerAction)
    ensures
        eval_action_is(label@, item, a),
{
    match item {
        Ok(Response::Ret(msg, ms)) => ServerAction::LogLines {
            tag: timed_tag_exec(label, " ret ", ms),
            lines: split_lines_exec(msg.as_str()),
        },
        Ok(Response::Tap(msg, ms)) => ServerAction::LogLines {
            tag: timed_tag_exec(label, " tap ", ms),
            lines: split_lines_exec(msg.as_str()),
        },
        Ok(Response::Out(msg)) => ServerAction::LogLines {
            tag: concat_str(label, " out"),
            lines: message_lines(";; ", msg.as_str()),
        },
        Ok(Response::RunErr(msg)) => ServerAction::LogLines {
            tag: concat_str(label, " err"),
            lines: message_lines(";; ", msg.as_str()),
        },
        Err(msg) => ServerAction::ErrLine {
            line: concat_str("Error from eval connection: ", msg.as_str()),
        },
    }
}

/// What the definition channel's loop does with one stream item,
/// given the outcome of the external location parse of a `Ret` payload:
/// a parsed location becomes a jump; the "unknown" sentinel becomes one
/// error line; any other unparsable payload has no effect; `Tap`/`Out`
/// are ignored; runtime and transport errors become error lines.
pub open spec fn definition_action_is(
    item: Result<Response, String>,
    parsed: Option<Location>,
    a: ServerAction,
) -> bool {
    match item {
        Ok(Response::Ret(msg, _)) => match parsed {
            Some(loc) => a == (ServerAction::JumpTo { loc }),
            None => if msg@ == ":unknown"@ {
                is_err_line(a, "Location unknown"@)
            } else {
                a == ServerAction::NoEffect
            },
        },
        Ok(Response::RunErr(msg)) => is_err_line(a, "Error message from go to location: "@ + msg@),
        Ok(Response::Tap(_, _)) => a == ServerAction::NoEffect,
        Ok(Response::Out(_)) => a == ServerAction::NoEffect,
        Err(msg) => is_err_line(a, "Error from definition connection: "@ + msg@),
    }
}

/// One step of the definition channel's loop. `parsed` is the outcome of
/// the external location parse of the payload when `item` is a `Ret`;
/// it is ignored otherwise.
pub fn definition_action(item: Result<Response, String>, parsed: Option<Location>) -> (a:
    ServerAction)
    ensures
        definition_action_is(item, parsed, a),
{
    match item {
        Ok(Response::Ret(msg, _)) => match parsed {
            Some(loc) => ServerAction::JumpTo { loc },
            None => {
                let sentinel: String = ":unknown".to_owned();
                if msg == sentinel {
                    ServerAction::ErrLine { line: "Location unknown".to_owned() }
                } else {
                    ServerAction::NoEffect
                }
            },
        },
        Ok(Response::RunErr(msg)) => ServerAction::ErrLine {
            line: concat_str("Error message from go to location: ", msg.as_str()),
        },
        Ok(Response::Tap(_, _)) => ServerAction::NoEffect,
        Ok(Response::Out(_)) => ServerAction::NoEffect,
        Err(msg) => ServerAction::ErrLine {
            line: concat_str("Error from definition connection: ", msg.as_str()),
        },
    }
}

/// What the completion channel's loop does with one stream item, given
/// the outcome of the external completion-list parse of a `Ret` payload:
/// a parsed candidate list replaces the completion set; an unparsable
/// payload has no effect; `Tap`/`Out` are ignored; runtime and transport
/// errors become error lines.
pub open spec fn completion_action_is(
    item: Result<Response, String>,
    parsed: Option<Vec<String>>,
    a: ServerAction,
) -> bool {
    match item {
        Ok(Response::Ret(_, _)) => match parsed {
            Some(items) => a == (ServerAction::SetCompletions { items }),
            None => a == ServerAction::NoEffect,
        },
        Ok(Response::RunErr(msg)) => is_err_line(a, "Error message from completions: "@ + msg@),
        Ok(Response::Tap(_, _)) => a == ServerAction::NoEffect,
        Ok(Response::Out(_)) => a == ServerAction::NoEffect,
        Err(msg) => is_err_line(a, "Error from completion connection: "@ + msg@),
    }
}

/// One step of the completion channel's loop. `parsed` is the outcome of
/// the external completion-list parse of the payload when `item` is a
/// `Ret`; it is ignored otherwise.
pub fn completion_action(item: Result<Response, String>, parsed: Option<Vec<String>>) -> (a:
    ServerAction)
    ensures
        completion_action_is(item, parsed, a),
{
    match item {
        Ok(Response::Ret(_, _)) => match parsed {
            Some(items) => ServerAction::SetCompletions { items },
            None => ServerAction::NoEffect,
        },
        Ok(Response::RunErr(msg)) => ServerAction::ErrLine {
            line: concat_str("Error message from completions: ", msg.as_str()),
        },
        Ok(Response::Tap(_, _)) => ServerAction::NoEffect,
        Ok(Response::Out(_)) => ServerAction::NoEffect,
        Err(msg) => ServerAction::ErrLine {
            line: concat_str("Error from completion connection: ", msg.as_str()),
        },
    }
}

/// Processes a whole eval-channel stream: every item gets its action,
/// so an error item (a transport error) never stops the delivery of the
/// items after it, and never touches any other channel's stream.
pub fn eval_channel_actions(label: &str, items: Vec<Result<Response, String>>) -> (acts: Vec<
    ServerAction,
>)
    ensures
        acts@.len() == items@.len(),
        forall|i: int| 0 <= i < items@.len() ==> eval_action_is(label@, #[trigger] items@[i], acts@[i]),
{
    let ghost orig = items@;
    let mut rest = items;
    let mut acts: Vec<ServerAction> = Vec::new();
    while rest.len() > 0
        invariant
            acts@.len() + rest@.len() == orig.len(),
            rest@ == orig.skip(acts@.len() as int),
            forall|i: int|
                0 <= i < acts@.len() ==> eval_action_is(label@, #[trigger] orig[i], acts@[i]),
        decreases rest@.len(),
    {
        let ghost k = acts@.len() as int;
        let item = rest.remove(0);
        proof {
            assert(item == orig[k]);
            assert(rest@ =~= orig.skip(k + 1));
        }
        let a = eval_action(label, item);
        acts.push(a);
    }
    acts
}

/// Processes a whole definition-channel stream, each item paired with
/// the external parse outcome for its payload: an error item never stops
/// the delivery of the items after it.
pub fn definition_channel_actions(items: Vec<(Result<Response, String>, Option<Location>)>) -> (acts:
    Vec<ServerAction>)
    ensures
        acts@.len() == items@.len(),
        forall|i: int|
            0 <= i < items@.len() ==> definition_action_is(
                (#[trigger] items@[i]).0,
                items@[i].1,
                acts@[i],
            ),
{
    let ghost orig = items@;
    let mut rest = items;
    let mut acts: Vec<ServerAction> = Vec::new();
    while rest.len() > 0
        invariant
            acts@.len() + rest@.len() == orig.len(),
            rest@ == orig.skip(acts@.len() as int),
            forall|i: int|
                0 <= i < acts@.len() ==> definition_action_is(
                    (#[trigger] orig[i]).0,
                    orig[i].1,
                    acts@[i],
                ),
        decreases rest@.len(),
    {
        let ghost k = acts@.len() as int;
        let (item, parsed) = rest.remove(0);
        proof {
            assert((item, parsed) == orig[k]);
            assert(rest@ =~= orig.skip(k + 1));
        }
        let a = definition_action(item, parsed);
        acts.push(a);
    }
    acts
}

/// Processes a whole completion-channel stream, each item paired with
/// the external parse outcome for its payload: an error item never stops
/// the delivery of the items after it.
pub fn completion_channel_actions(items: Vec<(Result<Response, String>, Option<Vec<String>>)>) -> (acts:
    Vec<ServerAction>)
    ensures
        acts@.len() == items@.len(),
        forall|i: int|
            0 <= i < items@.len() ==> completion_action_is(
                (#[trigger] items@[i]).0,
                items@[i].1,
                acts@[i],
            ),
{
    let ghost orig = items@;
    let mut rest = items;
    let mut acts: Vec<ServerAction> = Vec::new();
    while rest.len() > 0
        invariant
            acts@.len() + rest@.len() == orig.len(),
            rest@ == orig.skip(acts@.len() as int),
            forall|i: int|
                0 <= i < acts@.len() ==> completion_action_is(
                    (#[trigger] orig[i]).0,
                    orig[i].1,
                    acts@[i],
                ),
        decreases rest@.len(),
    {
        let ghost k = acts@.len() as int;
        let (item, parsed) = rest.remove(0);
        proof {
            assert((item, parsed) == orig[k]);
            assert(rest@ =~= orig.skip(k + 1));
        }
        let a = completion_action(item, parsed);
        acts.push(a);
    }
    acts
}

/// The error line written after the editor reports that a jump to a
/// parsed definition location failed.
pub fn go_to_failed_line(msg: &str) -> (r: String)
    ensures
        r@ == "Error while going to definition: "@ + msg@,
{
    concat_str("Error while going to definition: ", msg)
}

/// The error line written after the editor reports that replacing the
/// completion set failed.
pub fn completions_failed_line(msg: &str) -> (r: String)
    ensures
        r@ == "Error while completing: "@ + msg@,
{
    concat_str("Error while completing: ", msg)
}

} // verus!
