use repl_pool::lang::Lang;
use repl_pool::pool::{connection_label, Connection};
use repl_pool::response::{
    completion_action, completion_channel_actions, completions_failed_line, definition_action,
    definition_channel_actions, eval_action, eval_channel_actions, go_to_failed_line, Location,
    Response, ServerAction,
};
use repl_pool::text::u64_to_string;

fn loc(path: &str, line: u64, column: u64) -> Location {
    Location { path: path.to_string(), line, column }
}

fn expect_log(a: ServerAction) -> (String, Vec<String>) {
    match a {
        ServerAction::LogLines { tag, lines } => (tag, lines),
        other => panic!("expected LogLines, got {:?}", other),
    }
}

fn expect_err_line(a: ServerAction) -> String {
    match a {
        ServerAction::ErrLine { line } => line,
        other => panic!("expected ErrLine, got {:?}", other),
    }
}

#[test]
fn decimal_rendering() {
    assert_eq!(u64_to_string(0), "0");
    assert_eq!(u64_to_string(7), "7");
    assert_eq!(u64_to_string(10), "10");
    assert_eq!(u64_to_string(10050), "10050");
    assert_eq!(u64_to_string(u64::MAX), "18446744073709551615");
}

#[test]
fn connection_label_brackets_the_key() {
    assert_eq!(connection_label("dev"), "[dev]");
}

#[test]
fn eval_ret_logs_tagged_lines_without_prefix() {
    let (tag, lines) = expect_log(eval_action("[dev]", Ok(Response::Ret("1\n2".to_string(), 12))));
    assert_eq!(tag, "[dev] ret 12ms");
    assert_eq!(lines, vec!["1".to_string(), "2".to_string()]);
}

#[test]
fn eval_tap_logs_tagged_lines() {
    let (tag, lines) = expect_log(eval_action("[dev]", Ok(Response::Tap("42".to_string(), 3))));
    assert_eq!(tag, "[dev] tap 3ms");
    assert_eq!(lines, vec!["42".to_string()]);
}

#[test]
fn eval_out_lines_get_comment_prefix() {
    let (tag, lines) = expect_log(eval_action("[dev]", Ok(Response::Out("a\nb".to_string()))));
    assert_eq!(tag, "[dev] out");
    assert_eq!(lines, vec![";; a".to_string(), ";; b".to_string()]);
}

#[test]
fn eval_err_lines_get_comment_prefix() {
    let (tag, lines) = expect_log(eval_action("[dev]", Ok(Response::RunErr("boom".to_string()))));
    assert_eq!(tag, "[dev] err");
    assert_eq!(lines, vec![";; boom".to_string()]);
}

#[test]
fn eval_empty_payload_is_one_empty_line() {
    let (_, lines) = expect_log(eval_action("[dev]", Ok(Response::Ret(String::new(), 0))));
    assert_eq!(lines, vec![String::new()]);
}

#[test]
fn eval_trailing_newline_keeps_empty_last_line() {
    let (_, lines) = expect_log(eval_action("[dev]", Ok(Response::Out("x\n".to_string()))));
    assert_eq!(lines, vec![";; x".to_string(), ";; ".to_string()]);
}

#[test]
fn eval_transport_error_becomes_error_line() {
    let line = expect_err_line(eval_action("[dev]", Err("broken pipe".to_string())));
    assert_eq!(line, "Error from eval connection: broken pipe");
}

#[test]
fn definition_parsed_location_becomes_jump() {
    let a = definition_action(
        Ok(Response::Ret("src/core.clj 12 3".to_string(), 1)),
        Some(loc("src/core.clj", 12, 3)),
    );
    match a {
        ServerAction::JumpTo { loc } => {
            assert_eq!(loc.path, "src/core.clj");
            assert_eq!(loc.line, 12);
            assert_eq!(loc.column, 3);
        },
        other => panic!("expected JumpTo, got {:?}", other),
    }
}

#[test]
fn definition_unknown_sentinel_is_one_error_line() {
    let a = definition_action(Ok(Response::Ret(":unknown".to_string(), 1)), None);
    assert_eq!(expect_err_line(a), "Location unknown");
}

#[test]
fn definition_unparsable_payload_has_no_effect() {
    let a = definition_action(Ok(Response::Ret("garbage".to_string(), 1)), None);
    assert!(matches!(a, ServerAction::NoEffect));
}

#[test]
fn definition_ignores_tap_and_out() {
    let a = definition_action(Ok(Response::Tap("x".to_string(), 1)), None);
    assert!(matches!(a, ServerAction::NoEffect));
    let a = definition_action(Ok(Response::Out("x".to_string())), None);
    assert!(matches!(a, ServerAction::NoEffect));
}

#[test]
fn definition_runtime_error_is_logged() {
    let a = definition_action(Ok(Response::RunErr("boom".to_string())), None);
    assert_eq!(expect_err_line(a), "Error message from go to location: boom");
}

#[test]
fn definition_transport_error_is_logged() {
    let a = definition_action(Err("closed".to_string()), None);
    assert_eq!(expect_err_line(a), "Error from definition connection: closed");
}

#[test]
fn completion_parsed_list_replaces_completions() {
    let items = vec!["map".to_string(), "mapv".to_string()];
    let a = completion_action(Ok(Response::Ret("(map mapv)".to_string(), 1)), Some(items.clone()));
    match a {
        ServerAction::SetCompletions { items: out } => assert_eq!(out, items),
        other => panic!("expected SetCompletions, got {:?}", other),
    }
}

#[test]
fn completion_unparsable_payload_has_no_effect() {
    let a = completion_action(Ok(Response::Ret("garbage".to_string(), 1)), None);
    assert!(matches!(a, ServerAction::NoEffect));
}

#[test]
fn completion_errors_are_logged() {
    let a = completion_action(Ok(Response::RunErr("boom".to_string())), None);
    assert_eq!(expect_err_line(a), "Error message from completions: boom");
    let a = completion_action(Err("closed".to_string()), None);
    assert_eq!(expect_err_line(a), "Error from completion connection: closed");
}

#[test]
fn failure_lines_after_editor_errors() {
    assert_eq!(go_to_failed_line("no buffer"), "Error while going to definition: no buffer");
    assert_eq!(completions_failed_line("no menu"), "Error while completing: no menu");
}

#[test]
fn transport_error_does_not_halt_later_responses_on_a_channel() {
    let acts = eval_channel_actions(
        "[dev]",
        vec![
            Ok(Response::Ret("1".to_string(), 1)),
            Err("hiccup".to_string()),
            Ok(Response::Out("still here".to_string())),
        ],
    );
    assert_eq!(acts.len(), 3);
    let mut it = acts.into_iter();
    assert!(matches!(it.next().unwrap(), ServerAction::LogLines { .. }));
    assert_eq!(expect_err_line(it.next().unwrap()), "Error from eval connection: hiccup");
    let (tag, lines) = expect_log(it.next().unwrap());
    assert_eq!(tag, "[dev] out");
    assert_eq!(lines, vec![";; still here".to_string()]);
}

#[test]
fn error_on_one_channel_leaves_other_channels_untouched() {
    let eval_acts = eval_channel_actions("[dev]", vec![Err("eval stream broke".to_string())]);
    assert_eq!(eval_acts.len(), 1);
    let def_acts = definition_channel_actions(vec![
        (Ok(Response::Ret("loc".to_string(), 1)), Some(loc("a.clj", 1, 1))),
        (Ok(Response::Ret(":unknown".to_string(), 1)), None),
    ]);
    assert_eq!(def_acts.len(), 2);
    assert!(matches!(&def_acts[0], ServerAction::JumpTo { .. }));
    let comp_acts = completion_channel_actions(vec![
        (Ok(Response::Ret("()".to_string(), 1)), Some(vec!["map".to_string()])),
    ]);
    assert_eq!(comp_acts.len(), 1);
    assert!(matches!(&comp_acts[0], ServerAction::SetCompletions { .. }));
}

#[test]
fn connection_derives_namespaces_from_language() {
    let c = Connection::connect(
        "127.0.0.1:5678".to_string(),
        regex::Regex::new("clj").unwrap(),
        Lang::Clojure,
    );
    assert_eq!(c.user_ns, "user");
    assert_eq!(c.core_ns, "clojure.core");
    assert_eq!(c.addr, "127.0.0.1:5678");
    let c = Connection::connect(
        "127.0.0.1:5678".to_string(),
        regex::Regex::new("cljs").unwrap(),
        Lang::ClojureScript,
    );
    assert_eq!(c.user_ns, "cljs.user");
    assert_eq!(c.core_ns, "cljs.core");
}

#[test]
fn bootstrap_request_uses_user_namespace() {
    let c = Connection::connect(
        "127.0.0.1:5678".to_string(),
        regex::Regex::new("clj").unwrap(),
        Lang::Clojure,
    );
    let boot = c.start_response_loops("[dev]");
    assert_eq!(boot.label, "[dev]");
    assert_eq!(boot.ns, "user");
    assert_eq!(boot.lang, Lang::Clojure);
}

#[test]
fn language_namespaces_differ() {
    assert_eq!(Lang::Clojure.user_ns(), "user");
    assert_eq!(Lang::ClojureScript.user_ns(), "cljs.user");
    assert_ne!(Lang::Clojure.user_ns(), Lang::ClojureScript.user_ns());
    assert_eq!(Lang::Clojure.core_ns(), "clojure.core");
    assert_eq!(Lang::ClojureScript.core_ns(), "cljs.core");
}
