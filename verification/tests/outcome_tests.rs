use gpjc_api::outcome::{
    client_result, proof_reply, proof_submission, response_status, run_response, server_result,
    LookupOutcome, ReplyBody, ReplyStatus, Role,
};
use gpjc_api::{LogEntry, Response};

#[test]
fn run_response_keeps_code_and_output() {
    let r = run_response(Role::Server, Some(0), b"Intersection size is 5\n");
    assert_eq!(r.exit_code, 0);
    assert_eq!(r.data, "Intersection size is 5\n");
    let r = run_response(Role::Client, Some(3), b"oops");
    assert_eq!(r.exit_code, 3);
    assert_eq!(r.data, "oops");
}

#[test]
fn run_response_replaces_invalid_utf8() {
    let r = run_response(Role::Client, Some(0), &[b'a', 0xff, b'b']);
    assert_eq!(r.data, "a\u{FFFD}b");
}

#[test]
fn run_response_without_code() {
    let r = run_response(Role::Client, None, b"ignored");
    assert_eq!(r.exit_code, 1);
    assert_eq!(r.data, "Error in client execution");
    let r = run_response(Role::Server, None, b"");
    assert_eq!(r.exit_code, 1);
    assert_eq!(r.data, "Error in server execution");
    assert_eq!(response_status(&r), ReplyStatus::BadRequest);
}

#[test]
fn server_result_reads_fourth_word() {
    assert_eq!(server_result("Intersection size is 5\n"), Some(5));
    assert_eq!(server_result("a b c -12\n"), Some(-12));
    assert_eq!(server_result("a b c 12x"), Some(12));
    assert_eq!(server_result("a b c"), None);
    assert_eq!(server_result("a b c "), None);
    assert_eq!(server_result("a b c \n"), None);
    assert_eq!(server_result("a b c 1é"), None);
    assert_eq!(server_result("a b c 1x2\n"), None);
    assert_eq!(server_result("a b c 7\n more words"), Some(7));
}

#[test]
fn client_result_is_sixth_word() {
    assert_eq!(client_result("a b c d e 42 f"), Some("42".to_string()));
    assert_eq!(client_result("a b c d e"), None);
}

#[test]
fn status_follows_exit_code() {
    let ok = Response { exit_code: 0, data: "x".to_string() };
    let bad = Response { exit_code: 2, data: "x".to_string() };
    assert_eq!(response_status(&ok), ReplyStatus::Success);
    assert_eq!(response_status(&bad), ReplyStatus::BadRequest);
}

#[test]
fn submission_only_after_success() {
    let ok = Response { exit_code: 0, data: "Intersection size is 5\n".to_string() };
    let s = proof_submission("7".to_string(), ok).unwrap();
    assert_eq!(s.transaction_id, "7");
    assert_eq!(s.value, "Intersection size is 5\n");
    let bad = Response { exit_code: 1, data: "boom".to_string() };
    assert!(proof_submission("7".to_string(), bad).is_none());
}

fn entry() -> LogEntry {
    LogEntry {
        transaction_id: "7".to_string(),
        result: "5".to_string(),
        computation_start: "s".to_string(),
        computation_end: "e".to_string(),
        is_initiator: "0".to_string(),
    }
}

#[test]
fn proof_reply_found() {
    let r = proof_reply(LookupOutcome::Found(entry()));
    assert_eq!(r.status, ReplyStatus::Success);
    match r.body {
        ReplyBody::Entry(e) => assert_eq!(e.result, "5"),
        ReplyBody::Message(_) => panic!("expected an entry"),
    }
}

#[test]
fn proof_reply_missing_and_failed() {
    let r = proof_reply(LookupOutcome::NotFound);
    assert_eq!(r.status, ReplyStatus::Success);
    match r.body {
        ReplyBody::Message(m) => assert_eq!(m, "Log with this transaction id does not exist"),
        ReplyBody::Entry(_) => panic!("expected a message"),
    }
    let r = proof_reply(LookupOutcome::Failed);
    assert_eq!(r.status, ReplyStatus::BadRequest);
    match r.body {
        ReplyBody::Message(m) => assert_eq!(m, ""),
        ReplyBody::Entry(_) => panic!("expected a message"),
    }
}
