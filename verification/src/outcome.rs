use vstd::prelude::*;
use vstd::string::*;
use vstd::utf8::{decode_utf8, valid_utf8};

use crate::text::{field, nth_field, parse_i32, parsed_i32};
use crate::types::{LogEntry, Response};

verus! {

/// What `String::from_utf8_lossy` makes of `bytes`.
pub uninterp spec fn utf8_lossy(bytes: Seq<u8>) -> Seq<char>;

/// `String::from_utf8_lossy(bytes).into_owned()`. The contract claims that
/// the result depends on the bytes alone, and that valid UTF-8 is decoded
/// as it stands; what replaces invalid sequences is left unsaid.
#[verifier::external_body]
fn lossy_text(bytes: &[u8]) -> (s: String)
    ensures
        s@ == utf8_lossy(bytes@),
        valid_utf8(bytes@) ==> s@ == decode_utf8(bytes@),
{
    String::from_utf8_lossy(bytes).into_owned()
}

/// Which join-and-compute binary ran.
#[derive(Debug, Clone, Copy, PartialEq, Eq, Structural)]
pub enum Role {
    Client,
    Server,
}

/// The text reported when the binary of `role` ended without an exit code.
pub open spec fn failure_text(role: Role) -> Seq<char> {
    match role {
        Role::Client => "Error in client execution"@,
        Role::Server => "Error in server execution"@,
    }
}

/// The response for one run of the binary of `role` that ended with
/// `exit_code` (`None` when a signal ended it) after printing `stdout`:
/// the exit code and the printed text, or exit code 1 and a fixed message.
pub fn run_response(role: Role, exit_code: Option<i32>, stdout: &[u8]) -> (r: Response)
    ensures
        match exit_code {
            Some(code) => r.exit_code == code && r.data@ == utf8_lossy(stdout@),
            None => r.exit_code == 1 && r.data@ == failure_text(role),
        },
{
    match exit_code {
        Some(code) => Response { exit_code: code, data: lossy_text(stdout) },
        None => {
            let text = match role {
                Role::Client => String::from_str("Error in client execution"),
                Role::Server => String::from_str("Error in server execution"),
            };
            Response { exit_code: 1, data: text }
        },
    }
}

/// The number that the server binary reports: the fourth space-separated
/// piece of its output, without its last character (the line end), read as
/// an `i32`. `None` when there is no fourth piece, it is empty, its last
/// character is not ASCII, or the rest is no `i32`.
pub open spec fn server_result_spec(output: Seq<char>) -> Option<i32> {
    match field(output, 3) {
        Some(piece) => if piece.len() > 0 && (piece.last() as int) < 128 {
            parsed_i32(piece.drop_last())
        } else {
            None
        },
        None => None,
    }
}

/// Reads the result out of the server binary's output.
pub fn server_result(output: &str) -> (r: Option<i32>)
    ensures
        r == server_result_spec(output@),
{
    match nth_field(output, 3) {
        Some(piece) => {
            let n = piece.as_str().unicode_len();
            if n == 0 {
                return None;
            }
            let last = piece.as_str().get_char(n - 1);
            if (last as u32) >= 128 {
                return None;
            }
            let body = piece.as_str().substring_char(0, n - 1);
            proof {
                assert(body@ =~= piece@.drop_last());
            }
            parse_i32(body)
        },
        None => None,
    }
}

/// The result that the client binary reports: the sixth space-separated
/// piece of its output, as text.
pub fn client_result(output: &str) -> (r: Option<String>)
    ensures
        r.deep_view() == field(output@, 5),
{
    nth_field(output, 5)
}

/// The HTTP status of a reply.
#[derive(Debug, Clone, Copy, PartialEq, Eq, Structural)]
pub enum ReplyStatus {
    Success,
    BadRequest,
}

/// The status with which a start request is answered: success exactly when
/// the binary exited with code 0.
pub fn response_status(resp: &Response) -> (r: ReplyStatus)
    ensures
        r == (if resp.exit_code == 0 {
            ReplyStatus::Success
        } else {
            ReplyStatus::BadRequest
        }),
{
    if resp.exit_code == 0 {
        ReplyStatus::Success
    } else {
        ReplyStatus::BadRequest
    }
}

/// What the server side submits to the ledger once a computation succeeded.
#[derive(Debug, Clone)]
pub struct ProofSubmission {
    pub transaction_id: String,
    pub value: String,
}

/// The submission that follows a server run: none when the run failed
/// (non-zero exit code), else the transaction id and the run's output.
pub fn proof_submission(transaction_id: String, resp: Response) -> (r: Option<ProofSubmission>)
    ensures
        match r {
            Some(s) => resp.exit_code == 0 && s.transaction_id@ == transaction_id@ && s.value@
                == resp.data@,
            None => resp.exit_code != 0,
        },
{
    if resp.exit_code != 0 {
        None
    } else {
        Some(ProofSubmission { transaction_id, value: resp.data })
    }
}

/// What a lookup of a transaction's log came to.
#[derive(Debug, Clone)]
pub enum LookupOutcome {
    Found(LogEntry),
    NotFound,
    Failed,
}

/// The body of a reply: a log entry, or a text message.
#[derive(Debug, Clone)]
pub enum ReplyBody {
    Entry(LogEntry),
    Message(String),
}

/// The reply to a request for a transaction's log.
#[derive(Debug, Clone)]
pub struct ProofReply {
    pub status: ReplyStatus,
    pub body: ReplyBody,
}

/// Answers a request for a transaction's log: the entry when there is one,
/// a notice (still with success) when there is none, and an empty message
/// with a failure status when the lookup failed.
pub fn proof_reply(outcome: LookupOutcome) -> (r: ProofReply)
    ensures
        match outcome {
            LookupOutcome::Found(e) => r.status == ReplyStatus::Success && r.body == ReplyBody::Entry(e),
            LookupOutcome::NotFound => r.status == ReplyStatus::Success && (r.body matches ReplyBody::Message(m)
                && m@ == "Log with this transaction id does not exist"@),
            LookupOutcome::Failed => r.status == ReplyStatus::BadRequest && (r.body matches ReplyBody::Message(m)
                && m@ == ""@),
        },
{
    match outcome {
        LookupOutcome::Found(e) => ProofReply { status: ReplyStatus::Success, body: ReplyBody::Entry(e) },
        LookupOutcome::NotFound => ProofReply {
            status: ReplyStatus::Success,
            body: ReplyBody::Message(String::from_str("Log with this transaction id does not exist")),
        },
        LookupOutcome::Failed => ProofReply {
            status: ReplyStatus::BadRequest,
            body: ReplyBody::Message(String::from_str("")),
        },
    }
}

} // verus!
