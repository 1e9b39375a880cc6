use vstd::prelude::*;
use vstd::string::*;

use crate::types::LogEntry;

verus! {

/// The statements the service sends to its log database.
#[derive(Debug, Clone, Copy, PartialEq, Eq, Structural)]
pub enum Query {
    /// Creates the `gpjc_logs` table if it does not exist yet. No parameters.
    CreateTable,
    /// Starts the log of a transaction. Parameters: transaction id, whether
    /// this side initiated the computation (`1` or `0`).
    InsertLog,
    /// Completes the log of a transaction. Parameters: result, proof,
    /// transaction id.
    UpdateLog,
    /// Reads the log of a transaction. Parameter: transaction id.
    GetLog,
}

/// A statement was given another number of parameters than it takes.
#[derive(Debug, Clone, Copy, PartialEq, Eq, Structural)]
pub struct ParamCountMismatch {
    pub expected: usize,
    pub given: usize,
}

/// The statement that creates the log table.
pub const CREATE_TABLE_SQL: &'static str = "IF NOT EXISTS (SELECT * FROM INFORMATION_SCHEMA.TABLES WHERE TABLE_NAME = 'gpjc_logs')
                                    CREATE TABLE gpjc_logs (
                                        TRANSACTION_ID INTEGER PRIMARY KEY,
                                        RESULT INTEGER,
                                        COMPUTATION_START DATETIME,
                                        COMPUTATION_END DATETIME,
                                        PROOF INTEGER,
                                        IS_INITIATOR BIT
                                    )";

/// How many parameters a statement takes; `None` for one that ignores them.
pub open spec fn param_count(query: Query) -> Option<nat> {
    match query {
        Query::CreateTable => None,
        Query::InsertLog => Some(2),
        Query::UpdateLog => Some(3),
        Query::GetLog => Some(1),
    }
}

/// The SQL text of `query` with `params` spliced in, or `None` when the
/// number of parameters is wrong.
pub open spec fn statement_text(query: Query, params: Seq<Seq<char>>) -> Option<Seq<char>> {
    match query {
        Query::CreateTable => Some(CREATE_TABLE_SQL@),
        Query::InsertLog => if params.len() == 2 {
            Some(
                "INSERT INTO gpjc_logs (TRANSACTION_ID, RESULT, COMPUTATION_START, IS_INITIATOR) VALUES ("@
                    + params[0] + ", -1, GETUTCDATE(), "@ + params[1] + ")"@,
            )
        } else {
            None
        },
        Query::UpdateLog => if params.len() == 3 {
            Some(
                "UPDATE gpjc_logs SET RESULT = "@ + params[0] + ", COMPUTATION_END = GETUTCDATE(), PROOF = "@
                    + params[1] + " WHERE TRANSACTION_ID = "@ + params[2],
            )
        } else {
            None
        },
        Query::GetLog => if params.len() == 1 {
            Some("SELECT * FROM gpjc_logs WHERE TRANSACTION_ID = "@ + params[0])
        } else {
            None
        },
    }
}

/// The parameters of an `InsertLog`: the transaction id and `1` for the side
/// that initiated the computation, `0` for the other.
pub open spec fn insert_params(transaction_id: Seq<char>, is_initiator: bool) -> Seq<Seq<char>> {
    seq![transaction_id, if is_initiator { "1"@ } else { "0"@ }]
}

/// The parameters of an `UpdateLog`: the result, the proof placeholder
/// `PROOF`, and the transaction id.
pub open spec fn update_params(result: Seq<char>, transaction_id: Seq<char>) -> Seq<Seq<char>> {
    seq![result, "PROOF"@, transaction_id]
}

/// Builds the SQL text of `query` over `params`; fails when a statement that
/// takes parameters gets another number of them than it takes.
pub fn build_statement(query: Query, params: &Vec<String>) -> (r: Result<String, ParamCountMismatch>)
    ensures
        match r {
            Ok(text) => statement_text(query, params.deep_view()) == Some(text@),
            Err(e) => statement_text(query, params.deep_view()) is None && param_count(query)
                == Some(e.expected as nat) && e.given == params.len(),
        },
        r is Ok <==> (param_count(query) matches Some(n) ==> params.len() == n),
{
    let ghost p = params.deep_view();
    match query {
        Query::CreateTable => Ok(String::from_str(CREATE_TABLE_SQL)),
        Query::InsertLog => {
            if params.len() != 2 {
                return Err(ParamCountMismatch { expected: 2, given: params.len() });
            }
            let mut text = String::from_str(
                "INSERT INTO gpjc_logs (TRANSACTION_ID, RESULT, COMPUTATION_START, IS_INITIATOR) VALUES (",
            );
            text.append(params[0].as_str());
            text.append(", -1, GETUTCDATE(), ");
            text.append(params[1].as_str());
            text.append(")");
            assert(p[0] == params[0]@ && p[1] == params[1]@);
            Ok(text)
        },
        Query::UpdateLog => {
            if params.len() != 3 {
                return Err(ParamCountMismatch { expected: 3, given: params.len() });
            }
            let mut text = String::from_str("UPDATE gpjc_logs SET RESULT = ");
            text.append(params[0].as_str());
            text.append(", COMPUTATION_END = GETUTCDATE(), PROOF = ");
            text.append(params[1].as_str());
            text.append(" WHERE TRANSACTION_ID = ");
            text.append(params[2].as_str());
            assert(p[0] == params[0]@ && p[1] == params[1]@ && p[2] == params[2]@);
            Ok(text)
        },
        Query::GetLog => {
            if params.len() != 1 {
                return Err(ParamCountMismatch { expected: 1, given: params.len() });
            }
            let mut text = String::from_str("SELECT * FROM gpjc_logs WHERE TRANSACTION_ID = ");
            text.append(params[0].as_str());
            assert(p[0] == params[0]@);
            Ok(text)
        },
    }
}

/// The parameters that start the log of a transaction.
pub fn insert_log_params(transaction_id: String, is_initiator: bool) -> (r: Vec<String>)
    ensures
        r.deep_view() == insert_params(transaction_id@, is_initiator),
{
    let flag = if is_initiator {
        String::from_str("1")
    } else {
        String::from_str("0")
    };
    let ghost t = transaction_id@;
    let ghost f = flag@;
    let mut r = Vec::new();
    r.push(transaction_id);
    r.push(flag);
    assert(r.deep_view() =~= seq![t, f]);
    r
}

/// The parameters that complete the log of a transaction.
pub fn update_log_params(result: String, transaction_id: String) -> (r: Vec<String>)
    ensures
        r.deep_view() == update_params(result@, transaction_id@),
{
    let ghost a = result@;
    let ghost b = transaction_id@;
    let proof_text = String::from_str("PROOF");
    let mut r = Vec::new();
    r.push(result);
    r.push(proof_text);
    r.push(transaction_id);
    assert(r.deep_view() =~= seq![a, "PROOF"@, b]);
    r
}

/// A column as the log shows it: its text, or `NULL` when the database
/// returned no value.
pub open spec fn column_text(column: Option<Seq<char>>) -> Seq<char> {
    match column {
        Some(v) => v,
        None => "NULL"@,
    }
}

/// The text of one fetched column.
fn column_string(column: &Option<String>) -> (r: String)
    ensures
        r@ == column_text(column.deep_view()),
{
    match column {
        Some(v) => v.clone(),
        None => String::from_str("NULL"),
    }
}

/// The log entry that a fetched row of `gpjc_logs` stands for: its first five
/// columns in order, a missing value read as `NULL`.
pub fn log_entry_from_row(row: &Vec<Option<String>>) -> (entry: LogEntry)
    requires
        row.len() >= 5,
    ensures
        entry.transaction_id@ == column_text(row.deep_view()[0]),
        entry.result@ == column_text(row.deep_view()[1]),
        entry.computation_start@ == column_text(row.deep_view()[2]),
        entry.computation_end@ == column_text(row.deep_view()[3]),
        entry.is_initiator@ == column_text(row.deep_view()[4]),
{
    LogEntry {
        transaction_id: column_string(&row[0]),
        result: column_string(&row[1]),
        computation_start: column_string(&row[2]),
        computation_end: column_string(&row[3]),
        is_initiator: column_string(&row[4]),
    }
}

} // verus!
