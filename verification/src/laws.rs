use vstd::prelude::*;
use vstd::string::*;

use crate::db::{column_text, insert_params, statement_text, update_params, Query, CREATE_TABLE_SQL};
use crate::outcome::{failure_text, server_result_spec, Role};
use crate::paths::{project_dir_spec, sanctions_dir_spec};
use crate::text::{
    all_digits, contains, decimal_text, digit_char, digits_text, digits_value, field, is_digit,
    lemma_decimal_round_trip, lemma_digit_char, lemma_digits_text, lemma_digits_value_nonneg,
    occurs_at, parsed_i32, without,
};

verus! {

/// The parameters with which a side starts the log of a transaction are
/// always accepted, and the statement records the transaction id and the
/// side's flag.
pub proof fn law_insert_params_accepted(transaction_id: Seq<char>, is_initiator: bool)
    ensures
        statement_text(Query::InsertLog, insert_params(transaction_id, is_initiator)) == Some(
            "INSERT INTO gpjc_logs (TRANSACTION_ID, RESULT, COMPUTATION_START, IS_INITIATOR) VALUES ("@
                + transaction_id + ", -1, GETUTCDATE(), "@ + (if is_initiator {
                "1"@
            } else {
                "0"@
            }) + ")"@,
        ),
{
}

/// The parameters with which a side completes the log of a transaction are
/// always accepted; the statement stores the result and the proof
/// placeholder for that transaction.
pub proof fn law_update_params_accepted(result: Seq<char>, transaction_id: Seq<char>)
    ensures
        statement_text(Query::UpdateLog, update_params(result, transaction_id)) == Some(
            "UPDATE gpjc_logs SET RESULT = "@ + result
                + ", COMPUTATION_END = GETUTCDATE(), PROOF = "@ + "PROOF"@
                + " WHERE TRANSACTION_ID = "@ + transaction_id,
        ),
{
}

/// A statement is refused exactly when it takes a fixed number of
/// parameters and is given another number; creating the table ignores them.
pub proof fn law_statement_refused_iff_count_wrong(query: Query, params: Seq<Seq<char>>)
    ensures
        statement_text(query, params) is None <==> match query {
            Query::CreateTable => false,
            Query::InsertLog => params.len() != 2,
            Query::UpdateLog => params.len() != 3,
            Query::GetLog => params.len() != 1,
        },
{
}

/// A transaction id written in decimal reads back as the same id.
pub proof fn law_transaction_id_round_trip(transaction_id: i32)
    ensures
        parsed_i32(decimal_text(transaction_id as int)) == Some(transaction_id),
{
    lemma_decimal_round_trip(transaction_id);
}

/// When the server prints its number as the fourth word of its output,
/// followed by a line end, that number is the result read from the output.
pub proof fn law_server_result_reads_printed_number(output: Seq<char>, value: i32)
    requires
        field(output, 3) == Some(decimal_text(value as int).push('\n')),
    ensures
        server_result_spec(output) == Some(value),
{
    let piece = decimal_text(value as int).push('\n');
    assert(piece.drop_last() =~= decimal_text(value as int));
    lemma_decimal_round_trip(value);
}

/// Taking out a pattern leaves a prefix alone in which no occurrence of it
/// starts.
proof fn lemma_without_clean_prefix(a: Seq<char>, b: Seq<char>, pat: Seq<char>)
    requires
        pat.len() > 0,
        forall|i: int| 0 <= i < a.len() ==> !#[trigger] occurs_at(a + b, pat, i),
    ensures
        without(a + b, pat) == a + without(b, pat),
    decreases a.len(),
{
    let s = a + b;
    if a.len() == 0 {
        assert(s =~= b);
        assert(a + without(b, pat) =~= without(b, pat));
    } else if s.len() < pat.len() {
        assert(b.len() < pat.len());
    } else {
        assert(!occurs_at(s, pat, 0));
        assert(s.subrange(0, pat.len() as int) =~= s.take(pat.len() as int));
        let a2 = a.drop_first();
        assert(s.drop_first() =~= a2 + b);
        assert forall|i: int| 0 <= i < a2.len() implies !#[trigger] occurs_at(a2 + b, pat, i) by {
            assert(!occurs_at(s, pat, i + 1));
            if occurs_at(a2 + b, pat, i) {
                assert(s.subrange(i + 1, i + 1 + pat.len()) =~= (a2 + b).subrange(
                    i,
                    i + pat.len(),
                ));
            }
        }
        lemma_without_clean_prefix(a2, b, pat);
        assert(seq![s[0]] + (a2 + without(b, pat)) =~= a + without(b, pat));
    }
}

/// Started in a directory whose path does not mention the project name, the
/// service changes into the project directory and then finds the sanction
/// lists in `sanction-lists/` beside it.
pub proof fn law_sanction_lists_beside_project(root: Seq<char>)
    requires
        !contains(root, "private-join-and-compute"@),
    ensures
        sanctions_dir_spec(project_dir_spec(root)) == root + "/sanction-lists/"@,
{
    reveal_strlit("private-join-and-compute");
    reveal_strlit("/private-join-and-compute");
    reveal_strlit("/sanction-lists/");
    reveal_strlit("sanction-lists/");
    let pat = "private-join-and-compute"@;
    let a = root + seq!['/'];
    let s = project_dir_spec(root);
    assert(s =~= a + pat);
    assert forall|i: int| 0 <= i < a.len() implies !#[trigger] occurs_at(a + pat, pat, i) by {
        if occurs_at(a + pat, pat, i) {
            if i + pat.len() <= root.len() {
                assert((a + pat).subrange(i, i + pat.len()) =~= root.subrange(i, i + pat.len()));
                assert(occurs_at(root, pat, i));
            } else {
                let k = root.len() - i;
                assert((a + pat).subrange(i, i + pat.len())[k] == '/');
            }
        }
    }
    lemma_without_clean_prefix(a, pat, pat);
    assert(pat.take(pat.len() as int) =~= pat);
    assert(pat.skip(pat.len() as int) =~= Seq::<char>::empty());
    assert(without(Seq::<char>::empty(), pat) =~= Seq::<char>::empty());
    assert(without(pat, pat) =~= Seq::<char>::empty());
    assert(a + Seq::<char>::empty() + "sanction-lists/"@ =~= root + "/sanction-lists/"@);
}


/// Every character of `s` is one of `0` to `9`.
pub open spec fn ascii_digits(s: Seq<char>) -> bool {
    forall|i: int| 0 <= i < s.len() ==> 48 <= (#[trigger] s[i] as int) <= 57
}

/// The base-10 value of a run of digits read from the left, starting from
/// `acc`: each digit multiplies what was read so far by ten and adds itself.
pub open spec fn base10_from(acc: int, s: Seq<char>) -> int
    decreases s.len(),
{
    if s.len() == 0 {
        acc
    } else {
        base10_from(10 * acc + ((s[0] as int) - 48), s.drop_first())
    }
}

/// The base-10 value of a run of digits.
pub open spec fn base10(s: Seq<char>) -> int {
    base10_from(0, s)
}

proof fn lemma_base10_from(p: Seq<char>, s: Seq<char>)
    ensures
        base10_from(digits_value(p), s) == digits_value(p + s),
    decreases s.len(),
{
    if s.len() == 0 {
        assert(p + s =~= p);
    } else {
        let q = p.push(s[0]);
        assert(q.drop_last() =~= p);
        assert(('0' as int) == 48);
        lemma_base10_from(q, s.drop_first());
        assert(q + s.drop_first() =~= p + s);
    }
}

proof fn lemma_base10_is_digits_value(s: Seq<char>)
    ensures
        base10(s) == digits_value(s),
        ascii_digits(s) ==> all_digits(s) && base10(s) >= 0,
{
    lemma_base10_from(Seq::<char>::empty(), s);
    assert(Seq::<char>::empty() + s =~= s);
    assert(digits_value(Seq::<char>::empty()) == 0);
    if ascii_digits(s) {
        assert forall|i: int| 0 <= i < s.len() implies is_digit(#[trigger] s[i]) by {
            assert(48 <= (s[i] as int) <= 57);
        }
        lemma_digits_value_nonneg(s);
    }
}

/// A non-empty run of digits whose base-10 value fits in an `i32` parses to
/// exactly that value.
pub proof fn law_parse_reads_digits(s: Seq<char>)
    requires
        s.len() > 0,
        ascii_digits(s),
        base10(s) <= i32::MAX,
    ensures
        parsed_i32(s) == Some(base10(s) as i32),
{
    lemma_base10_is_digits_value(s);
    assert(48 <= (s[0] as int) <= 57);
}

/// A sign followed by a non-empty run of digits parses to the value of the
/// digits, negated after `-`, whenever that fits in an `i32`.
pub proof fn law_parse_reads_signed_digits(digits: Seq<char>, negative: bool)
    requires
        digits.len() > 0,
        ascii_digits(digits),
        i32::MIN <= (if negative {
            -base10(digits)
        } else {
            base10(digits)
        }) <= i32::MAX,
    ensures
        parsed_i32(seq![if negative { '-' } else { '+' }] + digits) == Some(
            (if negative {
                -base10(digits)
            } else {
                base10(digits)
            }) as i32,
        ),
{
    lemma_base10_is_digits_value(digits);
    let s = seq![if negative { '-' } else { '+' }] + digits;
    assert(s.drop_first() =~= digits);
}

/// A parse succeeds only on an optional sign followed by at least one digit.
pub proof fn law_parse_only_signed_digits(s: Seq<char>)
    requires
        parsed_i32(s) is Some,
    ensures
        s.len() > 0,
        s[0] == '-' || s[0] == '+' || 48 <= (s[0] as int) <= 57,
        s[0] == '-' || s[0] == '+' ==> s.len() > 1,
        forall|i: int| 1 <= i < s.len() ==> 48 <= (#[trigger] s[i] as int) <= 57,
{
    if s[0] == '-' || s[0] == '+' {
        assert forall|i: int| 1 <= i < s.len() implies 48 <= (#[trigger] s[i] as int) <= 57 by {
            assert(s.drop_first()[i - 1] == s[i]);
            assert(is_digit(s.drop_first()[i - 1]));
        }
    } else {
        assert forall|i: int| 1 <= i < s.len() implies 48 <= (#[trigger] s[i] as int) <= 57 by {
            assert(is_digit(s[i]));
        }
        assert(is_digit(s[0]));
    }
}

proof fn lemma_digits_text_leading(n: nat)
    requires
        n >= 1,
    ensures
        digits_text(n).len() > 0,
        digits_text(n)[0] != '0',
    decreases n,
{
    lemma_digits_text(n);
    if n < 10 {
        lemma_digit_char(n as int);
    } else {
        lemma_digits_text_leading(n / 10);
        lemma_digits_text(n / 10);
        assert(digits_text(n)[0] == digits_text(n / 10)[0]);
    }
}

proof fn lemma_digits_text_base10(n: nat)
    ensures
        ascii_digits(digits_text(n)),
        base10(digits_text(n)) == n,
        digits_text(n).len() > 1 ==> digits_text(n)[0] != '0',
{
    lemma_digits_text(n);
    let t = digits_text(n);
    assert forall|i: int| 0 <= i < t.len() implies 48 <= (#[trigger] t[i] as int) <= 57 by {
        assert(is_digit(t[i]));
    }
    lemma_base10_is_digits_value(t);
    if t.len() > 1 {
        if n == 0 {
            assert(t.len() == 1);
        }
        lemma_digits_text_leading(n);
    }
}

/// A non-negative number is written as the digits of its base-10 value,
/// without leading zeros; a negative one as `-` followed by the digits of
/// its magnitude, without leading zeros.
pub proof fn law_format_writes_digits(v: i32)
    ensures
        v >= 0 ==> {
            let t = decimal_text(v as int);
            &&& t.len() > 0
            &&& ascii_digits(t)
            &&& base10(t) == v
            &&& t.len() > 1 ==> t[0] != '0'
        },
        v < 0 ==> {
            let t = decimal_text(v as int);
            &&& t.len() > 1
            &&& t[0] == '-'
            &&& ascii_digits(t.drop_first())
            &&& base10(t.drop_first()) == -v
            &&& t.len() > 2 ==> t[1] != '0'
        },
{
    if v >= 0 {
        lemma_digits_text(v as nat);
        lemma_digits_text_base10(v as nat);
    } else {
        let m = (-v) as nat;
        lemma_digits_text(m);
        lemma_digits_text_base10(m);
        let t = decimal_text(v as int);
        assert(t.drop_first() =~= digits_text(m));
    }
}

/// Creating the table sends the fixed table definition, whatever the
/// parameters.
pub proof fn law_create_table_statement(params: Seq<Seq<char>>)
    ensures
        statement_text(Query::CreateTable, params) == Some(CREATE_TABLE_SQL@),
{
}

/// Reading a transaction's log selects its row by the whole transaction id.
pub proof fn law_get_statement(transaction_id: Seq<char>)
    ensures
        statement_text(Query::GetLog, seq![transaction_id]) == Some(
            "SELECT * FROM gpjc_logs WHERE TRANSACTION_ID = "@ + transaction_id,
        ),
{
}

/// A column the database returned with a value shows that value itself;
/// only a missing value shows as `NULL`.
pub proof fn law_column_text(value: Seq<char>)
    ensures
        column_text(Some(value)) == value,
        column_text(None) == "NULL"@,
{
}

/// The project directory is the start directory followed by
/// `/private-join-and-compute`, nothing more.
pub proof fn law_project_dir(root: Seq<char>)
    ensures
        project_dir_spec(root) == root + "/private-join-and-compute"@,
{
}

/// The sanction-list directory is the working directory without the
/// project name, followed by `sanction-lists/`.
pub proof fn law_sanctions_dir(cwd: Seq<char>)
    ensures
        sanctions_dir_spec(cwd) == without(cwd, "private-join-and-compute"@) + "sanction-lists/"@,
{
}

/// A name is contained in a text exactly when it occurs in it as a
/// contiguous run of characters at some position.
pub proof fn law_contains_is_occurrence(s: Seq<char>, pat: Seq<char>)
    ensures
        contains(s, pat) <==> exists|i: int|
            #![trigger s.subrange(i, i + pat.len())]
            0 <= i && i + pat.len() <= s.len() && s.subrange(i, i + pat.len()) == pat,
{
    if contains(s, pat) {
        let i = choose|i: int| #[trigger] occurs_at(s, pat, i);
        assert(s.subrange(i, i + pat.len()) == pat);
    }
    if exists|i: int|
        #![trigger s.subrange(i, i + pat.len())]
        0 <= i && i + pat.len() <= s.len() && s.subrange(i, i + pat.len()) == pat {
        let i = choose|i: int|
            #![trigger s.subrange(i, i + pat.len())]
            0 <= i && i + pat.len() <= s.len() && s.subrange(i, i + pat.len()) == pat;
        assert(occurs_at(s, pat, i));
    }
}

/// Taking a pattern out of a text in which it does not occur leaves the
/// text as it is.
pub proof fn law_without_no_occurrence(s: Seq<char>, pat: Seq<char>)
    requires
        pat.len() > 0,
        forall|i: int|
            0 <= i && i + pat.len() <= s.len() ==> #[trigger] s.subrange(i, i + pat.len()) != pat,
    ensures
        without(s, pat) == s,
{
    assert forall|i: int| 0 <= i < s.len() implies !#[trigger] occurs_at(s + Seq::<char>::empty(), pat, i) by {
        assert(s + Seq::<char>::empty() =~= s);
    }
    lemma_without_clean_prefix(s, Seq::<char>::empty(), pat);
    assert(s + Seq::<char>::empty() =~= s);
    assert(without(Seq::<char>::empty(), pat) =~= Seq::<char>::empty());
}

/// An occurrence at the front is taken out, and the rest is treated alone.
pub proof fn law_without_leading_occurrence(s: Seq<char>, pat: Seq<char>)
    requires
        pat.len() > 0,
    ensures
        without(pat + s, pat) == without(s, pat),
{
    assert((pat + s).take(pat.len() as int) =~= pat);
    assert((pat + s).skip(pat.len() as int) =~= s);
}

/// A text without spaces is a single piece.
pub proof fn law_field_without_space(a: Seq<char>, n: nat)
    requires
        forall|i: int| 0 <= i < a.len() ==> #[trigger] a[i] != ' ',
    ensures
        field(a, 0) == Some(a),
        n > 0 ==> field(a, n) is None,
    decreases a.len(),
{
    if a.len() > 0 {
        let r = a.drop_first();
        assert forall|i: int| 0 <= i < r.len() implies #[trigger] r[i] != ' ' by {
            assert(r[i] == a[i + 1]);
        }
        law_field_without_space(r, n);
        assert(seq![a[0]] + r =~= a);
    } else {
        assert(a =~= Seq::<char>::empty());
    }
}

/// The first piece of a text runs up to its first space; the pieces after
/// it are the pieces of the rest.
pub proof fn law_field_after_space(a: Seq<char>, b: Seq<char>, n: nat)
    requires
        forall|i: int| 0 <= i < a.len() ==> #[trigger] a[i] != ' ',
    ensures
        field(a + seq![' '] + b, 0) == Some(a),
        field(a + seq![' '] + b, n + 1) == field(b, n),
    decreases a.len(),
{
    let s = a + seq![' '] + b;
    if a.len() == 0 {
        assert(s[0] == ' ');
        assert(s.drop_first() =~= b);
    } else {
        let r = a.drop_first();
        assert forall|i: int| 0 <= i < r.len() implies #[trigger] r[i] != ' ' by {
            assert(r[i] == a[i + 1]);
        }
        law_field_after_space(r, b, n);
        assert(s[0] == a[0]);
        assert(s.drop_first() =~= r + seq![' '] + b);
        assert(seq![a[0]] + r =~= a);
    }
}

/// A run that ended without an exit code is reported with the message of
/// the binary that ran.
pub proof fn law_failure_text()
    ensures
        failure_text(Role::Client) == "Error in client execution"@,
        failure_text(Role::Server) == "Error in server execution"@,
{
}

/// A result is read from the server's output only from a fourth word that
/// ends in an ASCII character, out of the decimal number before it.
pub proof fn law_server_result_source(output: Seq<char>)
    ensures
        server_result_spec(output) is Some ==> (field(output, 3) matches Some(piece) && piece.len()
            > 0 && (piece.last() as int) < 128 && parsed_i32(piece.drop_last())
            == server_result_spec(output)),
{
}

} // verus!
