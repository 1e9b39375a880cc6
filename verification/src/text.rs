use vstd::prelude::*;
use vstd::string::*;

verus! {

/// Appends one character to a string (`String::push`).
#[verifier::external_body]
pub(crate) fn push_char(s: &mut String, c: char)
    ensures
        final(s)@ == old(s)@.push(c),
{
    s.push(c);
}

/// The `n`-th piece (counting from 0) of `s` split at every space, as
/// `str::split(' ')` yields them: pieces may be empty, and a string with
/// `k` spaces has `k + 1` pieces. `None` when there are not enough pieces.
pub open spec fn field(s: Seq<char>, n: nat) -> Option<Seq<char>>
    decreases s.len(),
{
    if s.len() == 0 {
        if n == 0 {
            Some(Seq::<char>::empty())
        } else {
            None
        }
    } else if s[0] == ' ' {
        if n == 0 {
            Some(Seq::<char>::empty())
        } else {
            field(s.drop_first(), (n - 1) as nat)
        }
    } else {
        match field(s.drop_first(), n) {
            Some(f) => if n == 0 {
                Some(seq![s[0]] + f)
            } else {
                Some(f)
            },
            None => None,
        }
    }
}

/// The first piece always exists.
proof fn lemma_first_field_exists(s: Seq<char>)
    ensures
        field(s, 0) is Some,
    decreases s.len(),
{
    if s.len() > 0 && s[0] != ' ' {
        lemma_first_field_exists(s.drop_first());
    }
}

/// Returns the `n`-th space-separated piece of `s`, or `None` when `s` has
/// fewer than `n + 1` pieces.
pub fn nth_field(s: &str, n: usize) -> (r: Option<String>)
    ensures
        r.deep_view() == field(s@, n as nat),
{
    let len = s.unicode_len();
    let mut i: usize = 0;
    let mut count: usize = 0;
    let mut cur = String::new();
    proof {
        assert(s@.skip(0) =~= s@);
        lemma_first_field_exists(s@);
        assert(Seq::<char>::empty() + field(s@, 0)->0 =~= field(s@, 0)->0);
    }
    while i < len
        invariant
            len == s@.len(),
            i <= len,
            count <= n,
            count < n ==> cur@.len() == 0 && field(s@, n as nat) == field(
                s@.skip(i as int),
                (n - count) as nat,
            ),
            count == n ==> field(s@.skip(i as int), 0) is Some && field(s@, n as nat) == Some(
                cur@ + field(s@.skip(i as int), 0)->0,
            ),
        decreases len - i,
    {
        let c = s.get_char(i);
        let ghost t = s@.skip(i as int);
        proof {
            assert(t[0] == c);
            assert(t.drop_first() =~= s@.skip(i + 1));
            lemma_first_field_exists(t.drop_first());
        }
        if c == ' ' {
            if count == n {
                assert(cur@ + Seq::<char>::empty() =~= cur@);
                return Some(cur);
            }
            count = count + 1;
        } else if count == n {
            let ghost old_cur = cur@;
            push_char(&mut cur, c);
            proof {
                let f = field(t.drop_first(), 0)->0;
                assert(old_cur + (seq![c] + f) =~= cur@ + f);
            }
        }
        i = i + 1;
    }
    proof {
        assert(s@.skip(i as int) =~= Seq::<char>::empty());
        assert(cur@ + Seq::<char>::empty() =~= cur@);
    }
    if count == n {
        Some(cur)
    } else {
        None
    }
}

} // verus!

verus! {

/// An ASCII decimal digit.
pub open spec fn is_digit(c: char) -> bool {
    ('0' as int) <= (c as int) <= ('9' as int)
}

pub open spec fn all_digits(s: Seq<char>) -> bool {
    forall|i: int| 0 <= i < s.len() ==> is_digit(#[trigger] s[i])
}

/// The number that a string of decimal digits denotes.
pub open spec fn digits_value(s: Seq<char>) -> int
    decreases s.len(),
{
    if s.len() == 0 {
        0
    } else {
        10 * digits_value(s.drop_last()) + ((s.last() as int) - ('0' as int))
    }
}

/// The integer that `s` denotes in the syntax that `i32::from_str` accepts:
/// an optional `+` or `-`, then one or more ASCII digits, nothing else.
pub open spec fn decimal_value(s: Seq<char>) -> Option<int> {
    if s.len() > 0 && (s[0] == '-' || s[0] == '+') {
        let body = s.drop_first();
        if body.len() > 0 && all_digits(body) {
            if s[0] == '-' {
                Some(-digits_value(body))
            } else {
                Some(digits_value(body))
            }
        } else {
            None
        }
    } else if s.len() > 0 && all_digits(s) {
        Some(digits_value(s))
    } else {
        None
    }
}

/// What `i32::from_str` returns on `s`, with the error as `None`.
pub open spec fn parsed_i32(s: Seq<char>) -> Option<i32> {
    match decimal_value(s) {
        Some(v) => if i32::MIN <= v <= i32::MAX {
            Some(v as i32)
        } else {
            None
        },
        None => None,
    }
}

pub(crate) proof fn lemma_digits_value_nonneg(s: Seq<char>)
    requires
        all_digits(s),
    ensures
        digits_value(s) >= 0,
    decreases s.len(),
{
    if s.len() > 0 {
        assert(all_digits(s.drop_last()));
        assert(is_digit(s[s.len() - 1]));
        lemma_digits_value_nonneg(s.drop_last());
    }
}

/// A longer run of digits never denotes less than its prefix.
proof fn lemma_digits_value_prefix(s: Seq<char>, k: int)
    requires
        all_digits(s),
        0 <= k <= s.len(),
    ensures
        digits_value(s.take(k)) <= digits_value(s),
    decreases s.len(),
{
    if k == s.len() {
        assert(s.take(k) =~= s);
    } else {
        assert(all_digits(s.drop_last()));
        assert(is_digit(s[s.len() - 1]));
        lemma_digits_value_prefix(s.drop_last(), k);
        assert(s.drop_last().take(k) =~= s.take(k));
        lemma_digits_value_nonneg(s.drop_last());
    }
}

/// Reads the digits `s[start..]` as a magnitude, or `None` when they are not
/// all digits, there are none, or the magnitude exceeds `2^31`.
fn read_magnitude(s: &str, len: usize, start: usize) -> (r: Option<i64>)
    requires
        len == s@.len(),
        start <= len,
    ensures
        ({
            let body = s@.skip(start as int);
            match r {
                Some(m) => body.len() > 0 && all_digits(body) && 0 <= m <= 2147483648 && m == digits_value(body),
                None => !(body.len() > 0 && all_digits(body)) || digits_value(body) > 2147483648,
            }
        }),
{
    let ghost body = s@.skip(start as int);
    if start == len {
        return None;
    }
    let mut acc: i64 = 0;
    let mut j: usize = start;
    proof {
        assert(body.take(0) =~= Seq::<char>::empty());
    }
    while j < len
        invariant
            len == s@.len(),
            start < len,
            start <= j <= len,
            body == s@.skip(start as int),
            all_digits(body.take(j - start)),
            acc == digits_value(body.take(j - start)),
            0 <= acc <= 2147483648,
        decreases len - j,
    {
        let c = s.get_char(j);
        let ghost k = j - start;
        assert(body[k] == c);
        if !('0' <= c && c <= '9') {
            proof {
                assert(!is_digit(body[k]));
            }
            return None;
        }
        let d = (c as u32 - '0' as u32) as i64;
        acc = acc * 10 + d;
        proof {
            assert(body.take(k + 1).drop_last() =~= body.take(k));
            assert(body.take(k + 1).last() == c);
            assert(all_digits(body.take(k + 1))) by {
                assert forall|i: int| 0 <= i < body.take(k + 1).len() implies is_digit(
                    #[trigger] body.take(k + 1)[i],
                ) by {
                    if i < k {
                        assert(body.take(k + 1)[i] == body.take(k)[i]);
                    }
                }
            }
        }
        j = j + 1;
        if acc > 2147483648 {
            proof {
                if all_digits(body) {
                    lemma_digits_value_prefix(body, (j - start) as int);
                }
            }
            return None;
        }
    }
    proof {
        assert(body.take(len - start) =~= body);
    }
    Some(acc)
}

/// Parses `s` as `i32::from_str` does; `None` where it returns an error.
pub fn parse_i32(s: &str) -> (r: Option<i32>)
    ensures
        r == parsed_i32(s@),
{
    let len = s.unicode_len();
    if len == 0 {
        return None;
    }
    let first = s.get_char(0);
    if first == '-' || first == '+' {
        let m = read_magnitude(s, len, 1);
        proof {
            assert(s@.skip(1) =~= s@.drop_first());
        }
        match m {
            Some(m) => {
                if first == '-' {
                    Some((-m) as i32)
                } else if m <= 2147483647 {
                    Some(m as i32)
                } else {
                    None
                }
            },
            None => None,
        }
    } else {
        let m = read_magnitude(s, len, 0);
        proof {
            assert(s@.skip(0) =~= s@);
            if all_digits(s@) {
                assert(is_digit(s@[0]));
            }
        }
        match m {
            Some(m) => {
                if m <= 2147483647 {
                    Some(m as i32)
                } else {
                    None
                }
            },
            None => None,
        }
    }
}

} // verus!

verus! {

/// `pat` occurs in `s` at position `i`.
pub open spec fn occurs_at(s: Seq<char>, pat: Seq<char>, i: int) -> bool {
    0 <= i && i + pat.len() <= s.len() && s.subrange(i, i + pat.len()) == pat
}

/// `pat` occurs somewhere in `s` (`str::contains`); the empty pattern occurs
/// in every string.
pub open spec fn contains(s: Seq<char>, pat: Seq<char>) -> bool {
    exists|i: int| #[trigger] occurs_at(s, pat, i)
}

/// `s` with every occurrence of `pat` taken out, matching from the left
/// without overlap, as `str::replace(pat, "")` does for a non-empty `pat`.
pub open spec fn without(s: Seq<char>, pat: Seq<char>) -> Seq<char>
    decreases s.len(),
{
    if pat.len() == 0 || s.len() < pat.len() {
        s
    } else if s.take(pat.len() as int) == pat {
        without(s.skip(pat.len() as int), pat)
    } else {
        seq![s[0]] + without(s.drop_first(), pat)
    }
}

/// Whether `pat` occurs in `s` at char position `i`.
fn occurs_at_exec(s: &str, len: usize, pat: &str, plen: usize, i: usize) -> (r: bool)
    requires
        len == s@.len(),
        plen == pat@.len(),
    ensures
        r == occurs_at(s@, pat@, i as int),
{
    if i > len || plen > len - i {
        return false;
    }
    let mut k: usize = 0;
    while k < plen
        invariant
            len == s@.len(),
            plen == pat@.len(),
            i + plen <= len,
            k <= plen,
            forall|j: int| 0 <= j < k ==> s@[i + j] == pat@[j],
        decreases plen - k,
    {
        if s.get_char(i + k) != pat.get_char(k) {
            assert(s@.subrange(i as int, i + plen)[k as int] != pat@[k as int]);
            return false;
        }
        k = k + 1;
    }
    assert(s@.subrange(i as int, i + plen) =~= pat@);
    true
}

/// Whether `pat` occurs in `s` (`str::contains`).
pub fn has_substring(s: &str, pat: &str) -> (r: bool)
    ensures
        r == contains(s@, pat@),
{
    let len = s.unicode_len();
    let plen = pat.unicode_len();
    if plen == 0 {
        proof {
            assert(s@.subrange(0, 0) =~= pat@);
            assert(occurs_at(s@, pat@, 0));
        }
        return true;
    }
    if plen > len {
        proof {
            assert forall|i: int| !#[trigger] occurs_at(s@, pat@, i) by {}
        }
        return false;
    }
    let mut i: usize = 0;
    while i < len - plen + 1
        invariant
            len == s@.len(),
            plen == pat@.len(),
            0 < plen <= len,
            i <= len - plen + 1,
            forall|j: int| 0 <= j < i ==> !#[trigger] occurs_at(s@, pat@, j),
        decreases len - plen + 1 - i,
    {
        if occurs_at_exec(s, len, pat, plen, i) {
            return true;
        }
        i = i + 1;
    }
    proof {
        assert forall|j: int| !#[trigger] occurs_at(s@, pat@, j) by {
            if j >= i {
                assert(j + plen > len);
            }
        }
    }
    false
}

/// `s` with every occurrence of the non-empty `pat` removed
/// (`s.replace(pat, "")`).
pub(crate) fn remove_occurrences(s: &str, pat: &str) -> (r: String)
    requires
        pat@.len() > 0,
    ensures
        r@ == without(s@, pat@),
{
    let len = s.unicode_len();
    let plen = pat.unicode_len();
    let mut out = String::new();
    let mut i: usize = 0;
    proof {
        assert(s@.skip(0) =~= s@);
        assert(Seq::<char>::empty() + s@ =~= s@);
    }
    while i < len
        invariant
            len == s@.len(),
            plen == pat@.len(),
            plen > 0,
            i <= len,
            without(s@, pat@) == out@ + without(s@.skip(i as int), pat@),
        decreases len - i,
    {
        let ghost t = s@.skip(i as int);
        if plen > len - i {
            let rest = s.substring_char(i, len);
            out.append(rest);
            proof {
                assert(rest@ =~= t);
            }
            return out;
        }
        if occurs_at_exec(s, len, pat, plen, i) {
            proof {
                assert(t.take(plen as int) =~= s@.subrange(i as int, i + plen));
                assert(t.skip(plen as int) =~= s@.skip(i + plen));
            }
            i = i + plen;
        } else {
            let c = s.get_char(i);
            let ghost old_out = out@;
            push_char(&mut out, c);
            proof {
                assert(t.take(plen as int) =~= s@.subrange(i as int, i + plen));
                assert(t[0] == c);
                assert(t.drop_first() =~= s@.skip(i + 1));
                assert(old_out + (seq![c] + without(t.drop_first(), pat@)) =~= out@ + without(
                    t.drop_first(),
                    pat@,
                ));
            }
            i = i + 1;
        }
    }
    proof {
        assert(s@.skip(i as int) =~= Seq::<char>::empty());
        assert(out@ + Seq::<char>::empty() =~= out@);
    }
    out
}

} // verus!

verus! {

/// The character of the decimal digit `d`.
pub open spec fn digit_char(d: int) -> char {
    ((d + ('0' as int)) as u8) as char
}

/// `n` in decimal, most significant digit first, without leading zeros.
pub open spec fn digits_text(n: nat) -> Seq<char>
    decreases n,
{
    if n < 10 {
        seq![digit_char(n as int)]
    } else {
        digits_text(n / 10) + seq![digit_char((n % 10) as int)]
    }
}

/// `v` as `i32::to_string` writes it: a `-` for negative numbers, then the
/// digits of its magnitude.
pub open spec fn decimal_text(v: int) -> Seq<char> {
    if v < 0 {
        seq!['-'] + digits_text((-v) as nat)
    } else {
        digits_text(v as nat)
    }
}

/// Appends the decimal digits of `n`.
fn push_digits(out: &mut String, n: u32)
    ensures
        final(out)@ == old(out)@ + digits_text(n as nat),
    decreases n,
{
    if n >= 10 {
        push_digits(out, n / 10);
    }
    let d = (n % 10) as u8;
    let c = (d + 48) as char;
    let ghost before = out@;
    push_char(out, c);
    proof {
        assert(c == digit_char((n % 10) as int));
        if n >= 10 {
            assert(before + seq![c] =~= old(out)@ + (digits_text((n / 10) as nat) + seq![c]));
        } else {
            assert(before + seq![c] =~= old(out)@ + seq![c]);
        }
    }
}

/// Writes `v` in decimal, as `i32::to_string` does.
pub fn format_i32(v: i32) -> (r: String)
    ensures
        r@ == decimal_text(v as int),
{
    let mut out = String::new();
    if v < 0 {
        push_char(&mut out, '-');
        let m: u32 = if v == i32::MIN {
            2147483648u32
        } else {
            (-v) as u32
        };
        push_digits(&mut out, m);
    } else {
        push_digits(&mut out, v as u32);
        assert(Seq::<char>::empty() + digits_text(v as nat) =~= digits_text(v as nat));
    }
    out
}

pub(crate) proof fn lemma_digit_char(d: int)
    requires
        0 <= d < 10,
    ensures
        (digit_char(d) as int) == d + ('0' as int),
{
    assert(((d + ('0' as int)) as u8) as int == d + 48);
}

pub(crate) proof fn lemma_digits_text(n: nat)
    ensures
        digits_text(n).len() > 0,
        all_digits(digits_text(n)),
        digits_value(digits_text(n)) == n,
    decreases n,
{
    let s = digits_text(n);
    lemma_digit_char((n % 10) as int);
    if n < 10 {
        assert(s.drop_last() =~= Seq::<char>::empty());
        assert(digits_value(s.drop_last()) == 0);
    } else {
        lemma_digits_text(n / 10);
        let p = digits_text(n / 10);
        assert(s.drop_last() =~= p);
        assert(s.last() == digit_char((n % 10) as int));
        assert(n == 10 * (n / 10) + n % 10);
        assert forall|i: int| 0 <= i < s.len() implies is_digit(#[trigger] s[i]) by {
            if i < p.len() {
                assert(s[i] == p[i]);
            }
        }
    }
}

/// Reading back what `format_i32` wrote gives the number that was written.
pub(crate) proof fn lemma_decimal_round_trip(v: i32)
    ensures
        parsed_i32(decimal_text(v as int)) == Some(v),
{
    let s = decimal_text(v as int);
    if v < 0 {
        let m = (-v) as nat;
        lemma_digits_text(m);
        assert(s.drop_first() =~= digits_text(m));
    } else {
        lemma_digits_text(v as nat);
        assert(is_digit(s[0]));
    }
}

} // verus!
