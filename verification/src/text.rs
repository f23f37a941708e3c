//! Text helpers on character sequences: decimal numerals (reading and writing),
//! Unicode white space, trimming, and comparison with literals.

use vstd::prelude::*;

verus! {

/// The character of a decimal digit `d` (`0 <= d < 10`).
pub open spec fn digit_char(d: int) -> char {
    if d == 0 { '0' }
    else if d == 1 { '1' }
    else if d == 2 { '2' }
    else if d == 3 { '3' }
    else if d == 4 { '4' }
    else if d == 5 { '5' }
    else if d == 6 { '6' }
    else if d == 7 { '7' }
    else if d == 8 { '8' }
    else { '9' }
}

/// `c` is one of the ASCII digits `0` to `9`.
pub open spec fn is_digit(c: char) -> bool {
    '0' as u32 <= c as u32 && c as u32 <= '9' as u32
}

/// Value of an ASCII digit.
pub open spec fn digit_value(c: char) -> nat {
    (c as u32 - '0' as u32) as nat
}

/// Decimal numeral of `n`, without leading zeros (as Rust's `{}` writes it).
pub open spec fn decimal(n: nat) -> Seq<char>
    decreases n,
{
    if n < 10 {
        seq![digit_char(n as int)]
    } else {
        decimal(n / 10).push(digit_char((n % 10) as int))
    }
}

/// Decimal numeral of `n` padded with zeros to two characters (as `{:02}` writes it).
pub open spec fn zero_padded2(n: nat) -> Seq<char> {
    if n < 10 {
        seq!['0'] + decimal(n)
    } else {
        decimal(n)
    }
}

/// Decimal numeral of a signed integer, with a leading `-` when negative.
pub open spec fn signed_decimal(i: int) -> Seq<char> {
    if i < 0 {
        seq!['-'] + decimal((-i) as nat)
    } else {
        decimal(i as nat)
    }
}

/// Value of a non-empty run of ASCII digits.
pub open spec fn digits_value(s: Seq<char>) -> nat
    decreases s.len(),
{
    if s.len() == 0 {
        0
    } else {
        digits_value(s.drop_last()) * 10 + digit_value(s.last())
    }
}

pub open spec fn all_digits(s: Seq<char>) -> bool {
    forall|i: int| 0 <= i < s.len() ==> is_digit(#[trigger] s[i])
}

/// What Rust's `str::parse` yields for an unsigned integer type whose largest value is `max`:
/// an optional `+`, then one or more ASCII digits whose value does not exceed `max`.
pub open spec fn parse_unsigned(s: Seq<char>, max: nat) -> Option<nat> {
    let body = if s.len() > 0 && s[0] == '+' { s.drop_first() } else { s };
    if body.len() > 0 && all_digits(body) && digits_value(body) <= max {
        Some(digits_value(body))
    } else {
        None
    }
}

/// The Unicode `White_Space` property (the characters that Rust's `char::is_whitespace`
/// and `str::trim` treat as white space).
pub open spec fn is_white_space(c: char) -> bool {
    let u = c as u32;
    (0x9 <= u && u <= 0xd) || u == 0x20 || u == 0x85 || u == 0xa0 || u == 0x1680 || (0x2000 <= u
        && u <= 0x200a) || u == 0x2028 || u == 0x2029 || u == 0x202f || u == 0x205f || u == 0x3000
}

/// Number of white-space characters at the start of `s`.
pub open spec fn leading_ws(s: Seq<char>) -> nat
    decreases s.len(),
{
    if s.len() > 0 && is_white_space(s[0]) {
        1 + leading_ws(s.drop_first())
    } else {
        0
    }
}

/// Number of white-space characters at the end of `s`.
pub open spec fn trailing_ws(s: Seq<char>) -> nat
    decreases s.len(),
{
    if s.len() > 0 && is_white_space(s.last()) {
        1 + trailing_ws(s.drop_last())
    } else {
        0
    }
}

/// `s` without its leading and trailing white space (as `str::trim` gives it).
pub open spec fn trimmed(s: Seq<char>) -> Seq<char> {
    let t = s.skip(leading_ws(s) as int);
    t.take(t.len() - trailing_ws(t))
}

/// Position just after the last `sep` in `s`, or 0 when `s` holds none.
pub open spec fn after_last(s: Seq<char>, sep: char) -> nat
    decreases s.len(),
{
    if s.len() == 0 {
        0
    } else if s.last() == sep {
        s.len()
    } else {
        after_last(s.drop_last(), sep)
    }
}

/// The last piece of `s` split at `sep` (as `s.split(sep).last()` gives it).
pub open spec fn last_piece(s: Seq<char>, sep: char) -> Seq<char> {
    s.skip(after_last(s, sep) as int)
}

/// The decimal numeral of `n` is a non-empty run of ASCII digits, without a leading zero
/// unless `n` is 0, that reads back as `n`.
pub proof fn lemma_decimal_reads_back(n: nat)
    ensures
        decimal(n).len() > 0,
        all_digits(decimal(n)),
        digits_value(decimal(n)) == n,
        decimal(n)[0] == '0' ==> n == 0,
        forall|i: int| 0 <= i < decimal(n).len() ==> !is_white_space(#[trigger] decimal(n)[i]),
    decreases n,
{
    lemma_digit_char(n % 10);
    if n < 10 {
        assert(decimal(n).drop_last() =~= Seq::<char>::empty());
        assert(digits_value(Seq::<char>::empty()) == 0);
        assert(decimal(n).last() == digit_char(n as int));
        assert(digits_value(decimal(n)) == digits_value(decimal(n).drop_last()) * 10 + digit_value(
            decimal(n).last(),
        ));
    } else {
        lemma_decimal_reads_back(n / 10);
        let p = decimal(n / 10);
        let d = digit_char((n % 10) as int);
        assert(decimal(n).drop_last() =~= p);
        assert(decimal(n)[0] == p[0]);
        assert forall|i: int| 0 <= i < decimal(n).len() implies is_digit(#[trigger] decimal(n)[i])
            && !is_white_space(decimal(n)[i]) by {
            if i < p.len() {
                assert(decimal(n)[i] == p[i]);
            }
        }
    }
}

/// The character of each decimal digit is an ASCII digit of that value.
pub proof fn lemma_digit_char(d: nat)
    requires
        d < 10,
    ensures
        is_digit(digit_char(d as int)),
        digit_value(digit_char(d as int)) == d,
        !is_white_space(digit_char(d as int)),
{
    assert('0' as u32 == 48);
    assert('1' as u32 == 49);
    assert('2' as u32 == 50);
    assert('3' as u32 == 51);
    assert('4' as u32 == 52);
    assert('5' as u32 == 53);
    assert('6' as u32 == 54);
    assert('7' as u32 == 55);
    assert('8' as u32 == 56);
    assert('9' as u32 == 57);
}

/// Reading the decimal numeral of `n` as an unsigned number no greater than `max` gives `n`
/// back when `n <= max` and nothing otherwise.
pub proof fn lemma_parse_decimal(n: nat, max: nat)
    ensures
        parse_unsigned(decimal(n), max) == (if n <= max { Some(n) } else { None::<nat> }),
{
    lemma_decimal_reads_back(n);
    assert(is_digit(decimal(n)[0]));
}

/// Two characters of `zero_padded2(n)` for `n < 100`: the tens digit, then the units digit.
pub proof fn lemma_zero_padded2(n: nat)
    requires
        n < 100,
    ensures
        zero_padded2(n).len() == 2,
        all_digits(zero_padded2(n)),
        digits_value(zero_padded2(n)) == n,
{
    lemma_decimal_reads_back(n);
    lemma_digit_char(0);
    lemma_digit_char(n % 10);
    if n < 10 {
        let z = zero_padded2(n);
        assert(z.drop_last() =~= seq!['0']);
        assert(seq!['0'].drop_last() =~= Seq::<char>::empty());
        assert(seq!['0'].last() == '0');
        assert(digits_value(seq!['0']) == digits_value(seq!['0'].drop_last()) * 10 + digit_value(
            seq!['0'].last(),
        ));
        assert(digits_value(seq!['0']) == 0);
        assert(z[1] == decimal(n)[0]);
        assert(z.last() == digit_char(n as int));
        assert(all_digits(z)) by {
            assert forall|i: int| 0 <= i < z.len() implies is_digit(#[trigger] z[i]) by {
                if i == 1 {
                    assert(z[1] == decimal(n)[0]);
                }
            }
        }
    } else {
        lemma_decimal_reads_back(n / 10);
        assert(decimal(n).drop_last() =~= decimal(n / 10));
        assert(decimal(n / 10).len() == 1);
    }
}

/// The last piece split at `sep` of `p`, `sep`, `q`, where `q` holds no `sep`, is `q`.
pub proof fn lemma_last_piece_after_sep(p: Seq<char>, sep: char, q: Seq<char>)
    requires
        forall|i: int| 0 <= i < q.len() ==> #[trigger] q[i] != sep,
    ensures
        after_last(p + seq![sep] + q, sep) == p.len() + 1,
        last_piece(p + seq![sep] + q, sep) == q,
    decreases q.len(),
{
    let s = p + seq![sep] + q;
    if q.len() == 0 {
        assert(s[s.len() - 1] == sep);
        assert(s.len() == p.len() + 1);
        assert(s.skip(s.len() as int) =~= q);
    } else {
        let q2 = q.drop_last();
        lemma_last_piece_after_sep(p, sep, q2);
        assert(s.drop_last() =~= p + seq![sep] + q2);
        assert(q[q.len() - 1] != sep);
        assert(s[s.len() - 1] == q[q.len() - 1]);
        assert(s.last() != sep);
        assert(after_last(s, sep) == after_last(p + seq![sep] + q2, sep));
        assert(s.skip(after_last(s, sep) as int) =~= q);
    }
}

/// A text that starts and ends with characters other than white space is its own trim.
pub proof fn lemma_trimmed_unchanged(s: Seq<char>)
    requires
        s.len() > 0,
        !is_white_space(s[0]),
        !is_white_space(s.last()),
    ensures
        trimmed(s) == s,
{
    assert(s.skip(0) =~= s);
    assert(s.take(s.len() as int) =~= s);
}

proof fn lemma_leading_ws_prefix(a: Seq<char>, q: Seq<char>)
    requires
        forall|i: int| 0 <= i < a.len() ==> is_white_space(#[trigger] a[i]),
        q.len() > 0,
        !is_white_space(q[0]),
    ensures
        leading_ws(a + q) == a.len(),
    decreases a.len(),
{
    if a.len() > 0 {
        assert((a + q).drop_first() =~= a.drop_first() + q);
        assert((a + q)[0] == a[0]);
        lemma_leading_ws_prefix(a.drop_first(), q);
    } else {
        assert(a + q =~= q);
    }
}

proof fn lemma_trailing_ws_suffix(q: Seq<char>, b: Seq<char>)
    requires
        forall|i: int| 0 <= i < b.len() ==> is_white_space(#[trigger] b[i]),
        q.len() > 0,
        !is_white_space(q.last()),
    ensures
        trailing_ws(q + b) == b.len(),
    decreases b.len(),
{
    if b.len() > 0 {
        assert((q + b).drop_last() =~= q + b.drop_last());
        assert((q + b).last() == b[b.len() - 1]);
        lemma_trailing_ws_suffix(q, b.drop_last());
    } else {
        assert(q + b =~= q);
    }
}

/// Trimming removes exactly the white space around a text: white space `a`, then a text `q`
/// that starts and ends with something else, then white space `b`, trims to `q`. Spaces, tabs,
/// line feeds and carriage returns are white space; ASCII digits are not.
pub proof fn lemma_trim_strips_surrounding_space(a: Seq<char>, q: Seq<char>, b: Seq<char>)
    requires
        forall|i: int| 0 <= i < a.len() ==> is_white_space(#[trigger] a[i]),
        forall|i: int| 0 <= i < b.len() ==> is_white_space(#[trigger] b[i]),
        q.len() > 0,
        !is_white_space(q[0]),
        !is_white_space(q.last()),
    ensures
        trimmed(a + q + b) == q,
        is_white_space(' ') && is_white_space('\t') && is_white_space('\n') && is_white_space('\r'),
        forall|c: char| is_digit(c) ==> !is_white_space(c),
{
    assert((a + q + b)[a.len() as int] == q[0]);
    assert(a + q + b =~= a + (q + b));
    assert((q + b)[0] == q[0]);
    lemma_leading_ws_prefix(a, q + b);
    let t = (a + q + b).skip(a.len() as int);
    assert(t =~= q + b);
    lemma_trailing_ws_suffix(q, b);
    assert(t.take(t.len() - b.len()) =~= q);
}

proof fn lemma_leading_ws_bound(s: Seq<char>)
    ensures
        leading_ws(s) <= s.len(),
        forall|i: int| 0 <= i < leading_ws(s) ==> is_white_space(#[trigger] s[i]),
        leading_ws(s) < s.len() ==> !is_white_space(s[leading_ws(s) as int]),
    decreases s.len(),
{
    if s.len() > 0 && is_white_space(s[0]) {
        lemma_leading_ws_bound(s.drop_first());
        assert forall|i: int| 0 <= i < leading_ws(s) implies is_white_space(#[trigger] s[i]) by {
            if i > 0 {
                assert(s[i] == s.drop_first()[i - 1]);
            }
        }
    }
}

proof fn lemma_trailing_ws_bound(s: Seq<char>)
    ensures
        trailing_ws(s) <= s.len(),
        forall|i: int| s.len() - trailing_ws(s) <= i < s.len() ==> is_white_space(#[trigger] s[i]),
        trailing_ws(s) < s.len() ==> !is_white_space(s[s.len() - trailing_ws(s) - 1]),
    decreases s.len(),
{
    if s.len() > 0 && is_white_space(s.last()) {
        lemma_trailing_ws_bound(s.drop_last());
        assert forall|i: int| s.len() - trailing_ws(s) <= i < s.len() implies is_white_space(
            #[trigger] s[i],
        ) by {
            if i < s.len() - 1 {
                assert(s[i] == s.drop_last()[i]);
            }
        }
    }
}

/// Whether `c` has the Unicode `White_Space` property.
pub fn char_is_white_space(c: char) -> (r: bool)
    ensures
        r == is_white_space(c),
{
    let u = c as u32;
    (0x9 <= u && u <= 0xd) || u == 0x20 || u == 0x85 || u == 0xa0 || u == 0x1680 || (0x2000 <= u
        && u <= 0x200a) || u == 0x2028 || u == 0x2029 || u == 0x202f || u == 0x205f || u == 0x3000
}

/// `s` without leading and trailing white space.
pub fn trim(s: &str) -> (r: &str)
    ensures
        r@ == trimmed(s@),
{
    let n = s.unicode_len();
    let mut a: usize = 0;
    proof {
        lemma_leading_ws_bound(s@);
    }
    while a < n && char_is_white_space(s.get_char(a))
        invariant
            n == s@.len(),
            a <= leading_ws(s@),
            leading_ws(s@) <= n,
            forall|i: int| 0 <= i < leading_ws(s@) ==> is_white_space(#[trigger] s@[i]),
            leading_ws(s@) < n ==> !is_white_space(s@[leading_ws(s@) as int]),
        decreases n - a,
    {
        a = a + 1;
    }
    assert(a == leading_ws(s@));
    let ghost t = s@.skip(a as int);
    proof {
        lemma_trailing_ws_bound(t);
    }
    let mut b: usize = n;
    while b > a && char_is_white_space(s.get_char(b - 1))
        invariant
            n == s@.len(),
            a <= b <= n,
            t == s@.skip(a as int),
            n - b <= trailing_ws(t),
            trailing_ws(t) <= t.len(),
            forall|i: int| t.len() - trailing_ws(t) <= i < t.len() ==> is_white_space(#[trigger] t[i]),
            trailing_ws(t) < t.len() ==> !is_white_space(t[t.len() - trailing_ws(t) - 1]),
        decreases b,
    {
        assert(t[b - 1 - a] == s@[b - 1]);
        b = b - 1;
    }
    if b > a {
        assert(t[b - 1 - a] == s@[b - 1]);
    }
    assert(n - b == trailing_ws(t));
    let r = s.substring_char(a, b);
    assert(r@ =~= trimmed(s@));
    r
}

/// The part of `s` after its last `sep` (all of `s` when it holds none).
pub fn last_split_piece(s: &str, sep: char) -> (r: &str)
    ensures
        r@ == last_piece(s@, sep),
{
    let n = s.unicode_len();
    let mut k: usize = n;
    assert(s@.take(n as int) =~= s@);
    while k > 0 && s.get_char(k - 1) != sep
        invariant
            n == s@.len(),
            k <= n,
            after_last(s@, sep) == after_last(s@.take(k as int), sep),
        decreases k,
    {
        let ghost p = s@.take(k as int);
        assert(p.drop_last() =~= s@.take(k - 1));
        k = k - 1;
    }
    assert(s@.take(n as int) =~= s@);
    if k > 0 {
        assert(s@.take(k as int).last() == s@[k - 1]);
    }
    s.substring_char(k, n)
}

proof fn lemma_digits_value_step(s: Seq<char>, i: int)
    requires
        0 <= i < s.len(),
    ensures
        digits_value(s.take(i + 1)) == digits_value(s.take(i)) * 10 + digit_value(s[i]),
{
    assert(s.take(i + 1).drop_last() =~= s.take(i));
}

proof fn lemma_digits_value_grows(s: Seq<char>, i: int)
    requires
        0 <= i <= s.len(),
    ensures
        digits_value(s.take(i)) <= digits_value(s),
    decreases s.len() - i,
{
    if i < s.len() {
        lemma_digits_value_step(s, i);
        lemma_digits_value_grows(s, i + 1);
    } else {
        assert(s.take(i) =~= s);
    }
}

/// Reads an unsigned decimal numeral no greater than `max`, as Rust's `str::parse` does for
/// an unsigned integer type whose largest value is `max`.
pub fn parse_unsigned_decimal(s: &str, max: u32) -> (r: Option<u32>)
    ensures
        match parse_unsigned(s@, max as nat) {
            Some(v) => r == Some(v as u32),
            None => r is None,
        },
{
    let n = s.unicode_len();
    let mut start: usize = 0;
    if n > 0 && s.get_char(0) == '+' {
        start = 1;
    }
    let ghost body = if s@.len() > 0 && s@[0] == '+' { s@.drop_first() } else { s@ };
    assert(body =~= s@.skip(start as int));
    if start == n {
        return None;
    }
    let mut acc: u64 = 0;
    let mut i: usize = start;
    while i < n
        invariant
            n == s@.len(),
            start <= i <= n,
            body =~= s@.skip(start as int),
            body == (if s@.len() > 0 && s@[0] == '+' { s@.drop_first() } else { s@ }),
            body.len() > 0,
            acc <= max,
            acc == digits_value(body.take(i - start)),
            all_digits(body.take(i - start)),
        decreases n - i,
    {
        let c = s.get_char(i);
        let u = c as u32;
        if !(48 <= u && u <= 57) {
            proof {
                assert(body[i - start] == c);
                assert(!is_digit(body[i - start]));
            }
            return None;
        }
        proof {
            assert(body[i - start] == c);
            lemma_digits_value_step(body, i - start);
            assert(body.take(i - start + 1).drop_last() =~= body.take(i - start));
        }
        acc = acc * 10 + (u as u64 - 48);
        if acc > max as u64 {
            proof {
                lemma_digits_value_grows(body, i - start + 1);
            }
            return None;
        }
        i = i + 1;
    }
    assert(body.take(n - start) =~= body);
    Some(acc as u32)
}

/// Whether `s` holds exactly the characters of `lit`.
pub fn is_text(s: &String, lit: &str) -> (r: bool)
    ensures
        r == (s@ == lit@),
{
    let l = String::from_str(lit);
    s.eq(&l)
}

/// Whether `s` begins with `c`.
pub fn starts_with_char(s: &str, c: char) -> (r: bool)
    ensures
        r == (s@.len() > 0 && s@[0] == c),
{
    s.unicode_len() > 0 && s.get_char(0) == c
}

/// The one-character text of a decimal digit.
fn digit_text(d: u64) -> (s: &'static str)
    requires
        d < 10,
    ensures
        s@ == seq![digit_char(d as int)],
{
    if d == 0 {
        proof { reveal_strlit("0"); }
        "0"
    } else if d == 1 {
        proof { reveal_strlit("1"); }
        "1"
    } else if d == 2 {
        proof { reveal_strlit("2"); }
        "2"
    } else if d == 3 {
        proof { reveal_strlit("3"); }
        "3"
    } else if d == 4 {
        proof { reveal_strlit("4"); }
        "4"
    } else if d == 5 {
        proof { reveal_strlit("5"); }
        "5"
    } else if d == 6 {
        proof { reveal_strlit("6"); }
        "6"
    } else if d == 7 {
        proof { reveal_strlit("7"); }
        "7"
    } else if d == 8 {
        proof { reveal_strlit("8"); }
        "8"
    } else {
        proof { reveal_strlit("9"); }
        "9"
    }
}

/// Appends the decimal numeral of `n`.
pub fn push_decimal(out: &mut String, n: u64)
    ensures
        final(out)@ == old(out)@ + decimal(n as nat),
    decreases n,
{
    if n >= 10 {
        push_decimal(out, n / 10);
    }
    out.append(digit_text(n % 10));
    proof {
        if n >= 10 {
            assert(old(out)@ + decimal(n as nat) =~= old(out)@ + decimal((n / 10) as nat) + seq![
                digit_char((n % 10) as int),
            ]);
        }
    }
}

/// Appends `n` written with at least two digits.
pub fn push_zero_padded2(out: &mut String, n: u64)
    ensures
        final(out)@ == old(out)@ + zero_padded2(n as nat),
{
    if n < 10 {
        out.append("0");
        proof { reveal_strlit("0"); }
    }
    push_decimal(out, n);
    proof {
        if n < 10 {
            assert(old(out)@ + zero_padded2(n as nat) =~= old(out)@ + seq!['0'] + decimal(n as nat));
        }
    }
}

/// Appends the decimal numeral of a signed integer.
pub fn push_signed_decimal(out: &mut String, i: i32)
    ensures
        final(out)@ == old(out)@ + signed_decimal(i as int),
{
    if i < 0 {
        out.append("-");
        proof { reveal_strlit("-"); }
        let m: u64 = (0i64 - i as i64) as u64;
        push_decimal(out, m);
        proof {
            assert(old(out)@ + signed_decimal(i as int) =~= old(out)@ + seq!['-'] + decimal(m as nat));
        }
    } else {
        push_decimal(out, i as u64);
    }
}

} // verus!
