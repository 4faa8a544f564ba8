//! Decimal text: parsing feed amounts and rendering numbers.
//!
//! Feed events carry prices and liquidity as decimal text. The library keeps
//! amounts as integers in base units, so the text `123.9` parses to `123`:
//! the integer part, truncated. Malformed text parses to `0` rather than
//! failing, so a bad numeric field never drops a whole event. Values too
//! large for `u64` saturate.
use vstd::prelude::*;

verus! {

use vstd::string::StrSliceExecFns;
use vstd::string::StringExecFns;

/// Is `c` one of the ten ASCII digits?
pub open spec fn is_digit(c: char) -> bool {
    ('0' as u32) <= (c as u32) && (c as u32) <= ('9' as u32)
}

/// Numeric value of a digit character.
pub open spec fn digit_value(c: char) -> int
    recommends
        is_digit(c),
{
    (c as u32) as int - ('0' as u32) as int
}

/// Value of a digit string read most-significant first.
pub open spec fn digits_value(s: Seq<char>) -> int
    recommends
        all_digits(s),
    decreases s.len(),
{
    if s.len() == 0 {
        0
    } else {
        digits_value(s.drop_last()) * 10 + digit_value(s.last())
    }
}

/// Every character of `s` is a digit.
pub open spec fn all_digits(s: Seq<char>) -> bool {
    forall|i: int| 0 <= i < s.len() ==> is_digit(#[trigger] s[i])
}

/// Length of the longest digit prefix of `s`.
pub open spec fn digit_prefix_len(s: Seq<char>) -> int
    decreases s.len(),
{
    if s.len() == 0 || !is_digit(s[0]) {
        0
    } else {
        1 + digit_prefix_len(s.drop_first())
    }
}

/// An amount is digits, optionally followed by a dot and more digits:
/// `10`, `123.45` and `7.` are amounts; `.5`, `1e3` and `-2` are not.
pub open spec fn valid_amount_text(s: Seq<char>) -> bool {
    let k = digit_prefix_len(s);
    &&& k > 0
    &&& (k == s.len() || (s[k] == '.' && all_digits(s.subrange(k + 1, s.len() as int))))
}

/// The amount a piece of text denotes: the integer part of a well-formed
/// decimal, truncated, saturating at `u64::MAX`; `0` for malformed text.
pub open spec fn amount_of_text(s: Seq<char>) -> int {
    if valid_amount_text(s) {
        let v = digits_value(s.subrange(0, digit_prefix_len(s)));
        if v > u64::MAX as int {
            u64::MAX as int
        } else {
            v
        }
    } else {
        0
    }
}

/// A digit string has a nonnegative value.
pub proof fn lemma_digits_value_nonneg(s: Seq<char>)
    requires
        all_digits(s),
    ensures
        digits_value(s) >= 0,
    decreases s.len(),
{
    if s.len() > 0 {
        assert(all_digits(s.drop_last())) by {
            assert(forall|i: int|
                0 <= i < s.drop_last().len() ==> s.drop_last()[i] == #[trigger] s[i]);
        }
        lemma_digits_value_nonneg(s.drop_last());
    }
}

/// The digit prefix ends exactly where the first non-digit stands.
proof fn lemma_digit_prefix_len_is(s: Seq<char>, k: int)
    requires
        0 <= k <= s.len(),
        forall|i: int| 0 <= i < k ==> is_digit(#[trigger] s[i]),
        k == s.len() || !is_digit(s[k]),
    ensures
        digit_prefix_len(s) == k,
    decreases k,
{
    if k == 0 {
    } else {
        let t = s.drop_first();
        assert(forall|i: int| 0 <= i < k - 1 ==> t[i] == #[trigger] s[i + 1]);
        assert(k - 1 == t.len() || !is_digit(t[k - 1]));
        lemma_digit_prefix_len_is(t, k - 1);
    }
}

/// Parses an amount: the integer part of a decimal number, truncated,
/// saturating at `u64::MAX`; `0` if the text is not a well-formed amount.
pub fn parse_amount(s: &str) -> (r: u64)
    ensures
        r as int == amount_of_text(s@),
{
    let n: usize = s.unicode_len();
    let mut i: usize = 0;
    let mut val: u64 = 0;
    let mut sat: bool = false;
    loop
        invariant
            0 <= i <= n,
            n == s@.len(),
            forall|j: int| 0 <= j < i ==> is_digit(#[trigger] s@[j]),
            sat <==> digits_value(s@.subrange(0, i as int)) > u64::MAX as int,
            !sat ==> val as int == digits_value(s@.subrange(0, i as int)),
            sat ==> val == u64::MAX,
        ensures
            0 <= i <= n,
            forall|j: int| 0 <= j < i ==> is_digit(#[trigger] s@[j]),
            i == n || !is_digit(s@[i as int]),
            sat <==> digits_value(s@.subrange(0, i as int)) > u64::MAX as int,
            !sat ==> val as int == digits_value(s@.subrange(0, i as int)),
            sat ==> val == u64::MAX,
        decreases n - i,
    {
        if i == n {
            break;
        }
        let c = s.get_char(i);
        let u: u32 = c as u32;
        if u < 48 || u > 57 {
            break;
        }
        let d: u64 = (u - 48) as u64;
        proof {
            let pre = s@.subrange(0, i as int);
            let nxt = s@.subrange(0, i + 1 as int);
            assert(nxt.drop_last() =~= pre);
            assert(nxt.last() == s@[i as int]);
            assert(forall|j: int| 0 <= j < pre.len() ==> pre[j] == #[trigger] s@[j]);
            lemma_digits_value_nonneg(pre);
        }
        let wide: u128 = (val as u128) * 10 + (d as u128);
        if sat || wide > u64::MAX as u128 {
            sat = true;
            val = u64::MAX;
        } else {
            val = wide as u64;
        }
        i = i + 1;
    }
    proof {
        lemma_digit_prefix_len_is(s@, i as int);
    }
    if i == 0 {
        return 0;
    }
    if i == n {
        return val;
    }
    let c = s.get_char(i);
    if !(c == '.') {
        return 0;
    }
    let mut j: usize = i + 1;
    loop
        invariant
            i + 1 <= j <= n,
            n == s@.len(),
            forall|k: int| i + 1 <= k < j ==> is_digit(#[trigger] s@[k]),
        ensures
            i + 1 <= j <= n,
            forall|k: int| i + 1 <= k < j ==> is_digit(#[trigger] s@[k]),
            j == n || !is_digit(s@[j as int]),
        decreases n - j,
    {
        if j == n {
            break;
        }
        let c2 = s.get_char(j);
        let u2: u32 = c2 as u32;
        if u2 < 48 || u2 > 57 {
            break;
        }
        j = j + 1;
    }
    if j == n {
        proof {
            let frac = s@.subrange(i + 1 as int, n as int);
            assert(forall|k: int| 0 <= k < frac.len() ==> frac[k] == #[trigger] s@[k + i + 1]);
            assert(all_digits(frac));
        }
        val
    } else {
        proof {
            let frac = s@.subrange(i + 1 as int, n as int);
            assert(frac[j - i - 1] == s@[j as int]);
            assert(!all_digits(frac));
        }
        0
    }
}

/// Compares two pieces of text character by character.
pub fn str_eq(a: &str, b: &str) -> (r: bool)
    ensures
        r == (a@ == b@),
{
    let na: usize = a.unicode_len();
    let nb: usize = b.unicode_len();
    if na != nb {
        return false;
    }
    let mut i: usize = 0;
    while i < na
        invariant
            0 <= i <= na,
            na == a@.len(),
            na == b@.len(),
            forall|k: int| 0 <= k < i ==> a@[k] == b@[k],
        decreases na - i,
    {
        if a.get_char(i) != b.get_char(i) {
            return false;
        }
        i = i + 1;
    }
    proof {
        assert(a@ =~= b@);
    }
    true
}

/// The character of one digit value.
pub open spec fn char_of_digit(d: int) -> char
    recommends
        0 <= d <= 9,
{
    if d == 0 {
        '0'
    } else if d == 1 {
        '1'
    } else if d == 2 {
        '2'
    } else if d == 3 {
        '3'
    } else if d == 4 {
        '4'
    } else if d == 5 {
        '5'
    } else if d == 6 {
        '6'
    } else if d == 7 {
        '7'
    } else if d == 8 {
        '8'
    } else {
        '9'
    }
}

/// Decimal text of a nonnegative number, most significant digit first,
/// without leading zeros (except for `0` itself).
pub open spec fn dec_text_of(n: int) -> Seq<char>
    recommends
        n >= 0,
    decreases n,
{
    if n < 10 {
        seq![char_of_digit(n)]
    } else {
        dec_text_of(n / 10).push(char_of_digit(n % 10))
    }
}

/// Decimal text of a number, with a leading minus sign when negative.
pub open spec fn signed_text_of(n: int) -> Seq<char> {
    if n < 0 {
        seq!['-'] + dec_text_of(-n)
    } else {
        dec_text_of(n)
    }
}

/// The one-character string of a digit value.
fn digit_text(d: u64) -> (r: &'static str)
    requires
        d < 10,
    ensures
        r@ == seq![char_of_digit(d as int)],
{
    proof {
        reveal_strlit("0");
        reveal_strlit("1");
        reveal_strlit("2");
        reveal_strlit("3");
        reveal_strlit("4");
        reveal_strlit("5");
        reveal_strlit("6");
        reveal_strlit("7");
        reveal_strlit("8");
        reveal_strlit("9");
    }
    let r = match d {
        0 => "0",
        1 => "1",
        2 => "2",
        3 => "3",
        4 => "4",
        5 => "5",
        6 => "6",
        7 => "7",
        8 => "8",
        _ => "9",
    };
    proof {
        assert(r@ =~= seq![char_of_digit(d as int)]);
    }
    r
}

/// Renders a number as decimal text.
pub fn u64_text(n: u64) -> (r: String)
    ensures
        r@ == dec_text_of(n as int),
    decreases n,
{
    if n < 10 {
        String::from_str(digit_text(n))
    } else {
        let mut s = u64_text(n / 10);
        s.append(digit_text(n % 10));
        proof {
            assert(s@ =~= dec_text_of(n as int / 10).push(char_of_digit(n as int % 10)));
        }
        s
    }
}

/// Renders a number as decimal text, with a minus sign when negative.
pub fn i64_text(n: i64) -> (r: String)
    ensures
        r@ == signed_text_of(n as int),
{
    if n >= 0 {
        u64_text(n as u64)
    } else {
        let mag: u64 = (-(n as i128)) as u64;
        let mut s = String::from_str("-");
        let t = u64_text(mag);
        s.append(t.as_str());
        proof {
            reveal_strlit("-");
            assert(s@ =~= seq!['-'] + dec_text_of(-(n as int)));
        }
        s
    }
}

} // verus!
