//! Reading and writing text: which characters are whitespace, the decimal
//! digits of a number, and whether a field holds an `i32`.

use vstd::prelude::*;
use vstd::string::{StrSliceExecFns, StringExecFns};

verus! {

/// The characters with Unicode's White_Space property (what
/// `char::is_whitespace` tests for).
pub open spec fn unicode_white_space(c: char) -> bool {
    let u = c as u32;
    (0x9 <= u <= 0xd) || u == 0x20 || u == 0x85 || u == 0xa0 || u == 0x1680 || (0x2000 <= u
        <= 0x200a) || u == 0x2028 || u == 0x2029 || u == 0x202f || u == 0x205f || u == 0x3000
}

/// Whether `c` is whitespace.
pub(crate) fn is_whitespace(c: char) -> (r: bool)
    ensures
        r == unicode_white_space(c),
{
    let u = c as u32;
    (0x9 <= u && u <= 0xd) || u == 0x20 || u == 0x85 || u == 0xa0 || u == 0x1680 || (0x2000 <= u
        && u <= 0x200a) || u == 0x2028 || u == 0x2029 || u == 0x202f || u == 0x205f || u == 0x3000
}

/// The decimal digits of `n`, most significant first, without leading zeros
/// ("0" for zero).
pub open spec fn decimal_digits(n: nat) -> Seq<char>
    decreases n,
{
    if n < 10 {
        seq![(48 + n) as char]
    } else {
        decimal_digits(n / 10).push((48 + n % 10) as char)
    }
}

fn digit_text(d: u64) -> (r: &'static str)
    requires
        d < 10,
    ensures
        r@ == seq![(48 + d) as char],
{
    if d == 0 {
        proof {
            reveal_strlit("0");
        }
        "0"
    } else if d == 1 {
        proof {
            reveal_strlit("1");
        }
        "1"
    } else if d == 2 {
        proof {
            reveal_strlit("2");
        }
        "2"
    } else if d == 3 {
        proof {
            reveal_strlit("3");
        }
        "3"
    } else if d == 4 {
        proof {
            reveal_strlit("4");
        }
        "4"
    } else if d == 5 {
        proof {
            reveal_strlit("5");
        }
        "5"
    } else if d == 6 {
        proof {
            reveal_strlit("6");
        }
        "6"
    } else if d == 7 {
        proof {
            reveal_strlit("7");
        }
        "7"
    } else if d == 8 {
        proof {
            reveal_strlit("8");
        }
        "8"
    } else {
        proof {
            reveal_strlit("9");
        }
        "9"
    }
}

/// The decimal text of `n`.
pub(crate) fn decimal_string(n: u64) -> (r: String)
    ensures
        r@ == decimal_digits(n as nat),
    decreases n,
{
    if n < 10 {
        String::from_str(digit_text(n))
    } else {
        let head = decimal_string(n / 10);
        let r = head.concat(digit_text(n % 10));
        assert(r@ =~= decimal_digits(n as nat));
        r
    }
}

/// The number written by the decimal digits `s` (ASCII '0'..='9').
pub open spec fn digits_value(s: Seq<char>) -> int
    decreases s.len(),
{
    if s.len() == 0 {
        0
    } else {
        digits_value(s.drop_last()) * 10 + (s.last() as int - 48)
    }
}

pub open spec fn all_digits(s: Seq<char>) -> bool {
    s.len() > 0 && forall|i: int| 0 <= i < s.len() ==> '0' <= #[trigger] s[i] <= '9'
}

/// Whether `s` is the text of an `i32`: an optional '+' or '-', then one or
/// more decimal digits, the value within the range of `i32`.
pub open spec fn is_i32_text(s: Seq<char>) -> bool {
    if s.len() > 0 && s[0] == '-' {
        all_digits(s.drop_first()) && digits_value(s.drop_first()) <= 2147483648
    } else if s.len() > 0 && s[0] == '+' {
        all_digits(s.drop_first()) && digits_value(s.drop_first()) <= 2147483647
    } else {
        all_digits(s) && digits_value(s) <= 2147483647
    }
}

proof fn lemma_digits_value_nonneg(s: Seq<char>)
    requires
        forall|i: int| 0 <= i < s.len() ==> '0' <= #[trigger] s[i] <= '9',
    ensures
        digits_value(s) >= 0,
    decreases s.len(),
{
    if s.len() > 0 {
        lemma_digits_value_nonneg(s.drop_last());
    }
}

/// Whether the digits of `s` from `start` on are one or more decimal digits
/// whose value is at most `limit`.
fn digits_within(s: &str, start: usize, limit: u64) -> (r: bool)
    requires
        start <= s@.len(),
        limit < 0x1_0000_0000,
    ensures
        r == (all_digits(s@.subrange(start as int, s@.len() as int)) && digits_value(
            s@.subrange(start as int, s@.len() as int),
        ) <= limit),
{
    let n = s.unicode_len();
    if start >= n {
        return false;
    }
    let mut value: u64 = 0;
    let mut over = false;
    let mut i = start;
    while i < n
        invariant
            start < n,
            n == s@.len(),
            start <= i <= n,
            limit < 0x1_0000_0000,
            forall|j: int| start <= j < i ==> '0' <= #[trigger] s@[j] <= '9',
            !over ==> value as int == digits_value(s@.subrange(start as int, i as int)),
            !over ==> value <= limit,
            over ==> digits_value(s@.subrange(start as int, i as int)) > limit,
        decreases n - i,
    {
        let c = s.get_char(i);
        if c < '0' || c > '9' {
            assert(s@.subrange(start as int, n as int)[i - start] == c);
            return false;
        }
        let ghost prefix = s@.subrange(start as int, i as int);
        let ghost next = s@.subrange(start as int, i + 1);
        assert(next.drop_last() =~= prefix);
        assert(next.last() == c);
        proof {
            assert forall|j: int| 0 <= j < prefix.len() implies '0' <= #[trigger] prefix[j] <= '9' by {
                assert(prefix[j] == s@[start + j]);
            }
            lemma_digits_value_nonneg(prefix);
        }
        let d = (c as u32 - 48) as u64;
        if !over {
            let v = value * 10 + d;
            if v > limit {
                over = true;
            } else {
                value = v;
            }
        }
        i = i + 1;
    }
    assert forall|j: int| 0 <= j < s@.subrange(start as int, n as int).len() implies '0'
        <= #[trigger] s@.subrange(start as int, n as int)[j] <= '9' by {
        assert(s@.subrange(start as int, n as int)[j] == s@[start + j]);
    }
    !over
}

/// Whether `s` is the text of an `i32` (what `str::parse::<i32>` accepts).
pub(crate) fn parses_as_i32(s: &str) -> (r: bool)
    ensures
        r == is_i32_text(s@),
{
    let n = s.unicode_len();
    if n > 0 && s.get_char(0) == '-' {
        assert(s@.subrange(1, n as int) =~= s@.drop_first());
        digits_within(s, 1, 2147483648)
    } else if n > 0 && s.get_char(0) == '+' {
        assert(s@.subrange(1, n as int) =~= s@.drop_first());
        digits_within(s, 1, 2147483647)
    } else {
        assert(s@.subrange(0, n as int) =~= s@);
        digits_within(s, 0, 2147483647)
    }
}

} // verus!
