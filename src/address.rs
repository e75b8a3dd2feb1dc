//! Connection addresses: decimal port numbers and `host[:port]` strings.

use vstd::prelude::*;
use vstd::string::*;

verus! {

/// Port used when a descriptor names a host without a usable port.
pub const DEFAULT_PORT: i32 = 11010;

pub open spec fn is_digit(c: char) -> bool {
    '0' <= c && c <= '9'
}

pub open spec fn all_digits(s: Seq<char>) -> bool {
    forall|i: int| 0 <= i < s.len() ==> #[trigger] is_digit(s[i])
}

/// The value of a string of decimal digits, most significant first.
pub open spec fn digits_value(s: Seq<char>) -> int
    decreases s.len(),
{
    if s.len() == 0 {
        0
    } else {
        10 * digits_value(s.drop_last()) + (s.last() as int - '0' as int)
    }
}

/// What `i32::from_str` accepts: an optional `+` or `-`, then one or more
/// decimal digits, with a value inside the range of `i32`.
pub open spec fn decimal_i32(s: Seq<char>) -> Option<i32> {
    let signed = s.len() > 0 && (s[0] == '-' || s[0] == '+');
    let body = if signed { s.drop_first() } else { s };
    let magnitude = digits_value(body);
    let value = if s.len() > 0 && s[0] == '-' { -magnitude } else { magnitude };
    if body.len() > 0 && all_digits(body) && i32::MIN <= value <= i32::MAX {
        Some(value as i32)
    } else {
        None
    }
}

proof fn lemma_digits_value_nonneg(s: Seq<char>)
    requires
        all_digits(s),
    ensures
        digits_value(s) >= 0,
    decreases s.len(),
{
    if s.len() > 0 {
        assert(is_digit(s[s.len() - 1]));
        lemma_digits_value_nonneg(s.drop_last());
    }
}

/// A digit string is worth at least as much as any of its prefixes.
proof fn lemma_digits_value_prefix(s: Seq<char>, k: int)
    requires
        all_digits(s),
        0 <= k <= s.len(),
    ensures
        digits_value(s.subrange(0, k)) <= digits_value(s),
    decreases s.len(),
{
    if k == s.len() {
        assert(s.subrange(0, k) =~= s);
    } else {
        let t = s.drop_last();
        assert(is_digit(s[s.len() - 1]));
        lemma_digits_value_nonneg(t);
        lemma_digits_value_prefix(t, k);
        assert(t.subrange(0, k) =~= s.subrange(0, k));
    }
}

/// Parses a signed decimal `i32` the way `str::parse::<i32>` does.
pub fn parse_i32(s: &str) -> (r: Option<i32>)
    ensures
        r == decimal_i32(s@),
{
    let n = s.unicode_len();
    if n == 0 {
        return None;
    }
    let first = s.get_char(0);
    let negative = first == '-';
    let start: usize = if first == '-' || first == '+' { 1 } else { 0 };
    let ghost body = if first == '-' || first == '+' { s@.drop_first() } else { s@ };
    assert(body =~= s@.subrange(start as int, n as int));
    if start == n {
        return None;
    }
    let mut acc: i64 = 0;
    let mut i: usize = start;
    while i < n
        invariant
            n == s@.len(),
            n > 0,
            first == s@[0],
            start == (if first == '-' || first == '+' { 1usize } else { 0usize }),
            start <= i <= n,
            body == s@.subrange(start as int, n as int),
            all_digits(s@.subrange(start as int, i as int)),
            acc == digits_value(s@.subrange(start as int, i as int)),
            0 <= acc <= 2147483648,
        decreases n - i,
    {
        let c = s.get_char(i);
        if !('0' <= c && c <= '9') {
            assert(body[i - start] == c);
            assert(!is_digit(body[i - start]));
            return None;
        }
        let ghost prev = s@.subrange(start as int, i as int);
        let ghost next = s@.subrange(start as int, i + 1);
        assert(next.drop_last() =~= prev);
        assert(next.last() == c);
        assert(all_digits(next)) by {
            assert forall|j: int| 0 <= j < next.len() implies #[trigger] is_digit(next[j]) by {
                if j < prev.len() {
                    assert(next[j] == prev[j]);
                }
            }
        }
        acc = acc * 10 + (c as u32 - '0' as u32) as i64;
        assert(acc == digits_value(next));
        i = i + 1;
        if acc > 2147483648 {
            proof {
                if all_digits(body) {
                    lemma_digits_value_prefix(body, (i - start) as int);
                    assert(body.subrange(0, (i - start) as int) =~= next);
                    assert(digits_value(body) > 2147483648);
                }
                let signed = s@.len() > 0 && (s@[0] == '-' || s@[0] == '+');
                assert(body == if signed { s@.drop_first() } else { s@ });
            }
            return None;
        }
    }
    assert(s@.subrange(start as int, n as int) =~= body);
    if negative {
        Some((0 - acc) as i32)
    } else if acc <= 2147483647 {
        Some(acc as i32)
    } else {
        None
    }
}

/// `k` is the position of the first `:` in `s`.
pub open spec fn is_first_colon(s: Seq<char>, k: int) -> bool {
    &&& 0 <= k < s.len()
    &&& s[k] == ':'
    &&& forall|j: int| 0 <= j < k ==> s[j] != ':'
}

/// The port written after the colon, or the default port when it does not parse.
pub open spec fn port_or_default(s: Seq<char>) -> i32 {
    match decimal_i32(s) {
        Some(p) => p,
        None => DEFAULT_PORT,
    }
}

/// Host and port of an `ip[:port]` string: split at the first colon; without a
/// colon the whole string is the host and the port is the default.
pub open spec fn spec_split_host_port(s: Seq<char>) -> (Seq<char>, i32) {
    if exists|k: int| is_first_colon(s, k) {
        let k = choose|k: int| is_first_colon(s, k);
        (s.subrange(0, k), port_or_default(s.subrange(k + 1, s.len() as int)))
    } else {
        (s, DEFAULT_PORT)
    }
}

/// Splits an `ip[:port]` string into host and port.
pub fn split_host_port(s: &str) -> (r: (String, i32))
    ensures
        r.0@ == spec_split_host_port(s@).0,
        r.1 == spec_split_host_port(s@).1,
{
    let n = s.unicode_len();
    let mut k: usize = 0;
    while k < n && s.get_char(k) != ':'
        invariant
            n == s@.len(),
            k <= n,
            forall|j: int| 0 <= j < k ==> s@[j] != ':',
        decreases n - k,
    {
        k = k + 1;
    }
    if k == n {
        assert(!exists|j: int| is_first_colon(s@, j));
        (s.to_owned(), DEFAULT_PORT)
    } else {
        proof {
            assert(is_first_colon(s@, k as int));
            let c = choose|j: int| is_first_colon(s@, j);
            assert(c == k) by {
                if c < k {
                    assert(s@[c] != ':');
                } else if c > k {
                    assert(s@[k as int] != ':');
                }
            }
        }
        let host = s.substring_char(0, k).to_owned();
        let port = match parse_i32(s.substring_char(k + 1, n)) {
            Some(p) => p,
            None => DEFAULT_PORT,
        };
        (host, port)
    }
}

} // verus!
