//! Classification of candle responses, and the back-off owed to a rate-limit ban.
use vstd::prelude::*;

use crate::text::{chars_of, contains_text, occurs_in};

verus! {

/// Text that marks the body of a rate-limit response as an IP ban.
pub const BAN_MARKER: &'static str = "-1003";

/// Margin added to the announced end of a ban, in milliseconds.
pub const BAN_MARGIN_MS: u64 = 5_000;

/// The first capture of `until\s+(\d+)` in `text`, as regex finds it.
pub uninterp spec fn until_capture_of(text: Seq<char>) -> Option<Seq<char>>;

/// Relies on `regex::Regex::captures` with the pattern `until\s+(\d+)`: the result is
/// the text of the first match's group, and depends on `text` alone.
#[verifier::external_body]
fn until_capture(text: &str) -> (r: Option<String>)
    ensures
        match r {
            Some(c) => until_capture_of(text@) == Some(c@),
            None => until_capture_of(text@) is None,
        },
{
    let re = regex::Regex::new(r"until\s+(\d+)").ok()?;
    let caps = re.captures(text)?;
    let group = caps.get(1)?;
    Some(group.as_str().to_string())
}

/// How a response is handled, by its status.
#[derive(Clone, Copy, Debug, PartialEq, Eq, Structural)]
pub enum ResponseClass {
    /// 418 or 429: the provider limits or bans this client.
    RateLimited,
    /// Any other status outside 200..=299: the instrument is dropped.
    Failed,
    /// 200..=299: the body holds the candles.
    Success,
}

/// The class of a response with status `status`.
pub open spec fn class_of(status: u16) -> ResponseClass {
    if status == 418 || status == 429 {
        ResponseClass::RateLimited
    } else if 200 <= status <= 299 {
        ResponseClass::Success
    } else {
        ResponseClass::Failed
    }
}

/// The class of a response with status `status`.
pub fn classify_status(status: u16) -> (c: ResponseClass)
    ensures
        c == class_of(status),
{
    if status == 418 || status == 429 {
        ResponseClass::RateLimited
    } else if 200 <= status && status <= 299 {
        ResponseClass::Success
    } else {
        ResponseClass::Failed
    }
}

/// Every character is an ASCII digit.
pub open spec fn all_digits(d: Seq<char>) -> bool {
    forall|i: int| 0 <= i < d.len() ==> '0' <= #[trigger] d[i] <= '9'
}

/// The number that the ASCII digits `d` write in base ten.
pub open spec fn digits_value(d: Seq<char>) -> int
    decreases d.len(),
{
    if d.len() == 0 {
        0
    } else {
        digits_value(d.drop_last()) * 10 + (d.last() as int - '0' as int)
    }
}

/// How `str::parse::<u64>` reads a text: an optional `+`, then one or more ASCII digits
/// whose value fits.
pub open spec fn u64_text_of(s: Seq<char>) -> Option<u64> {
    let d = if s.len() > 0 && s[0] == '+' {
        s.drop_first()
    } else {
        s
    };
    if d.len() > 0 && all_digits(d) && digits_value(d) <= u64::MAX {
        Some(digits_value(d) as u64)
    } else {
        None
    }
}

proof fn lemma_digits_value_grows(d: Seq<char>, j: int)
    requires
        all_digits(d),
        0 <= j <= d.len(),
    ensures
        digits_value(d.subrange(0, j)) <= digits_value(d),
        0 <= digits_value(d.subrange(0, j)),
    decreases d.len() - j,
{
    if j < d.len() {
        lemma_digits_value_grows(d, j + 1);
        let p = d.subrange(0, j + 1);
        assert(p.drop_last() =~= d.subrange(0, j));
        assert('0' <= p.last() <= '9');
    } else {
        assert(d.subrange(0, j) =~= d);
        lemma_digits_value_nonneg(d);
    }
}

proof fn lemma_digits_value_nonneg(d: Seq<char>)
    requires
        all_digits(d),
    ensures
        0 <= digits_value(d),
    decreases d.len(),
{
    if d.len() > 0 {
        assert(all_digits(d.drop_last())) by {
            assert forall|i: int| 0 <= i < d.drop_last().len() implies '0' <= #[trigger] d.drop_last()[i] <= '9' by {
                assert(d.drop_last()[i] == d[i]);
            }
        }
        lemma_digits_value_nonneg(d.drop_last());
        assert('0' <= d.last() <= '9');
    }
}

/// Reads an unsigned 64-bit number as `str::parse::<u64>` does.
pub fn parse_u64_text(s: &str) -> (r: Option<u64>)
    ensures
        r == u64_text_of(s@),
{
    let cs = chars_of(s);
    let start: usize = if cs.len() > 0 && cs[0] == '+' {
        1
    } else {
        0
    };
    let ghost d = if s@.len() > 0 && s@[0] == '+' {
        s@.drop_first()
    } else {
        s@
    };
    assert(d =~= cs@.subrange(start as int, cs@.len() as int));
    if start >= cs.len() {
        return None;
    }
    let mut acc: u64 = 0;
    let mut i: usize = start;
    assert(d.subrange(0, 0) =~= Seq::<char>::empty());
    while i < cs.len()
        invariant
            cs@ == s@,
            d == (if s@.len() > 0 && s@[0] == '+' {
                s@.drop_first()
            } else {
                s@
            }),
            d.len() > 0,
            start <= i <= cs@.len(),
            d == cs@.subrange(start as int, cs@.len() as int),
            all_digits(d.subrange(0, i - start)),
            acc as int == digits_value(d.subrange(0, i - start)),
        decreases cs.len() - i,
    {
        let c = cs[i];
        let k = i - start;
        if c < '0' || c > '9' {
            assert(d[k as int] == c);
            assert(!all_digits(d));
            return None;
        }
        let digit = (c as u32 - '0' as u32) as u64;
        let ghost p = d.subrange(0, k + 1);
        assert(p.drop_last() =~= d.subrange(0, k as int));
        assert(p.last() == c);
        assert(all_digits(p)) by {
            assert forall|j: int| 0 <= j < p.len() implies '0' <= #[trigger] p[j] <= '9' by {
                if j < k {
                    assert(p[j] == d.subrange(0, k as int)[j]);
                }
            }
        }
        if acc > (u64::MAX - digit) / 10 {
            proof {
                assert(acc * 10 + digit > u64::MAX) by (nonlinear_arith)
                    requires
                        acc > (u64::MAX - digit) / 10,
                        digit <= 9,
                ;
                assert(digits_value(p) > u64::MAX);
                if all_digits(d) {
                    lemma_digits_value_grows(d, k + 1);
                }
            }
            return None;
        }
        acc = acc * 10 + digit;
        i = i + 1;
    }
    assert(d.subrange(0, i - start) =~= d);
    Some(acc)
}

/// The suspension, in milliseconds, that a rate-limit body calls for, given whether it
/// holds the ban marker, the capture after `until`, and the time now: the time left
/// until the announced end plus the margin, when that end parses and lies ahead.
pub open spec fn backoff_spec(has_marker: bool, capture: Option<Seq<char>>, now_ms: u64) -> Option<u64> {
    if !has_marker {
        None
    } else {
        match capture {
            None => None,
            Some(c) => match u64_text_of(c) {
                None => None,
                Some(until) => if until > now_ms {
                    let wait = until - now_ms + BAN_MARGIN_MS;
                    Some(if wait > u64::MAX { u64::MAX } else { wait as u64 })
                } else {
                    None
                },
            },
        }
    }
}

/// The suspension owed for a rate-limit body, from its parts: whether it holds the ban
/// marker, the capture after `until`, and the time now in milliseconds since the epoch.
pub fn backoff_from_capture(has_marker: bool, capture: Option<&str>, now_ms: u64) -> (r: Option<u64>)
    ensures
        r == backoff_spec(has_marker, match capture {
            Some(c) => Some(c@),
            None => None,
        }, now_ms),
{
    if !has_marker {
        return None;
    }
    match capture {
        None => None,
        Some(c) => match parse_u64_text(c) {
            None => None,
            Some(until) => {
                if until > now_ms {
                    Some((until - now_ms).saturating_add(BAN_MARGIN_MS))
                } else {
                    None
                }
            },
        },
    }
}

/// The suspension, in milliseconds, owed for the body of a 418 or 429 response seen at
/// `now_ms`: `None` when the fetch is simply to yield nothing at once.
pub fn rate_limit_backoff(body: &str, now_ms: u64) -> (r: Option<u64>)
    ensures
        r == backoff_spec(occurs_in(body@, BAN_MARKER@), until_capture_of(body@), now_ms),
{
    if !contains_text(body, BAN_MARKER) {
        return None;
    }
    match until_capture(body) {
        Some(c) => backoff_from_capture(true, Some(c.as_str()), now_ms),
        None => backoff_from_capture(true, None, now_ms),
    }
}

} // verus!
