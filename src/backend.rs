//! How the probe reads the backend's answers: which ones count as success,
//! and which failures mean the credentials were refused.

use vstd::prelude::*;
use vstd::std_specs::iter::IteratorSpec;
use crate::wire::HeartbeatResponse;

verus! {

/// A failed backend call.
#[derive(Debug, Clone, Copy, PartialEq, Eq, Structural)]
pub enum BackendError {
    /// The backend refused the credentials; retrying with them cannot help.
    Unauthorized,
    /// Any other non-success HTTP status.
    Status(u16),
    /// The request did not complete (connection, timeout).
    Transport,
    /// The body could not be read as the expected value.
    Decode,
    /// The backend answered but reported `success = false`.
    Rejected,
}

impl BackendError {
    pub fn is_unauthorized(&self) -> (r: bool)
        ensures
            r == (*self is Unauthorized),
    {
        match self {
            BackendError::Unauthorized => true,
            _ => false,
        }
    }
}

/// `p` occurs in `s` as a contiguous run of characters.
pub open spec fn occurs_in(p: Seq<char>, s: Seq<char>) -> bool {
    exists|i: int| 0 <= i && i + p.len() <= s.len() && #[trigger] s.subrange(i, i + p.len()) == p
}

/// The characters of a string, in order.
pub fn chars_of(s: &str) -> (r: Vec<char>)
    ensures
        r@ == s@,
{
    let mut it = s.chars();
    let mut out: Vec<char> = Vec::new();
    loop
        invariant
            out@ + it.remaining() == s@,
            it.decrease() is Some,
        ensures
            out@ == s@,
        decreases it.decrease()->0,
    {
        match it.next() {
            Some(c) => {
                out.push(c);
            },
            None => {
                assert(out@ + it.remaining() =~= out@);
                break;
            },
        }
    }
    out
}

/// Whether `p` occurs at position `at` of `s`.
fn occurs_at(p: &Vec<char>, s: &Vec<char>, at: usize) -> (r: bool)
    requires
        at + p@.len() <= s@.len(),
    ensures
        r == (s@.subrange(at as int, at + p@.len()) == p@),
{
    let n = s.len();
    let mut k: usize = 0;
    while k < p.len()
        invariant
            n == s@.len(),
            at + p@.len() <= s@.len(),
            k <= p@.len(),
            forall|j: int| 0 <= j < k ==> s@[at + j] == p@[j],
        decreases p@.len() - k,
    {
        if s[at + k] != p[k] {
            assert(s@.subrange(at as int, at + p@.len())[k as int] != p@[k as int]);
            return false;
        }
        k = k + 1;
    }
    assert(s@.subrange(at as int, at + p@.len()) =~= p@);
    true
}

/// Whether `pattern` occurs in `text`.
pub fn contains_text(text: &str, pattern: &str) -> (r: bool)
    ensures
        r == occurs_in(pattern@, text@),
{
    let s = chars_of(text);
    let p = chars_of(pattern);
    if p.len() > s.len() {
        return false;
    }
    let last = s.len() - p.len();
    let mut at: usize = 0;
    while at <= last
        invariant
            s@ == text@,
            p@ == pattern@,
            last == s@.len() - p@.len(),
            at <= last + 1,
            forall|i: int| 0 <= i < at ==> #[trigger] s@.subrange(i, i + p@.len()) != p@,
        decreases last + 1 - at,
    {
        if occurs_at(&p, &s, at) {
            return true;
        }
        if at == last {
            return false;
        }
        at = at + 1;
    }
    false
}

/// Whether a failure text signals refused credentials: it mentions `401` or
/// `Unauthorized`.
pub fn signals_unauthorized(text: &str) -> (r: bool)
    ensures
        r == (occurs_in("401"@, text@) || occurs_in("Unauthorized"@, text@)),
{
    contains_text(text, "401") || contains_text(text, "Unauthorized")
}

/// The error for an HTTP answer: a 2xx status is success; 401, or a body that
/// signals refused credentials, is `Unauthorized`; any other status is kept.
pub fn classify_status(code: u16, body: &str) -> (r: Result<(), BackendError>)
    ensures
        200 <= code < 300 ==> r is Ok,
        !(200 <= code < 300) ==> r == if code == 401 || occurs_in("401"@, body@) || occurs_in(
            "Unauthorized"@,
            body@,
        ) {
            Err::<(), BackendError>(BackendError::Unauthorized)
        } else {
            Err(BackendError::Status(code))
        },
{
    if 200 <= code && code < 300 {
        Ok(())
    } else if code == 401 || signals_unauthorized(body) {
        Err(BackendError::Unauthorized)
    } else {
        Err(BackendError::Status(code))
    }
}

/// A heartbeat answer counts only when the backend says it succeeded.
pub fn check_heartbeat(resp: &HeartbeatResponse) -> (r: Result<(), BackendError>)
    ensures
        r == if resp.success {
            Ok::<(), BackendError>(())
        } else {
            Err(BackendError::Rejected)
        },
{
    if resp.success {
        Ok(())
    } else {
        Err(BackendError::Rejected)
    }
}

} // verus!
