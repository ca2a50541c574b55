//! The pure half of probe execution: turning a user-supplied target string
//! into the hostname that resolution will be asked for. The network work
//! itself (resolution and the ICMP round trip) is I/O and is performed by the
//! embedding program, which delivers each outcome as one `PingResult`.

use vstd::prelude::*;

verus! {

/// Bound in seconds on one ICMP round trip, enforced by the embedding
/// program's transport.
pub const PING_TIMEOUT_SECS: u64 = 5;

/// What `char::is_alphanumeric` returns: a function of the character alone.
pub uninterp spec fn char_is_alphanumeric(c: char) -> bool;

/// Relies on `char::is_alphanumeric` of std: whether the character is
/// Unicode-alphabetic or a numeric digit; it depends on the character alone.
pub assume_specification[ char::is_alphanumeric ](c: char) -> (r: bool)
    ensures
        r == char_is_alphanumeric(c),
;

/// Relies on `String::push` of std: appends exactly the given character.
pub assume_specification[ String::push ](s: &mut String, ch: char)
    ensures
        final(s)@ == old(s)@.push(ch),
;

/// Characters kept by hostname sanitizing: alphanumerics, dots and hyphens.
pub open spec fn keeps_host_char(c: char) -> bool {
    char_is_alphanumeric(c) || c == '.' || c == '-'
}

/// The sanitized form of `s` read from position `i` on: everything from the
/// first ':' is cut off, and of the rest only alphanumerics, dots and
/// hyphens are kept.
pub open spec fn sanitized_from(s: Seq<char>, i: int) -> Seq<char>
    decreases s.len() - i,
{
    if i < 0 || i >= s.len() {
        Seq::empty()
    } else if s[i] == ':' {
        Seq::empty()
    } else if keeps_host_char(s[i]) {
        seq![s[i]] + sanitized_from(s, i + 1)
    } else {
        sanitized_from(s, i + 1)
    }
}

/// The sanitized form of a whole target string.
pub open spec fn sanitized_hostname(s: Seq<char>) -> Seq<char> {
    sanitized_from(s, 0)
}

/// Sanitize a target string before hostname resolution: drop anything from
/// the first ':' on (a user may have written a `host:port` pair), keep only
/// alphanumeric characters, dots and hyphens, and reject the target when
/// nothing remains.
pub fn sanitize_hostname(hostname: &str) -> (r: Option<String>)
    ensures
        match r {
            Option::Some(s) => sanitized_hostname(hostname@).len() > 0 && s@ == sanitized_hostname(
                hostname@,
            ),
            Option::None => sanitized_hostname(hostname@).len() == 0,
        },
{
    let n = hostname.unicode_len();
    let mut out = String::new();
    let mut i: usize = 0;
    while i < n
        invariant_except_break
            n == hostname@.len(),
            0 <= i <= n,
            out@ + sanitized_from(hostname@, i as int) == sanitized_hostname(hostname@),
        ensures
            out@ == sanitized_hostname(hostname@),
        decreases n - i,
    {
        let c = hostname.get_char(i);
        if c == ':' {
            proof {
                assert(sanitized_from(hostname@, i as int) =~= Seq::<char>::empty());
                assert(out@ =~= out@ + sanitized_from(hostname@, i as int));
            }
            break;
        }
        if c.is_alphanumeric() || c == '.' || c == '-' {
            out.push(c);
            proof {
                assert(out@ + sanitized_from(hostname@, i + 1) =~= sanitized_hostname(hostname@));
            }
        }
        i = i + 1;
    }
    proof {
        if i == n {
            assert(out@ =~= out@ + sanitized_from(hostname@, n as int));
        }
    }
    if out.as_str().is_empty() {
        Option::None
    } else {
        Option::Some(out)
    }
}

/// Decides what hostname resolution is asked for; the asynchronous lookup
/// and the ICMP round trip themselves are run by the embedding program.
pub struct PingExecutor;

impl PingExecutor {
    /// The query string handed to hostname resolution: the sanitized host
    /// with the service port appended, as `host:80`.
    pub fn lookup_query(host: &str) -> (q: String)
        ensures
            q@ == host@ + ":80"@,
    {
        let mut q = host.to_owned();
        q.append(":80");
        q
    }

    /// The resolution query for a raw target string, when sanitizing leaves
    /// anything of it; `None` is a resolution failure.
    pub fn prepare_resolution(target: &str) -> (r: Option<String>)
        ensures
            match r {
                Option::Some(q) => sanitized_hostname(target@).len() > 0 && q@ == sanitized_hostname(
                    target@,
                ) + ":80"@,
                Option::None => sanitized_hostname(target@).len() == 0,
            },
    {
        match sanitize_hostname(target) {
            Option::Some(host) => Option::Some(Self::lookup_query(host.as_str())),
            Option::None => Option::None,
        }
    }
}

} // verus!
