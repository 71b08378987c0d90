//! Decisions of server discovery: the order in which the directory servers
//! announced by DNS SRV records are tried, the address each is reached at,
//! and what follows each attempt.
use vstd::prelude::*;
use vstd::string::StrSliceExecFns;
use itertools::Itertools;

verus! {

/// Why no bound session could be had.
#[derive(Debug, Clone, Copy, PartialEq, Eq, Structural)]
pub enum ConnectError {
    /// The DNS resolver could not be set up from the system configuration.
    DnsInitFailed,
    /// The SRV query for the directory service failed.
    SrvLookupFailed,
    /// Every announced server was tried and none could be used.
    NoServerAvailable,
    /// A server refused the GSSAPI bind.
    AuthFailed,
}

/// How one attempt on a server ended.
#[derive(Debug, Clone, Copy, PartialEq, Eq, Structural)]
pub enum AttemptOutcome {
    /// The TLS connection could not be opened.
    TransportFailed,
    /// The server's host name has no first label that is valid UTF-8.
    NoUsableLabel,
    /// The connection was opened and the bind was refused.
    BindFailed,
    /// The connection was opened and bound.
    Bound,
}

/// What to do after an attempt.
#[derive(Debug, Clone, Copy, PartialEq, Eq, Structural)]
pub enum Decision {
    /// Keep the session just bound.
    Connected,
    /// Go on with the next server in order.
    TryNext,
    /// Give up with this error.
    Fail(ConnectError),
}

/// `(priority, position)` pairs in lexicographic order, strictly.
pub open spec fn pair_lt(a: (u16, usize), b: (u16, usize)) -> bool {
    a.0 < b.0 || (a.0 == b.0 && a.1 < b.1)
}

/// Server `a` comes strictly before server `b`: a lower priority, or an equal
/// one and an earlier place in the DNS answer.
pub open spec fn tried_before(p: Seq<u16>, a: int, b: int) -> bool {
    p[a] < p[b] || (p[a] == p[b] && a < b)
}

/// Relies on itertools' `Itertools::sorted`: it collects the items and sorts
/// them ascending by `Ord` with `slice::sort`, so the result holds the same
/// items; for tuples the order is lexicographic, and distinct items come out
/// strictly ascending.
#[verifier::external_body]
fn sorted_pairs(v: Vec<(u16, usize)>) -> (r: Vec<(u16, usize)>)
    requires
        forall|i: int, j: int| 0 <= i < j < v@.len() ==> v@[i] != v@[j],
    ensures
        r@.len() == v@.len(),
        forall|x: (u16, usize)| r@.contains(x) <==> v@.contains(x),
        forall|i: int, j: int| 0 <= i < j < r@.len() ==> pair_lt(r@[i], r@[j]),
{
    v.into_iter().sorted().collect()
}

/// The order in which to try servers with these SRV priorities: positions
/// into `priorities`, each once, by ascending priority, ties kept in the
/// order of the answer.
pub fn connection_order(priorities: &[u16]) -> (r: Vec<usize>)
    ensures
        r@.len() == priorities@.len(),
        forall|i: int| 0 <= i < r@.len() ==> r@[i] < priorities@.len(),
        forall|k: usize| k < priorities@.len() ==> r@.contains(k),
        forall|i: int, j: int|
            0 <= i < j < r@.len() ==> tried_before(priorities@, r@[i] as int, r@[j] as int),
{
    let ghost p = priorities@;
    let n = priorities.len();
    let mut pairs: Vec<(u16, usize)> = Vec::new();
    let mut k: usize = 0;
    while k < n
        invariant
            n == p.len(),
            p == priorities@,
            k <= n,
            pairs@.len() == k,
            forall|j: int| 0 <= j < k ==> pairs@[j] == (p[j], j as usize),
        decreases n - k,
    {
        pairs.push((priorities[k], k));
        k = k + 1;
    }
    let ghost v = pairs@;
    let sorted = sorted_pairs(pairs);
    let ghost s = sorted@;
    assert forall|i: int| 0 <= i < s.len() implies s[i].1 < n && s[i].0 == p[s[i].1 as int] by {
        assert(s.contains(s[i]));
        assert(v.contains(s[i]));
    }
    let mut order: Vec<usize> = Vec::new();
    let mut i: usize = 0;
    while i < n
        invariant
            n == p.len(),
            s == sorted@,
            s.len() == n,
            i <= n,
            order@.len() == i,
            forall|j: int| 0 <= j < i ==> order@[j] == s[j].1,
            forall|j: int| 0 <= j < s.len() ==> s[j].1 < n && s[j].0 == p[s[j].1 as int],
        decreases n - i,
    {
        order.push(sorted[i].1);
        i = i + 1;
    }
    assert forall|q: usize| q < n implies order@.contains(q) by {
        assert(v[q as int] == (p[q as int], q));
        assert(v.contains(v[q as int]));
        assert(s.contains(v[q as int]));
        let j = choose|j: int| 0 <= j < s.len() && s[j] == v[q as int];
        assert(order@[j] == q);
    }
    assert forall|a: int, b: int| 0 <= a < b < order@.len() implies tried_before(
        p,
        order@[a] as int,
        order@[b] as int,
    ) by {
        assert(pair_lt(s[a], s[b]));
    }
    order
}

/// `host` without one trailing dot, if it has one.
pub open spec fn strip_root_dot(host: Seq<char>) -> Seq<char> {
    if host.len() > 0 && host.last() == '.' {
        host.drop_last()
    } else {
        host
    }
}

/// The LDAPS address of a server: `ldaps://<host>:636`, with the trailing dot
/// of a fully qualified name taken off.
pub open spec fn ldaps_url(target: Seq<char>) -> Seq<char> {
    "ldaps://"@ + strip_root_dot(target) + ":636"@
}

/// Builds the address a server announced as `target` is reached at.
pub fn server_url(target: &str) -> (r: String)
    ensures
        r@ == ldaps_url(target@),
{
    let len = target.unicode_len();
    let host = if len > 0 && target.get_char(len - 1) == '.' {
        target.substring_char(0, len - 1)
    } else {
        target
    };
    proof {
        assert(target@.subrange(0, len - 1) =~= target@.drop_last());
    }
    let mut url = String::from_str("ldaps://");
    url.append(host);
    url.append(":636");
    url
}

/// What follows an attempt when `remaining` servers are still untried: a bound
/// session ends the search, a refused bind ends it with `AuthFailed`, and any
/// other outcome moves on to the next server, or ends with
/// `NoServerAvailable` when none is left.
pub fn decide(outcome: AttemptOutcome, remaining: usize) -> (r: Decision)
    ensures
        r == match outcome {
            AttemptOutcome::Bound => Decision::Connected,
            AttemptOutcome::BindFailed => Decision::Fail(ConnectError::AuthFailed),
            _ => if remaining > 0 {
                Decision::TryNext
            } else {
                Decision::Fail(ConnectError::NoServerAvailable)
            },
        },
{
    match outcome {
        AttemptOutcome::Bound => Decision::Connected,
        AttemptOutcome::BindFailed => Decision::Fail(ConnectError::AuthFailed),
        _ => if remaining > 0 {
            Decision::TryNext
        } else {
            Decision::Fail(ConnectError::NoServerAvailable)
        },
    }
}

} // verus!
