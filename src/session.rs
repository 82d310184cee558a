//! Login sessions bound to the client address observed at login.

use vstd::prelude::*;
use crate::text::{remove_hyphens, same_text, without_hyphens};

verus! {

/// A login session. Timestamps are milliseconds since the Unix epoch.
pub struct Session {
    pub id: String,
    pub user_id: String,
    pub session_key: String,
    pub ip_address: Option<String>,
    pub user_agent: Option<String>,
    pub created_at: i64,
    pub last_accessed_at: i64,
}

/// What a user is shown of each of their sessions.
pub struct SessionInfo {
    pub id: String,
    pub ip_address: Option<String>,
    pub user_agent: Option<String>,
    pub last_accessed_at: i64,
}

pub open spec fn opt_view(o: Option<String>) -> Option<Seq<char>> {
    match o {
        Some(s) => Some(s@),
        None => None,
    }
}

fn clone_opt(o: &Option<String>) -> (r: Option<String>)
    ensures
        opt_view(r) == opt_view(*o),
{
    match o {
        Some(s) => Some(s.clone()),
        None => None,
    }
}

/// The session accepts requests from `ip`: it was created with an address,
/// and that address is `ip`.
pub open spec fn binds_ip(s: Session, ip: Seq<char>) -> bool {
    s.ip_address matches Some(a) && a@ == ip
}

/// The session that verification of `found` (the record the session key
/// led to, if any) from address `ip` yields.
pub open spec fn session_verdict(found: Option<Session>, ip: Seq<char>) -> Option<Session> {
    match found {
        Some(s) => if binds_ip(s, ip) {
            Some(s)
        } else {
            None
        },
        None => None,
    }
}

impl Session {
    /// A fresh session created at `now_ms`.
    pub fn new(
        id: String,
        user_id: String,
        session_key: String,
        ip_address: Option<String>,
        user_agent: Option<String>,
        now_ms: i64,
    ) -> (r: Session)
        ensures
            r == (Session {
                id,
                user_id,
                session_key,
                ip_address,
                user_agent,
                created_at: now_ms,
                last_accessed_at: now_ms,
            }),
    {
        Session {
            id,
            user_id,
            session_key,
            ip_address,
            user_agent,
            created_at: now_ms,
            last_accessed_at: now_ms,
        }
    }

    /// Records a use of the session at `now_ms`.
    pub fn touch(&mut self, now_ms: i64)
        ensures
            *final(self) == (Session { last_accessed_at: now_ms, ..*old(self) }),
    {
        self.last_accessed_at = now_ms;
    }

    /// Whether the session accepts requests from `ip`.
    pub fn ip_matches(&self, ip: &str) -> (r: bool)
        ensures
            r == binds_ip(*self, ip@),
    {
        match &self.ip_address {
            Some(a) => a.as_str().unicode_len() == ip.unicode_len() && same_text(a.as_str(), ip),
            None => false,
        }
    }

    /// What the user is shown of this session.
    pub fn info(&self) -> (r: SessionInfo)
        ensures
            r.id@ == self.id@,
            opt_view(r.ip_address) == opt_view(self.ip_address),
            opt_view(r.user_agent) == opt_view(self.user_agent),
            r.last_accessed_at == self.last_accessed_at,
    {
        SessionInfo {
            id: self.id.clone(),
            ip_address: clone_opt(&self.ip_address),
            user_agent: clone_opt(&self.user_agent),
            last_accessed_at: self.last_accessed_at,
        }
    }
}

/// Verifies the session that a session key led to (`found`, `None` when
/// the key matched nothing) against the address observed now. Exact match
/// only: a session created without an address never verifies.
pub fn verify_session(found: Option<Session>, observed_ip: &str) -> (r: Option<Session>)
    ensures
        r == session_verdict(found, observed_ip@),
{
    match found {
        Some(s) => {
            if s.ip_matches(observed_ip) {
                Some(s)
            } else {
                None
            }
        },
        None => None,
    }
}

/// A session created with address `ip` (or none) verifies exactly from
/// the address it was created with, and never when created without one.
pub proof fn lemma_session_ip_binding(s: Session, observed: Seq<char>)
    ensures
        session_verdict(Some(s), observed) is Some <==> (s.ip_address matches Some(a) && a@
            == observed),
        s.ip_address is None ==> session_verdict(Some(s), observed) is None,
        session_verdict(None, observed) is None,
{
}

/// What the user is shown of each session in `sessions`, in order.
pub fn session_infos(sessions: &Vec<Session>) -> (r: Vec<SessionInfo>)
    ensures
        r@.len() == sessions@.len(),
        forall|i: int|
            0 <= i < r@.len() ==> {
                &&& (#[trigger] r@[i]).id@ == sessions@[i].id@
                &&& opt_view(r@[i].ip_address) == opt_view(sessions@[i].ip_address)
                &&& opt_view(r@[i].user_agent) == opt_view(sessions@[i].user_agent)
                &&& r@[i].last_accessed_at == sessions@[i].last_accessed_at
            },
{
    let mut out: Vec<SessionInfo> = Vec::new();
    let mut i: usize = 0;
    while i < sessions.len()
        invariant
            0 <= i <= sessions@.len(),
            out@.len() == i,
            forall|k: int|
                0 <= k < i ==> {
                    &&& (#[trigger] out@[k]).id@ == sessions@[k].id@
                    &&& opt_view(out@[k].ip_address) == opt_view(sessions@[k].ip_address)
                    &&& opt_view(out@[k].user_agent) == opt_view(sessions@[k].user_agent)
                    &&& out@[k].last_accessed_at == sessions@[k].last_accessed_at
                },
        decreases sessions@.len() - i,
    {
        out.push(sessions[i].info());
        i = i + 1;
    }
    out
}

/// `i` is the position of the first session in `sessions` whose id is `id`.
pub open spec fn is_first_with_id(sessions: Seq<Session>, id: Seq<char>, i: int) -> bool {
    &&& 0 <= i < sessions.len()
    &&& sessions[i].id@ == id
    &&& forall|j: int| 0 <= j < i ==> sessions[j].id@ != id
}

/// Index of the first session in `sessions` whose id is `id`.
pub open spec fn first_with_id(sessions: Seq<Session>, id: Seq<char>) -> Option<int> {
    if exists|i: int| is_first_with_id(sessions, id, i) {
        Some(choose|i: int| is_first_with_id(sessions, id, i))
    } else {
        None
    }
}

/// The first of a user's sessions whose id is `id`, if any: the only
/// sessions a user may revoke are their own.
pub fn find_session_by_id(sessions: Vec<Session>, id: &str) -> (r: Option<Session>)
    ensures
        r is None <==> first_with_id(sessions@, id@) is None,
        r matches Some(s) ==> first_with_id(sessions@, id@) matches Some(i) && s
            == sessions@[i],
{
    let ghost all = sessions@;
    let mut rest = sessions;
    let mut i: usize = 0;
    let n = rest.len();
    while i < n
        invariant
            rest@ == all,
            all == sessions@,
            n == all.len(),
            0 <= i <= n,
            forall|j: int| 0 <= j < i ==> all[j].id@ != id@,
        decreases n - i,
    {
        if same_text(rest[i].id.as_str(), id) {
            proof {
                assert(is_first_with_id(all, id@, i as int));
                let k = choose|k: int| is_first_with_id(all, id@, k);
                if k < i {
                    assert(all[k].id@ != id@);
                } else if k > i {
                    assert(all[i as int].id@ != id@);
                }
            }
            let found = rest.swap_remove(i);
            assert(found == all[i as int]);
            assert(first_with_id(all, id@) == Some(i as int));
            return Some(found);
        }
        i = i + 1;
    }
    assert(!exists|k: int| is_first_with_id(all, id@, k)) by {
        if exists|k: int| is_first_with_id(all, id@, k) {
            let k = choose|k: int| is_first_with_id(all, id@, k);
            assert(all[k].id@ != id@);
        }
    }
    None
}

/// A lowercase hexadecimal digit.
pub open spec fn is_hex_digit(c: char) -> bool {
    ('0' <= c && c <= '9') || ('a' <= c && c <= 'f')
}

/// The hyphenated text form of a UUID: 32 lowercase hex digits in groups of
/// 8, 4, 4, 4 and 12, joined by `'-'`.
pub open spec fn is_uuid_text(s: Seq<char>) -> bool {
    &&& s.len() == 36
    &&& forall|i: int|
        0 <= i < 36 ==> if i == 8 || i == 13 || i == 18 || i == 23 {
            s[i] == '-'
        } else {
            is_hex_digit(#[trigger] s[i])
        }
}

/// Relies on `getrandom::fill` for 16 random bytes (which reports a failure
/// of the system source instead of panicking) and on
/// `uuid::Builder::from_random_bytes`, whose `Uuid` prints in hyphenated
/// lowercase form. Random, so nothing is named.
#[verifier::external_body]
fn random_uuid() -> (r: Option<String>)
    ensures
        r matches Some(t) ==> is_uuid_text(t@),
{
    let mut bytes = [0u8; 16];
    getrandom::fill(&mut bytes).ok()?;
    Some(uuid::Builder::from_random_bytes(bytes).into_uuid().to_string())
}

/// The session key made of two random parts around a unique part, with
/// the hyphens taken out.
pub fn compose_session_key(head: &str, unique: &str, tail: &str) -> (r: String)
    ensures
        r@ == without_hyphens(head@ + unique@ + tail@),
{
    let joined = String::from_str(head).concat(unique).concat(tail);
    remove_hyphens(joined.as_str())
}

/// A fresh, unguessable session key built around `unique` (a newly
/// generated identifier) and two random UUIDs; `None` when the system
/// source of randomness fails.
pub fn new_session_key(unique: &str) -> (r: Option<String>)
    ensures
        r matches Some(k) ==> exists|head: Seq<char>, tail: Seq<char>|
            is_uuid_text(head) && is_uuid_text(tail) && k@ == without_hyphens(head + unique@ + tail),
{
    let head = random_uuid()?;
    let tail = random_uuid()?;
    Some(compose_session_key(head.as_str(), unique, tail.as_str()))
}

/// The session a successful login opens: a fresh key built around
/// `unique`, bound to the address `ip` observed at login, created and last
/// used at `now_ms`; `None` when the system source of randomness fails.
/// The session verifies from `ip`, and from no other address.
pub fn open_session(
    id: String,
    user_id: String,
    unique: &str,
    ip: String,
    user_agent: Option<String>,
    now_ms: i64,
) -> (r: Option<Session>)
    ensures
        r matches Some(s) ==> {
            &&& s.id == id
            &&& s.user_id == user_id
            &&& s.ip_address == Some(ip)
            &&& s.user_agent == user_agent
            &&& s.created_at == now_ms
            &&& s.last_accessed_at == now_ms
            &&& exists|head: Seq<char>, tail: Seq<char>|
                is_uuid_text(head) && is_uuid_text(tail) && s.session_key@ == without_hyphens(
                    head + unique@ + tail,
                )
            &&& session_verdict(Some(s), ip@) == Some(s)
            &&& forall|other: Seq<char>| other != ip@ ==> session_verdict(Some(s), other) is None
        },
{
    let key = new_session_key(unique)?;
    Some(Session::new(id, user_id, key, Some(ip), user_agent, now_ms))
}

} // verus!
