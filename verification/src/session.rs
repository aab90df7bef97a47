//! The table of live VPN sessions, keyed by session id.
//!
//! The table behaves as a map from an id to its session; `view` gives that map.
//! Times are nanoseconds since the Unix epoch, durations are nanoseconds.
use crate::crypto::{CryptoError, CryptoSession};
use crate::primitives::{
    is_uuid_v4_text, new_uuid_v4_text, unix_clock_reading, AES256_KEY_BYTES, MAX_DURATION_NANOS,
};
use vstd::prelude::*;

verus! {

/// What the server tells about a connected client.
#[derive(Debug, PartialEq, Eq)]
pub struct ClientInfo {
    pub id: String,
    pub ip: String,
    /// When the session was created, in nanoseconds since the Unix epoch
    /// (negative before it).
    pub connected_at: i128,
    pub bytes_sent: u64,
    pub bytes_received: u64,
}

impl Clone for ClientInfo {
    fn clone(&self) -> (r: Self)
        ensures
            r == *self,
    {
        ClientInfo {
            id: self.id.clone(),
            ip: self.ip.clone(),
            connected_at: self.connected_at,
            bytes_sent: self.bytes_sent,
            bytes_received: self.bytes_received,
        }
    }
}

/// A live session: its id, what is known of the client, the session's
/// encryption state and the handle `W` of the client's connection.
pub struct VpnSession<W> {
    pub id: String,
    pub client_info: ClientInfo,
    pub crypto: CryptoSession,
    pub ws: W,
}

/// The time elapsed from `since` to `now`; zero when `since` lies in the future.
pub open spec fn elapsed(now: i128, since: i128) -> int {
    if now >= since {
        now - since
    } else {
        0
    }
}

/// Whether a client connected at `info.connected_at` is younger than `timeout`.
pub open spec fn is_active(info: ClientInfo, now: i128, timeout: u128) -> bool {
    elapsed(now, info.connected_at) < timeout
}

/// The sessions of `m` that are still active at `now`.
pub open spec fn keep_active<W>(m: Map<Seq<char>, VpnSession<W>>, now: i128, timeout: u128) -> Map<
    Seq<char>,
    VpnSession<W>,
> {
    Map::new(
        |k: Seq<char>| m.contains_key(k) && is_active(m[k].client_info, now, timeout),
        |k: Seq<char>| m[k],
    )
}

/// Cleaning up twice, at the same time and with the same timeout, leaves what
/// cleaning up once leaves.
pub proof fn lemma_cleanup_idempotent<W>(m: Map<Seq<char>, VpnSession<W>>, now: i128, timeout: u128)
    ensures
        keep_active(keep_active(m, now, timeout), now, timeout) == keep_active(m, now, timeout),
{
    assert(keep_active(keep_active(m, now, timeout), now, timeout) =~= keep_active(m, now, timeout));
}

/// With a zero timeout no session is active, so cleaning up empties the table.
pub proof fn lemma_cleanup_zero_timeout<W>(m: Map<Seq<char>, VpnSession<W>>, now: i128)
    ensures
        keep_active(m, now, 0) == Map::<Seq<char>, VpnSession<W>>::empty(),
{
    assert(keep_active(m, now, 0) =~= Map::<Seq<char>, VpnSession<W>>::empty());
}

/// Every session is stored under its own id, which is also its client's id.
pub open spec fn keys_match<W>(m: Map<Seq<char>, VpnSession<W>>) -> bool {
    forall|k: Seq<char>|
        #[trigger] m.contains_key(k) ==> m[k].id@ == k && m[k].client_info.id@ == k
}

/// The map that a list of sessions stands for: each session under its id, a
/// later entry winning over an earlier one.
pub open spec fn session_table<W>(s: Seq<VpnSession<W>>) -> Map<Seq<char>, VpnSession<W>>
    decreases s.len(),
{
    if s.len() == 0 {
        Map::empty()
    } else {
        session_table(s.drop_last()).insert(s.last().id@, s.last())
    }
}

/// No two sessions of the list share an id.
pub open spec fn ids_distinct<W>(s: Seq<VpnSession<W>>) -> bool {
    forall|i: int, j: int| 0 <= i < j < s.len() ==> #[trigger] s[i].id@ != #[trigger] s[j].id@
}

/// Each session of the list carries its own id in its client info.
pub open spec fn ids_consistent<W>(s: Seq<VpnSession<W>>) -> bool {
    forall|i: int| 0 <= i < s.len() ==> #[trigger] s[i].id@ == s[i].client_info.id@
}

/// The sessions of the list that are still active at `now`.
pub open spec fn active_filter<W>(now: i128, timeout: u128) -> spec_fn(VpnSession<W>) -> bool {
    |s: VpnSession<W>| is_active(s.client_info, now, timeout)
}

proof fn lemma_drop_last_distinct<W>(s: Seq<VpnSession<W>>)
    requires
        ids_distinct(s),
        s.len() > 0,
    ensures
        ids_distinct(s.drop_last()),
{
    let t = s.drop_last();
    assert forall|a: int, b: int| 0 <= a < b < t.len() implies #[trigger] t[a].id@
        != #[trigger] t[b].id@ by {
        assert(s[a].id@ != s[b].id@);
    }
}

proof fn lemma_table_domain<W>(s: Seq<VpnSession<W>>, k: Seq<char>)
    ensures
        session_table(s).contains_key(k) <==> exists|i: int| 0 <= i < s.len() && #[trigger] s[i].id@ == k,
        session_table(s).dom().finite(),
    decreases s.len(),
{
    if s.len() > 0 {
        let t = s.drop_last();
        lemma_table_domain(t, k);
        if session_table(s).contains_key(k) {
            if k == s.last().id@ {
                assert(s[s.len() - 1].id@ == k);
            } else {
                let i = choose|i: int| 0 <= i < t.len() && #[trigger] t[i].id@ == k;
                assert(s[i].id@ == k);
            }
        }
        if exists|i: int| 0 <= i < s.len() && #[trigger] s[i].id@ == k {
            let i = choose|i: int| 0 <= i < s.len() && #[trigger] s[i].id@ == k;
            if i < s.len() - 1 {
                assert(t[i].id@ == k);
            }
        }
    }
}

proof fn lemma_table_value<W>(s: Seq<VpnSession<W>>, i: int)
    requires
        ids_distinct(s),
        0 <= i < s.len(),
    ensures
        session_table(s).contains_key(s[i].id@),
        session_table(s)[s[i].id@] == s[i],
    decreases s.len(),
{
    let t = s.drop_last();
    if i < s.len() - 1 {
        lemma_drop_last_distinct(s);
        assert(s[i].id@ != s[s.len() - 1].id@);
        assert(t[i] == s[i]);
        lemma_table_value(t, i);
    }
}

proof fn lemma_table_len<W>(s: Seq<VpnSession<W>>)
    requires
        ids_distinct(s),
    ensures
        session_table(s).dom().len() == s.len(),
    decreases s.len(),
{
    if s.len() > 0 {
        let t = s.drop_last();
        lemma_drop_last_distinct(s);
        lemma_table_len(t);
        lemma_table_domain(t, s.last().id@);
        if session_table(t).contains_key(s.last().id@) {
            let i = choose|i: int| 0 <= i < t.len() && #[trigger] t[i].id@ == s.last().id@;
            assert(s[i].id@ == s[s.len() - 1].id@);
        }
    }
}

proof fn lemma_keys_match<W>(s: Seq<VpnSession<W>>)
    requires
        ids_distinct(s),
        ids_consistent(s),
    ensures
        keys_match(session_table(s)),
{
    assert forall|k: Seq<char>| #[trigger] session_table(s).contains_key(k) implies session_table(
        s,
    )[k].id@ == k && session_table(s)[k].client_info.id@ == k by {
        lemma_table_domain(s, k);
        let i = choose|i: int| 0 <= i < s.len() && #[trigger] s[i].id@ == k;
        lemma_table_value(s, i);
    }
}

proof fn lemma_table_update<W>(s: Seq<VpnSession<W>>, i: int, x: VpnSession<W>)
    requires
        ids_distinct(s),
        0 <= i < s.len(),
        s[i].id@ == x.id@,
    ensures
        ids_distinct(s.update(i, x)),
        session_table(s.update(i, x)) =~= session_table(s).insert(x.id@, x),
{
    let u = s.update(i, x);
    assert(ids_distinct(u)) by {
        assert forall|a: int, b: int| 0 <= a < b < u.len() implies #[trigger] u[a].id@
            != #[trigger] u[b].id@ by {
            assert(s[a].id@ != s[b].id@);
        }
    }
    assert forall|k: Seq<char>| #[trigger] session_table(u).contains_key(k) <==> session_table(
        s,
    ).insert(x.id@, x).contains_key(k) by {
        lemma_table_domain(u, k);
        lemma_table_domain(s, k);
        if exists|j: int| 0 <= j < u.len() && #[trigger] u[j].id@ == k {
            let j = choose|j: int| 0 <= j < u.len() && #[trigger] u[j].id@ == k;
            if j != i {
                assert(s[j].id@ == k);
            }
        }
        if exists|j: int| 0 <= j < s.len() && #[trigger] s[j].id@ == k {
            let j = choose|j: int| 0 <= j < s.len() && #[trigger] s[j].id@ == k;
            assert(u[j].id@ == k);
        }
        if k == x.id@ {
            assert(u[i].id@ == k);
        }
    }
    assert forall|k: Seq<char>| #[trigger] session_table(u).contains_key(k) implies session_table(
        u,
    )[k] == session_table(s).insert(x.id@, x)[k] by {
        lemma_table_domain(u, k);
        let j = choose|j: int| 0 <= j < u.len() && #[trigger] u[j].id@ == k;
        lemma_table_value(u, j);
        if j != i {
            lemma_table_value(s, j);
        }
    }
}

proof fn lemma_table_remove<W>(s: Seq<VpnSession<W>>, i: int)
    requires
        ids_distinct(s),
        0 <= i < s.len(),
    ensures
        ids_distinct(s.remove(i)),
        session_table(s.remove(i)) =~= session_table(s).remove(s[i].id@),
{
    let u = s.remove(i);
    assert(ids_distinct(u)) by {
        assert forall|a: int, b: int| 0 <= a < b < u.len() implies #[trigger] u[a].id@
            != #[trigger] u[b].id@ by {
            if a < i && b < i {
                assert(s[a].id@ != s[b].id@);
            } else if a < i {
                assert(s[a].id@ != s[b + 1].id@);
            } else {
                assert(s[a + 1].id@ != s[b + 1].id@);
            }
        }
    }
    assert forall|k: Seq<char>| #[trigger] session_table(u).contains_key(k) <==> session_table(
        s,
    ).remove(s[i].id@).contains_key(k) by {
        lemma_table_domain(u, k);
        lemma_table_domain(s, k);
        if exists|j: int| 0 <= j < u.len() && #[trigger] u[j].id@ == k {
            let j = choose|j: int| 0 <= j < u.len() && #[trigger] u[j].id@ == k;
            if j < i {
                assert(s[j].id@ == k);
                assert(s[j].id@ != s[i].id@);
            } else {
                assert(s[j + 1].id@ == k);
                assert(s[i].id@ != s[j + 1].id@);
            }
        }
        if k != s[i].id@ && exists|j: int| 0 <= j < s.len() && #[trigger] s[j].id@ == k {
            let j = choose|j: int| 0 <= j < s.len() && #[trigger] s[j].id@ == k;
            if j < i {
                assert(u[j].id@ == k);
            } else {
                assert(j != i);
                assert(u[j - 1].id@ == k);
            }
        }
    }
    assert forall|k: Seq<char>| #[trigger] session_table(u).contains_key(k) implies session_table(
        u,
    )[k] == session_table(s).remove(s[i].id@)[k] by {
        lemma_table_domain(u, k);
        let j = choose|j: int| 0 <= j < u.len() && #[trigger] u[j].id@ == k;
        lemma_table_value(u, j);
        if j < i {
            lemma_table_value(s, j);
        } else {
            lemma_table_value(s, j + 1);
        }
    }
}

proof fn lemma_filter_keeps_ids<W>(s: Seq<VpnSession<W>>, p: spec_fn(VpnSession<W>) -> bool)
    requires
        ids_distinct(s),
        ids_consistent(s),
    ensures
        ids_distinct(s.filter(p)),
        ids_consistent(s.filter(p)),
        forall|j: int|
            0 <= j < s.filter(p).len() ==> exists|i: int|
                0 <= i < s.len() && #[trigger] s[i] == #[trigger] s.filter(p)[j],
    decreases s.len(),
{
    reveal_with_fuel(Seq::<_>::filter, 1);
    if s.len() > 0 {
        let t = s.drop_last();
        lemma_drop_last_distinct(s);
        lemma_filter_keeps_ids(t, p);
        let f = t.filter(p);
        if p(s.last()) {
            let g = f.push(s.last());
            assert(s.filter(p) == g);
            assert forall|a: int, b: int| 0 <= a < b < g.len() implies #[trigger] g[a].id@
                != #[trigger] g[b].id@ by {
                if b == g.len() - 1 {
                    let i = choose|i: int| 0 <= i < t.len() && #[trigger] t[i] == #[trigger] f[a];
                    assert(s[i].id@ != s[s.len() - 1].id@);
                } else {
                    assert(f[a].id@ != f[b].id@);
                }
            }
            assert forall|j: int| 0 <= j < g.len() implies exists|i: int|
                0 <= i < s.len() && #[trigger] s[i] == #[trigger] g[j] by {
                if j == g.len() - 1 {
                    assert(s[s.len() - 1] == g[j]);
                } else {
                    let i = choose|i: int| 0 <= i < t.len() && #[trigger] t[i] == #[trigger] f[j];
                    assert(s[i] == g[j]);
                }
            }
            assert forall|j: int| 0 <= j < g.len() implies #[trigger] g[j].id@
                == g[j].client_info.id@ by {
                if j < g.len() - 1 {
                    assert(f[j].id@ == f[j].client_info.id@);
                }
            }
        } else {
            assert(s.filter(p) == f);
            assert forall|j: int| 0 <= j < f.len() implies exists|i: int|
                0 <= i < s.len() && #[trigger] s[i] == #[trigger] f[j] by {
                let i = choose|i: int| 0 <= i < t.len() && #[trigger] t[i] == #[trigger] f[j];
                assert(s[i] == f[j]);
            }
        }
    }
}

proof fn lemma_table_filter<W>(s: Seq<VpnSession<W>>, now: i128, timeout: u128)
    requires
        ids_distinct(s),
        ids_consistent(s),
    ensures
        session_table(s.filter(active_filter(now, timeout))) =~= keep_active(
            session_table(s),
            now,
            timeout,
        ),
    decreases s.len(),
{
    reveal_with_fuel(Seq::<_>::filter, 1);
    let p = active_filter::<W>(now, timeout);
    if s.len() == 0 {
        assert(s.filter(p) == s);
    } else {
        let t = s.drop_last();
        let x = s.last();
        lemma_drop_last_distinct(s);
        assert(ids_consistent(t)) by {
            assert forall|a: int| 0 <= a < t.len() implies #[trigger] t[a].id@
                == t[a].client_info.id@ by {
                assert(s[a].id@ == s[a].client_info.id@);
            }
        }
        lemma_table_filter(t, now, timeout);
        lemma_table_domain(t, x.id@);
        if session_table(t).contains_key(x.id@) {
            let i = choose|i: int| 0 <= i < t.len() && #[trigger] t[i].id@ == x.id@;
            assert(s[i].id@ == s[s.len() - 1].id@);
        }
        let lhs = session_table(s.filter(p));
        let rhs = keep_active(session_table(s), now, timeout);
        let prev = keep_active(session_table(t), now, timeout);
        if p(x) {
            assert(s.filter(p) == t.filter(p).push(x));
            assert(t.filter(p).push(x).drop_last() =~= t.filter(p));
            assert(lhs =~= prev.insert(x.id@, x));
        } else {
            assert(s.filter(p) == t.filter(p));
            assert(lhs =~= prev);
        }
        assert forall|k: Seq<char>| #[trigger] lhs.contains_key(k) <==> rhs.contains_key(k) by {
            if k == x.id@ {
            } else {
                assert(session_table(s)[k] == session_table(t)[k]);
            }
        }
        assert forall|k: Seq<char>| #[trigger] lhs.contains_key(k) implies lhs[k] == rhs[k] by {
            if k != x.id@ {
                assert(session_table(s)[k] == session_table(t)[k]);
            }
        }
    }
}

/// Finds the position of the session with id `key`.
fn find_session<W>(sessions: &Vec<VpnSession<W>>, key: &String) -> (r: Option<usize>)
    ensures
        r matches Some(i) ==> i < sessions@.len() && sessions@[i as int].id@ == key@,
        r is None ==> forall|i: int| 0 <= i < sessions@.len() ==> #[trigger] sessions@[i].id@ != key@,
{
    let mut i: usize = 0;
    while i < sessions.len()
        invariant
            i <= sessions@.len(),
            forall|j: int| 0 <= j < i ==> #[trigger] sessions@[j].id@ != key@,
        decreases sessions@.len() - i,
    {
        if sessions[i].id == *key {
            return Some(i);
        }
        i = i + 1;
    }
    None
}

/// Whether a client connected at `info.connected_at` is younger than `timeout`
/// at `now`.
pub fn session_is_active(info: &ClientInfo, now: i128, timeout: u128) -> (r: bool)
    ensures
        r == is_active(*info, now, timeout),
{
    let since = info.connected_at;
    if now < since {
        return 0 < timeout;
    }
    let elapsed: u128 = if since >= 0 || now < 0 {
        (now - since) as u128
    } else {
        (now as u128) + ((-(since + 1)) as u128 + 1)
    };
    elapsed < timeout
}

/// A clock reading, before or after the Unix epoch by `magnitude`
/// nanoseconds, as signed nanoseconds since the epoch.
pub fn signed_nanos(before_epoch: bool, magnitude: u128) -> (t: i128)
    requires
        magnitude <= MAX_DURATION_NANOS,
    ensures
        t == (if before_epoch {
            -magnitude
        } else {
            magnitude as int
        }),
{
    if before_epoch {
        -(magnitude as i128)
    } else {
        magnitude as i128
    }
}

/// The system clock in nanoseconds since the Unix epoch, negative before it.
pub fn current_time_nanos() -> (t: i128)
    ensures
        -MAX_DURATION_NANOS <= t <= MAX_DURATION_NANOS,
{
    let (before_epoch, magnitude) = unix_clock_reading();
    signed_nanos(before_epoch, magnitude)
}

/// The live sessions, each under its id.
///
/// They are held in a `Vec` whose ids are distinct rather than in a std
/// `HashMap` keyed by `String`: vstd's `HashMap` specification applies only to
/// key types for which `obeys_key_model` holds, which it grants to integers,
/// `bool` and boxes of them, not to `String`.
pub struct SessionManager<W> {
    sessions: Vec<VpnSession<W>>,
}

impl<W> View for SessionManager<W> {
    type V = Map<Seq<char>, VpnSession<W>>;

    closed spec fn view(&self) -> Map<Seq<char>, VpnSession<W>> {
        session_table(self.sessions@)
    }
}

impl<W> SessionManager<W> {
    #[verifier::type_invariant]
    spec fn well_formed(self) -> bool {
        ids_distinct(self.sessions@) && ids_consistent(self.sessions@)
    }

    /// An empty table.
    pub fn new() -> (r: Self)
        ensures
            r@ == Map::<Seq<char>, VpnSession<W>>::empty(),
            r@.dom().finite(),
    {
        SessionManager { sessions: Vec::new() }
    }

    /// Stores `session` under its id, replacing a session with the same id.
    fn insert_session(&mut self, session: VpnSession<W>)
        requires
            session.id@ == session.client_info.id@,
        ensures
            final(self)@ == old(self)@.insert(session.id@, session),
            keys_match(final(self)@),
            final(self)@.dom().finite(),
    {
        proof {
            use_type_invariant(&*self);
        }
        let ghost key = session.id@;
        let ghost inserted = session;
        let mut sessions: Vec<VpnSession<W>> = Vec::new();
        std::mem::swap(&mut sessions, &mut self.sessions);
        let ghost before = sessions@;
        match find_session(&sessions, &session.id) {
            Some(i) => {
                sessions.set(i, session);
                proof {
                    lemma_table_update(before, i as int, inserted);
                    assert(sessions@ == before.update(i as int, inserted));
                    assert forall|a: int| 0 <= a < sessions@.len() implies #[trigger] sessions@[a].id@
                        == sessions@[a].client_info.id@ by {
                        if a != i {
                            assert(before[a].id@ == before[a].client_info.id@);
                        }
                    }
                }
            },
            None => {
                sessions.push(session);
                proof {
                    assert(sessions@.drop_last() == before);
                    assert forall|a: int, b: int| 0 <= a < b < sessions@.len() implies #[trigger] sessions@[a].id@
                        != #[trigger] sessions@[b].id@ by {
                        if b < before.len() {
                            assert(before[a].id@ != before[b].id@);
                        } else {
                            assert(before[a].id@ != key);
                        }
                    }
                    assert forall|a: int| 0 <= a < sessions@.len() implies #[trigger] sessions@[a].id@
                        == sessions@[a].client_info.id@ by {
                        if a < before.len() {
                            assert(before[a].id@ == before[a].client_info.id@);
                        }
                    }
                }
            },
        }
        proof {
            lemma_keys_match(sessions@);
            lemma_table_domain(sessions@, Seq::empty());
        }
        self.sessions = sessions;
    }

    /// Opens a session for a client at `ip` keyed by `shared_key`, under a
    /// fresh random version-4 UUID, stamped with the current time; returns the id.
    pub fn create_session(&mut self, ip: String, shared_key: Vec<u8>, ws: W) -> (r: Result<
        String,
        CryptoError,
    >)
        requires
            shared_key@.len() == AES256_KEY_BYTES,
        ensures
            r is Ok,
            r matches Ok(id) ==> {
                &&& is_uuid_v4_text(id@)
                &&& final(self)@.contains_key(id@)
                &&& final(self)@.remove(id@) == old(self)@.remove(id@)
                &&& final(self)@[id@].id == id
                &&& final(self)@[id@].client_info == ClientInfo {
                    id: id,
                    ip: ip,
                    connected_at: final(self)@[id@].client_info.connected_at,
                    bytes_sent: 0,
                    bytes_received: 0,
                }
                &&& -MAX_DURATION_NANOS <= final(self)@[id@].client_info.connected_at
                    <= MAX_DURATION_NANOS
                &&& final(self)@[id@].crypto.key() == shared_key@
                &&& final(self)@[id@].crypto.counter() == 0
                &&& final(self)@[id@].ws == ws
            },
            keys_match(final(self)@),
            final(self)@.dom().finite(),
    {
        let now = current_time_nanos();
        self.create_session_at(ip, shared_key, ws, now)
    }

    /// Opens a session for a client at `ip` keyed by `shared_key`, under a
    /// fresh random version-4 UUID, created at `now`; returns the id.
    pub fn create_session_at(&mut self, ip: String, shared_key: Vec<u8>, ws: W, now: i128) -> (r: Result<
        String,
        CryptoError,
    >)
        requires
            shared_key@.len() == AES256_KEY_BYTES,
        ensures
            r is Ok,
            r matches Ok(id) ==> {
                &&& is_uuid_v4_text(id@)
                &&& final(self)@.contains_key(id@)
                &&& final(self)@.remove(id@) == old(self)@.remove(id@)
                &&& final(self)@[id@].id == id
                &&& final(self)@[id@].client_info == ClientInfo {
                    id: id,
                    ip: ip,
                    connected_at: now,
                    bytes_sent: 0,
                    bytes_received: 0,
                }
                &&& final(self)@[id@].crypto.key() == shared_key@
                &&& final(self)@[id@].crypto.counter() == 0
                &&& final(self)@[id@].ws == ws
            },
            keys_match(final(self)@),
            final(self)@.dom().finite(),
    {
        let id = new_uuid_v4_text();
        let client_info = ClientInfo {
            id: id.clone(),
            ip,
            connected_at: now,
            bytes_sent: 0,
            bytes_received: 0,
        };
        let crypto = match CryptoSession::new(shared_key) {
            Ok(crypto) => crypto,
            Err(e) => {
                return Err(e);
            },
        };
        let session = VpnSession { id: id.clone(), client_info, crypto, ws };
        self.insert_session(session);
        proof {
            assert(old(self)@.insert(id@, session).remove(id@) =~= old(self)@.remove(id@));
        }
        Ok(id)
    }

    /// Takes the session with id `id` out of the table.
    pub fn get_session(&mut self, id: &str) -> (r: Option<VpnSession<W>>)
        ensures
            r == (if old(self)@.contains_key(id@) {
                Some(old(self)@[id@])
            } else {
                None
            }),
            final(self)@ == old(self)@.remove(id@),
            keys_match(final(self)@),
            final(self)@.dom().finite(),
    {
        proof {
            use_type_invariant(&*self);
        }
        let key = id.to_owned();
        let mut sessions: Vec<VpnSession<W>> = Vec::new();
        std::mem::swap(&mut sessions, &mut self.sessions);
        let ghost before = sessions@;
        let r = match find_session(&sessions, &key) {
            Some(i) => {
                let s = sessions.remove(i);
                proof {
                    lemma_table_value(before, i as int);
                    lemma_table_remove(before, i as int);
                    assert forall|a: int| 0 <= a < sessions@.len() implies #[trigger] sessions@[a].id@
                        == sessions@[a].client_info.id@ by {
                        if a < i {
                            assert(before[a].id@ == before[a].client_info.id@);
                        } else {
                            assert(before[a + 1].id@ == before[a + 1].client_info.id@);
                        }
                    }
                }
                Some(s)
            },
            None => {
                proof {
                    lemma_table_domain(before, id@);
                    assert(session_table(before).remove(id@) =~= session_table(before));
                }
                None
            },
        };
        proof {
            lemma_keys_match(sessions@);
            lemma_table_domain(sessions@, Seq::empty());
        }
        self.sessions = sessions;
        r
    }

    /// Drops the session with id `id`, if there is one.
    pub fn remove_session(&mut self, id: &str)
        ensures
            final(self)@ == old(self)@.remove(id@),
            keys_match(final(self)@),
            final(self)@.dom().finite(),
    {
        let _ = self.get_session(id);
    }

    /// The client information of every session, each once, in no promised order.
    pub fn list_sessions(&self) -> (r: Vec<ClientInfo>)
        ensures
            self@.dom().finite(),
            r@.len() == self@.dom().len(),
            forall|i: int|
                0 <= i < r@.len() ==> #[trigger] self@.contains_key(r@[i].id@) && self@[r@[i].id@].client_info
                    == r@[i],
            forall|k: Seq<char>| #[trigger]
                self@.contains_key(k) ==> exists|i: int| 0 <= i < r@.len() && #[trigger] r@[i].id@ == k,
            forall|i: int, j: int| 0 <= i < j < r@.len() ==> #[trigger] r@[i].id@ != #[trigger] r@[j].id@,
    {
        proof {
            use_type_invariant(self);
            lemma_table_len(self.sessions@);
            lemma_table_domain(self.sessions@, Seq::empty());
        }
        let mut r: Vec<ClientInfo> = Vec::new();
        let mut i: usize = 0;
        while i < self.sessions.len()
            invariant
                i <= self.sessions@.len(),
                r@.len() == i,
                ids_distinct(self.sessions@),
                ids_consistent(self.sessions@),
                forall|j: int| 0 <= j < i ==> #[trigger] r@[j] == self.sessions@[j].client_info,
            decreases self.sessions@.len() - i,
        {
            r.push(self.sessions[i].client_info.clone());
            i = i + 1;
        }
        proof {
            let s = self.sessions@;
            assert forall|j: int| 0 <= j < r@.len() implies #[trigger] session_table(s).contains_key(
                r@[j].id@,
            ) && session_table(s)[r@[j].id@].client_info == r@[j] by {
                assert(s[j].id@ == s[j].client_info.id@);
                lemma_table_value(s, j);
            }
            assert forall|k: Seq<char>| #[trigger]
                session_table(s).contains_key(k) implies exists|j: int|
                0 <= j < r@.len() && #[trigger] r@[j].id@ == k by {
                lemma_table_domain(s, k);
                let j = choose|j: int| 0 <= j < s.len() && #[trigger] s[j].id@ == k;
                assert(s[j].id@ == s[j].client_info.id@);
                assert(r@[j].id@ == k);
            }
            assert forall|a: int, b: int| 0 <= a < b < r@.len() implies #[trigger] r@[a].id@
                != #[trigger] r@[b].id@ by {
                assert(s[a].id@ == s[a].client_info.id@);
                assert(s[b].id@ == s[b].client_info.id@);
                assert(s[a].id@ != s[b].id@);
            }
        }
        r
    }

    /// Drops every session whose client connected `timeout` nanoseconds or
    /// longer before the current time.
    pub fn cleanup_inactive_sessions(&mut self, timeout: u128)
        ensures
            exists|now: i128|
                -MAX_DURATION_NANOS <= now <= MAX_DURATION_NANOS && final(self)@ == keep_active(
                    old(self)@,
                    now,
                    timeout,
                ),
            keys_match(final(self)@),
            final(self)@.dom().finite(),
    {
        let now = current_time_nanos();
        self.cleanup_inactive_sessions_at(now, timeout);
    }

    /// Drops every session whose client connected `timeout` or longer before `now`.
    pub fn cleanup_inactive_sessions_at(&mut self, now: i128, timeout: u128)
        ensures
            final(self)@ == keep_active(old(self)@, now, timeout),
            keys_match(final(self)@),
            final(self)@.dom().finite(),
    {
        proof {
            use_type_invariant(&*self);
        }
        let mut remaining: Vec<VpnSession<W>> = Vec::new();
        std::mem::swap(&mut remaining, &mut self.sessions);
        let ghost all = remaining@;
        let ghost p = active_filter::<W>(now, timeout);
        let mut kept: Vec<VpnSession<W>> = Vec::new();
        while remaining.len() > 0
            invariant
                all == all.subrange(0, all.len() - remaining@.len()) + remaining@,
                kept@ == all.subrange(0, all.len() - remaining@.len()).filter(p),
                p == active_filter::<W>(now, timeout),
                remaining@.len() <= all.len(),
            decreases remaining@.len(),
        {
            let ghost done = all.subrange(0, all.len() - remaining@.len());
            let session = remaining.remove(0);
            let ghost next = all.subrange(0, all.len() - remaining@.len());
            proof {
                reveal_with_fuel(Seq::<_>::filter, 1);
                assert(next.drop_last() =~= done);
                assert(next.last() == session);
                assert(all =~= next + remaining@);
            }
            if session_is_active(&session.client_info, now, timeout) {
                kept.push(session);
            }
        }
        proof {
            assert(all.subrange(0, all.len() as int) =~= all);
            lemma_filter_keeps_ids(all, p);
            lemma_table_filter(all, now, timeout);
            lemma_keys_match(kept@);
            lemma_table_domain(kept@, Seq::empty());
        }
        self.sessions = kept;
    }
}

} // verus!
