use vstd::prelude::*;
use crate::claims::{opt_view, UserType};
use crate::error::AuthError;
use crate::text::str_eq;

verus! {

/// The server-side record behind a bearer token. Times are seconds since the Unix epoch.
#[derive(Debug)]
pub struct Session {
    pub id: String,
    pub user_id: String,
    pub user_type: UserType,
    pub refresh_token: String,
    pub ip_address: Option<String>,
    pub user_agent: Option<String>,
    pub created_at: u64,
    pub expires_at: u64,
}

pub struct SessionView {
    pub id: Seq<char>,
    pub user_id: Seq<char>,
    pub user_type: UserType,
    pub refresh_token: Seq<char>,
    pub ip_address: Option<Seq<char>>,
    pub user_agent: Option<Seq<char>>,
    pub created_at: u64,
    pub expires_at: u64,
}

impl View for Session {
    type V = SessionView;

    open spec fn view(&self) -> SessionView {
        SessionView {
            id: self.id@,
            user_id: self.user_id@,
            user_type: self.user_type,
            refresh_token: self.refresh_token@,
            ip_address: opt_view(self.ip_address),
            user_agent: opt_view(self.user_agent),
            created_at: self.created_at,
            expires_at: self.expires_at,
        }
    }
}

pub fn copy_opt(o: &Option<String>) -> (r: Option<String>)
    ensures
        opt_view(r) == opt_view(*o),
{
    match o {
        Some(s) => Some(s.clone()),
        None => None,
    }
}

impl Session {
    /// A field-by-field copy.
    pub fn copy(&self) -> (r: Session)
        ensures
            r@ == self@,
    {
        Session {
            id: self.id.clone(),
            user_id: self.user_id.clone(),
            user_type: self.user_type,
            refresh_token: self.refresh_token.clone(),
            ip_address: copy_opt(&self.ip_address),
            user_agent: copy_opt(&self.user_agent),
            created_at: self.created_at,
            expires_at: self.expires_at,
        }
    }
}

pub open spec fn views_of(v: Seq<Session>) -> Seq<SessionView> {
    v.map_values(|s: Session| s@)
}

/// No two sessions share an id or a refresh token.
pub open spec fn sessions_wf(s: Seq<SessionView>) -> bool {
    forall|i: int, j: int|
        0 <= i < s.len() && 0 <= j < s.len() && i != j ==> (#[trigger] s[i]).id != (#[trigger] s[j]).id
            && s[i].refresh_token != s[j].refresh_token
}

/// The sessions that are alive at `now` under id `id`.
pub open spec fn live_with_id(s: Seq<SessionView>, id: Seq<char>, now: u64, x: SessionView) -> bool {
    s.contains(x) && x.id == id && now < x.expires_at
}

/// The store of sessions. A session is valid while it is in the store and its
/// expiry lies ahead; revoking removes it.
pub struct SessionStore {
    pub sessions: Vec<Session>,
    /// How long a new session lives, in seconds.
    pub ttl: u64,
}

impl SessionStore {
    pub open spec fn view(&self) -> Seq<SessionView> {
        views_of(self.sessions@)
    }

    pub open spec fn wf(&self) -> bool {
        sessions_wf(self.view())
    }

    pub fn new(ttl: u64) -> (r: SessionStore)
        ensures
            r.wf(),
            r.view().len() == 0,
            r.ttl == ttl,
    {
        SessionStore { sessions: Vec::new(), ttl }
    }

    fn index_of_id(&self, id: &str) -> (r: Option<usize>)
        ensures
            match r {
                Some(i) => i < self.view().len() && self.view()[i as int].id == id@,
                None => forall|j: int| 0 <= j < self.view().len() ==> (#[trigger] self.view()[j]).id != id@,
            },
    {
        let mut i: usize = 0;
        while i < self.sessions.len()
            invariant
                i <= self.sessions@.len(),
                forall|j: int| 0 <= j < i ==> (#[trigger] self.view()[j]).id != id@,
            decreases self.sessions@.len() - i,
        {
            if str_eq(self.sessions[i].id.as_str(), id) {
                return Some(i);
            }
            i = i + 1;
        }
        None
    }

    fn index_of_refresh(&self, token: &str) -> (r: Option<usize>)
        ensures
            match r {
                Some(i) => i < self.view().len() && self.view()[i as int].refresh_token == token@,
                None => forall|j: int|
                    0 <= j < self.view().len() ==> (#[trigger] self.view()[j]).refresh_token != token@,
            },
    {
        let mut i: usize = 0;
        while i < self.sessions.len()
            invariant
                i <= self.sessions@.len(),
                forall|j: int| 0 <= j < i ==> (#[trigger] self.view()[j]).refresh_token != token@,
            decreases self.sessions@.len() - i,
        {
            if str_eq(self.sessions[i].refresh_token.as_str(), token) {
                return Some(i);
            }
            i = i + 1;
        }
        None
    }

    /// Records a new session under `id` and `refresh_token`, created at `now` and
    /// alive for the store's lifetime (capped at the largest time). Fails with
    /// `Internal` if either value is already in use, leaving the store as it was.
    pub fn create_session(
        &mut self,
        id: String,
        refresh_token: String,
        user_id: String,
        user_type: UserType,
        ip_address: Option<String>,
        user_agent: Option<String>,
        now: u64,
    ) -> (r: Result<Session, AuthError>)
        requires
            old(self).wf(),
        ensures
            final(self).wf(),
            final(self).ttl == old(self).ttl,
            (exists|j: int| 0 <= j < old(self).view().len() && (#[trigger] old(self).view()[j]).id == id@)
                || (exists|j: int| 0 <= j < old(self).view().len() && (#[trigger] old(self).view()[j]).refresh_token == refresh_token@)
                ==> r == Err::<Session, AuthError>(AuthError::Internal) && final(self).view() == old(self).view(),
            r matches Ok(s) ==> {
                &&& s@ == (SessionView {
                    id: id@,
                    user_id: user_id@,
                    user_type,
                    refresh_token: refresh_token@,
                    ip_address: opt_view(ip_address),
                    user_agent: opt_view(user_agent),
                    created_at: now,
                    expires_at: if now as int + old(self).ttl as int <= u64::MAX { (now + old(self).ttl) as u64 } else { u64::MAX },
                })
                &&& final(self).view() == old(self).view().push(s@)
            },
            r is Err ==> r == Err::<Session, AuthError>(AuthError::Internal) && final(self).view() == old(self).view(),
            (forall|j: int| 0 <= j < old(self).view().len() ==> (#[trigger] old(self).view()[j]).id != id@
                && old(self).view()[j].refresh_token != refresh_token@) ==> r is Ok,
    {
        if self.index_of_id(id.as_str()).is_some() || self.index_of_refresh(refresh_token.as_str()).is_some() {
            return Err(AuthError::Internal);
        }
        let expires_at = self.ttl.saturating_add(now);
        let s = Session { id, user_id, user_type, refresh_token, ip_address, user_agent, created_at: now, expires_at };
        let out = s.copy();
        let ghost before = self.view();
        self.sessions.push(s);
        assert(self.view() =~= before.push(out@));
        proof {
            let v = self.view();
            assert forall|i: int, j: int|
                0 <= i < v.len() && 0 <= j < v.len() && i != j implies (#[trigger] v[i]).id != (#[trigger] v[j]).id
                    && v[i].refresh_token != v[j].refresh_token by {
                if i < before.len() && j < before.len() {
                    assert(v[i] == before[i] && v[j] == before[j]);
                }
            }
        }
        Ok(out)
    }

    /// The session `session_id`, if it is in the store and alive at `now`.
    pub fn validate_session(&self, session_id: &str, now: u64) -> (r: Option<Session>)
        requires
            self.wf(),
        ensures
            match r {
                Some(s) => live_with_id(self.view(), session_id@, now, s@),
                None => forall|x: SessionView| !live_with_id(self.view(), session_id@, now, x),
            },
    {
        match self.index_of_id(session_id) {
            Some(i) => {
                if now < self.sessions[i].expires_at {
                    let s = self.sessions[i].copy();
                    assert(self.view()[i as int] == s@);
                    Some(s)
                } else {
                    proof {
                        assert forall|x: SessionView| !live_with_id(self.view(), session_id@, now, x) by {
                            if live_with_id(self.view(), session_id@, now, x) {
                                let k = choose|k: int| 0 <= k < self.view().len() && self.view()[k] == x;
                                if k != i {
                                    assert(self.view()[k].id != self.view()[i as int].id);
                                }
                            }
                        }
                    }
                    None
                }
            },
            None => {
                proof {
                    assert forall|x: SessionView| !live_with_id(self.view(), session_id@, now, x) by {
                        if self.view().contains(x) {
                            let k = choose|k: int| 0 <= k < self.view().len() && self.view()[k] == x;
                            assert(self.view()[k].id != session_id@);
                        }
                    }
                }
                None
            },
        }
    }

    /// The session that holds `refresh_token`, if it is alive at `now`. The token is
    /// not rotated: the same session and token serve again.
    pub fn refresh_session(&self, refresh_token: &str, now: u64) -> (r: Option<Session>)
        requires
            self.wf(),
        ensures
            match r {
                Some(s) => self.view().contains(s@) && s@.refresh_token == refresh_token@ && now < s@.expires_at,
                None => forall|x: SessionView|
                    #![trigger self.view().contains(x)]
                    self.view().contains(x) && x.refresh_token == refresh_token@ ==> now >= x.expires_at,
            },
    {
        match self.index_of_refresh(refresh_token) {
            Some(i) => {
                if now < self.sessions[i].expires_at {
                    let s = self.sessions[i].copy();
                    assert(self.view()[i as int] == s@);
                    Some(s)
                } else {
                    proof {
                        assert forall|x: SessionView|
                            self.view().contains(x) && x.refresh_token == refresh_token@ implies now >= x.expires_at by {
                            let k = choose|k: int| 0 <= k < self.view().len() && self.view()[k] == x;
                            if k != i {
                                assert(self.view()[k].refresh_token != self.view()[i as int].refresh_token);
                            }
                        }
                    }
                    None
                }
            },
            None => {
                proof {
                    assert forall|x: SessionView|
                        self.view().contains(x) && x.refresh_token == refresh_token@ implies now >= x.expires_at by {
                        let k = choose|k: int| 0 <= k < self.view().len() && self.view()[k] == x;
                        assert(self.view()[k].refresh_token != refresh_token@);
                    }
                }
                None
            },
        }
    }

    /// Drops the sessions owned by `id` (when `by_owner`) or with id `id`.
    fn retain_where(&mut self, id: &str, by_owner: bool)
        requires
            old(self).wf(),
        ensures
            final(self).wf(),
            final(self).ttl == old(self).ttl,
            forall|x: SessionView| #[trigger] final(self).view().contains(x) <==> old(self).view().contains(x)
                && (if by_owner { x.user_id != id@ } else { x.id != id@ }),
    {
        let ghost before = self.view();
        let mut kept: Vec<Session> = Vec::new();
        let mut i: usize = 0;
        while i < self.sessions.len()
            invariant
                before == self.view(),
                sessions_wf(before),
                i <= before.len(),
                forall|a: int| 0 <= a < kept@.len() ==> exists|b: int| 0 <= b < i && #[trigger] views_of(kept@)[a] == before[b],
                forall|x: SessionView| #[trigger] views_of(kept@).contains(x) <==> (exists|b: int| 0 <= b < i && before[b] == x)
                    && (if by_owner { x.user_id != id@ } else { x.id != id@ }),
                sessions_wf(views_of(kept@)),
            decreases before.len() - i,
        {
            let s = &self.sessions[i];
            let drop = if by_owner {
                str_eq(s.user_id.as_str(), id)
            } else {
                str_eq(s.id.as_str(), id)
            };
            let ghost old_kept = views_of(kept@);
            if !drop {
                kept.push(s.copy());
                assert(views_of(kept@) =~= old_kept.push(before[i as int]));
            }
            proof {
                let nk = views_of(kept@);
                assert forall|x: SessionView| #[trigger] nk.contains(x) <==> (exists|b: int| 0 <= b < i + 1 && before[b] == x)
                    && (if by_owner { x.user_id != id@ } else { x.id != id@ }) by {
                    if nk.contains(x) {
                        let a = choose|a: int| 0 <= a < nk.len() && nk[a] == x;
                        if a < old_kept.len() {
                            assert(old_kept[a] == x);
                            assert(old_kept.contains(x));
                        }
                    }
                    if (exists|b: int| 0 <= b < i + 1 && before[b] == x)
                        && (if by_owner { x.user_id != id@ } else { x.id != id@ }) {
                        let b = choose|b: int| 0 <= b < i + 1 && before[b] == x;
                        if b < i {
                            assert(old_kept.contains(x));
                            let a = choose|a: int| 0 <= a < old_kept.len() && old_kept[a] == x;
                            assert(nk[a] == x);
                        } else {
                            assert(nk[nk.len() - 1] == x);
                        }
                    }
                }
                assert forall|a: int| 0 <= a < nk.len() implies exists|b: int| 0 <= b < i + 1 && #[trigger] nk[a] == before[b] by {
                    if a < old_kept.len() {
                        assert(nk[a] == old_kept[a]);
                    } else {
                        assert(nk[a] == before[i as int]);
                    }
                }
                assert forall|a: int, c: int|
                    0 <= a < nk.len() && 0 <= c < nk.len() && a != c implies (#[trigger] nk[a]).id != (#[trigger] nk[c]).id
                        && nk[a].refresh_token != nk[c].refresh_token by {
                    if a < old_kept.len() && c < old_kept.len() {
                        assert(nk[a] == old_kept[a] && nk[c] == old_kept[c]);
                    } else if a < old_kept.len() {
                        assert(nk[a] == old_kept[a]);
                        let b1 = choose|b: int| 0 <= b < i && #[trigger] old_kept[a] == before[b];
                        assert(nk[c] == before[i as int]);
                    } else {
                        assert(nk[c] == old_kept[c]);
                        let b1 = choose|b: int| 0 <= b < i && #[trigger] old_kept[c] == before[b];
                        assert(nk[a] == before[i as int]);
                    }
                }
            }
            i = i + 1;
        }
        proof {
            let nk = views_of(kept@);
            assert forall|x: SessionView| #[trigger] nk.contains(x) <==> before.contains(x)
                && (if by_owner { x.user_id != id@ } else { x.id != id@ }) by {
                if before.contains(x) {
                    let b = choose|b: int| 0 <= b < before.len() && before[b] == x;
                }
            }
        }
        self.sessions = kept;
    }

    /// Removes the session `session_id`; nothing happens if it is not there.
    pub fn revoke_session(&mut self, session_id: &str)
        requires
            old(self).wf(),
        ensures
            final(self).wf(),
            final(self).ttl == old(self).ttl,
            forall|x: SessionView| #[trigger] final(self).view().contains(x) <==> old(self).view().contains(x)
                && x.id != session_id@,
    {
        self.retain_where(session_id, false);
    }

    /// Removes every session that `user_id` owns.
    pub fn revoke_all_user_sessions(&mut self, user_id: &str)
        requires
            old(self).wf(),
        ensures
            final(self).wf(),
            final(self).ttl == old(self).ttl,
            forall|x: SessionView| #[trigger] final(self).view().contains(x) <==> old(self).view().contains(x)
                && x.user_id != user_id@,
    {
        self.retain_where(user_id, true);
    }
}

/// Once every session of a user is revoked, no session that the user held validates,
/// whatever the time.
pub proof fn lemma_revoke_all_then_validate(before: Seq<SessionView>, after: Seq<SessionView>, user_id: Seq<char>, held: SessionView, now: u64, x: SessionView)
    requires
        sessions_wf(before),
        forall|y: SessionView| #[trigger] after.contains(y) <==> before.contains(y) && y.user_id != user_id,
        before.contains(held),
        held.user_id == user_id,
    ensures
        !live_with_id(after, held.id, now, x),
{
    if live_with_id(after, held.id, now, x) {
        assert(before.contains(x));
        let a = choose|a: int| 0 <= a < before.len() && before[a] == x;
        let b = choose|b: int| 0 <= b < before.len() && before[b] == held;
        if a != b {
            assert(before[a].id != before[b].id);
        }
    }
}

} // verus!
