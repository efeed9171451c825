use vstd::prelude::*;
use crate::error::AuthError;
use crate::password::{bcrypt_verdict, verify_password};
use crate::text::str_eq;

verus! {

/// Failed password attempts after which an admin is locked.
pub const MAX_ADMIN_ATTEMPTS: u32 = 5;

/// How long an admin lock lasts, in seconds.
pub const ADMIN_LOCK_SECONDS: u64 = 3600;

/// Where an organization stands in the approval process.
#[derive(Clone, Copy, Debug, PartialEq, Eq, Structural)]
pub enum ApprovalStatus {
    Pending,
    Approved,
    Rejected,
}

impl ApprovalStatus {
    pub open spec fn name(self) -> Seq<char> {
        match self {
            ApprovalStatus::Pending => seq!['p', 'e', 'n', 'd', 'i', 'n', 'g'],
            ApprovalStatus::Approved => seq!['a', 'p', 'p', 'r', 'o', 'v', 'e', 'd'],
            ApprovalStatus::Rejected => seq!['r', 'e', 'j', 'e', 'c', 't', 'e', 'd'],
        }
    }

    /// The wire name: "pending", "approved" or "rejected".
    pub fn as_str(&self) -> (r: &'static str)
        ensures
            r@ == self.name(),
    {
        proof {
            reveal_strlit("pending");
            reveal_strlit("approved");
            reveal_strlit("rejected");
        }
        match self {
            ApprovalStatus::Pending => "pending",
            ApprovalStatus::Approved => "approved",
            ApprovalStatus::Rejected => "rejected",
        }
    }
}

#[derive(Debug)]
pub struct Player {
    pub id: String,
    pub email: String,
    pub username: String,
    pub password_hash: String,
    pub verified: bool,
    /// The token that the player's verification email carries, until it is used.
    pub verification_token: Option<String>,
    /// The token of a pending password reset, and the time it lapses.
    pub reset_token: Option<String>,
    pub reset_expiry: Option<u64>,
}

#[derive(Debug)]
pub struct Admin {
    pub id: String,
    pub email: String,
    pub username: String,
    pub password_hash: String,
    pub role: String,
    pub is_active: bool,
    pub login_attempts: u32,
    /// The time until which the admin cannot log in.
    pub lock_until: Option<u64>,
}

#[derive(Debug)]
pub struct Organization {
    pub id: String,
    pub email: String,
    pub org_name: String,
    pub owner_name: String,
    pub country: String,
    pub description: String,
    pub password_hash: String,
    pub approval_status: ApprovalStatus,
    pub email_verified: bool,
}

pub open spec fn opt_view_eq(o: Option<String>, s: Seq<char>) -> bool {
    o matches Some(x) && x@ == s
}

/// Whether `p` holds the reset token `token`, not lapsed at `now`.
pub open spec fn reset_pending(p: Player, token: Seq<char>, now: u64) -> bool {
    opt_view_eq(p.reset_token, token) && (p.reset_expiry matches Some(e) && e > now)
}

/// Whether an admin may try a password at `now`: active, and not locked.
pub open spec fn admin_may_try(a: Admin, now: u64) -> bool {
    a.is_active && !(a.lock_until matches Some(t) && t > now)
}

/// The admin after a wrong password at `now`: one more failed attempt, and a lock
/// for an hour from `now` once the count reaches the limit.
pub open spec fn after_failure(a: Admin, now: u64) -> Admin {
    let attempts = if a.login_attempts < u32::MAX { (a.login_attempts + 1) as u32 } else { u32::MAX };
    Admin {
        login_attempts: attempts,
        lock_until: if attempts >= MAX_ADMIN_ATTEMPTS {
            Some(if now as int + ADMIN_LOCK_SECONDS <= u64::MAX { (now + ADMIN_LOCK_SECONDS) as u64 } else { u64::MAX })
        } else {
            a.lock_until
        },
        ..a
    }
}

/// The accounts of the three kinds, each kept in its own table.
pub struct AccountStore {
    pub players: Vec<Player>,
    pub admins: Vec<Admin>,
    pub organizations: Vec<Organization>,
}

pub open spec fn player_with_email(s: Seq<Player>, email: Seq<char>) -> Option<int> {
    if exists|i: int| 0 <= i < s.len() && (#[trigger] s[i]).email@ == email {
        Some(choose|i: int| 0 <= i < s.len() && (#[trigger] s[i]).email@ == email)
    } else {
        None
    }
}

pub open spec fn admin_with_email(s: Seq<Admin>, email: Seq<char>) -> Option<int> {
    if exists|i: int| 0 <= i < s.len() && (#[trigger] s[i]).email@ == email {
        Some(choose|i: int| 0 <= i < s.len() && (#[trigger] s[i]).email@ == email)
    } else {
        None
    }
}

pub open spec fn org_with_email(s: Seq<Organization>, email: Seq<char>) -> Option<int> {
    if exists|i: int| 0 <= i < s.len() && (#[trigger] s[i]).email@ == email {
        Some(choose|i: int| 0 <= i < s.len() && (#[trigger] s[i]).email@ == email)
    } else {
        None
    }
}

/// The outcome of a password check on a found account: `Ok(true)` on a match,
/// `Ok(false)` on a mismatch, `Internal` when the stored hash is unreadable.
pub open spec fn password_outcome(password: Seq<char>, hash: Seq<char>) -> Result<bool, AuthError> {
    match bcrypt_verdict(password, hash) {
        Some(b) => Ok(b),
        None => Err(AuthError::Internal),
    }
}

pub open spec fn index_opt(o: Option<usize>) -> Option<int> {
    match o {
        Some(i) => Some(i as int),
        None => None,
    }
}

pub open spec fn index_result(r: Result<Option<usize>, AuthError>) -> Result<Option<int>, AuthError> {
    match r {
        Ok(o) => Ok(index_opt(o)),
        Err(e) => Err(e),
    }
}

/// What a player login with `email` and `password` finds: the index of the player
/// whose password matches, `None`, or `Internal` for an unreadable hash.
pub open spec fn player_login_spec(s: Seq<Player>, email: Seq<char>, password: Seq<char>) -> Result<Option<int>, AuthError> {
    match player_with_email(s, email) {
        None => Ok(None),
        Some(i) => match password_outcome(password, s[i].password_hash@) {
            Ok(true) => Ok(Some(i)),
            Ok(false) => Ok(None),
            Err(e) => Err(e),
        },
    }
}

pub open spec fn org_login_spec(s: Seq<Organization>, email: Seq<char>, password: Seq<char>) -> Result<Option<int>, AuthError> {
    match org_with_email(s, email) {
        None => Ok(None),
        Some(i) => match password_outcome(password, s[i].password_hash@) {
            Ok(true) => Ok(Some(i)),
            Ok(false) => Ok(None),
            Err(e) => Err(e),
        },
    }
}

/// What an admin login finds at `now`: an inactive or locked admin counts as absent.
pub open spec fn admin_login_spec(s: Seq<Admin>, email: Seq<char>, password: Seq<char>, now: u64) -> Result<Option<int>, AuthError> {
    match admin_with_email(s, email) {
        None => Ok(None),
        Some(i) => if !admin_may_try(s[i], now) {
            Ok(None)
        } else {
            match password_outcome(password, s[i].password_hash@) {
                Ok(true) => Ok(Some(i)),
                Ok(false) => Ok(None),
                Err(e) => Err(e),
            }
        },
    }
}

/// The admin table after a login attempt: only a wrong password on an admin that
/// may try changes it.
pub open spec fn admins_after_attempt(s: Seq<Admin>, email: Seq<char>, password: Seq<char>, now: u64) -> Seq<Admin> {
    match admin_with_email(s, email) {
        Some(i) => if admin_may_try(s[i], now) && password_outcome(password, s[i].password_hash@) == Ok::<bool, AuthError>(false) {
            s.update(i, after_failure(s[i], now))
        } else {
            s
        },
        None => s,
    }
}

pub open spec fn player_with_id(s: Seq<Player>, id: Seq<char>) -> Option<int> {
    if exists|i: int| 0 <= i < s.len() && (#[trigger] s[i]).id@ == id {
        Some(choose|i: int| 0 <= i < s.len() && (#[trigger] s[i]).id@ == id)
    } else {
        None
    }
}

pub open spec fn admin_with_id(s: Seq<Admin>, id: Seq<char>) -> Option<int> {
    if exists|i: int| 0 <= i < s.len() && (#[trigger] s[i]).id@ == id {
        Some(choose|i: int| 0 <= i < s.len() && (#[trigger] s[i]).id@ == id)
    } else {
        None
    }
}

pub open spec fn org_with_id(s: Seq<Organization>, id: Seq<char>) -> Option<int> {
    if exists|i: int| 0 <= i < s.len() && (#[trigger] s[i]).id@ == id {
        Some(choose|i: int| 0 <= i < s.len() && (#[trigger] s[i]).id@ == id)
    } else {
        None
    }
}

pub open spec fn email_taken_by_player(s: Seq<Player>, email: Seq<char>) -> bool {
    exists|i: int| 0 <= i < s.len() && (#[trigger] s[i]).email@ == email
}

pub open spec fn username_taken(s: Seq<Player>, username: Seq<char>) -> bool {
    exists|i: int| 0 <= i < s.len() && (#[trigger] s[i]).username@ == username
}

pub open spec fn email_taken_by_admin(s: Seq<Admin>, email: Seq<char>) -> bool {
    exists|i: int| 0 <= i < s.len() && (#[trigger] s[i]).email@ == email
}

pub open spec fn email_taken_by_org(s: Seq<Organization>, email: Seq<char>) -> bool {
    exists|i: int| 0 <= i < s.len() && (#[trigger] s[i]).email@ == email
}

impl AccountStore {
    /// Emails are unique within each table; ids are unique within each table.
    pub open spec fn wf(&self) -> bool {
        &&& forall|i: int, j: int|
            0 <= i < self.players@.len() && 0 <= j < self.players@.len() && i != j
                ==> (#[trigger] self.players@[i]).email@ != (#[trigger] self.players@[j]).email@
                && self.players@[i].id@ != self.players@[j].id@
        &&& forall|i: int, j: int|
            0 <= i < self.admins@.len() && 0 <= j < self.admins@.len() && i != j
                ==> (#[trigger] self.admins@[i]).email@ != (#[trigger] self.admins@[j]).email@
                && self.admins@[i].id@ != self.admins@[j].id@
        &&& forall|i: int, j: int|
            0 <= i < self.organizations@.len() && 0 <= j < self.organizations@.len() && i != j
                ==> (#[trigger] self.organizations@[i]).email@ != (#[trigger] self.organizations@[j]).email@
                && self.organizations@[i].id@ != self.organizations@[j].id@
    }

    pub fn new() -> (r: AccountStore)
        ensures
            r.wf(),
            r.players@.len() == 0,
            r.admins@.len() == 0,
            r.organizations@.len() == 0,
    {
        AccountStore { players: Vec::new(), admins: Vec::new(), organizations: Vec::new() }
    }

    pub fn find_player_by_email(&self, email: &str) -> (r: Option<usize>)
        requires
            self.wf(),
        ensures
            index_opt(r) == player_with_email(self.players@, email@),
    {
        let mut i: usize = 0;
        while i < self.players.len()
            invariant
                self.wf(),
                i <= self.players@.len(),
                forall|j: int| 0 <= j < i ==> (#[trigger] self.players@[j]).email@ != email@,
            decreases self.players@.len() - i,
        {
            if str_eq(self.players[i].email.as_str(), email) {
                assert(self.players@[i as int].email@ == email@);
                let ghost k = choose|k: int| 0 <= k < self.players@.len() && (#[trigger] self.players@[k]).email@ == email@;
                assert(k == i) by {
                    if k != i {
                        assert(self.players@[k].email@ != self.players@[i as int].email@);
                    }
                }
                return Some(i);
            }
            i = i + 1;
        }
        None
    }

    pub fn find_admin_by_email(&self, email: &str) -> (r: Option<usize>)
        requires
            self.wf(),
        ensures
            index_opt(r) == admin_with_email(self.admins@, email@),
    {
        let mut i: usize = 0;
        while i < self.admins.len()
            invariant
                self.wf(),
                i <= self.admins@.len(),
                forall|j: int| 0 <= j < i ==> (#[trigger] self.admins@[j]).email@ != email@,
            decreases self.admins@.len() - i,
        {
            if str_eq(self.admins[i].email.as_str(), email) {
                assert(self.admins@[i as int].email@ == email@);
                let ghost k = choose|k: int| 0 <= k < self.admins@.len() && (#[trigger] self.admins@[k]).email@ == email@;
                assert(k == i) by {
                    if k != i {
                        assert(self.admins@[k].email@ != self.admins@[i as int].email@);
                    }
                }
                return Some(i);
            }
            i = i + 1;
        }
        None
    }

    pub fn find_organization_by_email(&self, email: &str) -> (r: Option<usize>)
        requires
            self.wf(),
        ensures
            index_opt(r) == org_with_email(self.organizations@, email@),
    {
        let mut i: usize = 0;
        while i < self.organizations.len()
            invariant
                self.wf(),
                i <= self.organizations@.len(),
                forall|j: int| 0 <= j < i ==> (#[trigger] self.organizations@[j]).email@ != email@,
            decreases self.organizations@.len() - i,
        {
            if str_eq(self.organizations[i].email.as_str(), email) {
                assert(self.organizations@[i as int].email@ == email@);
                let ghost k = choose|k: int| 0 <= k < self.organizations@.len() && (#[trigger] self.organizations@[k]).email@ == email@;
                assert(k == i) by {
                    if k != i {
                        assert(self.organizations@[k].email@ != self.organizations@[i as int].email@);
                    }
                }
                return Some(i);
            }
            i = i + 1;
        }
        None
    }

    /// The player with this email and password: `Ok(None)` when there is none or the
    /// password does not match.
    pub fn authenticate_player(&self, email: &str, password: &str) -> (r: Result<Option<usize>, AuthError>)
        requires
            self.wf(),
        ensures
            index_result(r) == player_login_spec(self.players@, email@, password@),
    {
        match self.find_player_by_email(email) {
            None => Ok(None),
            Some(i) => match verify_password(password, self.players[i].password_hash.as_str()) {
                Some(true) => Ok(Some(i)),
                Some(false) => Ok(None),
                None => Err(AuthError::Internal),
            },
        }
    }

    /// The organization with this email and password. Approval is not looked at here.
    pub fn authenticate_organization(&self, email: &str, password: &str) -> (r: Result<Option<usize>, AuthError>)
        requires
            self.wf(),
        ensures
            index_result(r) == org_login_spec(self.organizations@, email@, password@),
    {
        match self.find_organization_by_email(email) {
            None => Ok(None),
            Some(i) => match verify_password(password, self.organizations[i].password_hash.as_str()) {
                Some(true) => Ok(Some(i)),
                Some(false) => Ok(None),
                None => Err(AuthError::Internal),
            },
        }
    }

    /// The admin with this email and password at `now`. An inactive or locked admin is
    /// treated as absent, before the password is looked at. A wrong password counts
    /// as a failed attempt and, at the limit, locks the admin for an hour.
    pub fn authenticate_admin(&mut self, email: &str, password: &str, now: u64) -> (r: Result<Option<usize>, AuthError>)
        requires
            old(self).wf(),
        ensures
            final(self).wf(),
            final(self).players@ == old(self).players@,
            final(self).organizations@ == old(self).organizations@,
            index_result(r) == admin_login_spec(old(self).admins@, email@, password@, now),
            final(self).admins@ == admins_after_attempt(old(self).admins@, email@, password@, now),
    {
        let i = match self.find_admin_by_email(email) {
            None => {
                return Ok(None);
            },
            Some(i) => i,
        };
        let a = &self.admins[i];
        if !a.is_active {
            return Ok(None);
        }
        match a.lock_until {
            Some(t) => {
                if t > now {
                    return Ok(None);
                }
            },
            None => {},
        }
        match verify_password(password, a.password_hash.as_str()) {
            Some(true) => Ok(Some(i)),
            None => Err(AuthError::Internal),
            Some(false) => {
                self.record_admin_failure(i, now);
                Ok(None)
            },
        }
    }

    pub fn player_username_taken(&self, username: &str) -> (r: bool)
        ensures
            r == username_taken(self.players@, username@),
    {
        let mut i: usize = 0;
        while i < self.players.len()
            invariant
                i <= self.players@.len(),
                forall|j: int| 0 <= j < i ==> (#[trigger] self.players@[j]).username@ != username@,
            decreases self.players@.len() - i,
        {
            if str_eq(self.players[i].username.as_str(), username) {
                assert(self.players@[i as int].username@ == username@);
                return true;
            }
            i = i + 1;
        }
        false
    }

    pub fn player_id_taken(&self, id: &str) -> (r: bool)
        ensures
            r == exists|j: int| 0 <= j < self.players@.len() && (#[trigger] self.players@[j]).id@ == id@,
    {
        let mut i: usize = 0;
        while i < self.players.len()
            invariant
                i <= self.players@.len(),
                forall|j: int| 0 <= j < i ==> (#[trigger] self.players@[j]).id@ != id@,
            decreases self.players@.len() - i,
        {
            if str_eq(self.players[i].id.as_str(), id) {
                assert(self.players@[i as int].id@ == id@);
                return true;
            }
            i = i + 1;
        }
        false
    }

    pub fn organization_id_taken(&self, id: &str) -> (r: bool)
        ensures
            r == exists|j: int| 0 <= j < self.organizations@.len() && (#[trigger] self.organizations@[j]).id@ == id@,
    {
        let mut i: usize = 0;
        while i < self.organizations.len()
            invariant
                i <= self.organizations@.len(),
                forall|j: int| 0 <= j < i ==> (#[trigger] self.organizations@[j]).id@ != id@,
            decreases self.organizations@.len() - i,
        {
            if str_eq(self.organizations[i].id.as_str(), id) {
                assert(self.organizations@[i as int].id@ == id@);
                return true;
            }
            i = i + 1;
        }
        false
    }

    /// Adds a player whose email and id are not yet in use.
    pub fn add_player(&mut self, p: Player)
        requires
            old(self).wf(),
            !email_taken_by_player(old(self).players@, p.email@),
            forall|j: int| 0 <= j < old(self).players@.len() ==> (#[trigger] old(self).players@[j]).id@ != p.id@,
        ensures
            final(self).wf(),
            final(self).players@ == old(self).players@.push(p),
            final(self).admins@ == old(self).admins@,
            final(self).organizations@ == old(self).organizations@,
    {
        let ghost before = self.players@;
        self.players.push(p);
        assert forall|x: int, y: int|
            0 <= x < self.players@.len() && 0 <= y < self.players@.len() && x != y
                implies (#[trigger] self.players@[x]).email@ != (#[trigger] self.players@[y]).email@
                && self.players@[x].id@ != self.players@[y].id@ by {
            if x < before.len() && y < before.len() {
                assert(before[x] == self.players@[x] && before[y] == self.players@[y]);
            } else if x < before.len() {
                assert(before[x] == self.players@[x]);
            } else {
                assert(before[y] == self.players@[y]);
            }
        }
    }

    /// Adds an organization whose email and id are not yet in use.
    pub fn add_organization(&mut self, o: Organization)
        requires
            old(self).wf(),
            !email_taken_by_org(old(self).organizations@, o.email@),
            forall|j: int| 0 <= j < old(self).organizations@.len() ==> (#[trigger] old(self).organizations@[j]).id@ != o.id@,
        ensures
            final(self).wf(),
            final(self).organizations@ == old(self).organizations@.push(o),
            final(self).admins@ == old(self).admins@,
            final(self).players@ == old(self).players@,
    {
        let ghost before = self.organizations@;
        self.organizations.push(o);
        assert forall|x: int, y: int|
            0 <= x < self.organizations@.len() && 0 <= y < self.organizations@.len() && x != y
                implies (#[trigger] self.organizations@[x]).email@ != (#[trigger] self.organizations@[y]).email@
                && self.organizations@[x].id@ != self.organizations@[y].id@ by {
            if x < before.len() && y < before.len() {
                assert(before[x] == self.organizations@[x] && before[y] == self.organizations@[y]);
            } else if x < before.len() {
                assert(before[x] == self.organizations@[x]);
            } else {
                assert(before[y] == self.organizations@[y]);
            }
        }
    }

    pub fn find_player_by_id(&self, id: &str) -> (r: Option<usize>)
        requires
            self.wf(),
        ensures
            index_opt(r) == player_with_id(self.players@, id@),
    {
        let mut i: usize = 0;
        while i < self.players.len()
            invariant
                self.wf(),
                i <= self.players@.len(),
                forall|j: int| 0 <= j < i ==> (#[trigger] self.players@[j]).id@ != id@,
            decreases self.players@.len() - i,
        {
            if str_eq(self.players[i].id.as_str(), id) {
                assert(self.players@[i as int].id@ == id@);
                let ghost k = choose|k: int| 0 <= k < self.players@.len() && (#[trigger] self.players@[k]).id@ == id@;
                assert(k == i) by {
                    if k != i {
                        assert(self.players@[k].id@ != self.players@[i as int].id@);
                    }
                }
                return Some(i);
            }
            i = i + 1;
        }
        None
    }

    pub fn find_admin_by_id(&self, id: &str) -> (r: Option<usize>)
        requires
            self.wf(),
        ensures
            index_opt(r) == admin_with_id(self.admins@, id@),
    {
        let mut i: usize = 0;
        while i < self.admins.len()
            invariant
                self.wf(),
                i <= self.admins@.len(),
                forall|j: int| 0 <= j < i ==> (#[trigger] self.admins@[j]).id@ != id@,
            decreases self.admins@.len() - i,
        {
            if str_eq(self.admins[i].id.as_str(), id) {
                assert(self.admins@[i as int].id@ == id@);
                let ghost k = choose|k: int| 0 <= k < self.admins@.len() && (#[trigger] self.admins@[k]).id@ == id@;
                assert(k == i) by {
                    if k != i {
                        assert(self.admins@[k].id@ != self.admins@[i as int].id@);
                    }
                }
                return Some(i);
            }
            i = i + 1;
        }
        None
    }

    pub fn find_organization_by_id(&self, id: &str) -> (r: Option<usize>)
        requires
            self.wf(),
        ensures
            index_opt(r) == org_with_id(self.organizations@, id@),
    {
        let mut i: usize = 0;
        while i < self.organizations.len()
            invariant
                self.wf(),
                i <= self.organizations@.len(),
                forall|j: int| 0 <= j < i ==> (#[trigger] self.organizations@[j]).id@ != id@,
            decreases self.organizations@.len() - i,
        {
            if str_eq(self.organizations[i].id.as_str(), id) {
                assert(self.organizations@[i as int].id@ == id@);
                let ghost k = choose|k: int| 0 <= k < self.organizations@.len() && (#[trigger] self.organizations@[k]).id@ == id@;
                assert(k == i) by {
                    if k != i {
                        assert(self.organizations@[k].id@ != self.organizations@[i as int].id@);
                    }
                }
                return Some(i);
            }
            i = i + 1;
        }
        None
    }

    /// Sets the approval status of the organization `id`; `NotFound` if there is none.
    pub fn set_approval_status(&mut self, id: &str, status: ApprovalStatus) -> (r: Result<(), AuthError>)
        requires
            old(self).wf(),
        ensures
            final(self).wf(),
            final(self).players@ == old(self).players@,
            final(self).admins@ == old(self).admins@,
            match org_with_id(old(self).organizations@, id@) {
                None => r == Err::<(), AuthError>(AuthError::NotFound) && final(self).organizations@ == old(self).organizations@,
                Some(i) => r == Ok::<(), AuthError>(()) && final(self).organizations@.len() == old(self).organizations@.len()
                    && (forall|j: int| 0 <= j < old(self).organizations@.len() && j != i
                        ==> final(self).organizations@[j] == old(self).organizations@[j])
                    && final(self).organizations@[i] == (Organization { approval_status: status, ..old(self).organizations@[i] }),
            },
    {
        let i = match self.find_organization_by_id(id) {
            None => {
                return Err(AuthError::NotFound);
            },
            Some(i) => i,
        };
        let ghost before = self.organizations@;
        let mut o = self.organizations.remove(i);
        o.approval_status = status;
        self.organizations.insert(i, o);
        assert forall|x: int, y: int|
            0 <= x < self.organizations@.len() && 0 <= y < self.organizations@.len() && x != y
                implies (#[trigger] self.organizations@[x]).email@ != (#[trigger] self.organizations@[y]).email@
                && self.organizations@[x].id@ != self.organizations@[y].id@ by {
            assert(before[x].email == self.organizations@[x].email && before[y].email == self.organizations@[y].email);
            assert(before[x].id == self.organizations@[x].id && before[y].id == self.organizations@[y].id);
        }
        Ok(())
    }

    /// Adds an admin whose email and id are not yet in use.
    pub fn add_admin(&mut self, a: Admin)
        requires
            old(self).wf(),
            !email_taken_by_admin(old(self).admins@, a.email@),
            forall|j: int| 0 <= j < old(self).admins@.len() ==> (#[trigger] old(self).admins@[j]).id@ != a.id@,
        ensures
            final(self).wf(),
            final(self).admins@ == old(self).admins@.push(a),
            final(self).players@ == old(self).players@,
            final(self).organizations@ == old(self).organizations@,
    {
        let ghost before = self.admins@;
        self.admins.push(a);
        assert forall|x: int, y: int|
            0 <= x < self.admins@.len() && 0 <= y < self.admins@.len() && x != y
                implies (#[trigger] self.admins@[x]).email@ != (#[trigger] self.admins@[y]).email@
                && self.admins@[x].id@ != self.admins@[y].id@ by {
            if x < before.len() && y < before.len() {
                assert(before[x] == self.admins@[x] && before[y] == self.admins@[y]);
            } else if x < before.len() {
                assert(before[x] == self.admins@[x]);
            } else {
                assert(before[y] == self.admins@[y]);
            }
        }
    }

    pub fn admin_id_taken(&self, id: &str) -> (r: bool)
        ensures
            r == exists|j: int| 0 <= j < self.admins@.len() && (#[trigger] self.admins@[j]).id@ == id@,
    {
        let mut i: usize = 0;
        while i < self.admins.len()
            invariant
                i <= self.admins@.len(),
                forall|j: int| 0 <= j < i ==> (#[trigger] self.admins@[j]).id@ != id@,
            decreases self.admins@.len() - i,
        {
            if str_eq(self.admins[i].id.as_str(), id) {
                assert(self.admins@[i as int].id@ == id@);
                return true;
            }
            i = i + 1;
        }
        false
    }

    /// Marks verified the player whose pending verification token is `token`, and
    /// clears the token. False when no player holds it.
    pub fn verify_email_by_token(&mut self, token: &str) -> (r: bool)
        requires
            old(self).wf(),
        ensures
            final(self).wf(),
            final(self).admins@ == old(self).admins@,
            final(self).organizations@ == old(self).organizations@,
            final(self).players@.len() == old(self).players@.len(),
            r == exists|j: int| 0 <= j < old(self).players@.len()
                && opt_view_eq(#[trigger] old(self).players@[j].verification_token, token@),
            r ==> exists|j: int| 0 <= j < old(self).players@.len()
                && opt_view_eq(#[trigger] old(self).players@[j].verification_token, token@)
                && final(self).players@[j].verified && final(self).players@[j].verification_token is None
                && final(self).players@[j].id == old(self).players@[j].id
                && forall|k: int| 0 <= k < old(self).players@.len() && k != j ==> final(self).players@[k] == old(self).players@[k],
            !r ==> final(self).players@ == old(self).players@,
    {
        let mut i: usize = 0;
        while i < self.players.len()
            invariant
                self.wf(),
                self.players@ == old(self).players@,
                self.admins@ == old(self).admins@,
                self.organizations@ == old(self).organizations@,
                i <= self.players@.len(),
                forall|j: int| 0 <= j < i ==> !opt_view_eq(#[trigger] self.players@[j].verification_token, token@),
            decreases self.players@.len() - i,
        {
            let found = match &self.players[i].verification_token {
                Some(t) => str_eq(t.as_str(), token),
                None => false,
            };
            if found {
                let ghost before = self.players@;
                let mut p = self.players.remove(i);
                p.verified = true;
                p.verification_token = None;
                self.players.insert(i, p);
                assert forall|x: int, y: int|
                    0 <= x < self.players@.len() && 0 <= y < self.players@.len() && x != y
                        implies (#[trigger] self.players@[x]).email@ != (#[trigger] self.players@[y]).email@
                        && self.players@[x].id@ != self.players@[y].id@ by {
                    assert(before[x].email == self.players@[x].email && before[y].email == self.players@[y].email);
                    assert(before[x].id == self.players@[x].id && before[y].id == self.players@[y].id);
                }
                assert(forall|k: int| 0 <= k < before.len() && k != i ==> self.players@[k] == before[k]);
                return true;
            }
            i = i + 1;
        }
        false
    }

    /// Replaces player `i` by `p`, which keeps its id and email.
    pub fn replace_player(&mut self, i: usize, p: Player)
        requires
            old(self).wf(),
            i < old(self).players@.len(),
            p.id@ == old(self).players@[i as int].id@,
            p.email@ == old(self).players@[i as int].email@,
        ensures
            final(self).wf(),
            final(self).players@ == old(self).players@.update(i as int, p),
            final(self).admins@ == old(self).admins@,
            final(self).organizations@ == old(self).organizations@,
    {
        let ghost before = self.players@;
        let _ = self.players.remove(i);
        self.players.insert(i, p);
        assert(self.players@ =~= before.update(i as int, p));
        assert forall|x: int, y: int|
            0 <= x < self.players@.len() && 0 <= y < self.players@.len() && x != y
                implies (#[trigger] self.players@[x]).email@ != (#[trigger] self.players@[y]).email@
                && self.players@[x].id@ != self.players@[y].id@ by {
            assert(before[x].email@ == self.players@[x].email@ && before[y].email@ == self.players@[y].email@);
            assert(before[x].id@ == self.players@[x].id@ && before[y].id@ == self.players@[y].id@);
        }
    }

    /// The player whose reset token is `token` and has not lapsed at `now`.
    pub fn find_player_by_reset_token(&self, token: &str, now: u64) -> (r: Option<usize>)
        ensures
            match r {
                Some(i) => i < self.players@.len() && reset_pending(self.players@[i as int], token@, now),
                None => forall|j: int| 0 <= j < self.players@.len() ==> !reset_pending(#[trigger] self.players@[j], token@, now),
            },
    {
        let mut i: usize = 0;
        while i < self.players.len()
            invariant
                i <= self.players@.len(),
                forall|j: int| 0 <= j < i ==> !reset_pending(#[trigger] self.players@[j], token@, now),
            decreases self.players@.len() - i,
        {
            let p = &self.players[i];
            let hit = match (&p.reset_token, p.reset_expiry) {
                (Some(t), Some(e)) => e > now && str_eq(t.as_str(), token),
                _ => false,
            };
            if hit {
                return Some(i);
            }
            i = i + 1;
        }
        None
    }

    fn record_admin_failure(&mut self, i: usize, now: u64)
        requires
            old(self).wf(),
            i < old(self).admins@.len(),
        ensures
            final(self).wf(),
            final(self).players@ == old(self).players@,
            final(self).organizations@ == old(self).organizations@,
            final(self).admins@ == old(self).admins@.update(i as int, after_failure(old(self).admins@[i as int], now)),
    {
        let ghost before = self.admins@;
        let attempts = self.admins[i].login_attempts.saturating_add(1);
        let lock_until = if attempts >= MAX_ADMIN_ATTEMPTS {
            Some(now.saturating_add(ADMIN_LOCK_SECONDS))
        } else {
            self.admins[i].lock_until
        };
        let mut a = self.admins.remove(i);
        a.login_attempts = attempts;
        a.lock_until = lock_until;
        self.admins.insert(i, a);
        assert(self.admins@ =~= before.update(i as int, after_failure(before[i as int], now)));
        assert forall|x: int, y: int|
            0 <= x < self.admins@.len() && 0 <= y < self.admins@.len() && x != y
                implies (#[trigger] self.admins@[x]).email@ != (#[trigger] self.admins@[y]).email@
                && self.admins@[x].id@ != self.admins@[y].id@ by {
            assert(before[x].email == self.admins@[x].email && before[y].email == self.admins@[y].email);
            assert(before[x].id == self.admins@[x].id && before[y].id == self.admins@[y].id);
        }
    }
}

/// Five wrong passwords in a row at nondecreasing times lock a fresh, active admin:
/// from the last of them until an hour later the admin cannot log in, whatever the
/// password, and from then on may try again.
pub proof fn lemma_admin_lockout(a: Admin, t: Seq<u64>, now: u64)
    requires
        a.is_active,
        a.login_attempts == 0,
        a.lock_until is None,
        t.len() == 5,
        forall|k: int| 0 <= k < 4 ==> t[k] <= #[trigger] t[k + 1],
        t[4] as int + ADMIN_LOCK_SECONDS <= u64::MAX,
    ensures
        admin_may_try(a, t[0]),
        admin_may_try(after_failure(a, t[0]), t[1]),
        admin_may_try(after_failure(after_failure(a, t[0]), t[1]), t[2]),
        admin_may_try(after_failure(after_failure(after_failure(a, t[0]), t[1]), t[2]), t[3]),
        admin_may_try(after_failure(after_failure(after_failure(after_failure(a, t[0]), t[1]), t[2]), t[3]), t[4]),
        ({
            let locked = after_failure(after_failure(after_failure(after_failure(after_failure(a, t[0]), t[1]), t[2]), t[3]), t[4]);
            &&& t[4] <= now < t[4] + ADMIN_LOCK_SECONDS ==> !admin_may_try(locked, now)
            &&& now >= t[4] + ADMIN_LOCK_SECONDS ==> admin_may_try(locked, now)
        }),
{
    assert(t[0] <= t[1] && t[1] <= t[2] && t[2] <= t[3] && t[3] <= t[4]) by {
        assert(t[0] <= t[(0 + 1) as int]);
        assert(t[1] <= t[(1 + 1) as int]);
        assert(t[2] <= t[(2 + 1) as int]);
        assert(t[3] <= t[(3 + 1) as int]);
    }
}

} // verus!
