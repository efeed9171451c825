use vstd::prelude::*;

verus! {

/// The three kinds of account that can hold a session.
#[derive(Clone, Copy, Debug, PartialEq, Eq, Structural)]
pub enum UserType {
    Player,
    Admin,
    Organization,
}

pub open spec fn player_name() -> Seq<char> {
    seq!['p', 'l', 'a', 'y', 'e', 'r']
}

pub open spec fn admin_name() -> Seq<char> {
    seq!['a', 'd', 'm', 'i', 'n']
}

pub open spec fn organization_name() -> Seq<char> {
    seq!['o', 'r', 'g', 'a', 'n', 'i', 'z', 'a', 't', 'i', 'o', 'n']
}

impl UserType {
    /// The wire name of the kind: "player", "admin" or "organization".
    pub open spec fn name(self) -> Seq<char> {
        match self {
            UserType::Player => player_name(),
            UserType::Admin => admin_name(),
            UserType::Organization => organization_name(),
        }
    }

    pub fn as_str(&self) -> (r: &'static str)
        ensures
            r@ == self.name(),
    {
        match self {
            UserType::Player => {
                proof {
                    reveal_strlit("player");
                }
                "player"
            },
            UserType::Admin => {
                proof {
                    reveal_strlit("admin");
                }
                "admin"
            },
            UserType::Organization => {
                proof {
                    reveal_strlit("organization");
                }
                "organization"
            },
        }
    }

    /// The kind whose wire name is `s`, if any.
    pub open spec fn spec_from_name(s: Seq<char>) -> Option<UserType> {
        if s == player_name() {
            Some(UserType::Player)
        } else if s == admin_name() {
            Some(UserType::Admin)
        } else if s == organization_name() {
            Some(UserType::Organization)
        } else {
            None
        }
    }

    pub fn from_name(s: &str) -> (r: Option<UserType>)
        ensures
            r == Self::spec_from_name(s@),
    {
        if crate::text::str_eq(s, UserType::Player.as_str()) {
            Some(UserType::Player)
        } else if crate::text::str_eq(s, UserType::Admin.as_str()) {
            Some(UserType::Admin)
        } else if crate::text::str_eq(s, UserType::Organization.as_str()) {
            Some(UserType::Organization)
        } else {
            None
        }
    }
}

pub proof fn lemma_name_round_trip(t: UserType)
    ensures
        UserType::spec_from_name(t.name()) == Some(t),
{
    assert(player_name() != admin_name()) by {
        assert(player_name().len() != admin_name().len());
    }
    assert(player_name() != organization_name()) by {
        assert(player_name().len() != organization_name().len());
    }
    assert(admin_name() != organization_name()) by {
        assert(admin_name().len() != organization_name().len());
    }
}

/// The payload of a bearer token: who holds it, as what kind, under which session,
/// and for how long. Times are seconds since the Unix epoch.
#[derive(Debug)]
pub struct Claims {
    /// The principal's id.
    pub sub: String,
    pub user_type: UserType,
    /// The admin role; absent for players and organizations.
    pub role: Option<String>,
    pub session_id: String,
    /// Whether the principal's email was verified when the token was issued.
    pub verified: bool,
    pub exp: u64,
    pub iat: u64,
}

/// The claims as plain values, for contracts.
pub struct ClaimsView {
    pub sub: Seq<char>,
    pub user_type: UserType,
    pub role: Option<Seq<char>>,
    pub session_id: Seq<char>,
    pub verified: bool,
    pub exp: u64,
    pub iat: u64,
}

pub open spec fn opt_view(o: Option<String>) -> Option<Seq<char>> {
    match o {
        Some(s) => Some(s@),
        None => None,
    }
}

impl View for Claims {
    type V = ClaimsView;

    open spec fn view(&self) -> ClaimsView {
        ClaimsView {
            sub: self.sub@,
            user_type: self.user_type,
            role: opt_view(self.role),
            session_id: self.session_id@,
            verified: self.verified,
            exp: self.exp,
            iat: self.iat,
        }
    }
}

} // verus!
