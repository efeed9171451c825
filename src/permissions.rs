use vstd::prelude::*;
use crate::claims::{Claims, UserType};
use crate::error::AuthError;
use crate::text::{contains_str, starts_with, str_eq};

verus! {

/// A rule of the permission table: which kinds may reach the paths that `path`
/// matches, and whether they must be verified.
#[derive(Debug)]
pub struct PathPermission {
    /// A literal path, or a prefix followed by `*`.
    pub path: String,
    /// Kind names, or the single sentinel "public".
    pub access: Vec<String>,
    pub require_verified: Option<bool>,
    pub description: Option<String>,
}

pub struct PermissionView {
    pub path: Seq<char>,
    pub access: Seq<Seq<char>>,
    pub require_verified: Option<bool>,
    pub description: Option<Seq<char>>,
}

impl View for PathPermission {
    type V = PermissionView;

    open spec fn view(&self) -> PermissionView {
        PermissionView {
            path: self.path@,
            access: names_of(self.access@),
            require_verified: self.require_verified,
            description: crate::claims::opt_view(self.description),
        }
    }
}

pub open spec fn names_of(v: Seq<String>) -> Seq<Seq<char>> {
    v.map_values(|s: String| s@)
}

pub open spec fn public_name() -> Seq<char> {
    seq!['p', 'u', 'b', 'l', 'i', 'c']
}

/// Whether `pattern` matches `path`: a pattern that ends in `*` matches every path
/// that begins with what precedes the `*`; any other pattern matches only itself.
pub open spec fn pattern_matches(path: Seq<char>, pattern: Seq<char>) -> bool {
    if pattern.len() > 0 && pattern.last() == '*' {
        let prefix = pattern.drop_last();
        prefix.len() <= path.len() && path.subrange(0, prefix.len() as int) == prefix
    } else {
        path == pattern
    }
}

pub open spec fn rule_matches(rules: Seq<PermissionView>, i: int, path: Seq<char>) -> bool {
    pattern_matches(path, rules[i].path)
}

/// Rule `i` is the one that governs `path`: it matches, no matching rule has a longer
/// pattern, and every later matching rule has a shorter one (the last of equally long
/// patterns wins).
pub open spec fn is_best_rule(rules: Seq<PermissionView>, i: int, path: Seq<char>) -> bool {
    &&& 0 <= i < rules.len()
    &&& rule_matches(rules, i, path)
    &&& forall|j: int|
        0 <= j < rules.len() && #[trigger] rule_matches(rules, j, path) ==> rules[j].path.len()
            <= rules[i].path.len() && (j > i ==> rules[j].path.len() < rules[i].path.len())
}

pub open spec fn no_rule_matches(rules: Seq<PermissionView>, path: Seq<char>) -> bool {
    forall|j: int| 0 <= j < rules.len() ==> !#[trigger] rule_matches(rules, j, path)
}

/// What the table decides for `path` and `claims`.
pub open spec fn authorize_spec(rules: Seq<PermissionView>, path: Seq<char>, user_type: UserType, verified: bool) -> Result<(), AuthError> {
    if no_rule_matches(rules, path) {
        Err(AuthError::Forbidden)
    } else {
        let i = choose|i: int| is_best_rule(rules, i, path);
        let rule = rules[i];
        if rule.access.contains(public_name()) {
            Ok(())
        } else if !rule.access.contains(user_type.name()) {
            Err(AuthError::Forbidden)
        } else if rule.require_verified == Some(true) && !verified {
            Err(AuthError::Forbidden)
        } else {
            Ok(())
        }
    }
}

/// Whether `request_path` is matched by `permission_path`.
pub fn path_matches(request_path: &str, permission_path: &str) -> (r: bool)
    ensures
        r == pattern_matches(request_path@, permission_path@),
{
    let n = permission_path.unicode_len();
    if n > 0 && permission_path.get_char(n - 1) == '*' {
        let prefix = permission_path.substring_char(0, n - 1);
        assert(prefix@ == permission_path@.drop_last());
        starts_with(request_path, prefix)
    } else {
        str_eq(request_path, permission_path)
    }
}

/// The shipped rule table.
pub open spec fn default_rules() -> Seq<PermissionView> {
    seq![
        PermissionView {
            path: "/auth/login"@,
            access: seq!["public"@],
            require_verified: None,
            description: Some("User login"@),
        },
        PermissionView {
            path: "/auth/register"@,
            access: seq!["public"@],
            require_verified: None,
            description: Some("User registration"@),
        },
        PermissionView {
            path: "/admin/*"@,
            access: seq!["admin"@],
            require_verified: Some(true),
            description: Some("Admin panel access"@),
        },
        PermissionView {
            path: "/players"@,
            access: seq!["admin"@, "player"@],
            require_verified: Some(true),
            description: Some("Player list access"@),
        },
        PermissionView {
            path: "/players/me"@,
            access: seq!["player"@],
            require_verified: Some(true),
            description: Some("Player profile access"@),
        },
        PermissionView {
            path: "/players/*"@,
            access: seq!["admin"@, "player"@],
            require_verified: Some(true),
            description: Some("Player management"@),
        },
        PermissionView {
            path: "/organizations/*"@,
            access: seq!["admin"@, "organization"@],
            require_verified: Some(true),
            description: Some("Organization management"@),
        },
        PermissionView {
            path: "/tournaments/*"@,
            access: seq!["admin"@, "player"@, "organization"@],
            require_verified: Some(true),
            description: Some("Tournament access"@),
        },
        PermissionView {
            path: "/chats/*"@,
            access: seq!["admin"@, "player"@, "organization"@],
            require_verified: Some(true),
            description: Some("Chat system"@),
        },
        PermissionView {
            path: "/communities/*"@,
            access: seq!["admin"@, "player"@, "organization"@],
            require_verified: Some(false),
            description: Some("Community features"@),
        },
        PermissionView {
            path: "/uploads/*"@,
            access: seq!["admin"@, "player"@, "organization"@],
            require_verified: Some(true),
            description: Some("File uploads"@),
        },
    ]
}

fn owned(s: &str) -> (r: String)
    ensures
        r@ == s@,
{
    String::from_str(s)
}

/// A list of kind names.
fn kinds(a: &str, b: Option<&str>, c: Option<&str>) -> (r: Vec<String>)
    ensures
        names_of(r@) =~= seq![a@] + match b {
            Some(b) => seq![b@],
            None => Seq::empty(),
        } + match c {
            Some(c) => seq![c@],
            None => Seq::empty(),
        },
{
    let mut r: Vec<String> = Vec::new();
    r.push(owned(a));
    if let Some(b) = b {
        r.push(owned(b));
    }
    if let Some(c) = c {
        r.push(owned(c));
    }
    r
}

fn rule(path: &str, access: Vec<String>, require_verified: Option<bool>, description: &str) -> (r: PathPermission)
    ensures
        r@ == (PermissionView {
            path: path@,
            access: names_of(access@),
            require_verified,
            description: Some(description@),
        }),
{
    PathPermission {
        path: owned(path),
        access,
        require_verified,
        description: Some(owned(description)),
    }
}

/// The shipped rules: public login and registration, admin-only `/admin/*`, player
/// and organization areas, and the shared tournament, chat, community and upload areas.
pub fn get_path_permissions() -> (r: Vec<PathPermission>)
    ensures
        r@.map_values(|p: PathPermission| p@) =~= default_rules(),
{
    let mut r: Vec<PathPermission> = Vec::new();
    r.push(rule("/auth/login", kinds("public", None, None), None, "User login"));
    assert(r@[0]@.access =~= default_rules()[0].access);
    assert(r@[0]@ == default_rules()[0]);
    r.push(rule("/auth/register", kinds("public", None, None), None, "User registration"));
    assert(r@[1]@.access =~= default_rules()[1].access);
    assert(r@[1]@ == default_rules()[1]);
    r.push(rule("/admin/*", kinds("admin", None, None), Some(true), "Admin panel access"));
    assert(r@[2]@.access =~= default_rules()[2].access);
    assert(r@[2]@ == default_rules()[2]);
    r.push(rule("/players", kinds("admin", Some("player"), None), Some(true), "Player list access"));
    assert(r@[3]@.access =~= default_rules()[3].access);
    assert(r@[3]@ == default_rules()[3]);
    r.push(rule("/players/me", kinds("player", None, None), Some(true), "Player profile access"));
    assert(r@[4]@.access =~= default_rules()[4].access);
    assert(r@[4]@ == default_rules()[4]);
    r.push(rule("/players/*", kinds("admin", Some("player"), None), Some(true), "Player management"));
    assert(r@[5]@.access =~= default_rules()[5].access);
    assert(r@[5]@ == default_rules()[5]);
    r.push(rule("/organizations/*", kinds("admin", Some("organization"), None), Some(true), "Organization management"));
    assert(r@[6]@.access =~= default_rules()[6].access);
    assert(r@[6]@ == default_rules()[6]);
    r.push(rule("/tournaments/*", kinds("admin", Some("player"), Some("organization")), Some(true), "Tournament access"));
    assert(r@[7]@.access =~= default_rules()[7].access);
    assert(r@[7]@ == default_rules()[7]);
    r.push(rule("/chats/*", kinds("admin", Some("player"), Some("organization")), Some(true), "Chat system"));
    assert(r@[8]@.access =~= default_rules()[8].access);
    assert(r@[8]@ == default_rules()[8]);
    r.push(rule("/communities/*", kinds("admin", Some("player"), Some("organization")), Some(false), "Community features"));
    assert(r@[9]@.access =~= default_rules()[9].access);
    assert(r@[9]@ == default_rules()[9]);
    r.push(rule("/uploads/*", kinds("admin", Some("player"), Some("organization")), Some(true), "File uploads"));
    assert(r@[10]@.access =~= default_rules()[10].access);
    assert(r@[10]@ == default_rules()[10]);
    assert(r@.len() == default_rules().len());
    r
}

impl PermissionTable {
    /// The table of the shipped rules.
    pub fn new() -> (r: PermissionTable)
        ensures
            r.rules_view() == default_rules(),
    {
        PermissionTable { rules: get_path_permissions() }
    }
}

/// Decides whether `claims` may reach `path` under the shipped rules.
pub fn check_permission(path: &str, claims: &Claims) -> (r: Result<(), AuthError>)
    ensures
        r == authorize_spec(default_rules(), path@, claims.user_type, claims.verified),
{
    let table = PermissionTable::new();
    table.check(path, claims)
}

/// The routes that need an authenticated caller.
pub open spec fn protected_route_list() -> Seq<Seq<char>> {
    seq![
        "/api/v1/players/me"@,
        "/api/v1/auth/logout"@,
        "/api/v1/auth/refresh"@,
        "/api/v1/auth/revoke-sessions"@,
        "/api/v1/auth/send-verification"@,
        "/api/v1/chats"@,
        "/api/v1/chats/:chat_id/messages"@,
        "/api/v1/chats/:chat_id/join/:user_id"@,
        "/api/v1/communities"@,
        "/api/v1/communities/:community_id/posts"@,
        "/api/v1/communities/:community_id/join/:user_id"@,
        "/api/v1/communities/:community_id/leave/:user_id"@,
        "/api/v1/uploads/profile/:user_id"@,
        "/api/v1/uploads/chat/:chat_id"@,
    ]
}

/// The routes that need an authenticated caller, in the order they are mounted.
pub fn protected_routes() -> (r: Vec<&'static str>)
    ensures
        r@.map_values(|s: &'static str| s@) =~= protected_route_list(),
{
    let mut r: Vec<&'static str> = Vec::new();
    r.push("/api/v1/players/me");
    r.push("/api/v1/auth/logout");
    r.push("/api/v1/auth/refresh");
    r.push("/api/v1/auth/revoke-sessions");
    r.push("/api/v1/auth/send-verification");
    r.push("/api/v1/chats");
    r.push("/api/v1/chats/:chat_id/messages");
    r.push("/api/v1/chats/:chat_id/join/:user_id");
    r.push("/api/v1/communities");
    r.push("/api/v1/communities/:community_id/posts");
    r.push("/api/v1/communities/:community_id/join/:user_id");
    r.push("/api/v1/communities/:community_id/leave/:user_id");
    r.push("/api/v1/uploads/profile/:user_id");
    r.push("/api/v1/uploads/chat/:chat_id");
    r
}

/// The table of rules, fixed once it is built.
pub struct PermissionTable {
    pub rules: Vec<PathPermission>,
}

impl PermissionTable {
    pub open spec fn rules_view(&self) -> Seq<PermissionView> {
        self.rules@.map_values(|p: PathPermission| p@)
    }

    /// The index of the rule that governs `path`, or `None` when no rule matches.
    pub fn resolve(&self, path: &str) -> (r: Option<usize>)
        ensures
            match r {
                Some(i) => is_best_rule(self.rules_view(), i as int, path@),
                None => no_rule_matches(self.rules_view(), path@),
            },
    {
        let ghost rules = self.rules_view();
        let mut best: Option<usize> = None;
        let mut best_len: usize = 0;
        let mut i: usize = 0;
        while i < self.rules.len()
            invariant
                rules == self.rules_view(),
                rules.len() == self.rules@.len(),
                i <= rules.len(),
                match best {
                    Some(b) => {
                        &&& b < i
                        &&& rule_matches(rules, b as int, path@)
                        &&& best_len == rules[b as int].path.len()
                        &&& forall|j: int|
                            0 <= j < i && #[trigger] rule_matches(rules, j, path@)
                                ==> rules[j].path.len() <= best_len && (j > b ==> rules[j].path.len() < best_len)
                    },
                    None => forall|j: int| 0 <= j < i ==> !#[trigger] rule_matches(rules, j, path@),
                },
            decreases rules.len() - i,
        {
            let pattern = self.rules[i].path.as_str();
            assert(pattern@ == rules[i as int].path);
            if path_matches(path, pattern) {
                let len = pattern.unicode_len();
                let take = match best {
                    Some(_) => len >= best_len,
                    None => true,
                };
                if take {
                    best = Some(i);
                    best_len = len;
                }
            }
            i = i + 1;
        }
        best
    }

    /// Decides whether `claims` may reach `path`. No matching rule forbids; a public
    /// rule allows anyone; otherwise the kind must be listed, and a verified
    /// principal is required where the rule says so.
    pub fn check(&self, path: &str, claims: &Claims) -> (r: Result<(), AuthError>)
        ensures
            r == authorize_spec(self.rules_view(), path@, claims.user_type, claims.verified),
    {
        let ghost rules = self.rules_view();
        match self.resolve(path) {
            None => Err(AuthError::Forbidden),
            Some(i) => {
                let ghost best = choose|k: int| is_best_rule(rules, k, path@);
                proof {
                    assert(rule_matches(rules, i as int, path@));
                    assert(!no_rule_matches(rules, path@));
                    lemma_best_unique(rules, i as int, best, path@);
                }
                let rule = &self.rules[i];
                assert(rules[i as int] == rule@);
                proof {
                    lemma_access_view(rule.access@);
                }
                let public = "public";
                proof {
                    reveal_strlit("public");
                    assert(public@ =~= public_name());
                }
                if contains_str(&rule.access, public) {
                    assert(rule@.access.contains(public_name()));
                    Ok(())
                } else {
                    assert(!rule@.access.contains(public_name()));
                    if !contains_str(&rule.access, claims.user_type.as_str()) {
                        Err(AuthError::Forbidden)
                    } else if rule.require_verified == Some(true) && !claims.verified {
                        Err(AuthError::Forbidden)
                    } else {
                        Ok(())
                    }
                }
            },
        }
    }
}

proof fn lemma_access_view(access: Seq<String>)
    ensures
        forall|name: Seq<char>|
            #![trigger names_of(access).contains(name)]
            names_of(access).contains(name) <==> exists|i: int|
                0 <= i < access.len() && #[trigger] access[i]@ == name,
{
    let v = names_of(access);
    assert forall|name: Seq<char>| v.contains(name) <==> exists|i: int|
        0 <= i < access.len() && #[trigger] access[i]@ == name by {
        if v.contains(name) {
            let k = choose|k: int| 0 <= k < v.len() && v[k] == name;
            assert(access[k]@ == name);
        }
        if exists|i: int| 0 <= i < access.len() && #[trigger] access[i]@ == name {
            let k = choose|i: int| 0 <= i < access.len() && #[trigger] access[i]@ == name;
            assert(v[k] == name);
        }
    }
}

/// At most one rule governs a path.
pub proof fn lemma_best_unique(rules: Seq<PermissionView>, i: int, k: int, path: Seq<char>)
    requires
        is_best_rule(rules, i, path),
        is_best_rule(rules, k, path),
    ensures
        i == k,
{
    if i < k {
        assert(rule_matches(rules, k, path));
    } else if k < i {
        assert(rule_matches(rules, i, path));
    }
}

} // verus!
