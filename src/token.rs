use vstd::prelude::*;
use crate::claims::{Claims, ClaimsView, UserType};
use crate::error::TokenError;
use crate::text::{decimal, parse_u64, parse_u64_spec, str_eq, to_decimal, lemma_parse_decimal};

verus! {

pub open spec fn pair_views(v: Seq<(String, String)>) -> Seq<(Seq<char>, Seq<char>)> {
    v.map_values(|p: (String, String)| (p.0@, p.1@))
}

/// The JSON object that a list of string pairs denotes: a later pair replaces an
/// earlier one with the same key.
pub open spec fn entries_map(s: Seq<(Seq<char>, Seq<char>)>) -> Map<Seq<char>, Seq<char>>
    decreases s.len(),
{
    if s.len() == 0 {
        Map::empty()
    } else {
        entries_map(s.drop_last()).insert(s.last().0, s.last().1)
    }
}

/// The compact HS256 token that signs the object `payload` with `secret`.
pub uninterp spec fn signed_token(payload: Map<Seq<char>, Seq<char>>, secret: Seq<char>) -> Seq<char>;

/// What jsonwebtoken makes of `token` under `secret`, with HS256 and without claim
/// or time checks (the way `open_token` asks): the object of string values that it
/// carries; `InvalidToken` when jsonwebtoken reports a signature mismatch; and
/// `Malformed` for every other failure.
pub uninterp spec fn verified_payload(token: Seq<char>, secret: Seq<char>) -> Result<Map<Seq<char>, Seq<char>>, TokenError>;

pub open spec fn payload_ok(m: Map<Seq<char>, Seq<char>>) -> Result<Map<Seq<char>, Seq<char>>, TokenError> {
    Ok(m)
}

pub open spec fn payload_err(e: TokenError) -> Result<Map<Seq<char>, Seq<char>>, TokenError> {
    Err(e)
}

/// Relies on jsonwebtoken::encode with the default (HS256) header and an HMAC key
/// made from the secret's bytes: it signs the JSON object of the pairs, and
/// jsonwebtoken::decode of the result with the same secret gives that object back.
/// With an HMAC key, the HS256 header and a map of strings it does not fail: the
/// key family matches the algorithm, serde_json serialises a string map, and HMAC
/// signing takes a key of any length.
#[verifier::external_body]
fn sign_pairs(pairs: &Vec<(String, String)>, secret: &str) -> (r: Option<String>)
    ensures
        r is Some,
        r matches Some(t) ==> t@ == signed_token(entries_map(pair_views(pairs@)), secret@),
        r matches Some(t) ==> verified_payload(t@, secret@) == payload_ok(entries_map(pair_views(pairs@))),
{
    let mut object = std::collections::BTreeMap::new();
    for (k, v) in pairs {
        object.insert(k.clone(), v.clone());
    }
    let key = jsonwebtoken::EncodingKey::from_secret(secret.as_bytes());
    jsonwebtoken::encode(&jsonwebtoken::Header::default(), &object, &key).ok()
}

/// Relies on jsonwebtoken::decode into an object of strings, with HS256, no required
/// claims and no time checks: the outcome depends on the token and the secret alone.
/// A signature mismatch is reported apart from every other failure.
#[verifier::external_body]
fn open_token(token: &str, secret: &str) -> (r: Result<Vec<(String, String)>, TokenError>)
    ensures
        match r {
            Ok(v) => verified_payload(token@, secret@) == payload_ok(entries_map(pair_views(v@))),
            Err(e) => verified_payload(token@, secret@) == payload_err(e),
        },
        r matches Err(e) ==> e != TokenError::Expired,
{
    let mut validation = jsonwebtoken::Validation::new(jsonwebtoken::Algorithm::HS256);
    validation.required_spec_claims.clear();
    validation.validate_exp = false;
    validation.validate_aud = false;
    let key = jsonwebtoken::DecodingKey::from_secret(secret.as_bytes());
    match jsonwebtoken::decode::<std::collections::BTreeMap<String, String>>(token, &key, &validation) {
        Ok(data) => Ok(data.claims.into_iter().collect()),
        Err(e) => match e.kind() {
            jsonwebtoken::errors::ErrorKind::InvalidSignature => Err(TokenError::InvalidToken),
            _ => Err(TokenError::Malformed),
        },
    }
}

pub open spec fn key_sub() -> Seq<char> {
    seq!['s', 'u', 'b']
}

pub open spec fn key_user_type() -> Seq<char> {
    seq!['u', 's', 'e', 'r', '_', 't', 'y', 'p', 'e']
}

pub open spec fn key_role() -> Seq<char> {
    seq!['r', 'o', 'l', 'e']
}

pub open spec fn key_session_id() -> Seq<char> {
    seq!['s', 'e', 's', 's', 'i', 'o', 'n', '_', 'i', 'd']
}

pub open spec fn key_verified() -> Seq<char> {
    seq!['v', 'e', 'r', 'i', 'f', 'i', 'e', 'd']
}

pub open spec fn key_exp() -> Seq<char> {
    seq!['e', 'x', 'p']
}

pub open spec fn key_iat() -> Seq<char> {
    seq!['i', 'a', 't']
}

pub open spec fn bool_text(b: bool) -> Seq<char> {
    if b {
        seq!['t', 'r', 'u', 'e']
    } else {
        seq!['f', 'a', 'l', 's', 'e']
    }
}

pub open spec fn parse_bool_spec(s: Seq<char>) -> Option<bool> {
    if s == bool_text(true) {
        Some(true)
    } else if s == bool_text(false) {
        Some(false)
    } else {
        None
    }
}

/// The object that a token for `c` carries: every field as a string, numbers in
/// decimal, and no "role" key when there is no role.
pub open spec fn claims_payload(c: ClaimsView) -> Map<Seq<char>, Seq<char>> {
    let base = Map::empty()
        .insert(key_sub(), c.sub)
        .insert(key_user_type(), c.user_type.name())
        .insert(key_session_id(), c.session_id)
        .insert(key_verified(), bool_text(c.verified))
        .insert(key_exp(), decimal(c.exp as nat))
        .insert(key_iat(), decimal(c.iat as nat));
    match c.role {
        Some(role) => base.insert(key_role(), role),
        None => base,
    }
}

/// The claims that an object spells, if it holds every field in its form.
pub open spec fn claims_of_payload(m: Map<Seq<char>, Seq<char>>) -> Option<ClaimsView> {
    if m.contains_key(key_sub()) && m.contains_key(key_user_type())
        && UserType::spec_from_name(m[key_user_type()]) is Some && m.contains_key(key_session_id())
        && m.contains_key(key_verified()) && parse_bool_spec(m[key_verified()]) is Some
        && m.contains_key(key_exp()) && parse_u64_spec(m[key_exp()]) is Some
        && m.contains_key(key_iat()) && parse_u64_spec(m[key_iat()]) is Some {
        Some(
            ClaimsView {
                sub: m[key_sub()],
                user_type: UserType::spec_from_name(m[key_user_type()])->0,
                role: if m.contains_key(key_role()) {
                    Some(m[key_role()])
                } else {
                    None
                },
                session_id: m[key_session_id()],
                verified: parse_bool_spec(m[key_verified()])->0,
                exp: parse_u64_spec(m[key_exp()])->0,
                iat: parse_u64_spec(m[key_iat()])->0,
            },
        )
    } else {
        None
    }
}

/// The claims that `token` grants at time `now`: its signature checks out, its
/// payload is a claim set, and its expiry lies after `now`.
pub open spec fn token_grants(token: Seq<char>, secret: Seq<char>, now: u64) -> Option<ClaimsView> {
    match verified_payload(token, secret) {
        Ok(m) => match claims_of_payload(m) {
            Some(c) => if now < c.exp {
                Some(c)
            } else {
                None
            },
            None => None,
        },
        Err(_) => None,
    }
}

proof fn lemma_keys_distinct()
    ensures
        key_sub() != key_user_type(),
        key_sub() != key_role(),
        key_sub() != key_session_id(),
        key_sub() != key_verified(),
        key_sub() != key_exp(),
        key_sub() != key_iat(),
        key_user_type() != key_role(),
        key_user_type() != key_session_id(),
        key_user_type() != key_verified(),
        key_user_type() != key_exp(),
        key_user_type() != key_iat(),
        key_role() != key_session_id(),
        key_role() != key_verified(),
        key_role() != key_exp(),
        key_role() != key_iat(),
        key_session_id() != key_verified(),
        key_session_id() != key_exp(),
        key_session_id() != key_iat(),
        key_verified() != key_exp(),
        key_verified() != key_iat(),
        key_exp() != key_iat(),
{
    assert(key_sub()[0] != key_exp()[0]);
    assert(key_sub()[0] != key_iat()[0]);
    assert(key_exp()[0] != key_iat()[0]);
    assert(key_sub().len() != key_user_type().len());
    assert(key_sub().len() != key_role().len());
    assert(key_sub().len() != key_session_id().len());
    assert(key_sub().len() != key_verified().len());
    assert(key_user_type().len() != key_role().len());
    assert(key_user_type().len() != key_session_id().len());
    assert(key_user_type().len() != key_verified().len());
    assert(key_user_type().len() != key_exp().len());
    assert(key_user_type().len() != key_iat().len());
    assert(key_role().len() != key_session_id().len());
    assert(key_role().len() != key_verified().len());
    assert(key_role().len() != key_exp().len());
    assert(key_role().len() != key_iat().len());
    assert(key_session_id().len() != key_verified().len());
    assert(key_session_id().len() != key_exp().len());
    assert(key_session_id().len() != key_iat().len());
    assert(key_verified().len() != key_exp().len());
    assert(key_verified().len() != key_iat().len());
}

/// Reading back the object written for `c` gives `c`.
pub proof fn lemma_payload_round_trip(c: ClaimsView)
    ensures
        claims_of_payload(claims_payload(c)) == Some(c),
{
    lemma_keys_distinct();
    lemma_parse_decimal(c.exp);
    lemma_parse_decimal(c.iat);
    crate::claims::lemma_name_round_trip(c.user_type);
    assert(bool_text(true) != bool_text(false)) by {
        assert(bool_text(true).len() != bool_text(false).len());
    }
    let m = claims_payload(c);
    let d = claims_of_payload(m)->0;
    assert(d.role == c.role);
    assert(d == c);
}

/// A token signed for `c` grants `c` with the same secret at any time before `c.exp`.
pub proof fn lemma_token_round_trip(c: ClaimsView, token: Seq<char>, secret: Seq<char>, now: u64)
    requires
        verified_payload(token, secret) == payload_ok(claims_payload(c)),
        now < c.exp,
    ensures
        token_grants(token, secret, now) == Some(c),
{
    lemma_payload_round_trip(c);
}

/// Lemma: the object of a list of pairs holds a key exactly as the prefix before a
/// tail that never names it does.
proof fn lemma_entries_tail(s: Seq<(Seq<char>, Seq<char>)>, i: int, k: Seq<char>)
    requires
        0 <= i <= s.len(),
        forall|j: int| i <= j < s.len() ==> (#[trigger] s[j]).0 != k,
    ensures
        entries_map(s).contains_key(k) == entries_map(s.subrange(0, i)).contains_key(k),
        entries_map(s).contains_key(k) ==> entries_map(s)[k] == entries_map(s.subrange(0, i))[k],
    decreases s.len() - i,
{
    if i == s.len() {
        assert(s.subrange(0, i) =~= s);
    } else {
        let t = s.drop_last();
        assert forall|j: int| i <= j < t.len() implies (#[trigger] t[j]).0 != k by {
            assert(t[j] == s[j]);
        }
        lemma_entries_tail(t, i, k);
        assert(t.subrange(0, i) =~= s.subrange(0, i));
        assert(s.last().0 != k);
    }
}

/// The value that the pairs give `key`: that of its last pair.
fn find_value(pairs: &Vec<(String, String)>, key: &str) -> (r: Option<String>)
    ensures
        match r {
            Some(v) => entries_map(pair_views(pairs@)).contains_key(key@)
                && entries_map(pair_views(pairs@))[key@] == v@,
            None => !entries_map(pair_views(pairs@)).contains_key(key@),
        },
{
    let ghost s = pair_views(pairs@);
    let mut i: usize = pairs.len();
    while i > 0
        invariant
            s == pair_views(pairs@),
            s.len() == pairs@.len(),
            i <= pairs@.len(),
            forall|j: int| i <= j < s.len() ==> (#[trigger] s[j]).0 != key@,
        decreases i,
    {
        let (k, v) = &pairs[i - 1];
        if str_eq(k.as_str(), key) {
            proof {
                lemma_entries_tail(s, i as int, key@);
                assert(s.subrange(0, i as int).drop_last() =~= s.subrange(0, i - 1));
                assert(s.subrange(0, i as int).last() == s[i - 1]);
            }
            return Some(v.clone());
        }
        i = i - 1;
    }
    proof {
        lemma_entries_tail(s, 0, key@);
        assert(s.subrange(0, 0) =~= Seq::<(Seq<char>, Seq<char>)>::empty());
    }
    None
}

fn push_pair(v: &mut Vec<(String, String)>, k: &str, val: String)
    ensures
        pair_views(final(v)@) == pair_views(old(v)@).push((k@, val@)),
        entries_map(pair_views(final(v)@)) == entries_map(pair_views(old(v)@)).insert(k@, val@),
{
    v.push((String::from_str(k), val));
    assert(pair_views(v@) =~= pair_views(old(v)@).push((k@, val@)));
    assert(pair_views(v@).drop_last() =~= pair_views(old(v)@));
}

fn bool_string(b: bool) -> (r: String)
    ensures
        r@ == bool_text(b),
{
    proof {
        reveal_strlit("true");
        reveal_strlit("false");
    }
    if b {
        String::from_str("true")
    } else {
        String::from_str("false")
    }
}

fn parse_bool(s: &str) -> (r: Option<bool>)
    ensures
        r == parse_bool_spec(s@),
{
    proof {
        reveal_strlit("true");
        reveal_strlit("false");
        assert("true"@ =~= bool_text(true));
        assert("false"@ =~= bool_text(false));
    }
    if str_eq(s, "true") {
        Some(true)
    } else if str_eq(s, "false") {
        Some(false)
    } else {
        None
    }
}

/// Signs `claims` with `secret`.
pub fn encode_token(claims: &Claims, secret: &str) -> (r: String)
    ensures
        r@ == signed_token(claims_payload(claims@), secret@),
        verified_payload(r@, secret@) == payload_ok(claims_payload(claims@)),
{
    proof {
        reveal_strlit("sub");
        reveal_strlit("user_type");
        reveal_strlit("session_id");
        reveal_strlit("verified");
        reveal_strlit("exp");
        reveal_strlit("iat");
        reveal_strlit("role");
        assert("sub"@ =~= key_sub());
        assert("user_type"@ =~= key_user_type());
        assert("session_id"@ =~= key_session_id());
        assert("verified"@ =~= key_verified());
        assert("exp"@ =~= key_exp());
        assert("iat"@ =~= key_iat());
        assert("role"@ =~= key_role());
    }
    let mut pairs: Vec<(String, String)> = Vec::new();
    assert(entries_map(pair_views(pairs@)) =~= Map::empty()) by {
        assert(pair_views(pairs@).len() == 0);
    }
    push_pair(&mut pairs, "sub", claims.sub.clone());
    push_pair(&mut pairs, "user_type", String::from_str(claims.user_type.as_str()));
    push_pair(&mut pairs, "session_id", claims.session_id.clone());
    push_pair(&mut pairs, "verified", bool_string(claims.verified));
    push_pair(&mut pairs, "exp", to_decimal(claims.exp));
    push_pair(&mut pairs, "iat", to_decimal(claims.iat));
    match &claims.role {
        Some(role) => {
            push_pair(&mut pairs, "role", role.clone());
        },
        None => {},
    }
    assert(entries_map(pair_views(pairs@)) =~= claims_payload(claims@));
    match sign_pairs(&pairs, secret) {
        Some(t) => t,
        None => String::new(),
    }
}

/// Checks the signature of `token` against `secret`, reads the claims it carries and
/// checks them against the time `now`. A bad signature is `InvalidToken`; a string
/// that is no signed token, or a payload that is no claim set, is `Malformed`; and a
/// token whose `exp` is not after `now` is `Expired`.
pub fn decode_token(token: &str, secret: &str, now: u64) -> (r: Result<Claims, TokenError>)
    ensures
        match r {
            Ok(c) => token_grants(token@, secret@, now) == Some(c@),
            Err(_) => token_grants(token@, secret@, now) is None,
        },
        verified_payload(token@, secret@) matches Err(e) ==> r == Err::<Claims, TokenError>(e),
        verified_payload(token@, secret@) matches Ok(m) ==> match claims_of_payload(m) {
            None => r == Err::<Claims, TokenError>(TokenError::Malformed),
            Some(c) => now >= c.exp ==> r == Err::<Claims, TokenError>(TokenError::Expired),
        },
{
    proof {
        reveal_strlit("sub");
        reveal_strlit("user_type");
        reveal_strlit("session_id");
        reveal_strlit("verified");
        reveal_strlit("exp");
        reveal_strlit("iat");
        reveal_strlit("role");
        assert("sub"@ =~= key_sub());
        assert("user_type"@ =~= key_user_type());
        assert("session_id"@ =~= key_session_id());
        assert("verified"@ =~= key_verified());
        assert("exp"@ =~= key_exp());
        assert("iat"@ =~= key_iat());
        assert("role"@ =~= key_role());
    }
    let pairs = match open_token(token, secret) {
        Ok(p) => p,
        Err(TokenError::InvalidToken) => {
            return Err(TokenError::InvalidToken);
        },
        Err(_) => {
            return Err(TokenError::Malformed);
        },
    };
    let ghost m = entries_map(pair_views(pairs@));
    let sub = match find_value(&pairs, "sub") {
        Some(v) => v,
        None => {
            return Err(TokenError::Malformed);
        },
    };
    let user_type = match find_value(&pairs, "user_type") {
        Some(v) => match UserType::from_name(v.as_str()) {
            Some(t) => t,
            None => {
                return Err(TokenError::Malformed);
            },
        },
        None => {
            return Err(TokenError::Malformed);
        },
    };
    let session_id = match find_value(&pairs, "session_id") {
        Some(v) => v,
        None => {
            return Err(TokenError::Malformed);
        },
    };
    let verified = match find_value(&pairs, "verified") {
        Some(v) => match parse_bool(v.as_str()) {
            Some(b) => b,
            None => {
                return Err(TokenError::Malformed);
            },
        },
        None => {
            return Err(TokenError::Malformed);
        },
    };
    let exp = match find_value(&pairs, "exp") {
        Some(v) => match parse_u64(v.as_str()) {
            Some(n) => n,
            None => {
                return Err(TokenError::Malformed);
            },
        },
        None => {
            return Err(TokenError::Malformed);
        },
    };
    let iat = match find_value(&pairs, "iat") {
        Some(v) => match parse_u64(v.as_str()) {
            Some(n) => n,
            None => {
                return Err(TokenError::Malformed);
            },
        },
        None => {
            return Err(TokenError::Malformed);
        },
    };
    let role = find_value(&pairs, "role");
    if now >= exp {
        return Err(TokenError::Expired);
    }
    let c = Claims { sub, user_type, role, session_id, verified, exp, iat };
    assert(c@ == claims_of_payload(m)->0);
    Ok(c)
}

} // verus!
