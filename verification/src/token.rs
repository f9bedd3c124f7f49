//! The session-token codec and validator.
//!
//! A token is an opaque transport string: a JSON-shaped object holding the
//! user id, the integer-coded role as of issuance, and the issuance time as
//! an RFC 3339 UTC timestamp. The codec here is pure data transformation;
//! the string is not signed by this subsystem — its integrity must be
//! guaranteed by an outer transport-level protection.

use vstd::prelude::*;

verus! {

use crate::auth::{role_code_spec, role_name_spec, Role};
use crate::database::{Database, UserInfo};
use crate::text::{
    dec_rep, dec_rep_i64, digit_run_end, digit_val, digits_val, find_char_from, find_from,
    fmt_i64, fmt_u64, is_digit,
    lemma_canonical_dec, lemma_dec_rep_val, lemma_dec_rep_wf, lemma_digit_run_end_determined,
    lemma_digit_run_end_props, lemma_find_from_determined, lemma_find_from_props, match_lit,
    scan_u64,
};
use vstd::string::{StrSliceExecFns, StringExecFns};

/// The number of minutes a token stays valid after issuance.
pub const TOKEN_VALID_TIME_MIN: i64 = 360;

/// The last UTC second of year 9999, the latest issuance time the codec
/// renders.
pub const MAX_ENCODABLE_TS: i64 = 253402300799;

/// A bound on every timestamp chrono can represent (its year range is about
/// ±262000, roughly ±8.3e12 seconds from the epoch).
pub const TS_ABS_BOUND: i64 = 10000000000000;

/// The RFC 3339 rendering that chrono gives the whole-second UTC timestamp
/// `secs` (`DateTime::from_timestamp` followed by `to_rfc3339_opts` with
/// second precision and a `Z` suffix).
pub uninterp spec fn iso_utc_of(secs: i64) -> Seq<char>;

/// The whole-second UTC timestamp that chrono reads out of `s`
/// (`DateTime::parse_from_rfc3339` followed by `timestamp`), or `None` when
/// `s` does not parse as an RFC 3339 date-time.
pub uninterp spec fn rfc3339_secs(s: Seq<char>) -> Option<i64>;

/// No double quote occurs in `iso`, so it can stand between quotes in a
/// token string.
pub open spec fn wf_iso(iso: Seq<char>) -> bool {
    forall|k: int| 0 <= k < iso.len() ==> iso[k] != '"'
}

/// The transport string of a token with the given id, role code and
/// issuance rendering.
pub open spec fn token_json(id: nat, rc: nat, iso: Seq<char>) -> Seq<char> {
    "{\"id\":"@ + dec_rep(id) + ",\"role\":"@ + dec_rep(rc) + ",\"issued\":\""@ + iso + "\"}"@
}

/// Relies on `chrono::DateTime::<Utc>::from_timestamp` and
/// `DateTime::to_rfc3339_opts(SecondsFormat::Secs, true)`: `from_timestamp`
/// succeeds on every timestamp up to year 9999; within that range the
/// rendering is a plain four-digit-year RFC 3339 date-time (so it holds no
/// double quote), and `parse_from_rfc3339` reads it back to the same
/// instant. Outside that range the rendered year would not be four digits,
/// so the range is required here.
#[verifier::external_body]
fn fmt_rfc3339(secs: i64) -> (r: Option<String>)
    requires
        0 <= secs <= MAX_ENCODABLE_TS,
    ensures
        r is Some,
        r matches Some(s) ==> s@ == iso_utc_of(secs) && wf_iso(iso_utc_of(secs))
            && rfc3339_secs(iso_utc_of(secs)) == Some(secs),
{
    match chrono::DateTime::<chrono::Utc>::from_timestamp(secs, 0) {
        Some(dt) => Some(dt.to_rfc3339_opts(chrono::SecondsFormat::Secs, true)),
        None => None,
    }
}

/// Relies on `chrono::DateTime::parse_from_rfc3339` and
/// `DateTime::timestamp`: the parsed instant is a function of the input
/// string alone, and every timestamp chrono represents lies within
/// [`TS_ABS_BOUND`] of the epoch.
#[verifier::external_body]
fn parse_rfc3339(s: &str) -> (r: Option<i64>)
    ensures
        r == rfc3339_secs(s@),
        r matches Some(t) ==> -TS_ABS_BOUND <= t <= TS_ABS_BOUND,
{
    match chrono::DateTime::parse_from_rfc3339(s) {
        Ok(dt) => Some(dt.timestamp()),
        Err(_) => None,
    }
}

/// Relies on `chrono::Utc::now` and `DateTime::timestamp`: the current time
/// is some timestamp chrono represents, so it lies within [`TS_ABS_BOUND`]
/// of the epoch.
#[verifier::external_body]
pub(crate) fn now_unix() -> (t: i64)
    ensures
        -TS_ABS_BOUND <= t <= TS_ABS_BOUND,
{
    chrono::Utc::now().timestamp()
}

/// The thing sent to users that acts as an auth token: ephemeral and
/// client-held. The embedded role is the role as of issuance and is
/// re-checked against the store on every validation.
#[derive(Clone, Copy, Debug, PartialEq, Eq, Structural)]
pub struct LoginToken {
    /// The ID of the logged-in user.
    pub id: u64,
    /// The role of the logged-in user at issuance.
    pub role: Role,
    /// The UTC timestamp (whole seconds) at which this token was issued.
    pub issued: i64,
}

/// Builds the transport string of a token issued at the given time.
pub fn create_token_at(id: u64, role: Role, issued: i64) -> (s: String)
    requires
        0 <= issued <= MAX_ENCODABLE_TS,
    ensures
        s@ == token_json(id as nat, role_code_spec(role), iso_utc_of(issued)),
        wf_iso(iso_utc_of(issued)),
        rfc3339_secs(iso_utc_of(issued)) == Some(issued),
{
    let iso: String = match fmt_rfc3339(issued) {
        Some(x) => x,
        None => {
            proof {
                assert(false);
            }
            String::new()
        },
    };
    let mut s = String::new();
    s.append("{\"id\":");
    let ids = fmt_u64(id);
    s.append(ids.as_str());
    s.append(",\"role\":");
    let rcs = fmt_u64(role.code() as u64);
    s.append(rcs.as_str());
    s.append(",\"issued\":\"");
    s.append(iso.as_str());
    s.append("\"}");
    proof {
        assert(s@ =~= token_json(id as nat, role_code_spec(role), iso_utc_of(issued)));
    }
    s
}

/// Decomposes the canonical token string for id `idn` (role code 10) and
/// issuance rendering `iso`: where each fragment lies, that the two digit
/// runs end exactly at the fixed literals that follow them, and — when `iso`
/// holds no quote — that the first quote after the issuance opening is the
/// closing one.
proof fn lemma_token_json_parts(idn: nat, iso: Seq<char>)
    ensures
        ({
            let s = token_json(idn, 10, iso);
            let p1 = 6 + dec_rep(idn).len() as int;
            let p2 = p1 + 8;
            let p3 = p2 + 2;
            let p4 = p3 + 11;
            let q = p4 + iso.len() as int;
            &&& s.len() == q + 2
            &&& s.subrange(0, 6) == "{\"id\":"@
            &&& s.subrange(6, p1) == dec_rep(idn)
            &&& s.subrange(p1, p2) == ",\"role\":"@
            &&& s.subrange(p2, p3) == dec_rep(10)
            &&& s.subrange(p3, p4) == ",\"issued\":\""@
            &&& s.subrange(p4, q) == iso
            &&& s.subrange(q, q + 2) == "\"}"@
            &&& dec_rep(10) == seq!['1', '0']
            &&& digits_val(dec_rep(10)) == 10
            &&& digit_run_end(s, 6) == p1
            &&& digit_run_end(s, p2) == p3
            &&& s[6] != '0' || p1 == 7
            &&& digits_val(s.subrange(6, p1)) == idn
            &&& wf_iso(iso) ==> find_from(s, p4, '"') == q
        }),
{
    reveal_strlit("{\"id\":");
    reveal_strlit(",\"role\":");
    reveal_strlit(",\"issued\":\"");
    reveal_strlit("\"}");
    lemma_dec_rep_wf(idn);
    lemma_dec_rep_val(idn);
    lemma_dec_rep_wf(10);
    assert(dec_rep(10) =~= seq!['1', '0']) by {
        assert(dec_rep(1) =~= seq!['1']);
        assert(dec_rep(10) =~= dec_rep(1).push('0'));
    }
    assert(digits_val(seq!['1', '0']) == 10) by {
        let t: Seq<char> = seq!['1', '0'];
        let t1: Seq<char> = seq!['1'];
        assert(t.len() == 2 && t[0] == '1' && t[1] == '0');
        assert(t.drop_last() =~= t1);
        assert(t.last() == '0');
        assert(t1.drop_last() =~= Seq::<char>::empty());
        assert(t1.last() == '1');
        assert(digits_val(Seq::<char>::empty()) == 0);
        assert(digit_val('1') == 1);
        assert(digit_val('0') == 0);
        assert(digits_val(t1) == 1);
        assert(digits_val(t) == 10);
    }
    let s = token_json(idn, 10, iso);
    let d1 = dec_rep(idn).len() as int;
    let p1 = 6 + d1;
    let p2 = p1 + 8;
    let p3 = p2 + 2;
    let p4 = p3 + 11;
    let q = p4 + iso.len() as int;
    assert(s.subrange(0, 6) =~= "{\"id\":"@);
    assert(s.subrange(6, p1) =~= dec_rep(idn));
    assert(s.subrange(p1, p2) =~= ",\"role\":"@);
    assert(s.subrange(p2, p3) =~= dec_rep(10));
    assert(s.subrange(p3, p4) =~= ",\"issued\":\""@);
    assert(s.subrange(p4, q) =~= iso);
    assert(s.subrange(q, q + 2) =~= "\"}"@);
    assert(s[p1] == ',');
    assert(s[p3] == ',');
    assert(!is_digit(','));
    assert(digit_run_end(s, 6) == p1) by {
        assert(forall|k: int| 6 <= k < p1 ==> is_digit(#[trigger] s[k])) by {
            assert(forall|k: int| 6 <= k < p1 ==> s[k] == dec_rep(idn)[k - 6]);
        }
        lemma_digit_run_end_determined(s, 6, p1);
    }
    assert(digit_run_end(s, p2) == p3) by {
        assert(forall|k: int| p2 <= k < p3 ==> is_digit(#[trigger] s[k])) by {
            assert(forall|k: int| p2 <= k < p3 ==> s[k] == dec_rep(10)[k - p2]);
        }
        lemma_digit_run_end_determined(s, p2, p3);
    }
    assert(s[6] != '0' || p1 == 7) by {
        assert(s[6] == dec_rep(idn)[0]);
    }
    assert(digits_val(s.subrange(6, p1)) == idn);
    if wf_iso(iso) {
        assert(s[q] == '"');
        assert(forall|k: int| p4 <= k < q ==> #[trigger] s[k] != '"') by {
            assert(forall|k: int| p4 <= k < q ==> s[k] == iso[k - p4]);
        }
        lemma_find_from_determined(s, p4, q, '"');
    }
}

/// Law: the token encoding is unambiguous. Two tokens with the same
/// transport string carry the same id and the same issuance rendering, so a
/// token decodes back to exactly the values it was issued for (the
/// completeness clause of [`parse_token`] then gives the decoded values,
/// and [`create_token_at`] gives the string's shape).
pub proof fn lemma_token_encoding_unambiguous(
    id1: nat,
    iso1: Seq<char>,
    id2: nat,
    iso2: Seq<char>,
)
    requires
        token_json(id1, 10, iso1) == token_json(id2, 10, iso2),
    ensures
        id1 == id2,
        iso1 == iso2,
{
    lemma_token_json_parts(id1, iso1);
    lemma_token_json_parts(id2, iso2);
    lemma_dec_rep_val(id1);
    lemma_dec_rep_val(id2);
    let s = token_json(id1, 10, iso1);
    assert(digit_run_end(s, 6) == 6 + dec_rep(id1).len() && digit_run_end(s, 6) == 6 + dec_rep(
        id2,
    ).len());
    assert(s.subrange(6, 6 + dec_rep(id1).len() as int) == dec_rep(id1) && s.subrange(
        6,
        6 + dec_rep(id2).len() as int,
    ) == dec_rep(id2));
    assert(id1 == id2);
    assert(iso1.len() == iso2.len());
    let p4 = 6 + dec_rep(id1).len() as int + 8 + 2 + 11;
    assert(iso1 == s.subrange(p4, p4 + iso1.len() as int) && iso2 == s.subrange(
        p4,
        p4 + iso2.len() as int,
    ));
}

/// Decodes a transport string back into a token.
///
/// Exactly the canonical encodings are accepted: whenever `s` is
/// `token_json` of some id, the role code 10 and a quote-free issuance
/// rendering that chrono can read back, the decoded token carries those
/// values; and every accepted string is such an encoding. Malformed input
/// of any shape is answered with `None`, never a panic.
pub fn parse_token(s: &str) -> (r: Option<LoginToken>)
    ensures
        r matches Some(t) ==> t.role == Role::Root && -TS_ABS_BOUND <= t.issued <= TS_ABS_BOUND
            && (exists|iso: Seq<char>|
            #[trigger] wf_iso(iso) && s@ == token_json(t.id as nat, 10, iso) && rfc3339_secs(iso)
                == Some(t.issued)),
        forall|idn: nat, iso: Seq<char>|
            idn <= u64::MAX && wf_iso(iso) && rfc3339_secs(iso) is Some && s@
                == #[trigger] token_json(idn, 10, iso) ==> r == Some(
                LoginToken { id: idn as u64, role: Role::Root, issued: rfc3339_secs(iso).unwrap() },
            ),
{
    let ghost gs = s@;
    let n: usize = s.unicode_len();
    proof {
        reveal_strlit("{\"id\":");
        reveal_strlit(",\"role\":");
        reveal_strlit(",\"issued\":\"");
        reveal_strlit("\"}");
    }
    // each early rejection below shows, via the decomposition of the
    // canonical string, that no canonical token could have this shape
    if !match_lit(s, 0, "{\"id\":") {
        proof {
            assert forall|idn: nat, iso: Seq<char>|
                idn <= u64::MAX && wf_iso(iso) && rfc3339_secs(iso) is Some && gs
                    == #[trigger] token_json(idn, 10, iso) implies false by {
                lemma_token_json_parts(idn, iso);
            }
        }
        return None;
    }
    let sc1 = scan_u64(s, 6);
    proof {
        lemma_digit_run_end_props(gs, 6);
    }
    if sc1.is_none() {
        proof {
            assert forall|idn: nat, iso: Seq<char>|
                idn <= u64::MAX && wf_iso(iso) && rfc3339_secs(iso) is Some && gs
                    == #[trigger] token_json(idn, 10, iso) implies false by {
                lemma_token_json_parts(idn, iso);
                lemma_dec_rep_val(idn);
            }
        }
        return None;
    }
    let (v1, i1) = sc1.unwrap();
    if !match_lit(s, i1, ",\"role\":") {
        proof {
            assert forall|idn: nat, iso: Seq<char>|
                idn <= u64::MAX && wf_iso(iso) && rfc3339_secs(iso) is Some && gs
                    == #[trigger] token_json(idn, 10, iso) implies false by {
                lemma_token_json_parts(idn, iso);
            }
        }
        return None;
    }
    let i2 = i1 + 8;
    let sc2 = scan_u64(s, i2);
    proof {
        lemma_digit_run_end_props(gs, i2 as int);
    }
    if sc2.is_none() {
        proof {
            assert forall|idn: nat, iso: Seq<char>|
                idn <= u64::MAX && wf_iso(iso) && rfc3339_secs(iso) is Some && gs
                    == #[trigger] token_json(idn, 10, iso) implies false by {
                lemma_token_json_parts(idn, iso);
            }
        }
        return None;
    }
    let (v2, i3) = sc2.unwrap();
    if v2 != 10 {
        proof {
            assert forall|idn: nat, iso: Seq<char>|
                idn <= u64::MAX && wf_iso(iso) && rfc3339_secs(iso) is Some && gs
                    == #[trigger] token_json(idn, 10, iso) implies false by {
                lemma_token_json_parts(idn, iso);
            }
        }
        return None;
    }
    let role = Role::Root;
    if !match_lit(s, i3, ",\"issued\":\"") {
        proof {
            assert forall|idn: nat, iso: Seq<char>|
                idn <= u64::MAX && wf_iso(iso) && rfc3339_secs(iso) is Some && gs
                    == #[trigger] token_json(idn, 10, iso) implies false by {
                lemma_token_json_parts(idn, iso);
            }
        }
        return None;
    }
    let i4 = i3 + 11;
    let qpos = find_char_from(s, i4, '"');
    proof {
        lemma_find_from_props(gs, i4 as int, '"');
    }
    if n - qpos != 2 {
        proof {
            assert forall|idn: nat, iso: Seq<char>|
                idn <= u64::MAX && wf_iso(iso) && rfc3339_secs(iso) is Some && gs
                    == #[trigger] token_json(idn, 10, iso) implies false by {
                lemma_token_json_parts(idn, iso);
            }
        }
        return None;
    }
    if !match_lit(s, qpos, "\"}") {
        proof {
            assert forall|idn: nat, iso: Seq<char>|
                idn <= u64::MAX && wf_iso(iso) && rfc3339_secs(iso) is Some && gs
                    == #[trigger] token_json(idn, 10, iso) implies false by {
                lemma_token_json_parts(idn, iso);
            }
        }
        return None;
    }
    let iso_str = s.substring_char(i4, qpos);
    let parsed = parse_rfc3339(iso_str);
    proof {
        // the scanned pieces reassemble the whole string
        let isow = gs.subrange(i4 as int, qpos as int);
        lemma_canonical_dec(gs.subrange(6, i1 as int));
        lemma_canonical_dec(gs.subrange(i2 as int, i3 as int));
        assert(gs.subrange(6, i1 as int) == dec_rep(v1 as nat));
        assert(gs.subrange(i2 as int, i3 as int) == dec_rep(10)) by {
            assert(digits_val(gs.subrange(i2 as int, i3 as int)) == 10);
        }
        assert(gs =~= token_json(v1 as nat, 10, isow)) by {
            assert(gs.subrange(0, 6) == "{\"id\":"@);
            assert(gs.subrange(i1 as int, i2 as int) == ",\"role\":"@);
            assert(gs.subrange(i3 as int, i4 as int) == ",\"issued\":\""@);
            assert(gs.subrange(qpos as int, qpos as int + 2) == "\"}"@);
        }
        assert(wf_iso(isow));
    }
    match parsed {
        Some(ts) => {
            let t = LoginToken { id: v1, role, issued: ts };
            proof {
                let isow = gs.subrange(i4 as int, qpos as int);
                assert(wf_iso(isow) && gs == token_json(t.id as nat, 10, isow) && rfc3339_secs(
                    isow,
                ) == Some(t.issued));
                assert forall|idn: nat, iso: Seq<char>|
                    idn <= u64::MAX && wf_iso(iso) && rfc3339_secs(iso) is Some && gs
                        == #[trigger] token_json(idn, 10, iso) implies Some(t) == Some(
                    LoginToken { id: idn as u64, role: Role::Root, issued: rfc3339_secs(iso).unwrap() },
                ) by {
                    lemma_token_json_parts(idn, iso);
                    assert(i1 as int == 6 + dec_rep(idn).len());
                    assert(v1 as nat == idn);
                    assert(iso =~= isow);
                }
            }
            Some(t)
        },
        None => {
            proof {
                let isow = gs.subrange(i4 as int, qpos as int);
                assert forall|idn: nat, iso: Seq<char>|
                    idn <= u64::MAX && wf_iso(iso) && rfc3339_secs(iso) is Some && gs
                        == #[trigger] token_json(idn, 10, iso) implies false by {
                    lemma_token_json_parts(idn, iso);
                    assert(iso =~= isow);
                }
            }
            None
        },
    }
}

/// Minutes elapsed from `issued` to `now`, truncated toward zero as a
/// minute count of a signed duration is.
pub open spec fn age_minutes(now: i64, issued: i64) -> int {
    if now >= issued {
        (now - issued) / 60
    } else {
        -((issued - now) / 60)
    }
}

/// Defines errors of the token machinery itself, as opposed to reasons a
/// token is invalid.
#[derive(Debug)]
pub enum TokenError {
    /// Failed to serialize the login token (the clock gave a time the codec
    /// cannot render).
    Serialize,
    /// Failed to get the info for a certain user from the store.
    UserInfoRetrieve { id: u64, err: crate::database::DatabaseError },
}

/// Defines reasons why a given token is invalid.
#[derive(Debug)]
pub enum TokenInvalid {
    /// Failed to read some string as a login token.
    Deserialize { raw: String },
    /// The given token has expired.
    Expired { id: u64, age: i64, valid_time: i64 },
    /// A token carried a role that does not match the store's current one.
    IncorrectRole { id: u64, got: Role, expected: Role },
    /// A token references a user that is not in the store.
    UserNotFound { id: u64 },
}

impl TokenInvalid {
    /// The human-readable description of why the token is invalid.
    pub open spec fn message_spec(self) -> Seq<char> {
        match self {
            TokenInvalid::Deserialize { raw } => "Failed to deserialize raw string as login token: "@
                + raw@,
            TokenInvalid::Expired { id, age, valid_time } => "User "@ + dec_rep(id as nat)
                + " presented an expired token of "@ + dec_rep_i64(age)
                + " minutes old (limit is "@ + dec_rep_i64(valid_time) + " minutes)"@,
            TokenInvalid::IncorrectRole { id, got, expected } => "User "@ + dec_rep(id as nat)
                + " role in token does not match role in database (got "@ + role_name_spec(got)
                + ", expected "@ + role_name_spec(expected) + ")"@,
            TokenInvalid::UserNotFound { id } => "User "@ + dec_rep(id as nat)
                + " in token not found"@,
        }
    }

    /// Renders the reason this token is invalid, for diagnostic traces.
    pub fn message(&self) -> (s: String)
        ensures
            s@ == self.message_spec(),
    {
        match self {
            TokenInvalid::Deserialize { raw } => {
                let mut s = String::from_str("Failed to deserialize raw string as login token: ");
                s.append(raw.as_str());
                proof {
                    assert(s@ =~= self.message_spec());
                }
                s
            },
            TokenInvalid::Expired { id, age, valid_time } => {
                let mut s = String::from_str("User ");
                s.append(fmt_u64(*id).as_str());
                s.append(" presented an expired token of ");
                s.append(fmt_i64(*age).as_str());
                s.append(" minutes old (limit is ");
                s.append(fmt_i64(*valid_time).as_str());
                s.append(" minutes)");
                proof {
                    assert(s@ =~= self.message_spec());
                }
                s
            },
            TokenInvalid::IncorrectRole { id, got, expected } => {
                let mut s = String::from_str("User ");
                s.append(fmt_u64(*id).as_str());
                s.append(" role in token does not match role in database (got ");
                s.append(got.name());
                s.append(", expected ");
                s.append(expected.name());
                s.append(")");
                proof {
                    assert(s@ =~= self.message_spec());
                }
                s
            },
            TokenInvalid::UserNotFound { id } => {
                let mut s = String::from_str("User ");
                s.append(fmt_u64(*id).as_str());
                s.append(" in token not found");
                proof {
                    assert(s@ =~= self.message_spec());
                }
                s
            },
        }
    }
}

/// Creates an opaque login string that can be sent to users to authorize
/// them post-login, issued at the current time.
///
/// Note that this token is not signed; another layer of protection must
/// wrap it in transit. Errors only when the clock reports a time the codec
/// cannot render.
pub fn create_token(id: u64, role: Role) -> (r: Result<String, TokenError>)
    ensures
        r matches Ok(s) ==> exists|t: i64|
            0 <= t <= MAX_ENCODABLE_TS && s@ == token_json(
                id as nat,
                role_code_spec(role),
                #[trigger] iso_utc_of(t),
            ) && wf_iso(iso_utc_of(t)) && rfc3339_secs(iso_utc_of(t)) == Some(t),
        r matches Err(e) ==> e matches TokenError::Serialize,
{
    let now = now_unix();
    if now < 0 || now > MAX_ENCODABLE_TS {
        return Err(TokenError::Serialize);
    }
    let s = create_token_at(id, role, now);
    proof {
        assert(0 <= now <= MAX_ENCODABLE_TS && s@ == token_json(
            id as nat,
            role_code_spec(role),
            iso_utc_of(now),
        ) && wf_iso(iso_utc_of(now)) && rfc3339_secs(iso_utc_of(now)) == Some(now));
    }
    Ok(s)
}

/// Verifies a presented token against the store at the given time.
///
/// The terminal outcomes keep their three-way shape: a hard store failure
/// (`Err`), a semantically invalid token (`Ok(Err(_))`), or the
/// authoritative user record (`Ok(Ok(_))`). The checks run in a fixed
/// order: decoding, then freshness, then existence in the store, then role
/// consistency.
pub fn check_token_at(database: &Database, token: &str, now: i64) -> (r: Result<
    Result<UserInfo, TokenInvalid>,
    TokenError,
>)
    requires
        -TS_ABS_BOUND <= now <= TS_ABS_BOUND,
    ensures
        r matches Ok(Ok(u)) ==> database.initialized() && database.users().dom().contains(u.id)
            && u@ == database.users()[u.id] && u.role == Role::Root && (exists|iso: Seq<char>|
            #[trigger] wf_iso(iso) && token@ == token_json(u.id as nat, 10, iso) && rfc3339_secs(
                iso,
            ) is Some && age_minutes(now, rfc3339_secs(iso).unwrap()) <= TOKEN_VALID_TIME_MIN),
        r matches Ok(Err(TokenInvalid::Deserialize { raw })) ==> raw@ == token@ && !(exists|
            idn: nat,
            iso: Seq<char>,
        |
            idn <= u64::MAX && wf_iso(iso) && rfc3339_secs(iso) is Some && token@
                == #[trigger] token_json(idn, 10, iso)),
        r matches Ok(Err(TokenInvalid::Expired { id, age, valid_time })) ==> valid_time
            == TOKEN_VALID_TIME_MIN && age > TOKEN_VALID_TIME_MIN && (exists|iso: Seq<char>|
            #[trigger] wf_iso(iso) && token@ == token_json(id as nat, 10, iso) && rfc3339_secs(
                iso,
            ) is Some && age == age_minutes(now, rfc3339_secs(iso).unwrap())),
        r matches Ok(Err(TokenInvalid::UserNotFound { id })) ==> !(database.initialized()
            && database.users().dom().contains(id)) && (exists|iso: Seq<char>|
            #[trigger] wf_iso(iso) && token@ == token_json(id as nat, 10, iso) && rfc3339_secs(
                iso,
            ) is Some && age_minutes(now, rfc3339_secs(iso).unwrap()) <= TOKEN_VALID_TIME_MIN),
        r matches Ok(Err(TokenInvalid::IncorrectRole { id, got, expected })) ==> got != expected
            && database.initialized() && database.users().dom().contains(id) && role_code_spec(
            expected,
        ) as u8 == database.users()[id].role && (exists|iso: Seq<char>|
            #[trigger] wf_iso(iso) && token@ == token_json(id as nat, 10, iso) && rfc3339_secs(
                iso,
            ) is Some && age_minutes(now, rfc3339_secs(iso).unwrap()) <= TOKEN_VALID_TIME_MIN),
        r matches Err(TokenError::UserInfoRetrieve { id, .. }) ==> exists|iso: Seq<char>|
            #[trigger] wf_iso(iso) && token@ == token_json(id as nat, 10, iso) && rfc3339_secs(
                iso,
            ) is Some && age_minutes(now, rfc3339_secs(iso).unwrap()) <= TOKEN_VALID_TIME_MIN,
        !(r matches Err(TokenError::Serialize)),
        forall|idn: nat, iso: Seq<char>|
            idn <= u64::MAX && wf_iso(iso) && rfc3339_secs(iso) is Some && token@
                == #[trigger] token_json(idn, 10, iso) ==> {
                let age = age_minutes(now, rfc3339_secs(iso).unwrap());
                let id = idn as u64;
                &&& (age > TOKEN_VALID_TIME_MIN ==> r == Ok::<Result<UserInfo, TokenInvalid>, TokenError>(
                    Err(
                        TokenInvalid::Expired {
                            id,
                            age: age as i64,
                            valid_time: TOKEN_VALID_TIME_MIN,
                        },
                    ),
                ))
                &&& (age <= TOKEN_VALID_TIME_MIN && !(database.initialized()
                    && database.users().dom().contains(id)) ==> (r == Ok::<
                    Result<UserInfo, TokenInvalid>,
                    TokenError,
                >(Err(TokenInvalid::UserNotFound { id })) || (r matches Err(
                    TokenError::UserInfoRetrieve { id: eid, .. },
                ) && eid == id)))
                &&& (age <= TOKEN_VALID_TIME_MIN && database.initialized()
                    && database.users().dom().contains(id) ==> ((r matches Ok(Ok(u)) && u.id == id
                    && u@ == database.users()[id]) || (r matches Err(
                    TokenError::UserInfoRetrieve { id: eid, .. },
                ) && eid == id)))
            },
{
    let t: LoginToken = match parse_token(token) {
        Some(t) => t,
        None => {
            return Ok(Err(TokenInvalid::Deserialize { raw: token.to_owned() }));
        },
    };
    // freshness: minutes since issuance, truncated toward zero
    let age: i64 = if now >= t.issued {
        ((now - t.issued) as u64 / 60) as i64
    } else {
        -(((t.issued - now) as u64 / 60) as i64)
    };
    proof {
        assert(age == age_minutes(now, t.issued));
    }
    if age > TOKEN_VALID_TIME_MIN {
        return Ok(
            Err(TokenInvalid::Expired { id: t.id, age, valid_time: TOKEN_VALID_TIME_MIN }),
        );
    }
    match database.get_user_by_id(t.id) {
        Ok(Some(user)) => {
            if user.role == t.role {
                Ok(Ok(user))
            } else {
                Ok(
                    Err(
                        TokenInvalid::IncorrectRole {
                            id: user.id,
                            got: t.role,
                            expected: user.role,
                        },
                    ),
                )
            }
        },
        Ok(None) => Ok(Err(TokenInvalid::UserNotFound { id: t.id })),
        Err(err) => Err(TokenError::UserInfoRetrieve { id: t.id, err }),
    }
}

/// Verifies a presented token against the store at the current time.
///
/// Every clause of [`check_token_at`] that does not speak of the clock
/// carries over: each outcome ties the result back to the presented string.
pub fn check_token(database: &Database, token: &str) -> (r: Result<
    Result<UserInfo, TokenInvalid>,
    TokenError,
>)
    ensures
        r matches Ok(Ok(u)) ==> database.initialized() && database.users().dom().contains(u.id)
            && u@ == database.users()[u.id] && u.role == Role::Root && (exists|iso: Seq<char>|
            #[trigger] wf_iso(iso) && token@ == token_json(u.id as nat, 10, iso) && rfc3339_secs(
                iso,
            ) is Some),
        r matches Ok(Err(TokenInvalid::Deserialize { raw })) ==> raw@ == token@ && !(exists|
            idn: nat,
            iso: Seq<char>,
        |
            idn <= u64::MAX && wf_iso(iso) && rfc3339_secs(iso) is Some && token@
                == #[trigger] token_json(idn, 10, iso)),
        r matches Ok(Err(TokenInvalid::Expired { id, age, valid_time })) ==> valid_time
            == TOKEN_VALID_TIME_MIN && age > TOKEN_VALID_TIME_MIN && (exists|iso: Seq<char>|
            #[trigger] wf_iso(iso) && token@ == token_json(id as nat, 10, iso) && rfc3339_secs(
                iso,
            ) is Some),
        r matches Ok(Err(TokenInvalid::UserNotFound { id })) ==> !(database.initialized()
            && database.users().dom().contains(id)) && (exists|iso: Seq<char>|
            #[trigger] wf_iso(iso) && token@ == token_json(id as nat, 10, iso) && rfc3339_secs(
                iso,
            ) is Some),
        r matches Ok(Err(TokenInvalid::IncorrectRole { id, got, expected })) ==> got != expected
            && database.initialized() && database.users().dom().contains(id),
        r matches Err(TokenError::UserInfoRetrieve { id, .. }) ==> exists|iso: Seq<char>|
            #[trigger] wf_iso(iso) && token@ == token_json(id as nat, 10, iso) && rfc3339_secs(
                iso,
            ) is Some,
        !(r matches Err(TokenError::Serialize)),
{
    check_token_at(database, token, now_unix())
}

} // verus!
