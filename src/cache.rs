use vstd::prelude::*;

use crate::token::AuthToken;

verus! {

/// The members of the JSON object that `text` holds, as serde_json's map keeps
/// them (each key once, a repeated key with its last value): a string member with
/// its text, any other member with none; `None` when `text` holds no object.
pub uninterp spec fn json_object_of(text: Seq<char>) -> Option<Seq<(Seq<char>, Option<Seq<char>>)>>;

/// The JSON text of an object whose members are the given strings.
pub uninterp spec fn json_object_text(members: Seq<(Seq<char>, Seq<char>)>) -> Seq<char>;

/// The instant, in whole seconds since the Unix epoch, that an RFC 3339 date-time
/// text names; `None` when it is no such text.
pub uninterp spec fn utc_seconds_of(text: Seq<char>) -> Option<i64>;

/// The RFC 3339 text (whole seconds, `Z` offset) of an instant given in seconds
/// since the Unix epoch; `None` outside the representable dates.
pub uninterp spec fn rfc3339_of(secs: i64) -> Option<Seq<char>>;

pub open spec fn member_view(m: (String, Option<String>)) -> (Seq<char>, Option<Seq<char>>) {
    (
        m.0@,
        match m.1 {
            Some(s) => Some(s@),
            None => None,
        },
    )
}

pub open spec fn members_view(ms: Seq<(String, Option<String>)>) -> Seq<(Seq<char>, Option<Seq<char>>)> {
    ms.map_values(|m: (String, Option<String>)| member_view(m))
}

pub open spec fn pairs_view(ps: Seq<(String, String)>) -> Seq<(Seq<char>, Seq<char>)> {
    ps.map_values(|p: (String, String)| (p.0@, p.1@))
}

/// Relies on `serde_json::from_str` reading a `serde_json::Map`: the members of the
/// object, each string value moved out as text and any other value dropped.
#[verifier::external_body]
fn parse_json_object(text: &str) -> (r: Option<Vec<(String, Option<String>)>>)
    ensures
        match r {
            Some(v) => json_object_of(text@) == Some(members_view(v@)),
            None => json_object_of(text@) is None,
        },
{
    match serde_json::from_str::<serde_json::Map<String, serde_json::Value>>(text) {
        Ok(m) => Some(
            m.into_iter().map(|(k, v)| match v {
                serde_json::Value::String(s) => (k, Some(s)),
                _ => (k, None),
            }).collect(),
        ),
        Err(_) => None,
    }
}

/// Relies on `serde_json::Value::to_string` on an object of string members.
#[verifier::external_body]
fn write_json_object(members: &Vec<(String, String)>) -> (r: String)
    ensures
        r@ == json_object_text(pairs_view(members@)),
{
    let m: serde_json::Map<String, serde_json::Value> = members.iter().map(
        |(k, v)| (k.clone(), serde_json::Value::String(v.clone())),
    ).collect();
    serde_json::Value::Object(m).to_string()
}

/// Relies on chrono's `FromStr` for `DateTime<Utc>` (RFC 3339, relaxed) and on
/// `DateTime::timestamp` (whole seconds since the epoch).
#[verifier::external_body]
fn parse_utc_seconds(text: &str) -> (r: Option<i64>)
    ensures
        r == utc_seconds_of(text@),
{
    text.parse::<chrono::DateTime<chrono::Utc>>().ok().map(|d| d.timestamp())
}

/// Relies on chrono's `DateTime::from_timestamp` (`None` out of range) and
/// `to_rfc3339_opts` with whole seconds and a `Z` offset.
#[verifier::external_body]
fn rfc3339_text(secs: i64) -> (r: Option<String>)
    ensures
        match r {
            Some(s) => rfc3339_of(secs) == Some(s@),
            None => rfc3339_of(secs) is None,
        },
{
    chrono::DateTime::from_timestamp(secs, 0).map(
        |d| d.to_rfc3339_opts(chrono::SecondsFormat::Secs, true),
    )
}

/// The value of the first member named `key`, when that value is a string.
pub open spec fn member_text(ms: Seq<(Seq<char>, Option<Seq<char>>)>, key: Seq<char>) -> Option<Seq<char>>
    decreases ms.len(),
{
    if ms.len() == 0 {
        None
    } else if ms[0].0 == key {
        ms[0].1
    } else {
        member_text(ms.drop_first(), key)
    }
}

/// The token that a cache record describes, as (client id, access token, expiry),
/// if the record is complete and the token is still usable at `now`.
pub open spec fn token_of_members(ms: Seq<(Seq<char>, Option<Seq<char>>)>, now: int) -> Option<
    (Seq<char>, Seq<char>, i64),
> {
    match (member_text(ms, "client_id"@), member_text(ms, "access_token"@), member_text(ms, "expires_at"@)) {
        (Some(c), Some(a), Some(e)) => match utc_seconds_of(e) {
            Some(secs) => if now < secs {
                Some((c, a, secs))
            } else {
                None
            },
            None => None,
        },
        _ => None,
    }
}

/// What `load` gives for a cache file's text at instant `now`.
pub open spec fn token_of_text(text: Seq<char>, now: int) -> Option<(Seq<char>, Seq<char>, i64)> {
    match json_object_of(text) {
        Some(ms) => token_of_members(ms, now),
        None => None,
    }
}

pub open spec fn token_view(t: AuthToken) -> (Seq<char>, Seq<char>, i64) {
    (t.client_id@, t.access_token@, t.expires_at)
}

pub open spec fn opt_token_view(t: Option<AuthToken>) -> Option<(Seq<char>, Seq<char>, i64)> {
    match t {
        Some(t) => Some(token_view(t)),
        None => None,
    }
}

/// The members written for a token whose expiry reads `expiry_text`.
pub open spec fn record_members(t: AuthToken, expiry_text: Seq<char>) -> Seq<(Seq<char>, Seq<char>)> {
    seq![
        ("client_id"@, t.client_id@),
        ("access_token"@, t.access_token@),
        ("expires_at"@, expiry_text),
    ]
}

/// Those members as a reader of the object finds them again.
pub open spec fn record_members_read(t: AuthToken, expiry_text: Seq<char>) -> Seq<(Seq<char>, Option<Seq<char>>)> {
    seq![
        ("client_id"@, Some(t.client_id@)),
        ("access_token"@, Some(t.access_token@)),
        ("expires_at"@, Some(expiry_text)),
    ]
}

/// The string value of the first member named `key`.
pub fn member_value(members: &Vec<(String, Option<String>)>, key: &String) -> (r: Option<String>)
    ensures
        match r {
            Some(s) => member_text(members_view(members@), key@) == Some(s@),
            None => member_text(members_view(members@), key@) is None,
        },
{
    let ghost all = members_view(members@);
    assert(all.subrange(0, all.len() as int) =~= all);
    let mut i: usize = 0;
    while i < members.len()
        invariant
            i <= members.len(),
            all == members_view(members@),
            member_text(all, key@) == member_text(all.subrange(i as int, all.len() as int), key@),
        decreases members.len() - i,
    {
        let ghost rest = all.subrange(i as int, all.len() as int);
        assert(rest.drop_first() =~= all.subrange(i + 1, all.len() as int));
        assert(rest[0] == member_view(members@[i as int]));
        if members[i].0 == *key {
            return match &members[i].1 {
                Some(s) => Some(s.clone()),
                None => None,
            };
        }
        i += 1;
    }
    None
}

/// Reads a token back from the members of a cache record: the token, if the
/// record is complete and the token is still usable at `now`.
pub fn token_from_members(members: &Vec<(String, Option<String>)>, now: i64) -> (r: Option<AuthToken>)
    ensures
        opt_token_view(r) == token_of_members(members_view(members@), now as int),
        r matches Some(t) ==> now < t.expires_at,
{
    let client_id = member_value(members, &String::from_str("client_id"));
    let access_token = member_value(members, &String::from_str("access_token"));
    let expires_at = member_value(members, &String::from_str("expires_at"));
    match (client_id, access_token, expires_at) {
        (Some(c), Some(a), Some(e)) => match parse_utc_seconds(e.as_str()) {
            Some(secs) => if now < secs {
                Some(AuthToken { client_id: c, access_token: a, expires_at: secs })
            } else {
                None
            },
            None => None,
        },
        _ => None,
    }
}

/// Reads a token back from the text of the cache file. Any text that is not a
/// complete record, and any token that is no longer usable at `now`, gives `None`.
pub fn decode_cached_token(text: &str, now: i64) -> (r: Option<AuthToken>)
    ensures
        opt_token_view(r) == token_of_text(text@, now as int),
        r matches Some(t) ==> now < t.expires_at,
{
    match parse_json_object(text) {
        Some(members) => token_from_members(&members, now),
        None => None,
    }
}

/// The members of the cache record of a token, or `None` when its expiry has no
/// date-time text.
pub fn token_members(t: &AuthToken) -> (r: Option<Vec<(String, String)>>)
    ensures
        match r {
            Some(v) => exists|e: Seq<char>| rfc3339_of(t.expires_at) == Some(e) && pairs_view(v@) == record_members(*t, e),
            None => rfc3339_of(t.expires_at) is None,
        },
{
    match rfc3339_text(t.expires_at) {
        Some(e) => {
            let mut v: Vec<(String, String)> = Vec::new();
            v.push((String::from_str("client_id"), t.client_id.clone()));
            v.push((String::from_str("access_token"), t.access_token.clone()));
            v.push((String::from_str("expires_at"), e));
            assert(pairs_view(v@) =~= record_members(*t, e@));
            Some(v)
        },
        None => None,
    }
}

/// The text that the cache file holds for a token, or `None` when its expiry has
/// no date-time text.
pub fn encode_token(t: &AuthToken) -> (r: Option<String>)
    ensures
        match r {
            Some(s) => exists|e: Seq<char>| rfc3339_of(t.expires_at) == Some(e) && s@ == json_object_text(record_members(*t, e)),
            None => rfc3339_of(t.expires_at) is None,
        },
{
    match token_members(t) {
        Some(v) => Some(write_json_object(&v)),
        None => None,
    }
}

/// A token's record, found again member by member, gives back exactly that token
/// while it is usable at `now`, and nothing once it is not, provided its expiry
/// text reads back as the same instant.
pub proof fn lemma_record_reads_back(t: AuthToken, expiry_text: Seq<char>, now: int)
    requires
        utc_seconds_of(expiry_text) == Some(t.expires_at),
    ensures
        token_of_members(record_members_read(t, expiry_text), now) == if now < t.expires_at {
            Some(token_view(t))
        } else {
            None
        },
{
    let ms = record_members_read(t, expiry_text);
    reveal_strlit("client_id");
    reveal_strlit("access_token");
    reveal_strlit("expires_at");
    assert(ms.drop_first()[0] == ms[1]);
    assert(ms.drop_first().drop_first()[0] == ms[2]);
    assert(member_text(ms, "client_id"@) == Some(t.client_id@));
    assert("access_token"@[0] != "client_id"@[0]);
    assert(member_text(ms.drop_first(), "access_token"@) == Some(t.access_token@));
    assert(member_text(ms, "access_token"@) == Some(t.access_token@));
    assert("expires_at"@[0] != "client_id"@[0]);
    assert("expires_at"@[0] != "access_token"@[0]);
    assert(member_text(ms.drop_first().drop_first(), "expires_at"@) == Some(expiry_text));
    assert(member_text(ms.drop_first(), "expires_at"@) == Some(expiry_text));
    assert(member_text(ms, "expires_at"@) == Some(expiry_text));
}

} // verus!
