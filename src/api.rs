use vstd::prelude::*;

verus! {

/// The query of a request that lists `logins`: one `key=login` parameter per
/// login, in the given order.
pub open spec fn login_query_of(key: Seq<char>, logins: Seq<String>) -> Seq<(Seq<char>, Seq<char>)> {
    logins.map_values(|l: String| (key, l@))
}

pub open spec fn query_view(q: Seq<(String, String)>) -> Seq<(Seq<char>, Seq<char>)> {
    q.map_values(|p: (String, String)| (p.0@, p.1@))
}

/// One `key=login` parameter per login, in order.
pub fn login_query(key: &str, logins: &Vec<String>) -> (r: Vec<(String, String)>)
    ensures
        query_view(r@) == login_query_of(key@, logins@),
{
    let mut r: Vec<(String, String)> = Vec::new();
    let mut i: usize = 0;
    while i < logins.len()
        invariant
            i <= logins.len(),
            query_view(r@) =~= login_query_of(key@, logins@).subrange(0, i as int),
        decreases logins.len() - i,
    {
        let ghost before = r@;
        let k = String::from_str(key);
        let l = logins[i].clone();
        r.push((k, l));
        assert(query_view(r@) =~= query_view(before).push((key@, logins@[i as int]@)));
        i += 1;
    }
    assert(login_query_of(key@, logins@).subrange(0, i as int) =~= login_query_of(key@, logins@));
    r
}

/// The query that resolves login names to users.
pub fn users_query(logins: &Vec<String>) -> (r: Vec<(String, String)>)
    ensures
        query_view(r@) == login_query_of("login"@, logins@),
{
    login_query("login", logins)
}

/// The query that lists the live streams of the given logins.
pub fn streams_query(logins: &Vec<String>) -> (r: Vec<(String, String)>)
    ensures
        query_view(r@) == login_query_of("user_login"@, logins@),
{
    login_query("user_login", logins)
}

/// The query of a client-credentials grant.
pub fn token_request_query(client_id: &str, client_secret: &str) -> (r: Vec<(String, String)>)
    ensures
        query_view(r@) == seq![
            ("client_id"@, client_id@),
            ("client_secret"@, client_secret@),
            ("grant_type"@, "client_credentials"@),
        ],
{
    let mut r: Vec<(String, String)> = Vec::new();
    r.push((String::from_str("client_id"), String::from_str(client_id)));
    r.push((String::from_str("client_secret"), String::from_str(client_secret)));
    r.push((String::from_str("grant_type"), String::from_str("client_credentials")));
    assert(query_view(r@) =~= seq![
        ("client_id"@, client_id@),
        ("client_secret"@, client_secret@),
        ("grant_type"@, "client_credentials"@),
    ]);
    r
}

} // verus!
