use vstd::prelude::*;

use crate::text::{decimal, decimal_text, joined};

verus! {

/// Title of the notice sent once monitoring starts.
pub const APP_NAME: &'static str = "stream watcher";

/// A channel being watched, resolved once from its login name.
#[derive(Clone, Debug)]
pub struct TrackedUser {
    pub id: String,
    pub login: String,
    pub display_name: String,
}

impl View for TrackedUser {
    type V = (Seq<char>, Seq<char>, Seq<char>);

    open spec fn view(&self) -> (Seq<char>, Seq<char>, Seq<char>) {
        (self.id@, self.login@, self.display_name@)
    }
}

impl TrackedUser {
    /// A copy with the same id, login and display name.
    pub fn copied(&self) -> (r: TrackedUser)
        ensures
            r@ == self@,
    {
        TrackedUser {
            id: self.id.clone(),
            login: self.login.clone(),
            display_name: self.display_name.clone(),
        }
    }
}

/// Lexicographic order of texts, character by character in code-point order; a
/// prefix comes first.
#[verifier::opaque]
pub open spec fn text_le(a: Seq<char>, b: Seq<char>) -> bool
    decreases a.len(),
{
    if a.len() == 0 {
        true
    } else if b.len() == 0 {
        false
    } else if a[0] != b[0] {
        (a[0] as u32) < (b[0] as u32)
    } else {
        text_le(a.drop_first(), b.drop_first())
    }
}

/// Two texts each ordered before the other are the same text.
pub proof fn lemma_text_le_antisymmetric(a: Seq<char>, b: Seq<char>)
    requires
        text_le(a, b),
        text_le(b, a),
    ensures
        a == b,
    decreases a.len(),
{
    reveal(text_le);
    if a.len() > 0 && b.len() > 0 {
        if a[0] == b[0] {
            lemma_text_le_antisymmetric(a.drop_first(), b.drop_first());
            assert(a =~= seq![a[0]] + a.drop_first());
            assert(b =~= seq![b[0]] + b.drop_first());
        } else {
            assert((a[0] as u32) != (b[0] as u32));
        }
    } else {
        assert(a.len() == 0 && b.len() == 0);
        assert(a =~= b);
    }
}

/// Whether position `j` ends a run of users with the same id.
pub open spec fn last_of_run(s: Seq<TrackedUser>, j: int) -> bool {
    j + 1 == s.len() || s[j].id@ != s[j + 1].id@
}

/// Every user of a sequence shares its id with a user at or after it that ends a run.
pub proof fn lemma_run_ends_in_kept(s: Seq<TrackedUser>, m: int)
    requires
        0 <= m < s.len(),
    ensures
        exists|e: int| m <= e < s.len() && #[trigger] last_of_run(s, e) && s[e].id@ == s[m].id@,
    decreases s.len() - m,
{
    if !last_of_run(s, m) {
        lemma_run_ends_in_kept(s, m + 1);
        let e = choose|e: int| m + 1 <= e < s.len() && #[trigger] last_of_run(s, e) && s[e].id@ == s[m + 1].id@;
        assert(m <= e < s.len() && last_of_run(s, e) && s[e].id@ == s[m].id@);
    }
}

/// `out` holds, at the increasing positions `idx`, the users of `s` that end a run
/// of equal ids, and every such user.
pub open spec fn kept_positions(s: Seq<TrackedUser>, out: Seq<TrackedUser>, idx: Seq<int>) -> bool {
    &&& out.len() == idx.len()
    &&& forall|k: int|
        #![trigger idx[k]]
        0 <= k < idx.len() ==> 0 <= idx[k] < s.len() && last_of_run(s, idx[k]) && out[k]@ == s[idx[k]]@
    &&& forall|k: int, l: int| 0 <= k < l < idx.len() ==> idx[k] < idx[l]
    &&& forall|j: int| 0 <= j < s.len() && #[trigger] last_of_run(s, j) ==> idx.contains(j)
}

/// Two users kept from a sorted sequence, the last of each run of equal ids, are
/// strictly ordered by id.
proof fn lemma_kept_ordered(s: Seq<TrackedUser>, out: Seq<TrackedUser>, idx: Seq<int>, k: int, l: int)
    requires
        forall|a: int, b: int| 0 <= a < b < s.len() ==> text_le(s[a].id@, s[b].id@),
        kept_positions(s, out, idx),
        0 <= k < l < out.len(),
    ensures
        text_le(out[k].id@, out[l].id@),
        out[k].id@ != out[l].id@,
{
    let a = idx[k];
    let b = idx[l];
    assert(a < b);
    assert(out[k].id@ == s[a].id@);
    assert(out[l].id@ == s[b].id@);
    assert(text_le(s[a].id@, s[b].id@));
    if s[a].id@ == s[b].id@ {
        assert(text_le(s[a].id@, s[a + 1].id@));
        if a + 1 < b {
            assert(text_le(s[a + 1].id@, s[b].id@));
        }
        lemma_text_le_antisymmetric(s[a].id@, s[a + 1].id@);
    }
}

/// Each kept user is one of the given users.
proof fn lemma_kept_given(given: Seq<TrackedUser>, s: Seq<TrackedUser>, out: Seq<TrackedUser>, idx: Seq<int>, k: int)
    requires
        s.to_multiset() == given.to_multiset(),
        kept_positions(s, out, idx),
        0 <= k < out.len(),
    ensures
        is_one_of(out[k], given),
{
    broadcast use vstd::seq_lib::group_to_multiset_ensures;
    let x = s[idx[k]];
    assert(s.contains(x));
    assert(s.to_multiset().count(x) > 0);
    assert(given.contains(x));
    let j = choose|j: int| 0 <= j < given.len() && given[j] == x;
    assert(out[k]@ == given[j]@);
}

/// Each given id is the id of a kept user.
proof fn lemma_given_kept(given: Seq<TrackedUser>, s: Seq<TrackedUser>, out: Seq<TrackedUser>, idx: Seq<int>, m: int)
    requires
        s.to_multiset() == given.to_multiset(),
        kept_positions(s, out, idx),
        0 <= m < given.len(),
    ensures
        has_id(out, given[m].id@),
{
    broadcast use vstd::seq_lib::group_to_multiset_ensures;
    let x = given[m];
    assert(given.contains(x));
    assert(given.to_multiset().count(x) > 0);
    assert(s.contains(x));
    let j = choose|j: int| 0 <= j < s.len() && s[j] == x;
    lemma_run_ends_in_kept(s, j);
    let e = choose|e: int| j <= e < s.len() && #[trigger] last_of_run(s, e) && s[e].id@ == s[j].id@;
    assert(idx.contains(e));
    let k = choose|k: int| 0 <= k < idx.len() && idx[k] == e;
    assert(out[k].id@ == given[m].id@);
}

proof fn lemma_kept_all(given: Seq<TrackedUser>, s: Seq<TrackedUser>, out: Seq<TrackedUser>, idx: Seq<int>)
    requires
        s.to_multiset() == given.to_multiset(),
        kept_positions(s, out, idx),
    ensures
        drawn_from(out, given),
        covers_ids(out, given),
{
    assert forall|k: int| 0 <= k < out.len() implies #[trigger] is_one_of(out[k], given) by {
        lemma_kept_given(given, s, out, idx, k);
    }
    assert forall|m: int| 0 <= m < given.len() implies #[trigger] has_id(out, given[m].id@) by {
        lemma_given_kept(given, s, out, idx, m);
    }
}

/// Ids strictly increase along `r`, so that no id occurs twice.
pub open spec fn ordered_by_id(r: Seq<TrackedUser>) -> bool {
    forall|k: int, l: int|
        0 <= k < l < r.len() ==> text_le(r[k].id@, r[l].id@) && r[k].id@ != r[l].id@
}

/// Each user of `r` is, field for field, one of `users`.
pub open spec fn drawn_from(r: Seq<TrackedUser>, users: Seq<TrackedUser>) -> bool {
    forall|k: int| 0 <= k < r.len() ==> #[trigger] is_one_of(r[k], users)
}

/// `u` is, field for field, one of `users`.
pub open spec fn is_one_of(u: TrackedUser, users: Seq<TrackedUser>) -> bool {
    exists|m: int| 0 <= m < users.len() && #[trigger] users[m]@ == u@
}

/// Some user of `r` has the id `id`.
pub open spec fn has_id(r: Seq<TrackedUser>, id: Seq<char>) -> bool {
    exists|k: int| 0 <= k < r.len() && #[trigger] r[k].id@ == id
}

/// Each id of `users` is the id of a user of `r`.
pub open spec fn covers_ids(r: Seq<TrackedUser>, users: Seq<TrackedUser>) -> bool {
    forall|m: int| 0 <= m < users.len() ==> #[trigger] has_id(r, users[m].id@)
}

/// Relies on `slice::sort_by_key`: a stable sort of the users by id, where `Ord`
/// for `String` compares lexicographically in code-point order.
#[verifier::external_body]
fn sort_by_id(users: &mut Vec<TrackedUser>)
    ensures
        final(users)@.to_multiset() == old(users)@.to_multiset(),
        forall|i: int, j: int|
            0 <= i < j < final(users)@.len() ==> text_le(final(users)@[i].id@, final(users)@[j].id@),
{
    users.sort_by_key(|u| u.id.clone())
}

/// The given users in strictly increasing order of id: one user for each id that
/// occurs, each of them one of the given users.
pub fn tracked_by_id(users: Vec<TrackedUser>) -> (r: Vec<TrackedUser>)
    ensures
        ordered_by_id(r@),
        drawn_from(r@, users@),
        covers_ids(r@, users@),
{
    let ghost given = users@;
    let mut sorted = users;
    sort_by_id(&mut sorted);
    let ghost s = sorted@;
    let mut out: Vec<TrackedUser> = Vec::new();
    let ghost mut idx: Seq<int> = Seq::empty();
    let mut i: usize = 0;
    while i < sorted.len()
        invariant
            i <= s.len(),
            sorted@ == s,
            out@.len() == idx.len(),
            forall|k: int|
                #![trigger idx[k]]
                0 <= k < idx.len() ==> 0 <= idx[k] < i && last_of_run(s, idx[k]) && out@[k]@ == s[idx[k]]@,
            forall|k: int, l: int| 0 <= k < l < idx.len() ==> idx[k] < idx[l],
            forall|j: int| 0 <= j < i && #[trigger] last_of_run(s, j) ==> idx.contains(j),
        decreases s.len() - i,
    {
        let keep = i + 1 == sorted.len() || sorted[i].id != sorted[i + 1].id;
        if keep {
            let u = sorted[i].copied();
            out.push(u);
            proof {
                let old_idx = idx;
                idx = idx.push(i as int);
                assert forall|j: int| 0 <= j < i + 1 && #[trigger] last_of_run(s, j) implies idx.contains(j) by {
                    if j < i {
                        let k = choose|k: int| 0 <= k < old_idx.len() && old_idx[k] == j;
                        assert(idx[k] == j);
                    } else {
                        assert(idx[old_idx.len() as int] == j);
                    }
                }
            }
        }
        i += 1;
    }
    proof {
        assert(kept_positions(s, out@, idx));
        assert forall|k: int, l: int| 0 <= k < l < out@.len() implies text_le(out@[k].id@, out@[l].id@)
            && out@[k].id@ != out@[l].id@ by {
            lemma_kept_ordered(s, out@, idx, k, l);
        }
        lemma_kept_all(given, s, out@, idx);
    }
    out
}

/// One live stream as reported by a poll; `started_at` is in seconds since the Unix epoch.
#[derive(Clone, Debug)]
pub struct StreamRecord {
    pub id: String,
    pub user_id: String,
    pub game_id: String,
    pub game_name: String,
    pub viewer_count: u32,
    pub started_at: i64,
}

/// A desktop notification to be shown: a title and a body.
#[derive(Clone, Debug)]
pub struct Notice {
    pub title: String,
    pub body: String,
}

/// The viewer count that a poll reports for `id`: that of the last record of this
/// user, or 0 when the user has no live stream.
pub open spec fn count_in(streams: Seq<StreamRecord>, id: Seq<char>) -> u32
    decreases streams.len(),
{
    if streams.len() == 0 {
        0
    } else if streams.last().user_id@ == id {
        streams.last().viewer_count
    } else {
        count_in(streams.drop_last(), id)
    }
}

/// The snapshot of a poll: one count for each tracked user, in the users' order.
pub open spec fn snapshot_of(users: Seq<TrackedUser>, streams: Seq<StreamRecord>) -> Seq<u32> {
    Seq::new(users.len(), |i: int| count_in(streams, users[i].id@))
}

/// How a viewer count is worded; the word itself is never pluralised.
pub open spec fn viewer_phrase(n: nat) -> Seq<char> {
    if n == 0 {
        "no viewer"@
    } else if n == 1 {
        "1 viewer"@
    } else {
        decimal(n) + " viewer"@
    }
}

/// One line of the start-up notice: the display name and the worded count.
pub open spec fn startup_line(u: TrackedUser, count: nat) -> Seq<char> {
    u.display_name@ + " ("@ + viewer_phrase(count) + ")"@
}

/// The start-up lines of the users, separated by line breaks.
pub open spec fn startup_lines(users: Seq<TrackedUser>, streams: Seq<StreamRecord>) -> Seq<char>
    decreases users.len(),
{
    if users.len() == 0 {
        Seq::empty()
    } else if users.len() == 1 {
        startup_line(users[0], count_in(streams, users[0].id@) as nat)
    } else {
        startup_lines(users.drop_last(), streams) + "\n"@ + startup_line(
            users.last(),
            count_in(streams, users.last().id@) as nat,
        )
    }
}

/// Body of the start-up notice.
pub open spec fn startup_body(users: Seq<TrackedUser>, streams: Seq<StreamRecord>) -> Seq<char> {
    "Start monitoring some streams !\n"@ + startup_lines(users, streams)
}

/// Body of the notice sent when a user's count changes.
pub open spec fn update_body(n: nat) -> Seq<char> {
    "Updated viewer count: "@ + decimal(n)
}

/// The positions, among the first `n`, at which the two snapshots differ, in order.
pub open spec fn changed_indices(prev: Seq<u32>, curr: Seq<u32>, n: nat) -> Seq<int>
    decreases n,
{
    if n == 0 {
        Seq::empty()
    } else if prev[n - 1] != curr[n - 1] {
        changed_indices(prev, curr, (n - 1) as nat).push(n - 1)
    } else {
        changed_indices(prev, curr, (n - 1) as nat)
    }
}

/// The notices of one poll, as (title, body) pairs: one for each user whose count
/// changed, in the users' order, titled with the display name.
pub open spec fn change_notices(users: Seq<TrackedUser>, prev: Seq<u32>, curr: Seq<u32>) -> Seq<
    (Seq<char>, Seq<char>),
> {
    changed_indices(prev, curr, users.len()).map_values(
        |i: int| (users[i].display_name@, update_body(curr[i] as nat)),
    )
}

pub open spec fn notice_views(ns: Seq<Notice>) -> Seq<(Seq<char>, Seq<char>)> {
    ns.map_values(|n: Notice| (n.title@, n.body@))
}

/// The viewer count of `user_id` in a poll's records (0 when absent).
pub fn viewer_count(streams: &Vec<StreamRecord>, user_id: &String) -> (r: u32)
    ensures
        r == count_in(streams@, user_id@),
{
    let mut c: u32 = 0;
    let mut i: usize = 0;
    while i < streams.len()
        invariant
            i <= streams.len(),
            c == count_in(streams@.subrange(0, i as int), user_id@),
        decreases streams.len() - i,
    {
        assert(streams@.subrange(0, i + 1).drop_last() =~= streams@.subrange(0, i as int));
        if streams[i].user_id == *user_id {
            c = streams[i].viewer_count;
        }
        i += 1;
    }
    assert(streams@.subrange(0, streams.len() as int) =~= streams@);
    c
}

/// The counts of `users` in a poll's records, in the users' order.
pub fn snapshot(users: &Vec<TrackedUser>, streams: &Vec<StreamRecord>) -> (r: Vec<u32>)
    ensures
        r@ == snapshot_of(users@, streams@),
{
    let mut r: Vec<u32> = Vec::new();
    let mut i: usize = 0;
    while i < users.len()
        invariant
            i <= users.len(),
            r@ =~= snapshot_of(users@, streams@).subrange(0, i as int),
        decreases users.len() - i,
    {
        let c = viewer_count(streams, &users[i].id);
        r.push(c);
        i += 1;
    }
    assert(r@ =~= snapshot_of(users@, streams@));
    r
}

/// Words a viewer count: "no viewer", "1 viewer", "n viewer".
pub fn viewer_phrase_text(count: u32) -> (r: String)
    ensures
        r@ == viewer_phrase(count as nat),
{
    if count == 0 {
        String::from_str("no viewer")
    } else if count == 1 {
        String::from_str("1 viewer")
    } else {
        let d = decimal_text(count);
        joined(d.as_str(), " viewer")
    }
}

fn startup_line_text(u: &TrackedUser, count: u32) -> (r: String)
    ensures
        r@ == startup_line(*u, count as nat),
{
    let mut s = joined(u.display_name.as_str(), " (");
    let p = viewer_phrase_text(count);
    s.append(p.as_str());
    s.append(")");
    s
}

/// The notice sent once monitoring starts: every user of `users`, in order, with
/// the count that `streams` gives it.
pub fn startup_notice(users: &Vec<TrackedUser>, streams: &Vec<StreamRecord>) -> (r: Notice)
    ensures
        r.title@ == APP_NAME@,
        r.body@ == startup_body(users@, streams@),
{
    let mut lines = String::new();
    let mut i: usize = 0;
    while i < users.len()
        invariant
            i <= users.len(),
            lines@ == startup_lines(users@.subrange(0, i as int), streams@),
        decreases users.len() - i,
    {
        let c = viewer_count(streams, &users[i].id);
        let line = startup_line_text(&users[i], c);
        proof {
            let s = users@.subrange(0, i + 1);
            assert(s.drop_last() =~= users@.subrange(0, i as int));
            assert(s.last() == users@[i as int]);
            if i == 0 {
                assert(s[0] == users@[0]);
            }
        }
        if i > 0 {
            lines.append("\n");
        }
        lines.append(line.as_str());
        proof {
            if i == 0 {
                assert(lines@ =~= startup_lines(users@.subrange(0, 1), streams@));
            }
        }
        i += 1;
    }
    assert(users@.subrange(0, users.len() as int) =~= users@);
    let body = joined("Start monitoring some streams !\n", lines.as_str());
    Notice { title: String::from_str(APP_NAME), body }
}

/// The notice sent when a user's count has changed to `count`.
pub fn update_notice(u: &TrackedUser, count: u32) -> (r: Notice)
    ensures
        r.title@ == u.display_name@,
        r.body@ == update_body(count as nat),
{
    let d = decimal_text(count);
    Notice { title: u.display_name.clone(), body: joined("Updated viewer count: ", d.as_str()) }
}

/// What the watcher remembers between polls: the tracked users, and the count of
/// each in the previous poll (same positions).
pub struct PollState {
    pub users: Vec<TrackedUser>,
    pub previous: Vec<u32>,
}

impl PollState {
    pub open spec fn wf(&self) -> bool {
        self.previous@.len() == self.users@.len()
    }

    /// Starts watching `users`, resolved in the given order, with the records of
    /// the first poll. The start-up notice lists every user as given; the state
    /// tracks one user per id, in increasing order of id, with the first snapshot.
    pub fn start(users: Vec<TrackedUser>, streams: &Vec<StreamRecord>) -> (r: (PollState, Notice))
        ensures
            r.0.wf(),
            ordered_by_id(r.0.users@),
            drawn_from(r.0.users@, users@),
            covers_ids(r.0.users@, users@),
            r.0.previous@ == snapshot_of(r.0.users@, streams@),
            r.1.title@ == APP_NAME@,
            r.1.body@ == startup_body(users@, streams@),
    {
        let notice = startup_notice(&users, streams);
        let by_id = tracked_by_id(users);
        let previous = snapshot(&by_id, streams);
        (PollState { users: by_id, previous }, notice)
    }

    /// Takes the records of a new poll: returns one notice for each user whose
    /// count differs from the previous poll, in the users' order, and remembers
    /// the new snapshot.
    pub fn step(&mut self, streams: &Vec<StreamRecord>) -> (r: Vec<Notice>)
        requires
            old(self).wf(),
        ensures
            final(self).wf(),
            final(self).users@ == old(self).users@,
            final(self).previous@ == snapshot_of(old(self).users@, streams@),
            notice_views(r@) == change_notices(
                old(self).users@,
                old(self).previous@,
                snapshot_of(old(self).users@, streams@),
            ),
    {
        let current = snapshot(&self.users, streams);
        let ghost users = self.users@;
        let ghost prev = self.previous@;
        let mut out: Vec<Notice> = Vec::new();
        let mut i: usize = 0;
        while i < self.users.len()
            invariant
                i <= self.users@.len(),
                self.users@ == users,
                self.previous@ == prev,
                prev.len() == users.len(),
                current@ == snapshot_of(users, streams@),
                notice_views(out@) =~= changed_indices(prev, current@, i as nat).map_values(
                    |k: int| (users[k].display_name@, update_body(current@[k] as nat)),
                ),
            decreases self.users@.len() - i,
        {
            let ghost before = out@;
            let ghost f = |k: int| (users[k].display_name@, update_body(current@[k] as nat));
            if self.previous[i] != current[i] {
                let n = update_notice(&self.users[i], current[i]);
                out.push(n);
                proof {
                    let c = changed_indices(prev, current@, i as nat);
                    assert(changed_indices(prev, current@, (i + 1) as nat) == c.push(i as int));
                    assert(c.push(i as int).map_values(f) =~= c.map_values(f).push(f(i as int)));
                    assert(notice_views(out@) =~= notice_views(before).push((n.title@, n.body@)));
                }
            }
            i += 1;
        }
        self.previous = current;
        out
    }
}

/// Each poll notifies exactly the users whose count changed: a position is
/// notified if and only if the previous and the current count differ there, the
/// positions come in increasing order, and so none is notified twice.
pub proof fn lemma_notified_exactly_changed(prev: Seq<u32>, curr: Seq<u32>, n: nat)
    requires
        n <= prev.len(),
        n <= curr.len(),
    ensures
        forall|i: int| 0 <= i < n ==> (changed_indices(prev, curr, n).contains(i) <==> prev[i] != curr[i]),
        forall|k: int| 0 <= k < changed_indices(prev, curr, n).len() ==> 0 <= #[trigger] changed_indices(prev, curr, n)[k] < n,
        forall|k: int, l: int| 0 <= k < l < changed_indices(prev, curr, n).len() ==> changed_indices(prev, curr, n)[k] < changed_indices(prev, curr, n)[l],
    decreases n,
{
    if n > 0 {
        lemma_notified_exactly_changed(prev, curr, (n - 1) as nat);
        let s = changed_indices(prev, curr, (n - 1) as nat);
        if prev[n - 1] != curr[n - 1] {
            assert(changed_indices(prev, curr, n) == s.push(n - 1));
            assert(s.push(n - 1)[s.len() as int] == n - 1);
        }
        assert forall|i: int| 0 <= i < n implies (changed_indices(prev, curr, n).contains(i) <==> prev[i] != curr[i]) by {
            if i < n - 1 {
                if s.contains(i) {
                    let k = choose|k: int| 0 <= k < s.len() && s[k] == i;
                    if prev[n - 1] != curr[n - 1] {
                        assert(s.push(n - 1)[k] == i);
                    }
                }
                if changed_indices(prev, curr, n).contains(i) && prev[n - 1] != curr[n - 1] {
                    let t = s.push(n - 1);
                    let k = choose|k: int| 0 <= k < t.len() && t[k] == i;
                    assert(s[k] == i);
                }
            } else {
                if changed_indices(prev, curr, n).contains(i) && prev[n - 1] == curr[n - 1] {
                    let k = choose|k: int| 0 <= k < s.len() && s[k] == i;
                    assert(s[k] < n - 1);
                }
            }
        }
    }
}

} // verus!
