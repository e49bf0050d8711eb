use stream_watch::poll::{snapshot, tracked_by_id, update_notice, viewer_count, viewer_phrase_text, APP_NAME};
use stream_watch::text::decimal_text;
use stream_watch::{PollState, StreamRecord, TrackedUser};

fn user(id: &str, name: &str) -> TrackedUser {
    TrackedUser {
        id: id.to_string(),
        login: name.to_lowercase(),
        display_name: name.to_string(),
    }
}

fn stream(user_id: &str, viewers: u32) -> StreamRecord {
    StreamRecord {
        id: format!("s{}", user_id),
        user_id: user_id.to_string(),
        game_id: "1".to_string(),
        game_name: "Chess".to_string(),
        viewer_count: viewers,
        started_at: 1_700_000_000,
    }
}

#[test]
fn viewer_phrase_is_not_pluralised() {
    assert_eq!(viewer_phrase_text(0), "no viewer");
    assert_eq!(viewer_phrase_text(1), "1 viewer");
    assert_eq!(viewer_phrase_text(2), "2 viewer");
    assert_eq!(viewer_phrase_text(1234), "1234 viewer");
}

#[test]
fn decimal_text_writes_digits() {
    assert_eq!(decimal_text(0), "0");
    assert_eq!(decimal_text(9), "9");
    assert_eq!(decimal_text(10), "10");
    assert_eq!(decimal_text(4_294_967_295), "4294967295");
}

#[test]
fn three_offline_users_start_at_zero() {
    let users = vec![user("3", "Cee"), user("1", "Ay"), user("2", "Bee")];
    let (state, notice) = PollState::start(users, &Vec::new());
    assert_eq!(state.previous, vec![0, 0, 0]);
    let ids: Vec<&str> = state.users.iter().map(|u| u.id.as_str()).collect();
    assert_eq!(ids, vec!["1", "2", "3"]);
    assert_eq!(notice.title, APP_NAME);
    assert_eq!(
        notice.body,
        "Start monitoring some streams !\nCee (no viewer)\nAy (no viewer)\nBee (no viewer)"
    );
}

#[test]
fn startup_notice_words_each_count() {
    let users = vec![user("1", "Ay"), user("2", "Bee"), user("3", "Cee")];
    let streams = vec![stream("2", 1), stream("3", 42)];
    let (state, notice) = PollState::start(users, &streams);
    assert_eq!(state.previous, vec![0, 1, 42]);
    assert_eq!(
        notice.body,
        "Start monitoring some streams !\nAy (no viewer)\nBee (1 viewer)\nCee (42 viewer)"
    );
}

#[test]
fn stream_end_gives_one_notice() {
    let users = vec![user("1", "Ay"), user("2", "Bee")];
    let (mut state, _) = PollState::start(users, &vec![stream("1", 5), stream("2", 3)]);
    let notices = state.step(&vec![stream("2", 3)]);
    assert_eq!(notices.len(), 1);
    assert_eq!(notices[0].title, "Ay");
    assert_eq!(notices[0].body, "Updated viewer count: 0");
    assert_eq!(state.previous, vec![0, 3]);
}

#[test]
fn only_changed_users_are_notified() {
    let users = vec![user("b", "Bee"), user("a", "Ay"), user("c", "Cee"), user("d", "Dee")];
    let (mut state, _) = PollState::start(users, &vec![stream("a", 1), stream("b", 2)]);
    let notices = state.step(&vec![stream("a", 1), stream("b", 7), stream("c", 4)]);
    let got: Vec<(String, String)> =
        notices.into_iter().map(|n| (n.title, n.body)).collect();
    assert_eq!(
        got,
        vec![
            ("Bee".to_string(), "Updated viewer count: 7".to_string()),
            ("Cee".to_string(), "Updated viewer count: 4".to_string()),
        ]
    );
    assert!(state.step(&vec![stream("a", 1), stream("b", 7), stream("c", 4)]).is_empty());
}

#[test]
fn absent_user_counts_zero() {
    let streams = vec![stream("1", 5), stream("2", 9), stream("1", 6)];
    assert_eq!(viewer_count(&streams, &"1".to_string()), 6);
    assert_eq!(viewer_count(&streams, &"3".to_string()), 0);
    let users = vec![user("3", "C"), user("2", "B")];
    assert_eq!(snapshot(&users, &streams), vec![0, 9]);
}

#[test]
fn one_user_per_id_in_id_order() {
    let users = vec![user("20", "Old"), user("100", "X"), user("3", "Y"), user("20", "New")];
    let r = tracked_by_id(users);
    let got: Vec<(&str, &str)> =
        r.iter().map(|u| (u.id.as_str(), u.display_name.as_str())).collect();
    assert_eq!(got, vec![("100", "X"), ("20", "New"), ("3", "Y")]);
    assert!(tracked_by_id(Vec::new()).is_empty());
}

#[test]
fn update_notice_names_user() {
    let n = update_notice(&user("1", "Ay"), 12);
    assert_eq!(n.title, "Ay");
    assert_eq!(n.body, "Updated viewer count: 12");
}
