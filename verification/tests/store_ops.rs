use queuetify::store::{Session, Store};

fn session() -> Session {
    Session::new(String::from("token-1"))
}

#[test]
fn fresh_session_is_empty() {
    let s = session();
    assert!(s.get_current_track().is_none());
    assert_eq!(s.queue.len(), 0);
    assert_eq!(s.votes.len(), 0);
    assert_eq!(s.get_token(), "token-1");
}

#[test]
fn queue_track_appends_with_zero_votes() {
    let mut s = session();
    let added = s.queue_track(&String::from("aaa"));
    assert!(added);
    assert_eq!(s.queue.len(), 1);
    assert_eq!(s.queue[0].track, "aaa");
    assert_eq!(s.queue[0].votes, 0);
}

#[test]
fn requeue_same_track_is_noop() {
    // re-queueing the same track twice yields exactly one entry
    let mut s = session();
    assert!(s.queue_track(&String::from("aaa")));
    assert!(!s.queue_track(&String::from("aaa")));
    assert_eq!(s.queue.len(), 1);
    let count = s.queue.iter().filter(|e| e.track == "aaa").count();
    assert_eq!(count, 1);
}

#[test]
fn double_vote_is_not_counted() {
    // a connection voting twice for the same track counts once
    let mut s = session();
    s.queue_track(&String::from("aaa"));
    assert!(s.add_vote(7, &String::from("aaa")));
    assert_eq!(s.queue[0].votes, 1);
    assert!(!s.add_vote(7, &String::from("aaa")));
    assert_eq!(s.queue[0].votes, 1);
    assert_eq!(s.votes.len(), 1);
}

#[test]
fn two_connections_vote_twice_total() {
    let mut s = session();
    s.queue_track(&String::from("aaa"));
    assert!(s.add_vote(1, &String::from("aaa")));
    assert!(s.add_vote(2, &String::from("aaa")));
    assert_eq!(s.queue[0].votes, 2);
    assert_eq!(s.votes.len(), 2);
}

#[test]
fn vote_for_unqueued_track_leaves_queue_alone() {
    let mut s = session();
    s.queue_track(&String::from("aaa"));
    assert!(s.add_vote(1, &String::from("zzz")));
    assert_eq!(s.queue.len(), 1);
    assert_eq!(s.queue[0].votes, 0);
    assert_eq!(s.votes.len(), 1);
}

#[test]
fn votes_reorder_queue_most_votes_first() {
    let mut s = session();
    s.queue_track(&String::from("aaa"));
    s.queue_track(&String::from("bbb"));
    assert_eq!(s.queue[0].track, "aaa");
    s.add_vote(1, &String::from("bbb"));
    assert_eq!(s.queue[0].track, "bbb");
    assert_eq!(s.queue[1].track, "aaa");
}

#[test]
fn equal_votes_keep_queue_order() {
    // earliest queued wins among equal vote counts
    let mut s = session();
    s.queue_track(&String::from("aaa"));
    s.queue_track(&String::from("bbb"));
    s.add_vote(1, &String::from("bbb"));
    s.add_vote(2, &String::from("aaa"));
    // both have one vote: aaa was queued first, so it comes first
    assert_eq!(s.queue[0].track, "aaa");
    assert_eq!(s.queue[1].track, "bbb");
}

#[test]
fn pop_takes_highest_votes_earliest_tie() {
    let mut s = session();
    s.queue_track(&String::from("aaa"));
    s.queue_track(&String::from("bbb"));
    s.queue_track(&String::from("ccc"));
    s.add_vote(1, &String::from("bbb"));
    s.add_vote(2, &String::from("bbb"));
    s.add_vote(1, &String::from("aaa"));
    let popped = s.pop_track_from_queue();
    assert_eq!(popped.as_deref(), Some("bbb"));
    assert_eq!(s.queue.len(), 2);
    assert_eq!(s.queue[0].track, "aaa");
    assert_eq!(s.queue[1].track, "ccc");
}

#[test]
fn pop_on_empty_queue_is_none() {
    let mut s = session();
    assert!(s.pop_track_from_queue().is_none());
}

#[test]
fn remove_votes_forgets_one_track_only() {
    let mut s = session();
    s.queue_track(&String::from("aaa"));
    s.queue_track(&String::from("bbb"));
    s.add_vote(1, &String::from("aaa"));
    s.add_vote(1, &String::from("bbb"));
    s.add_vote(2, &String::from("aaa"));
    s.remove_votes(&String::from("aaa"));
    assert_eq!(s.votes.len(), 1);
    assert_eq!(s.votes[0].track, "bbb");
    assert_eq!(s.votes[0].connection_id, 1);
}

#[test]
fn voted_tracks_lists_one_connection_in_order() {
    let mut s = session();
    s.add_vote(1, &String::from("aaa"));
    s.add_vote(2, &String::from("bbb"));
    s.add_vote(1, &String::from("ccc"));
    let mine = s.voted_tracks(1);
    assert_eq!(mine, vec![String::from("aaa"), String::from("ccc")]);
    let theirs = s.voted_tracks(2);
    assert_eq!(theirs, vec![String::from("bbb")]);
    let nobody = s.voted_tracks(3);
    assert!(nobody.is_empty());
}

#[test]
fn set_current_track_replaces_value() {
    let mut s = session();
    s.set_current_track(Some(String::from("aaa")));
    assert_eq!(s.get_current_track().as_deref(), Some("aaa"));
    s.set_current_track(None);
    assert!(s.get_current_track().is_none());
}

#[test]
fn store_registers_and_deletes_sessions() {
    let mut st = Store::new();
    assert!(!st.session_exists(5));
    assert!(st.new_session(5, String::from("tok")));
    assert!(st.session_exists(5));
    // an id already in use is refused
    assert!(!st.new_session(5, String::from("other")));
    st.delete_session(5);
    assert!(!st.session_exists(5));
    // deleting an unknown id is a no-op
    st.delete_session(5);
    assert!(!st.session_exists(5));
}

#[test]
fn store_take_and_put_round_trip() {
    let mut st = Store::new();
    st.new_session(5, String::from("tok"));
    let mut s = st.take_session(5).expect("registered session");
    assert!(!st.session_exists(5));
    assert_eq!(s.get_token(), "tok");
    s.queue_track(&String::from("aaa"));
    assert!(st.put_session(5, s));
    assert!(st.session_exists(5));
    let s2 = st.take_session(5).expect("registered session");
    assert_eq!(s2.queue.len(), 1);
    assert!(st.take_session(5).is_none());
}
