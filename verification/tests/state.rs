use blindkopie::post::{RedditId, RedditPost};
use blindkopie::reddit::RedditToken;
use blindkopie::state::{
    ClientData, CollectAction, Collected, DecodeError, EncodeError, State, StateChange,
};
use blindkopie::timestamp::Timestamp;
use blindkopie::work::{Slot, WorkInner, WorkOutcome, WorkQueueInner};

fn post(created: i64, name: &str) -> RedditPost {
    RedditPost {
        created: Timestamp::try_from(created).unwrap(),
        id: RedditId::try_from(name).unwrap(),
        url: format!("http://example.org/{}", name),
    }
}

fn waiting(queue: &WorkQueueInner) -> Vec<String> {
    queue.ordered_queue.iter().rev().map(|work| work.meta.id.text()).collect()
}

fn inner<'a>(state: &'a State, name: &str) -> &'a WorkInner {
    let code = RedditId::try_from(name).unwrap().code();
    &state.cells[state.seen_posts.get(&code).unwrap().data]
}

fn line(text: &str) -> Option<String> {
    Some(text.to_owned())
}

fn end_all(state: &mut State, name: &str, slots: &[Slot]) {
    for slot in slots {
        state.apply_change(StateChange::outcome(*slot, post(1, name), line("done")));
    }
}

#[test]
fn a_new_state_is_blank() {
    let mut state = State::default();
    assert_eq!(state.client_data.sr_to_monitor, "");
    assert_eq!(state.reddit_token.access_token, "");
    assert_eq!(state.reddit_token.expires_at.unix_ts, 1577880000);
    assert!(state.seen_posts.is_empty() && state.cells.is_empty());
    assert!(waiting(&state.comment_queue).is_empty());
    assert!(state.next_change().is_none());
}

#[test]
fn a_token_and_client_data_replace_what_was_there() {
    let mut state = State::default();
    let mut token = RedditToken::default();
    token.access_token = "t".to_owned();
    state.apply_change(StateChange::RedditToken(token));
    let mut data = ClientData::default();
    data.user_agent = "agent".to_owned();
    state.apply_change(StateChange::ClientData(data.clone()));
    assert_eq!(state.reddit_token.access_token, "t");
    assert_eq!(state.client_data.user_agent, "agent");
}

#[test]
fn a_replayed_post_waits_for_all_but_wikiwix() {
    let mut state = State::default();
    state.apply_change(StateChange::NewPost(post(1, "a")));
    assert_eq!(waiting(&state.screenshot_queue), vec!["a"]);
    assert_eq!(waiting(&state.outline_com_queue), vec!["a"]);
    assert_eq!(waiting(&state.google_cache_queue), vec!["a"]);
    assert!(waiting(&state.wikiwix_queue).is_empty());
    assert!(waiting(&state.comment_queue).is_empty());
    assert_eq!(inner(&state, "a").text, WorkOutcome::Waiting);
}

#[test]
fn a_post_replayed_twice_is_queued_once() {
    let mut state = State::default();
    state.apply_change(StateChange::NewPost(post(1, "a")));
    state.apply_change(StateChange::NewPost(post(9, "a")));
    assert_eq!(waiting(&state.screenshot_queue), vec!["a"]);
    assert_eq!(state.seen_posts.len(), 1);
    let work = state.screenshot_queue.pop().unwrap();
    assert_eq!(work.meta.created.unix_ts, 1);
}

#[test]
fn an_outcome_sets_one_thing() {
    let mut state = State::default();
    state.apply_change(StateChange::NewPost(post(1, "a")));
    state.apply_change(StateChange::NewPost(post(2, "b")));
    state.apply_change(StateChange::OutlineComOutcome(post(1, "a"), line("url")));
    state.apply_change(StateChange::WikiwixOutcome(post(1, "a"), None));
    assert_eq!(inner(&state, "a").outline_com, WorkOutcome::Success("url".to_owned()));
    assert_eq!(inner(&state, "a").wikiwix, WorkOutcome::Failure);
    assert_eq!(inner(&state, "a").google_cache, WorkOutcome::Waiting);
    assert_eq!(inner(&state, "b").outline_com, WorkOutcome::Waiting);
    state.apply_change(StateChange::GoogleCacheOutcome(post(1, "a"), line("cache")));
    state.apply_change(StateChange::ScreenshotOutcome(post(1, "a"), line("image")));
    assert_eq!(inner(&state, "a").google_cache, WorkOutcome::Success("cache".to_owned()));
    assert_eq!(inner(&state, "a").screenshot, WorkOutcome::Success("image".to_owned()));
    assert!(waiting(&state.comment_queue).is_empty());
    state.apply_change(StateChange::TextOutcome(post(1, "a"), line("text")));
    assert_eq!(waiting(&state.comment_queue), vec!["a"]);
}

#[test]
fn an_outcome_of_an_unseen_post_changes_nothing() {
    let mut state = State::default();
    state.apply_change(StateChange::TextOutcome(post(1, "a"), line("text")));
    assert!(state.seen_posts.is_empty() && state.cells.is_empty());
}

#[test]
fn a_comment_becomes_due_once() {
    let mut state = State::default();
    state.apply_change(StateChange::NewPost(post(1, "a")));
    let all = [Slot::Text, Slot::Screenshot, Slot::GoogleCache, Slot::Wikiwix, Slot::OutlineCom];
    end_all(&mut state, "a", &all[..4]);
    assert!(waiting(&state.comment_queue).is_empty());
    end_all(&mut state, "a", &all[4..]);
    end_all(&mut state, "a", &all);
    assert_eq!(waiting(&state.comment_queue), vec!["a"]);
}

#[test]
fn a_change_log_is_read_up_to_the_first_fault() {
    let mut state = State::default();
    let result = state.read_changelog(vec![
        Some(StateChange::NewPost(post(1, "a"))),
        None,
        Some(StateChange::NewPost(post(2, "b"))),
    ]);
    assert_eq!(result, Err(DecodeError));
    assert_eq!(waiting(&state.screenshot_queue), vec!["a"]);
}

#[test]
fn a_change_log_is_read_in_order() {
    let mut state = State::default();
    let result = state.read_changelog(vec![
        Some(StateChange::WikiwixOutcome(post(1, "a"), line("too early"))),
        Some(StateChange::NewPost(post(1, "a"))),
        Some(StateChange::OutlineComOutcome(post(1, "a"), None)),
        Some(StateChange::OutlineComOutcome(post(1, "a"), line("later"))),
    ]);
    assert_eq!(result, Ok(()));
    assert_eq!(inner(&state, "a").wikiwix, WorkOutcome::Waiting);
    assert_eq!(inner(&state, "a").outline_com, WorkOutcome::Success("later".to_owned()));
}

#[test]
fn lines_leave_in_the_order_in_which_they_came() {
    let mut state = State::default();
    assert_eq!(state.log_changes(vec![]), Ok(false));
    assert_eq!(state.log_changes(vec![line("1"), line("2")]), Ok(true));
    assert_eq!(state.log_changes(vec![line("3")]), Ok(true));
    for expected in ["1", "2", "3"] {
        assert_eq!(state.next_change().as_deref(), Some(expected));
    }
    assert_eq!(state.next_change(), None);
}

#[test]
fn lines_before_a_fault_stay_noted() {
    let mut state = State::default();
    assert_eq!(state.log_changes(vec![line("1"), None, line("3")]), Err(EncodeError));
    assert_eq!(state.next_change().as_deref(), Some("1"));
    assert_eq!(state.next_change(), None);
}

#[test]
fn a_collected_post_waits_for_everything() {
    let mut state = State::default();
    let collected = state.collect(vec![(post(1, "a"), line("A")), (post(2, "b"), line("B"))]);
    assert_eq!(collected, Collected { inserted: true, failed: false });
    for queue in [
        &state.screenshot_queue, &state.outline_com_queue, &state.wikiwix_queue,
        &state.google_cache_queue,
    ] {
        assert_eq!(waiting(queue), vec!["b", "a"]);
    }
    assert!(waiting(&state.comment_queue).is_empty());
    assert_eq!(state.next_change().as_deref(), Some("A"));
    assert_eq!(state.next_change().as_deref(), Some("B"));
}

#[test]
fn a_post_is_collected_once() {
    let mut state = State::default();
    let listing = || vec![(post(1, "a"), line("A")), (post(5, "a"), None), (post(2, "b"), line("B"))];
    assert_eq!(state.collect(listing()), Collected { inserted: true, failed: false });
    assert_eq!(state.collect(listing()), Collected { inserted: false, failed: false });
    assert_eq!(state.cells.len(), 2);
    assert_eq!(state.uncommitted_changes.len(), 2);
    assert_eq!(state.collect(vec![]), Collected { inserted: false, failed: false });
}

#[test]
fn collecting_stops_at_a_post_that_cannot_be_logged() {
    let mut state = State::default();
    let collected =
        state.collect(vec![(post(1, "a"), line("A")), (post(2, "b"), None), (post(3, "c"), line("C"))]);
    assert_eq!(collected, Collected { inserted: true, failed: true });
    assert_eq!(waiting(&state.wikiwix_queue), vec!["a"]);
    assert_eq!(state.seen_posts.len(), 1);
}

#[test]
fn what_follows_a_listing() {
    let next = |inserted, failed| Collected { inserted, failed }.next();
    assert_eq!(next(true, true), CollectAction::Fail { wake_changelog: true });
    assert_eq!(next(false, true), CollectAction::Fail { wake_changelog: false });
    assert_eq!(
        next(true, false),
        CollectAction::Rest { seconds: 60, wake_changelog: true, wake_queues: true }
    );
    assert_eq!(
        next(false, false),
        CollectAction::Rest { seconds: 60, wake_changelog: false, wake_queues: false }
    );
}

#[test]
fn a_replayed_post_equals_a_collected_one_but_for_wikiwix() {
    let mut live = State::default();
    live.collect(vec![(post(1, "a"), line("A"))]);
    let mut back = State::default();
    back.apply_change(StateChange::NewPost(post(1, "a")));
    assert_eq!(waiting(&live.screenshot_queue), waiting(&back.screenshot_queue));
    assert_eq!(waiting(&live.google_cache_queue), waiting(&back.google_cache_queue));
    assert_eq!(live.cells.len(), back.cells.len());
    assert_eq!(waiting(&live.wikiwix_queue), vec!["a"]);
    assert!(waiting(&back.wikiwix_queue).is_empty());
}

#[test]
fn a_post_replayed_much_later_is_not_queued_anew() {
    let mut state = State::default();
    state.apply_change(StateChange::NewPost(post(1, "a")));
    end_all(&mut state, "a", &[Slot::OutlineCom, Slot::Screenshot, Slot::Text]);
    state.apply_change(StateChange::NewPost(post(2, "b")));
    state.apply_change(StateChange::NewPost(post(7, "a")));
    assert_eq!(waiting(&state.screenshot_queue), vec!["b", "a"]);
    assert_eq!(state.cells.len(), 3);
    assert_eq!(inner(&state, "a").outline_com, WorkOutcome::Success("done".to_owned()));
}

#[test]
fn a_setup_is_taken_over_and_noted() {
    let mut state = State::default();
    let mut data = ClientData::default();
    data.code = "code".to_owned();
    assert_eq!(state.set_client_data(data.clone(), line("line")), Ok(true));
    assert_eq!(state.client_data.code, "code");
    assert_eq!(state.next_change().as_deref(), Some("line"));
    data.code = "other".to_owned();
    assert_eq!(state.set_client_data(data, None), Err(EncodeError));
    assert_eq!(state.client_data.code, "other");
    assert_eq!(state.next_change(), None);
}

#[test]
fn a_new_work_has_its_own_place() {
    let mut state = State::default();
    state.apply_change(StateChange::NewPost(post(1, "a")));
    state.apply_change(StateChange::NewPost(post(2, "b")));
    let a = state.screenshot_queue.ordered_queue[0].data;
    let b = state.screenshot_queue.ordered_queue[1].data;
    assert_ne!(a, b);
    assert_eq!(a, state.outline_com_queue.ordered_queue[0].data);
    assert!(!state.cells[b].ready_to_comment() && !state.cells[b].is_failure());
    end_all(&mut state, "a", &[Slot::Text]);
    assert!(state.cells[a].is_done(Slot::Text) && !state.cells[b].is_done(Slot::Text));
}
