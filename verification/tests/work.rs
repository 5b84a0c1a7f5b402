use std::cmp::Ordering;

use blindkopie::post::{RedditId, RedditPost};
use blindkopie::timestamp::Timestamp;
use blindkopie::work::{Slot, Work, WorkInner, WorkOutcome, WorkQueueInner};

fn work(created: i64, name: &str, data: usize) -> Work {
    let created = Timestamp::try_from(created).unwrap();
    let id = RedditId::try_from(name).unwrap();
    Work::new(RedditPost { created, id, url: String::new() }, data)
}

fn success() -> WorkOutcome {
    WorkOutcome::Success("x".to_owned())
}

const SLOTS: [Slot; 5] =
    [Slot::OutlineCom, Slot::Wikiwix, Slot::GoogleCache, Slot::Screenshot, Slot::Text];

#[test]
fn outcomes_are_done_when_they_ended() {
    assert!(!WorkOutcome::Waiting.is_done());
    assert!(!WorkOutcome::Processing.is_done());
    assert!(success().is_done());
    assert!(WorkOutcome::Failure.is_done());
    assert_eq!(WorkOutcome::default(), WorkOutcome::Waiting);
    assert_eq!(WorkOutcome::from_result(None), WorkOutcome::Failure);
    assert_eq!(WorkOutcome::from_result(Some("x".to_owned())), success());
}

#[test]
fn a_comment_is_due_when_everything_else_ended() {
    for open in SLOTS {
        let mut inner = WorkInner::default();
        for slot in SLOTS {
            if slot != open {
                inner.set(slot, if slot == Slot::Text { success() } else { WorkOutcome::Failure });
            }
        }
        assert!(!inner.ready_to_comment());
        inner.set(open, WorkOutcome::Processing);
        assert!(!inner.ready_to_comment());
        inner.set(open, success());
        assert!(inner.ready_to_comment());
        inner.comment = success();
        assert!(!inner.ready_to_comment());
    }
}

#[test]
fn only_archives_screenshot_and_text_make_a_failure() {
    let mut inner = WorkInner::default();
    assert!(!inner.is_failure());
    for slot in [Slot::OutlineCom, Slot::Wikiwix, Slot::Screenshot, Slot::Text] {
        assert!(!inner.is_failure());
        inner.set(slot, WorkOutcome::Failure);
    }
    assert!(inner.is_failure());
    inner.set(Slot::GoogleCache, success());
    assert!(inner.is_failure());
    inner.set(Slot::Wikiwix, success());
    assert!(!inner.is_failure());
}

#[test]
fn setting_one_thing_leaves_the_others() {
    for slot in SLOTS {
        let mut inner = WorkInner::default();
        inner.set(slot, success());
        for other in SLOTS {
            assert_eq!(inner.is_done(other), other == slot);
        }
        assert_eq!(inner.comment, WorkOutcome::Waiting);
    }
}

#[test]
fn works_are_the_same_by_their_posts() {
    assert!(work(1, "a", 0) == work(2, "a", 7));
    assert!(work(1, "a", 0) != work(1, "b", 0));
    assert_eq!(work(1, "a", 0).cmp(&work(2, "a", 0)), Ordering::Less);
    assert_eq!(work(2, "a", 0).partial_cmp(&work(1, "z", 0)), Some(Ordering::Greater));
}

#[test]
fn a_queue_hands_out_the_newest_work_first() {
    let mut queue = WorkQueueInner::new();
    for (created, name) in [(5, "a"), (9, "b"), (1, "c"), (9, "a2"), (7, "d")] {
        assert!(queue.insert(work(created, name, 0)));
    }
    let mut names = Vec::new();
    while let Some(work) = queue.pop() {
        names.push(work.meta.id.text());
    }
    assert_eq!(names, vec!["b", "a2", "d", "a", "c"]);
    assert!(queue.pop().is_none());
}

#[test]
fn a_queue_holds_a_post_once() {
    let mut queue = WorkQueueInner::default();
    assert!(queue.insert(work(5, "a", 1)));
    assert!(!queue.insert(work(9, "a", 2)));
    let first = queue.pop().unwrap();
    assert_eq!((first.meta.created.unix_ts, first.data), (5, 1));
    assert!(queue.pop().is_none());
    assert!(queue.insert(work(9, "a", 2)));
}

#[test]
fn works_can_be_queued_in_any_order() {
    let entries = [(3, "x", 0), (4, "y", 1), (2, "z", 2)];
    let orders = [[0, 1, 2], [0, 2, 1], [1, 0, 2], [1, 2, 0], [2, 0, 1], [2, 1, 0]];
    for order in orders {
        let mut queue = WorkQueueInner::new();
        for i in order {
            let (created, name, data) = entries[i];
            queue.insert(work(created, name, data));
        }
        let mut places = Vec::new();
        while let Some(work) = queue.pop() {
            places.push(work.data);
        }
        assert_eq!(places, vec![1, 0, 2]);
    }
}
