use blindkopie::networking::AwaitWithCancellationTokenOutcome;
use blindkopie::post::{RedditId, RedditPost};
use blindkopie::screenshot::SubmittedScreenshot;
use blindkopie::state::{EncodeError, State, StateChange};
use blindkopie::submit::{Action, Event, Phase, Recorded, Report, Taken, Task, TaskLoop};
use blindkopie::timestamp::Timestamp;
use blindkopie::work::{Slot, WorkInner, WorkOutcome};

const SUBMITTERS: [Task; 4] =
    [Task::OutlineCom, Task::Wikiwix, Task::GoogleCache, Task::Screenshot];

fn post(created: i64, name: &str) -> RedditPost {
    RedditPost {
        created: Timestamp::try_from(created).unwrap(),
        id: RedditId::try_from(name).unwrap(),
        url: format!("http://example.org/{}", name),
    }
}

fn line(text: &str) -> Option<String> {
    Some(text.to_owned())
}

fn state_with(names: &[&str]) -> State {
    let mut state = State::default();
    let mut created = 0;
    for name in names {
        created += 1;
        state.collect(vec![(post(created, name), line("new"))]);
    }
    while state.next_change().is_some() {}
    state
}

fn begun(taken: Taken) -> blindkopie::work::Work {
    match taken {
        Taken::Begun(work) => work,
        other => panic!("{:?}", other),
    }
}

fn report_for(task: Task) -> Report {
    match task {
        Task::Screenshot => Report::Posted(SubmittedScreenshot {
            post_url: "post".to_owned(),
            image_url: "image".to_owned(),
            text: "text".to_owned(),
        }),
        _ => Report::Archived("url".to_owned()),
    }
}

fn at(inner: &WorkInner, slot: Slot) -> &WorkOutcome {
    match slot {
        Slot::OutlineCom => &inner.outline_com,
        Slot::Wikiwix => &inner.wikiwix,
        Slot::GoogleCache => &inner.google_cache,
        Slot::Screenshot => &inner.screenshot,
        Slot::Text => &inner.text,
    }
}

fn slot_of(task: Task) -> Slot {
    match task {
        Task::OutlineCom | Task::Comment => Slot::OutlineCom,
        Task::Wikiwix => Slot::Wikiwix,
        Task::GoogleCache => Slot::GoogleCache,
        Task::Screenshot => Slot::Screenshot,
    }
}

#[test]
fn loops_have_their_own_pace() {
    let pace = |task: Task| (task.sleep_seconds(), task.max_submit_seconds());
    assert_eq!(pace(Task::OutlineCom), (30, Some(45)));
    assert_eq!(pace(Task::Wikiwix), (30, Some(45)));
    assert_eq!(pace(Task::GoogleCache), (10, Some(45)));
    assert_eq!(pace(Task::Screenshot), (10, Some(60)));
    assert_eq!(pace(Task::Comment), (60, None));
}

#[test]
fn works_that_ended_are_skipped() {
    for task in SUBMITTERS {
        let mut inner = WorkInner::default();
        assert!(!task.skip_work(&inner));
        inner.set(slot_of(task), WorkOutcome::Processing);
        assert!(!task.skip_work(&inner));
        inner.set(slot_of(task), WorkOutcome::Failure);
        assert!(task.skip_work(&inner));
        let mut inner = WorkInner::default();
        inner.comment = WorkOutcome::Success("x".to_owned());
        assert!(task.skip_work(&inner));
    }
    let mut inner = WorkInner::default();
    for slot in [Slot::OutlineCom, Slot::Wikiwix, Slot::Screenshot, Slot::Text] {
        assert!(!Task::Comment.skip_work(&inner));
        inner.set(slot, WorkOutcome::Failure);
    }
    assert!(Task::Comment.skip_work(&inner));
}

#[test]
fn the_newest_work_is_taken_up() {
    for task in SUBMITTERS {
        let mut state = state_with(&["a", "b"]);
        let work = begun(state.take(task));
        assert_eq!(work.meta.id.text(), "b");
        assert_eq!(*at(&state.cells[work.data], slot_of(task)), WorkOutcome::Processing);
        assert_eq!(begun(state.take(task)).meta.id.text(), "a");
        assert!(matches!(state.take(task), Taken::Nothing));
    }
}

#[test]
fn a_work_that_ended_leaves_the_queue() {
    let mut state = state_with(&["a"]);
    state.apply_change(StateChange::WikiwixOutcome(post(1, "a"), None));
    assert!(matches!(state.take(Task::Wikiwix), Taken::Skipped));
    assert!(matches!(state.take(Task::Wikiwix), Taken::Nothing));
}

#[test]
fn a_report_is_recorded_as_changes() {
    let meta = post(1, "a");
    let changes = report_for(Task::Wikiwix).changes(Task::Wikiwix, &meta);
    assert_eq!(changes.len(), 1);
    assert!(matches!(&changes[0], StateChange::WikiwixOutcome(p, Some(url)) if *p == meta && url == "url"));
    let changes = report_for(Task::OutlineCom).changes(Task::OutlineCom, &meta);
    assert!(matches!(&changes[0], StateChange::OutlineComOutcome(_, Some(url)) if url == "url"));
    let changes = Report::Failed.changes(Task::GoogleCache, &meta);
    assert!(matches!(&changes[0], StateChange::GoogleCacheOutcome(_, None)));
    let changes = report_for(Task::Screenshot).changes(Task::Screenshot, &meta);
    assert_eq!(changes.len(), 2);
    assert!(matches!(&changes[0], StateChange::ScreenshotOutcome(_, Some(url)) if url == "image"));
    assert!(matches!(&changes[1], StateChange::TextOutcome(_, Some(text)) if text == "text"));
    let changes = Report::Failed.changes(Task::Screenshot, &meta);
    assert!(matches!(&changes[0], StateChange::ScreenshotOutcome(_, None)));
    assert!(matches!(&changes[1], StateChange::TextOutcome(_, None)));
}

#[test]
fn the_last_report_makes_a_comment_due() {
    let mut state = state_with(&["a"]);
    for task in SUBMITTERS {
        let work = begun(state.take(task));
        let recorded = state.record(task, work, &report_for(task), vec![line("x")]).unwrap();
        let last = task == Task::Screenshot;
        assert_eq!(recorded, Recorded { wake_changelog: true, wake_comment: last });
    }
    let inner = &state.cells[0];
    assert_eq!(inner.screenshot, WorkOutcome::Success("image".to_owned()));
    assert_eq!(inner.text, WorkOutcome::Success("text".to_owned()));
    assert_eq!(inner.google_cache, WorkOutcome::Success("url".to_owned()));
    assert_eq!(state.comment_queue.ordered_queue.len(), 1);
}

#[test]
fn a_report_that_cannot_be_logged_does_not_count() {
    let mut state = state_with(&["a"]);
    let work = begun(state.take(Task::Screenshot));
    let result =
        state.record(Task::Screenshot, work, &report_for(Task::Screenshot), vec![line("x"), None]);
    assert_eq!(result, Err(EncodeError));
    assert_eq!(state.cells[0].screenshot, WorkOutcome::Processing);
    assert_eq!(state.cells[0].text, WorkOutcome::Waiting);
    assert_eq!(state.next_change().as_deref(), Some("x"));
}

#[test]
fn failures_are_recorded_too() {
    let mut state = state_with(&["a"]);
    for task in SUBMITTERS {
        let work = begun(state.take(task));
        state.record(task, work, &Report::Failed, vec![line("x")]).unwrap();
    }
    assert!(state.cells[0].is_failure());
    assert!(matches!(state.take(Task::Comment), Taken::Skipped));
}

#[test]
fn a_comment_marks_the_archive_as_being_worked_on() {
    let mut state = state_with(&["a"]);
    for task in SUBMITTERS {
        let work = begun(state.take(task));
        state.record(task, work, &report_for(task), vec![line("x")]).unwrap();
    }
    let work = begun(state.take(Task::Comment));
    assert_eq!(state.cells[work.data].outline_com, WorkOutcome::Processing);
}

#[test]
fn a_loop_goes_round() {
    for task in SUBMITTERS {
        let mut state = state_with(&["a"]);
        let mut this = TaskLoop::new(task);
        let action = this.step(&mut state, Event::Polled { cancelled: false });
        match action {
            Action::Submit { post, seconds } => {
                assert_eq!(post.url, "http://example.org/a");
                assert_eq!(Some(seconds), task.max_submit_seconds());
            }
            other => panic!("{:?}", other),
        }
        let action = this.step(&mut state, Event::Submitted(report_for(task)));
        let lines = match action {
            Action::Encode(changes) => changes.iter().map(|_| line("x")).collect(),
            other => panic!("{:?}", other),
        };
        let action = this.step(&mut state, Event::Encoded(lines));
        assert!(matches!(
            action,
            Action::Rest { seconds, wake_changelog: true, wake_comment: false }
                if seconds == task.sleep_seconds()
        ));
        let action = this.step(&mut state, Event::Rested(AwaitWithCancellationTokenOutcome::Continue));
        assert!(matches!(action, Action::Poll));
        let action = this.step(&mut state, Event::Polled { cancelled: false });
        assert!(matches!(action, Action::Wait));
        let action = this.step(&mut state, Event::Woken(AwaitWithCancellationTokenOutcome::Continue));
        assert!(matches!(action, Action::Poll));
        let action = this.step(&mut state, Event::Polled { cancelled: true });
        assert!(matches!(action, Action::Stop));
        assert!(matches!(this.phase, Phase::Over));
    }
}

#[test]
fn the_loop_for_comments_submits_nothing() {
    let mut state = state_with(&["a"]);
    for task in SUBMITTERS {
        let work = begun(state.take(task));
        state.record(task, work, &report_for(task), vec![line("x")]).unwrap();
    }
    let mut this = TaskLoop::new(Task::Comment);
    let action = this.step(&mut state, Event::Polled { cancelled: false });
    assert!(matches!(
        action,
        Action::Rest { seconds: 60, wake_changelog: false, wake_comment: false }
    ));
}

#[test]
fn a_loop_skips_what_ended() {
    let mut state = state_with(&["a"]);
    state.apply_change(StateChange::GoogleCacheOutcome(post(1, "a"), None));
    let mut this = TaskLoop::new(Task::GoogleCache);
    let action = this.step(&mut state, Event::Polled { cancelled: false });
    assert!(matches!(action, Action::Poll));
}

#[test]
fn a_cancelled_loop_touches_nothing() {
    let mut state = state_with(&["a"]);
    let mut this = TaskLoop::new(Task::Wikiwix);
    let action = this.step(&mut state, Event::Polled { cancelled: true });
    assert!(matches!(action, Action::Stop));
    assert_eq!(state.wikiwix_queue.ordered_queue.len(), 1);
    let cancelled = AwaitWithCancellationTokenOutcome::Cancelled;
    let mut this = TaskLoop { task: Task::Wikiwix, phase: Phase::Resting };
    assert!(matches!(this.step(&mut state, Event::Rested(cancelled)), Action::Stop));
    let mut this = TaskLoop { task: Task::Wikiwix, phase: Phase::Waiting };
    assert!(matches!(this.step(&mut state, Event::Woken(cancelled)), Action::Stop));
    assert!(matches!(this.phase, Phase::Over));
}

#[test]
fn a_loop_fails_when_its_report_cannot_be_logged() {
    let mut state = state_with(&["a"]);
    let mut this = TaskLoop::new(Task::OutlineCom);
    this.step(&mut state, Event::Polled { cancelled: false });
    this.step(&mut state, Event::Submitted(Report::Failed));
    let action = this.step(&mut state, Event::Encoded(vec![None]));
    assert!(matches!(action, Action::Fail));
    assert!(matches!(this.phase, Phase::Over));
    assert_eq!(state.cells[0].outline_com, WorkOutcome::Processing);
}

#[test]
fn replaying_what_was_recorded_comes_to_the_same_state() {
    let mut live = state_with(&["a", "b"]);
    let mut back = State::default();
    back.apply_change(StateChange::NewPost(post(1, "a")));
    back.apply_change(StateChange::NewPost(post(2, "b")));
    for task in SUBMITTERS {
        let work = begun(live.take(task));
        let report = if task == Task::Wikiwix { Report::Failed } else { report_for(task) };
        for change in report.changes(task, &work.meta) {
            back.apply_change(change);
        }
        live.record(task, work, &report, vec![line("x")]).unwrap();
        for place in 0..2 {
            for slot in [Slot::OutlineCom, Slot::Wikiwix, Slot::GoogleCache, Slot::Screenshot, Slot::Text] {
                assert_eq!(live.cells[place].is_done(slot), back.cells[place].is_done(slot));
                if live.cells[place].is_done(slot) {
                    assert_eq!(at(&live.cells[place], slot), at(&back.cells[place], slot));
                }
            }
        }
        assert_eq!(
            live.comment_queue.ordered_queue.len(),
            back.comment_queue.ordered_queue.len()
        );
    }
    assert_eq!(back.comment_queue.ordered_queue.len(), 1);
}

#[test]
fn a_loop_works_its_queue_off() {
    for task in SUBMITTERS {
        let mut state = state_with(&["c", "a", "b"]);
        let mut this = TaskLoop::new(task);
        let mut names = Vec::new();
        loop {
            match this.step(&mut state, Event::Polled { cancelled: false }) {
                Action::Submit { post, .. } => names.push(post.id.text()),
                Action::Wait => break,
                other => panic!("{:?}", other),
            }
            let report = if names.len() == 2 { Report::Failed } else { report_for(task) };
            this.step(&mut state, Event::Submitted(report));
            this.step(&mut state, Event::Encoded(vec![line("x")]));
            this.step(&mut state, Event::Rested(AwaitWithCancellationTokenOutcome::Continue));
        }
        assert_eq!(names, vec!["b", "a", "c"]);
    }
}

#[test]
fn a_taken_comment_changes_only_its_own_post() {
    let mut live = state_with(&["a", "b"]);
    let mut back = State::default();
    back.apply_change(StateChange::NewPost(post(1, "a")));
    back.apply_change(StateChange::NewPost(post(2, "b")));
    for _ in 0..2 {
        for task in SUBMITTERS {
            let work = begun(live.take(task));
            for change in report_for(task).changes(task, &work.meta) {
                back.apply_change(change);
            }
            live.record(task, work, &report_for(task), vec![line("x")]).unwrap();
        }
    }
    assert_eq!(begun(live.take(Task::Comment)).meta.id.text(), "b");
    assert_eq!(live.comment_queue.ordered_queue.len(), 1);
    assert_eq!(back.comment_queue.ordered_queue.len(), 2);
    for slot in [Slot::OutlineCom, Slot::Wikiwix, Slot::GoogleCache, Slot::Screenshot, Slot::Text] {
        assert_eq!(at(&live.cells[0], slot), at(&back.cells[0], slot));
        if slot != Slot::OutlineCom {
            assert_eq!(at(&live.cells[1], slot), at(&back.cells[1], slot));
        }
    }
    assert_eq!(live.cells[1].outline_com, WorkOutcome::Processing);
    assert!(back.cells[1].outline_com.is_done());
}
