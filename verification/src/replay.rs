//! What the change log gives back: whoever replays it agrees with whoever wrote it on everything
//! that has ended.
use vstd::prelude::*;

use crate::post::RedditPost;
use crate::reddit::RedditToken;
use crate::state::{
    all_read, all_written, blank_is_sound, collecting_keeps_sound, entries, new_post_keeps_sound,
    outcome_keeps_sound, replayed_in_turn, replayed_is_sound, seen_stays_seen, written, ClientData,
    Model, StateChange,
};
use crate::submit::{
    front, recorded_is_replayed, recording_keeps_sound, taken_up, taking_keeps_sound, Event, Phase,
    Report, Taken, Task, TaskLoop,
};
use crate::work::{waits, Slot, Work, WorkInner, WorkOutcome};

verus! {

/// Where whoever replays the change log need not agree with whoever wrote it.
pub struct Excuses {
    /// The things, at their places, that one of both takes to be further than the other.
    pub things: Set<(int, Slot)>,
    /// The places of the works whose comments may wait with one of both only.
    pub comments: Set<int>,
}

impl Excuses {
    /// Nothing is excused.
    pub open spec fn none() -> Excuses {
        Excuses { things: Set::empty(), comments: Set::empty() }
    }

    /// The comment of a work is excused as well.
    pub open spec fn and_comment(self, work: Work) -> Excuses {
        Excuses { comments: self.comments.insert(work.data as int), ..self }
    }

    /// One thing about a work, and its comment, are excused as well.
    pub open spec fn and_thing(self, work: Work, slot: Slot) -> Excuses {
        Excuses {
            things: self.things.insert((work.data as int, slot)),
            comments: self.comments.insert(work.data as int),
        }
    }

    /// Where a thing is excused, so is the comment.
    pub open spec fn wf(self) -> bool {
        forall|place: int, slot: Slot| #[trigger]
            self.things.contains((place, slot)) ==> self.comments.contains(place)
    }
}

/// Both agree on whether a thing has ended, and how.
pub open spec fn same_end(live: WorkOutcome, back: WorkOutcome) -> bool {
    live.done() == back.done() && (live.done() ==> live == back)
}

/// Both agree on what has ended at a place, and how.
pub open spec fn agrees(live: WorkInner, back: WorkInner, place: int, but: Excuses) -> bool {
    &&& live.comment == back.comment
    &&& forall|slot: Slot|
        #![trigger live.at(slot)]
        #![trigger back.at(slot)]
        but.things.contains((place, slot)) || same_end(live.at(slot), back.at(slot))
}

/// Both were set up alike and hold the same token, have seen the same posts, and agree, but for what
/// is excused, on what has ended about them and on the comments that wait.
pub open spec fn mirrors(live: Model, back: Model, but: Excuses) -> bool {
    &&& live.client_data == back.client_data
    &&& live.reddit_token == back.reddit_token
    &&& live.seen == back.seen
    &&& live.cells.len() == back.cells.len()
    &&& forall|place: int|
        0 <= place < live.cells.len() ==> agrees(
            #[trigger] live.cells[place],
            back.cells[place],
            place,
            but,
        )
    &&& forall|work: Work|
        #![trigger live.comment.contains(work)]
        #![trigger back.comment.contains(work)]
        but.comments.contains(work.data as int) || live.comment.contains(work)
            == back.comment.contains(work)
}

proof fn agreed_on_due(live: WorkInner, back: WorkInner, place: int, but: Excuses)
    requires
        agrees(live, back, place, but),
        but.wf(),
        !but.comments.contains(place),
    ensures
        live.comment_due() == back.comment_due(),
{
    assert forall|slot: Slot| #[trigger] live.at(slot).done() == back.at(slot).done() by {
        assert(!but.things.contains((place, slot)));
    }
    assert(live.at(Slot::OutlineCom).done() == back.at(Slot::OutlineCom).done());
    assert(live.at(Slot::Wikiwix).done() == back.at(Slot::Wikiwix).done());
    assert(live.at(Slot::GoogleCache).done() == back.at(Slot::GoogleCache).done());
    assert(live.at(Slot::Screenshot).done() == back.at(Slot::Screenshot).done());
    assert(live.at(Slot::Text).done() == back.at(Slot::Text).done());
}

proof fn still_agrees(
    live: WorkInner,
    back: WorkInner,
    place: int,
    but: Excuses,
    task: Task,
    report: Report,
)
    requires
        agrees(live, back, place, but),
    ensures
        agrees(report.applied(task, live), report.applied(task, back), place, but),
{
    let after = report.applied(task, live);
    let again = report.applied(task, back);
    assert forall|slot: Slot|
        #![trigger after.at(slot)]
        #![trigger again.at(slot)]
        but.things.contains((place, slot)) || same_end(after.at(slot), again.at(slot)) by {
        assert(but.things.contains((place, slot)) || same_end(live.at(slot), back.at(slot)));
    }
}

/// In a sound state a post waits for its comment just if the work that was seen does.
proof fn waits_as_seen(state: Model, work: Work)
    requires
        state.sound(),
        state.knows(work),
    ensures
        waits(state.comment, work.meta.id) == state.comment.contains(work),
{
    if waits(state.comment, work.meta.id) {
        let other = choose|other: Work| #[trigger]
            state.comment.contains(other) && other.meta.id@ == work.meta.id@;
        assert(state.holds(other));
        assert(state.knows(other));
    }
}

/// A state agrees with itself, without any excuse.
pub proof fn mirrors_itself(state: Model)
    ensures
        mirrors(state, state, Excuses::none()),
        Excuses::none().wf(),
{
}

/// Whoever replays a new post agrees with whoever collected it as much as before.
pub proof fn collecting_is_mirrored(
    live: Model,
    back: Model,
    but: Excuses,
    post: RedditPost,
    line: String,
)
    requires
        mirrors(live, back, but),
    ensures
        mirrors(live.collected(post, line), back.changed(StateChange::NewPost(post)), but),
{
    let after = live.collected(post, line);
    let again = back.changed(StateChange::NewPost(post));
    assert forall|place: int| 0 <= place < after.cells.len() implies agrees(
        #[trigger] after.cells[place],
        again.cells[place],
        place,
        but,
    ) by {
        if place < live.cells.len() {
            assert(agrees(live.cells[place], back.cells[place], place, but));
        }
    }
}

/// Whoever replays the changes that record a report agrees with whoever recorded it as much as
/// before.
pub proof fn recording_is_mirrored(
    live: Model,
    back: Model,
    but: Excuses,
    task: Task,
    work: Work,
    report: Report,
    lines: Seq<Option<String>>,
)
    requires
        mirrors(live, back, but),
        but.wf(),
        live.sound(),
        back.sound(),
        live.knows(work),
        report.fits(task),
        all_written(lines),
    ensures
        mirrors(
            live.recorded(task, work, report, lines),
            back.replayed(entries(report.recorded_as(task, work.meta))),
            but,
        ),
        back.replayed(entries(report.recorded_as(task, work.meta))).sound(),
{
    recorded_is_replayed(back, task, work, report, lines);
    recording_keeps_sound(back, task, work, report, lines);
    let place = work.data as int;
    let after = live.recorded(task, work, report, lines);
    let again = back.recorded(task, work, report, lines);
    let replayed = back.replayed(entries(report.recorded_as(task, work.meta)));
    assert(agrees(live.cells[place], back.cells[place], place, but));
    still_agrees(live.cells[place], back.cells[place], place, but, task, report);
    assert forall|i: int| 0 <= i < after.cells.len() implies agrees(
        #[trigger] after.cells[i],
        again.cells[i],
        i,
        but,
    ) by {
        if i != place {
            assert(agrees(live.cells[i], back.cells[i], i, but));
        }
    }
    if !but.comments.contains(place) {
        agreed_on_due(
            report.applied(task, live.cells[place]),
            report.applied(task, back.cells[place]),
            place,
            but,
        );
        waits_as_seen(live, work);
        waits_as_seen(back, work);
    }
    assert forall|other: Work|
        #![trigger after.comment.contains(other)]
        #![trigger again.comment.contains(other)]
        but.comments.contains(other.data as int) || after.comment.contains(other)
            == again.comment.contains(other) by {
        assert(but.comments.contains(other.data as int) || live.comment.contains(other)
            == back.comment.contains(other));
    }
    assert forall|other: Work| #[trigger] replayed.holds(other) implies replayed.knows(other) by {
        assert(again.holds(other));
        assert(again.knows(other));
    }
}

/// Where only some of the changes that record a report could be written down, the report does not
/// count, but whoever replays them takes them to count: that thing is to be excused.
pub proof fn torn_report_is_excused(
    live: Model,
    back: Model,
    but: Excuses,
    task: Task,
    work: Work,
    report: Report,
    lines: Seq<Option<String>>,
)
    requires
        mirrors(live, back, but),
        but.wf(),
        live.sound(),
        back.sound(),
        live.knows(work),
        report.fits(task),
        task is Screenshot,
        !all_written(lines),
    ensures
        mirrors(
            live.recorded(task, work, report, lines),
            back.replayed(entries(report.recorded_as(task, work.meta).take(1))),
            but.and_thing(work, task.slot()),
        ),
        back.replayed(entries(report.recorded_as(task, work.meta).take(1))).sound(),
{
    let change = report.recorded_as(task, work.meta)[0];
    assert(report.recorded_as(task, work.meta).take(1) =~= seq![change]);
    replayed_one(back, change);
    outcome_keeps_sound(back, change);
    let place = work.data as int;
    let more = but.and_thing(work, task.slot());
    let after = live.recorded(task, work, report, lines);
    let again = back.changed(change);
    assert forall|i: int| 0 <= i < after.cells.len() implies agrees(
        #[trigger] after.cells[i],
        again.cells[i],
        i,
        more,
    ) by {
        assert(agrees(live.cells[i], back.cells[i], i, but));
        let a = after.cells[i];
        let b = again.cells[i];
        assert forall|slot: Slot|
            #![trigger a.at(slot)]
            #![trigger b.at(slot)]
            more.things.contains((i, slot)) || same_end(a.at(slot), b.at(slot)) by {
            assert(but.things.contains((i, slot)) || same_end(
                live.cells[i].at(slot),
                back.cells[i].at(slot),
            ));
        }
    }
    assert forall|other: Work|
        #![trigger after.comment.contains(other)]
        #![trigger again.comment.contains(other)]
        more.comments.contains(other.data as int) || after.comment.contains(other)
            == again.comment.contains(other) by {
        assert(but.comments.contains(other.data as int) || live.comment.contains(other)
            == back.comment.contains(other));
    }
}

/// What is to be excused after a work was taken. Taking one for a comment takes its comment out of
/// the queue, and marks an archive that has ended as being worked on if the comment is begun.
pub open spec fn excused_by_taking(state: Model, task: Task, but: Excuses) -> Excuses {
    if task !is Comment || state.comment == Set::<Work>::empty() {
        but
    } else {
        match state.taken(task).1 {
            Taken::Begun(work) => but.and_thing(work, task.slot()),
            _ => but.and_comment(front(state.comment)),
        }
    }
}

/// Taking a work leaves nothing to record: whoever replays agrees as much as before, but for the
/// comment that was taken.
pub proof fn taking_is_mirrored(live: Model, back: Model, but: Excuses, task: Task)
    requires
        live.wf(),
        live.orderly(),
        mirrors(live, back, but),
        but.wf(),
    ensures
        mirrors(live.taken(task).0, back, excused_by_taking(live, task, but)),
        excused_by_taking(live, task, but).wf(),
{
    let (after, taken) = live.taken(task);
    let more = excused_by_taking(live, task, but);
    let work = front(live.queue(task));
    if taken is Begun {
        taken_up(live, task);
    }
    assert forall|i: int| 0 <= i < after.cells.len() implies agrees(
        #[trigger] after.cells[i],
        back.cells[i],
        i,
        more,
    ) by {
        assert(agrees(live.cells[i], back.cells[i], i, but));
        let a = after.cells[i];
        let b = back.cells[i];
        assert forall|slot: Slot|
            #![trigger a.at(slot)]
            #![trigger b.at(slot)]
            more.things.contains((i, slot)) || same_end(a.at(slot), b.at(slot)) by {
            assert(but.things.contains((i, slot)) || same_end(live.cells[i].at(slot), b.at(slot)));
        }
    }
    assert forall|other: Work|
        #![trigger after.comment.contains(other)]
        #![trigger back.comment.contains(other)]
        more.comments.contains(other.data as int) || after.comment.contains(other)
            == back.comment.contains(other) by {
        assert(but.comments.contains(other.data as int) || live.comment.contains(other)
            == back.comment.contains(other));
    }
}

/// Something that happens while the program runs.
pub enum Step {
    /// A listing was gone through.
    Collect(Seq<(RedditPost, Option<String>)>),
    /// A loop was told of an event.
    Tell(Task, Event),
    /// Somebody was logged in with a new token.
    LogIn(RedditToken, String),
    /// The program was set up.
    SetUp(ClientData, String),
    /// A line was written to the change log.
    Commit,
}

/// The changes that record the new posts of a listing.
pub open spec fn new_posts(state: Model, posts: Seq<(RedditPost, Option<String>)>) -> Seq<
    StateChange,
>
    decreases posts.len(),
{
    if posts.len() == 0 {
        seq![]
    } else if state.saw(posts[0].0.id) {
        new_posts(state, posts.skip(1))
    } else {
        match posts[0].1 {
            Some(line) => seq![StateChange::NewPost(posts[0].0)] + new_posts(
                state.collected(posts[0].0, line),
                posts.skip(1),
            ),
            None => seq![],
        }
    }
}

/// The program while it runs: its state, and where its loops stand.
pub struct Run {
    pub state: Model,
    pub loops: Map<Task, TaskLoop>,
}

impl Run {
    /// The loop of a task is about to look into its queue.
    pub open spec fn polls(self, task: Task) -> bool {
        self.loops.contains_key(task) && self.loops[task] == (TaskLoop {
            task,
            phase: Phase::Polling,
        })
    }

    /// Every loop is about to look into its queue.
    pub open spec fn begins(self) -> bool {
        forall|task: Task| #[trigger] self.polls(task)
    }

    /// The work that the loop of a task is at is the one that was seen under its identifier.
    pub open spec fn knows(self, task: Task) -> bool {
        &&& self.loops.contains_key(task)
        &&& self.loops[task].task == task
        &&& match self.loops[task].phase {
            Phase::Submitting(work) => self.state.knows(work),
            Phase::Recording(work, report) => self.state.knows(work) && report.fits(task),
            _ => true,
        }
    }

    /// The state is sound, and the works that the loops are at are those that were seen.
    pub open spec fn sound(self) -> bool {
        &&& self.state.sound()
        &&& forall|task: Task| #[trigger] self.knows(task)
    }

    /// The changes that record what happens in a step, as far as their lines could be made.
    pub open spec fn logged(self, step: Step) -> Seq<StateChange> {
        match step {
            Step::Collect(posts) => new_posts(self.state, posts),
            Step::Tell(task, event) => match (self.loops[task].phase, event) {
                (Phase::Recording(work, report), Event::Encoded(lines)) => report.recorded_as(
                    task,
                    work.meta,
                ).take(written(lines@).len() as int),
                _ => seq![],
            },
            Step::LogIn(token, _) => seq![StateChange::RedditToken(token)],
            Step::SetUp(data, _) => seq![StateChange::ClientData(data)],
            Step::Commit => seq![],
        }
    }

    /// The step can happen: the loop expects its event, there is a line for each change, and a place
    /// for each new post.
    pub open spec fn allows(self, step: Step) -> bool {
        match step {
            Step::Collect(posts) => self.state.cells.len() + posts.len() <= usize::MAX,
            Step::Tell(task, event) => {
                &&& self.loops[task].expects(event)
                &&& match (self.loops[task].phase, event) {
                    (Phase::Recording(work, report), Event::Encoded(lines)) => lines@.len()
                        == report.recorded_as(task, work.meta).len(),
                    _ => true,
                }
            },
            _ => true,
        }
    }

    /// The program after a step.
    pub open spec fn after(self, step: Step) -> Run {
        match step {
            Step::Collect(posts) => Run { state: self.state.collected_all(posts).0, ..self },
            Step::Tell(task, event) => {
                let (this, state, _) = self.loops[task].stepped(self.state, event);
                Run { state, loops: self.loops.insert(task, this) }
            },
            Step::LogIn(token, line) => Run {
                state: (Model { reddit_token: token, ..self.state }).logged(seq![Some(line)]),
                ..self
            },
            Step::SetUp(data, line) => Run {
                state: (Model { client_data: data, ..self.state }).logged(seq![Some(line)]),
                ..self
            },
            Step::Commit => Run { state: self.state.committed(), ..self },
        }
    }

    /// What is to be excused after a step: a comment that was taken, and a report of which some, but
    /// not all, changes could be written down.
    pub open spec fn excused(self, step: Step, but: Excuses) -> Excuses {
        match step {
            Step::Tell(task, event) => match (self.loops[task].phase, event) {
                (Phase::Polling, Event::Polled { cancelled }) if !cancelled => excused_by_taking(
                    self.state,
                    task,
                    but,
                ),
                (Phase::Recording(work, _), Event::Encoded(lines)) if !all_written(lines@)
                    && written(lines@).len() > 0 => but.and_thing(work, task.slot()),
                _ => but,
            },
            _ => but,
        }
    }

    /// The steps can happen one after the other.
    pub open spec fn allows_all(self, steps: Seq<Step>) -> bool
        decreases steps.len(),
    {
        steps.len() == 0 || self.allows(steps[0]) && self.after(steps[0]).allows_all(steps.skip(1))
    }

    /// The program after the steps.
    pub open spec fn after_all(self, steps: Seq<Step>) -> Run
        decreases steps.len(),
    {
        if steps.len() == 0 {
            self
        } else {
            self.after(steps[0]).after_all(steps.skip(1))
        }
    }

    /// The changes that record what happens in the steps.
    pub open spec fn logged_all(self, steps: Seq<Step>) -> Seq<StateChange>
        decreases steps.len(),
    {
        if steps.len() == 0 {
            seq![]
        } else {
            self.logged(steps[0]) + self.after(steps[0]).logged_all(steps.skip(1))
        }
    }

    /// What is to be excused after the steps.
    pub open spec fn excused_all(self, steps: Seq<Step>, but: Excuses) -> Excuses
        decreases steps.len(),
    {
        if steps.len() == 0 {
            but
        } else {
            self.after(steps[0]).excused_all(steps.skip(1), self.excused(steps[0], but))
        }
    }
}

proof fn entries_in_turn(first: Seq<StateChange>, second: Seq<StateChange>)
    ensures
        entries(first + second) == entries(first) + entries(second),
        all_read(entries(first)),
{
    assert(entries(first + second) =~= entries(first) + entries(second));
}

proof fn replayed_one(state: Model, change: StateChange)
    ensures
        state.replayed(entries(seq![change])) == state.changed(change),
{
    reveal_with_fuel(Model::replayed, 2);
    assert(entries(seq![change]).skip(1) =~= seq![]);
}

/// Whoever replays the new posts of a listing agrees with whoever went through the listing as much
/// as before.
pub proof fn listing_is_mirrored(
    live: Model,
    back: Model,
    but: Excuses,
    posts: Seq<(RedditPost, Option<String>)>,
)
    requires
        live.sound(),
        back.sound(),
        mirrors(live, back, but),
        live.cells.len() + posts.len() <= usize::MAX,
    ensures
        mirrors(live.collected_all(posts).0, back.replayed(entries(new_posts(live, posts))), but),
        live.collected_all(posts).0.sound(),
        back.replayed(entries(new_posts(live, posts))).sound(),
    decreases posts.len(),
{
    if posts.len() == 0 {
        assert(entries(new_posts(live, posts)) =~= seq![]);
    } else {
        let post = posts[0].0;
        if live.saw(post.id) {
            listing_is_mirrored(live, back, but, posts.skip(1));
        } else if posts[0].1 is Some {
            let line = posts[0].1->0;
            let change = StateChange::NewPost(post);
            let next = live.collected(post, line);
            collecting_keeps_sound(live, post, line);
            collecting_is_mirrored(live, back, but, post, line);
            new_post_keeps_sound(back, post);
            listing_is_mirrored(next, back.changed(change), but, posts.skip(1));
            let rest = new_posts(next, posts.skip(1));
            entries_in_turn(seq![change], rest);
            replayed_in_turn(back, entries(seq![change]), entries(rest));
            replayed_one(back, change);
        } else {
            assert(entries(new_posts(live, posts)) =~= seq![]);
        }
    }
}

proof fn encoding_is_mirrored(
    run: Run,
    back: Model,
    but: Excuses,
    task: Task,
    lines: Vec<Option<String>>,
)
    requires
        run.sound(),
        back.sound(),
        but.wf(),
        mirrors(run.state, back, but),
        run.loops[task].phase is Recording,
        run.allows(Step::Tell(task, Event::Encoded(lines))),
    ensures
        ({
            let step = Step::Tell(task, Event::Encoded(lines));
            let again = back.replayed(entries(run.logged(step)));
            &&& run.after(step).state.sound()
            &&& run.after(step).state.seen == run.state.seen
            &&& mirrors(run.after(step).state, again, run.excused(step, but))
            &&& again.sound()
        }),
{
    let step = Step::Tell(task, Event::Encoded(lines));
    assert(run.knows(task));
    let work = run.loops[task].phase->Recording_0;
    let report = run.loops[task].phase->Recording_1;
    let changes = report.recorded_as(task, work.meta);
    recording_keeps_sound(run.state, task, work, report, lines@);
    if all_written(lines@) {
        written_one_by_one(lines@);
        assert(run.logged(step) =~= changes);
        recording_is_mirrored(run.state, back, but, task, work, report, lines@);
    } else {
        written_short(lines@);
        if written(lines@).len() > 0 {
            assert(run.logged(step) =~= changes.take(1));
            torn_report_is_excused(run.state, back, but, task, work, report, lines@);
        } else {
            assert(entries(run.logged(step)) =~= seq![]);
            let after = run.after(step).state;
            assert forall|i: int| 0 <= i < after.cells.len() implies agrees(
                #[trigger] after.cells[i],
                back.cells[i],
                i,
                but,
            ) by {
                assert(agrees(run.state.cells[i], back.cells[i], i, but));
            }
        }
    }
}

proof fn telling_is_mirrored(run: Run, back: Model, but: Excuses, task: Task, event: Event)
    requires
        run.sound(),
        back.sound(),
        but.wf(),
        mirrors(run.state, back, but),
        run.allows(Step::Tell(task, event)),
    ensures
        ({
            let step = Step::Tell(task, event);
            let again = back.replayed(entries(run.logged(step)));
            &&& run.after(step).sound()
            &&& run.excused(step, but).wf()
            &&& mirrors(run.after(step).state, again, run.excused(step, but))
            &&& again.sound()
        }),
{
    let step = Step::Tell(task, event);
    let after = run.after(step);
    assert(run.knows(task));
    match (run.loops[task].phase, event) {
        (Phase::Polling, Event::Polled { cancelled }) => {
            assert(entries(run.logged(step)) =~= seq![]);
            if !cancelled {
                taking_keeps_sound(run.state, task);
                taking_is_mirrored(run.state, back, but, task);
            }
        },
        (Phase::Recording(_, _), Event::Encoded(lines)) => {
            encoding_is_mirrored(run, back, but, task, lines);
        },
        _ => {
            assert(entries(run.logged(step)) =~= seq![]);
        },
    }
    assert(after.state.seen == run.state.seen);
    assert forall|other: Task| #[trigger] after.knows(other) by {
        assert(run.knows(other));
    }
}

/// Whoever replays what a step records agrees with whoever made the step, but for what was excused
/// before and what the step excuses.
pub proof fn step_is_mirrored(run: Run, back: Model, but: Excuses, step: Step)
    requires
        run.sound(),
        back.sound(),
        but.wf(),
        mirrors(run.state, back, but),
        run.allows(step),
    ensures
        run.after(step).sound(),
        run.excused(step, but).wf(),
        mirrors(
            run.after(step).state,
            back.replayed(entries(run.logged(step))),
            run.excused(step, but),
        ),
        back.replayed(entries(run.logged(step))).sound(),
{
    let after = run.after(step);
    match step {
        Step::Collect(posts) => {
            listing_is_mirrored(run.state, back, but, posts);
            assert forall|work: Work| run.state.knows(work) implies #[trigger] after.state.knows(
                work,
            ) by {
                seen_stays_seen(run.state, posts, work.meta.id);
            }
            assert forall|other: Task| #[trigger] after.knows(other) by {
                assert(run.knows(other));
            }
        },
        Step::Tell(task, event) => {
            telling_is_mirrored(run, back, but, task, event);
        },
        _ => {
            if let Step::LogIn(token, _) = step {
                replayed_one(back, StateChange::RedditToken(token));
                outcome_keeps_sound(back, StateChange::RedditToken(token));
            }
            if let Step::SetUp(data, _) = step {
                replayed_one(back, StateChange::ClientData(data));
                outcome_keeps_sound(back, StateChange::ClientData(data));
            }
            if step is Commit {
                assert(entries(run.logged(step)) =~= seq![]);
            }
            assert forall|other: Work| #[trigger] after.state.holds(
                other,
            ) implies after.state.knows(other) by {
                assert(run.state.holds(other));
                assert(run.state.knows(other));
            }
            assert forall|other: Task| #[trigger] after.knows(other) by {
                assert(run.knows(other));
            }
        },
    }
}

proof fn steps_are_mirrored(run: Run, back: Model, but: Excuses, steps: Seq<Step>)
    requires
        run.sound(),
        back.sound(),
        but.wf(),
        mirrors(run.state, back, but),
        run.allows_all(steps),
    ensures
        mirrors(
            run.after_all(steps).state,
            back.replayed(entries(run.logged_all(steps))),
            run.excused_all(steps, but),
        ),
    decreases steps.len(),
{
    if steps.len() == 0 {
        assert(entries(run.logged_all(steps)) =~= seq![]);
    } else {
        let first = run.logged(steps[0]);
        let next = run.after(steps[0]);
        let rest = next.logged_all(steps.skip(1));
        step_is_mirrored(run, back, but, steps[0]);
        steps_are_mirrored(
            next,
            back.replayed(entries(first)),
            run.excused(steps[0], but),
            steps.skip(1),
        );
        entries_in_turn(first, rest);
        replayed_in_turn(back, entries(first), entries(rest));
    }
}

/// The change log keeps what the program did: after any run that began with what a change log told,
/// whoever replays that log together with what the run added to it agrees with the program. Excused
/// are the comments that were taken, with the mark that taking leaves, and the reports of which some,
/// but not all, changes could be written down.
pub proof fn run_is_replayed(blank: Model, past: Seq<StateChange>, run: Run, steps: Seq<Step>)
    requires
        blank.is_blank(),
        past.len() <= usize::MAX,
        run.state == blank.replayed(entries(past)),
        run.begins(),
        run.allows_all(steps),
    ensures
        mirrors(
            run.after_all(steps).state,
            blank.replayed(entries(past + run.logged_all(steps))),
            run.excused_all(steps, Excuses::none()),
        ),
{
    blank_is_sound(blank);
    replayed_is_sound(blank, entries(past));
    mirrors_itself(run.state);
    assert forall|task: Task| #[trigger] run.knows(task) by {
        assert(run.polls(task));
    }
    steps_are_mirrored(run, run.state, Excuses::none(), steps);
    entries_in_turn(past, run.logged_all(steps));
    replayed_in_turn(blank, entries(past), entries(run.logged_all(steps)));
}

/// A step that takes no comment and tears no report excuses nothing.
pub proof fn ordinary_step_excuses_nothing(run: Run, step: Step, but: Excuses)
    requires
        step matches Step::Tell(task, event) ==> {
            &&& task is Comment && event is Polled ==> event.cancels() || run.state.comment
                == Set::<Work>::empty()
            &&& event matches Event::Encoded(lines) ==> all_written(lines@)
        },
    ensures
        run.excused(step, but) == but,
{
}

proof fn written_one_by_one(lines: Seq<Option<String>>)
    requires
        all_written(lines),
    ensures
        written(lines).len() == lines.len(),
    decreases lines.len(),
{
    if lines.len() > 0 {
        assert forall|i: int| 0 <= i < lines.skip(1).len() implies #[trigger] lines.skip(
            1,
        )[i] is Some by {
            assert(lines[i + 1] is Some);
        }
        assert(lines[0] is Some);
        written_one_by_one(lines.skip(1));
    }
}

proof fn written_short(lines: Seq<Option<String>>)
    requires
        !all_written(lines),
    ensures
        written(lines).len() < lines.len(),
    decreases lines.len(),
{
    if lines[0] is Some {
        if all_written(lines.skip(1)) {
            assert forall|i: int| 0 <= i < lines.len() implies #[trigger] lines[i] is Some by {
                if i > 0 {
                    assert(lines.skip(1)[i - 1] is Some);
                }
            }
        }
        written_short(lines.skip(1));
    }
}

proof fn listing_notes_its_posts(state: Model, posts: Seq<(RedditPost, Option<String>)>)
    ensures
        state.collected_all(posts).0.uncommitted.len() == state.uncommitted.len() + new_posts(
            state,
            posts,
        ).len(),
    decreases posts.len(),
{
    if posts.len() > 0 {
        if state.saw(posts[0].0.id) {
            listing_notes_its_posts(state, posts.skip(1));
        } else if posts[0].1 is Some {
            listing_notes_its_posts(state.collected(posts[0].0, posts[0].1->0), posts.skip(1));
        }
    }
}

/// A step notes one line for each change that records it.
pub proof fn step_notes_its_changes(run: Run, step: Step)
    requires
        run.sound(),
        run.allows(step),
        step !is Commit,
    ensures
        run.after(step).state.uncommitted.len() == run.state.uncommitted.len() + run.logged(
            step,
        ).len(),
{
    match step {
        Step::Collect(posts) => {
            listing_notes_its_posts(run.state, posts);
        },
        Step::Tell(task, event) => {
            assert(run.knows(task));
            if let Event::Encoded(lines) = event {
                if all_written(lines@) {
                    written_one_by_one(lines@);
                } else {
                    written_short(lines@);
                }
            }
        },
        Step::LogIn(_, line) => {
            written_one_by_one(seq![Some(line)]);
        },
        Step::SetUp(_, line) => {
            written_one_by_one(seq![Some(line)]);
        },
        Step::Commit => {},
    }
}

} // verus!
