//! The loops that take works out of the queues and do something about them.
use vstd::prelude::*;

use crate::networking::AwaitWithCancellationTokenOutcome;
use crate::post::RedditPost;
use crate::screenshot::SubmittedScreenshot;
use crate::state::{all_written, entries, written, EncodeError, Model, State, StateChange};
use crate::work::{
    enqueued_twice, newest, queue_has_a_newest, queue_stays_orderly, waits, Slot, Work, WorkInner,
    WorkOutcome,
};

verus! {

/// What a loop does about the works of its queue.
#[derive(Debug, Clone, Copy, PartialEq, Eq, Structural)]
pub enum Task {
    OutlineCom,
    Wikiwix,
    GoogleCache,
    Screenshot,
    Comment,
}

impl Task {
    /// The thing that is marked as being worked on while the loop is at a work. The loop for
    /// comments marks the archive at outline.com.
    pub open spec fn slot(self) -> Slot {
        match self {
            Task::OutlineCom => Slot::OutlineCom,
            Task::Wikiwix => Slot::Wikiwix,
            Task::GoogleCache => Slot::GoogleCache,
            Task::Screenshot => Slot::Screenshot,
            Task::Comment => Slot::OutlineCom,
        }
    }

    /// There is nothing to be done about a work that has come this far: the comment was written, or
    /// the loop's own thing has ended; for a comment, there is nothing that it could say.
    pub open spec fn skips(self, inner: WorkInner) -> bool {
        inner.comment.done() || (if self is Comment {
            inner.failed()
        } else {
            inner.at(self.slot()).done()
        })
    }

    /// How many seconds the loop rests after a work.
    pub open spec fn rest(self) -> u64 {
        match self {
            Task::OutlineCom => 30,
            Task::Wikiwix => 30,
            Task::GoogleCache => 10,
            Task::Screenshot => 10,
            Task::Comment => 60,
        }
    }

    /// How many seconds the loop spends on a work at most, if it submits something.
    pub open spec fn deadline(self) -> Option<u64> {
        match self {
            Task::OutlineCom => Some(45),
            Task::Wikiwix => Some(45),
            Task::GoogleCache => Some(45),
            Task::Screenshot => Some(60),
            Task::Comment => None,
        }
    }

    fn mark(self) -> (slot: Slot)
        ensures
            slot == self.slot(),
    {
        match self {
            Task::OutlineCom => Slot::OutlineCom,
            Task::Wikiwix => Slot::Wikiwix,
            Task::GoogleCache => Slot::GoogleCache,
            Task::Screenshot => Slot::Screenshot,
            Task::Comment => Slot::OutlineCom,
        }
    }

    /// Whether there is nothing to be done about a work that has come this far.
    pub fn skip_work(self, inner: &WorkInner) -> (skip: bool)
        ensures
            skip == self.skips(*inner),
            inner.comment.done() ==> skip,
            !inner.comment.done() ==> match self {
                Task::OutlineCom => skip == inner.outline_com.done(),
                Task::Wikiwix => skip == inner.wikiwix.done(),
                Task::GoogleCache => skip == inner.google_cache.done(),
                Task::Screenshot => skip == inner.screenshot.done(),
                Task::Comment => skip == inner.failed(),
            },
    {
        inner.comment.is_done() || (match self {
            Task::Comment => inner.is_failure(),
            _ => inner.is_done(self.mark()),
        })
    }

    /// How many seconds the loop rests after a work.
    pub fn sleep_seconds(self) -> (seconds: u64)
        ensures
            seconds == self.rest(),
    {
        match self {
            Task::OutlineCom => 30,
            Task::Wikiwix => 30,
            Task::GoogleCache => 10,
            Task::Screenshot => 10,
            Task::Comment => 60,
        }
    }

    /// How many seconds the loop spends on a work at most, if it submits something.
    pub fn max_submit_seconds(self) -> (seconds: Option<u64>)
        ensures
            seconds == self.deadline(),
    {
        match self {
            Task::OutlineCom => Some(45),
            Task::Wikiwix => Some(45),
            Task::GoogleCache => Some(45),
            Task::Screenshot => Some(60),
            Task::Comment => None,
        }
    }
}

/// What came of taking a work out of a queue.
#[derive(Debug)]
pub enum Taken {
    /// Nothing waits.
    Nothing,
    /// There is nothing to be done about the work.
    Skipped,
    /// The work is being worked on.
    Begun(Work),
}

/// What came of submitting something.
#[derive(Debug)]
pub enum Report {
    Failed,
    /// A page was archived here.
    Archived(String),
    /// A screenshot was posted.
    Posted(SubmittedScreenshot),
}

impl Report {
    /// The report can come of the task.
    pub open spec fn fits(self, task: Task) -> bool {
        match self {
            Report::Failed => task !is Comment,
            Report::Archived(_) => task !is Comment && task !is Screenshot,
            Report::Posted(_) => task is Screenshot,
        }
    }

    /// What the report says of one thing.
    pub open spec fn part(self, slot: Slot) -> Option<String> {
        match self {
            Report::Failed => None,
            Report::Archived(url) => Some(url),
            Report::Posted(screenshot) => if slot is Text {
                Some(screenshot.text)
            } else {
                Some(screenshot.image_url)
            },
        }
    }

    /// How far everything has come after the report. A screenshot brings a text.
    pub open spec fn applied(self, task: Task, inner: WorkInner) -> WorkInner {
        let own = inner.with(task.slot(), WorkOutcome::of(self.part(task.slot())));
        if task is Screenshot {
            own.with(Slot::Text, WorkOutcome::of(self.part(Slot::Text)))
        } else {
            own
        }
    }

    /// The changes that record the report.
    pub open spec fn recorded_as(self, task: Task, post: RedditPost) -> Seq<StateChange> {
        let own = StateChange::outcome_of(task.slot(), post, self.part(task.slot()));
        if task is Screenshot {
            seq![own, StateChange::outcome_of(Slot::Text, post, self.part(Slot::Text))]
        } else {
            seq![own]
        }
    }

    fn result(&self, slot: Slot) -> (result: Option<String>)
        ensures
            result == self.part(slot),
    {
        match self {
            Report::Failed => None,
            Report::Archived(url) => Some(url.clone()),
            Report::Posted(screenshot) => match slot {
                Slot::Text => Some(screenshot.text.clone()),
                _ => Some(screenshot.image_url.clone()),
            },
        }
    }

    /// The changes that record the report about a post.
    pub fn changes(&self, task: Task, post: &RedditPost) -> (changes: Vec<StateChange>)
        ensures
            changes@ == self.recorded_as(task, *post),
    {
        let mut changes = Vec::new();
        changes.push(StateChange::outcome(task.mark(), post.clone(), self.result(task.mark())));
        if let Task::Screenshot = task {
            changes.push(StateChange::outcome(Slot::Text, post.clone(), self.result(Slot::Text)));
        }
        assert(changes@ =~= self.recorded_as(task, *post));
        changes
    }
}

/// What came of recording a report.
#[derive(Debug, Clone, Copy, PartialEq, Eq, Structural)]
pub struct Recorded {
    /// There are lines to be written to the change log.
    pub wake_changelog: bool,
    /// A comment became due.
    pub wake_comment: bool,
}

/// The work about the newest post of a queue.
pub open spec fn front(queue: Set<Work>) -> Work {
    choose|work: Work| newest(queue, work)
}

impl Model {
    /// The works that wait for the task.
    pub open spec fn queue(self, task: Task) -> Set<Work> {
        match task {
            Task::OutlineCom => self.outline_com,
            Task::Wikiwix => self.wikiwix,
            Task::GoogleCache => self.google_cache,
            Task::Screenshot => self.screenshot,
            Task::Comment => self.comment,
        }
    }

    /// The same, but for the works that wait for the task.
    pub open spec fn with_queue(self, task: Task, queue: Set<Work>) -> Model {
        match task {
            Task::OutlineCom => Model { outline_com: queue, ..self },
            Task::Wikiwix => Model { wikiwix: queue, ..self },
            Task::GoogleCache => Model { google_cache: queue, ..self },
            Task::Screenshot => Model { screenshot: queue, ..self },
            Task::Comment => Model { comment: queue, ..self },
        }
    }

    /// The state after the newest work was taken out of the queue of a task. If there is something
    /// to be done about it, it is marked as being worked on.
    pub open spec fn taken(self, task: Task) -> (Model, Taken) {
        let queue = self.queue(task);
        if queue == Set::<Work>::empty() {
            (self, Taken::Nothing)
        } else {
            let work = front(queue);
            let rest = self.with_queue(task, queue.remove(work));
            let inner = self.cells[work.data as int];
            if task.skips(inner) {
                (rest, Taken::Skipped)
            } else {
                (
                    Model {
                        cells: self.cells.update(
                            work.data as int,
                            inner.with(task.slot(), WorkOutcome::Processing),
                        ),
                        ..rest
                    },
                    Taken::Begun(work),
                )
            }
        }
    }

    /// The state after a report about a work was recorded. If one of the lines could not be made,
    /// the report does not count.
    pub open spec fn recorded(
        self,
        task: Task,
        work: Work,
        report: Report,
        lines: Seq<Option<String>>,
    ) -> Model {
        if all_written(lines) {
            self.logged(lines).with_inner(
                work,
                report.applied(task, self.cells[work.data as int]),
            )
        } else {
            self.logged(lines)
        }
    }
}

impl State {
    fn pop(&mut self, task: Task) -> (work: Option<Work>)
        requires
            old(self).wf(),
        ensures
            final(self).wf(),
            match work {
                Some(work) => {
                    &&& newest(old(self)@.queue(task), work)
                    &&& work.data < old(self)@.cells.len()
                    &&& final(self)@ == old(self)@.with_queue(
                        task,
                        old(self)@.queue(task).remove(work),
                    )
                },
                None => {
                    &&& old(self)@.queue(task) == Set::<Work>::empty()
                    &&& final(self)@ == old(self)@
                },
            },
    {
        match task {
            Task::OutlineCom => self.outline_com_queue.pop(),
            Task::Wikiwix => self.wikiwix_queue.pop(),
            Task::GoogleCache => self.google_cache_queue.pop(),
            Task::Screenshot => self.screenshot_queue.pop(),
            Task::Comment => self.comment_queue.pop(),
        }
    }

    /// Takes the newest work out of the queue of a task, and marks it as being worked on if there is
    /// something to be done about it.
    pub fn take(&mut self, task: Task) -> (taken: Taken)
        requires
            old(self).wf(),
        ensures
            final(self).wf(),
            (final(self)@, taken) == old(self)@.taken(task),
            taken matches Taken::Begun(work) ==> work.data < final(self)@.cells.len(),
    {
        let work = match self.pop(task) {
            Some(work) => work,
            None => {
                return Taken::Nothing;
            },
        };
        proof {
            let queue = old(self)@.queue(task);
            assert(queue.contains(work));
            assert(newest(queue, front(queue)));
            assert(queue.contains(front(queue)));
            assert(work == front(queue));
        }
        if task.skip_work(&self.cells[work.data]) {
            return Taken::Skipped;
        }
        self.cells[work.data].set(task.mark(), WorkOutcome::Processing);
        assert(self@ =~= old(self)@.taken(task).0);
        Taken::Begun(work)
    }

    /// Records a report about a work: the lines of its changes are noted, and then it counts.
    pub fn record(
        &mut self,
        task: Task,
        work: Work,
        report: &Report,
        lines: Vec<Option<String>>,
    ) -> (result: Result<Recorded, EncodeError>)
        requires
            old(self).wf(),
            work.data < old(self)@.cells.len(),
        ensures
            final(self).wf(),
            final(self)@ == old(self)@.recorded(task, work, *report, lines@),
            result == (if all_written(lines@) {
                Ok::<Recorded, EncodeError>(
                    Recorded {
                        wake_changelog: lines@.len() > 0,
                        wake_comment: report.applied(
                            task,
                            old(self)@.cells[work.data as int],
                        ).comment_due() && !waits(old(self)@.comment, work.meta.id),
                    },
                )
            } else {
                Err::<Recorded, EncodeError>(EncodeError)
            }),
    {
        let wake_changelog = match self.log_changes(lines) {
            Ok(any) => any,
            Err(error) => {
                return Err(error);
            },
        };
        let ghost logged = self@;
        let result = report.result(task.mark());
        self.cells[work.data].set(task.mark(), WorkOutcome::from_result(result));
        if let Task::Screenshot = task {
            let text = report.result(Slot::Text);
            self.cells[work.data].set(Slot::Text, WorkOutcome::from_result(text));
        }
        let ghost inner = report.applied(task, logged.cells[work.data as int]);
        assert(self@.cells =~= logged.cells.update(work.data as int, inner));
        let wake_comment = self.finish(work);
        assert(self@ =~= logged.with_inner(work, inner));
        Ok(Recorded { wake_changelog, wake_comment })
    }
}

/// Where a loop stands.
#[derive(Debug)]
pub enum Phase {
    /// It is about to look into its queue.
    Polling,
    /// Something is being submitted about a work.
    Submitting(Work),
    /// The changes of a report are being written down.
    Recording(Work, Report),
    /// It rests after a work.
    Resting,
    /// It waits for a work.
    Waiting,
    /// It has ended.
    Over,
}

/// What a loop is told.
#[derive(Debug)]
pub enum Event {
    /// It can look into its queue, unless everything was cancelled.
    Polled { cancelled: bool },
    /// This came of what it submitted.
    Submitted(Report),
    /// These lines were made of the changes, as far as they could be made.
    Encoded(Vec<Option<String>>),
    /// The rest ended.
    Rested(AwaitWithCancellationTokenOutcome),
    /// The wait for a work ended.
    Woken(AwaitWithCancellationTokenOutcome),
}

/// What a loop asks for.
#[derive(Debug)]
pub enum Action {
    /// Look whether everything was cancelled.
    Poll,
    /// Submit something about a post, within so many seconds.
    Submit { post: RedditPost, seconds: u64 },
    /// Make lines of the changes.
    Encode(Vec<StateChange>),
    /// Wake who writes the change log and who writes comments, if there is something to do for them.
    /// Then rest for so many seconds.
    Rest { seconds: u64, wake_changelog: bool, wake_comment: bool },
    /// Wait for a work to be put into the queue.
    Wait,
    /// The loop ended.
    Stop,
    /// The loop ended because a line could not be made.
    Fail,
}

/// What an action says.
pub enum ActionView {
    Poll,
    Submit { post: RedditPost, seconds: u64 },
    Encode(Seq<StateChange>),
    Rest { seconds: u64, wake_changelog: bool, wake_comment: bool },
    Wait,
    Stop,
    Fail,
}

impl View for Action {
    type V = ActionView;

    open spec fn view(&self) -> ActionView {
        match *self {
            Action::Poll => ActionView::Poll,
            Action::Submit { post, seconds } => ActionView::Submit { post, seconds },
            Action::Encode(changes) => ActionView::Encode(changes@),
            Action::Rest { seconds, wake_changelog, wake_comment } => ActionView::Rest {
                seconds,
                wake_changelog,
                wake_comment,
            },
            Action::Wait => ActionView::Wait,
            Action::Stop => ActionView::Stop,
            Action::Fail => ActionView::Fail,
        }
    }
}

impl Event {
    /// The event says that everything was cancelled.
    pub open spec fn cancels(self) -> bool {
        match self {
            Event::Polled { cancelled } => cancelled,
            Event::Rested(outcome) => outcome is Cancelled,
            Event::Woken(outcome) => outcome is Cancelled,
            _ => false,
        }
    }
}

/// A loop that does something about the works of a queue, one after the other.
#[derive(Debug)]
pub struct TaskLoop {
    pub task: Task,
    pub phase: Phase,
}

impl TaskLoop {
    /// The work that the loop is at is kept at one of so many places.
    pub open spec fn wf(self, places: nat) -> bool {
        match self.phase {
            Phase::Submitting(work) => work.data < places,
            Phase::Recording(work, _) => work.data < places,
            _ => true,
        }
    }

    /// The loop can be told of the event where it stands.
    pub open spec fn expects(self, event: Event) -> bool {
        match self.phase {
            Phase::Polling => event is Polled,
            Phase::Submitting(_) => event matches Event::Submitted(report) && report.fits(
                self.task,
            ),
            Phase::Recording(_, _) => event is Encoded,
            Phase::Resting => event is Rested,
            Phase::Waiting => event is Woken,
            Phase::Over => false,
        }
    }

    /// The loop has ended, and nothing else changes.
    pub open spec fn stopped(self, state: Model) -> (TaskLoop, Model, ActionView) {
        (TaskLoop { phase: Phase::Over, ..self }, state, ActionView::Stop)
    }

    /// The loop is about to look into its queue, and nothing else changes.
    pub open spec fn continued(self, state: Model) -> (TaskLoop, Model, ActionView) {
        (TaskLoop { phase: Phase::Polling, ..self }, state, ActionView::Poll)
    }

    /// The loop looks into its queue.
    pub open spec fn polled(self, state: Model) -> (TaskLoop, Model, ActionView) {
        let (after, taken) = state.taken(self.task);
        match taken {
            Taken::Nothing => (
                TaskLoop { phase: Phase::Waiting, ..self },
                after,
                ActionView::Wait,
            ),
            Taken::Skipped => self.continued(after),
            Taken::Begun(work) => match self.task.deadline() {
                Some(seconds) => (
                    TaskLoop { phase: Phase::Submitting(work), ..self },
                    after,
                    ActionView::Submit { post: work.meta, seconds },
                ),
                None => (
                    TaskLoop { phase: Phase::Resting, ..self },
                    after,
                    ActionView::Rest {
                        seconds: self.task.rest(),
                        wake_changelog: false,
                        wake_comment: false,
                    },
                ),
            },
        }
    }

    /// The lines of the changes of a report came back.
    pub open spec fn encoded(
        self,
        state: Model,
        work: Work,
        report: Report,
        lines: Seq<Option<String>>,
    ) -> (TaskLoop, Model, ActionView) {
        let after = state.recorded(self.task, work, report, lines);
        if all_written(lines) {
            (
                TaskLoop { phase: Phase::Resting, ..self },
                after,
                ActionView::Rest {
                    seconds: self.task.rest(),
                    wake_changelog: lines.len() > 0,
                    wake_comment: report.applied(
                        self.task,
                        state.cells[work.data as int],
                    ).comment_due() && !waits(state.comment, work.meta.id),
                },
            )
        } else {
            (TaskLoop { phase: Phase::Over, ..self }, after, ActionView::Fail)
        }
    }

    /// Where the loop stands after an event, the state after it, and what the loop asks for.
    pub open spec fn stepped(self, state: Model, event: Event) -> (TaskLoop, Model, ActionView) {
        if event.cancels() {
            self.stopped(state)
        } else {
            match (self.phase, event) {
                (Phase::Polling, _) => self.polled(state),
                (Phase::Submitting(work), Event::Submitted(report)) => (
                    TaskLoop { phase: Phase::Recording(work, report), ..self },
                    state,
                    ActionView::Encode(report.recorded_as(self.task, work.meta)),
                ),
                (Phase::Recording(work, report), Event::Encoded(lines)) => self.encoded(
                    state,
                    work,
                    report,
                    lines@,
                ),
                _ => self.continued(state),
            }
        }
    }

    /// A loop that is about to look into its queue.
    pub fn new(task: Task) -> (this: Self)
        ensures
            this == (TaskLoop { task, phase: Phase::Polling }),
    {
        TaskLoop { task, phase: Phase::Polling }
    }

    fn go_on(&mut self, outcome: AwaitWithCancellationTokenOutcome) -> (action: Action)
        ensures
            final(self).task == old(self).task,
            match outcome {
                AwaitWithCancellationTokenOutcome::Cancelled => final(self).phase == Phase::Over
                    && action == Action::Stop,
                AwaitWithCancellationTokenOutcome::Continue => final(self).phase == Phase::Polling
                    && action == Action::Poll,
            },
    {
        match outcome {
            AwaitWithCancellationTokenOutcome::Cancelled => {
                self.phase = Phase::Over;
                Action::Stop
            },
            AwaitWithCancellationTokenOutcome::Continue => {
                self.phase = Phase::Polling;
                Action::Poll
            },
        }
    }

    fn poll(&mut self, state: &mut State) -> (action: Action)
        requires
            old(state).wf(),
        ensures
            final(state).wf(),
            final(self).wf(final(state)@.cells.len()),
            (*final(self), final(state)@, action@) == old(self).polled(old(state)@),
    {
        match state.take(self.task) {
            Taken::Nothing => {
                self.phase = Phase::Waiting;
                Action::Wait
            },
            Taken::Skipped => {
                self.phase = Phase::Polling;
                Action::Poll
            },
            Taken::Begun(work) => match self.task.max_submit_seconds() {
                Some(seconds) => {
                    let post = work.meta.clone();
                    self.phase = Phase::Submitting(work);
                    Action::Submit { post, seconds }
                },
                None => {
                    self.phase = Phase::Resting;
                    Action::Rest {
                        seconds: self.task.sleep_seconds(),
                        wake_changelog: false,
                        wake_comment: false,
                    }
                },
            },
        }
    }

    /// Tells the loop of an event. Says what the loop asks for next.
    pub fn step(&mut self, state: &mut State, event: Event) -> (action: Action)
        requires
            old(state).wf(),
            old(self).wf(old(state)@.cells.len()),
            old(self).expects(event),
        ensures
            final(state).wf(),
            final(self).wf(final(state)@.cells.len()),
            (*final(self), final(state)@, action@) == old(self).stepped(old(state)@, event),
    {
        let mut phase = Phase::Over;
        std::mem::swap(&mut phase, &mut self.phase);
        match (phase, event) {
            (Phase::Polling, Event::Polled { cancelled }) => {
                if cancelled {
                    Action::Stop
                } else {
                    self.poll(state)
                }
            },
            (Phase::Submitting(work), Event::Submitted(report)) => {
                let changes = report.changes(self.task, &work.meta);
                self.phase = Phase::Recording(work, report);
                Action::Encode(changes)
            },
            (Phase::Recording(work, report), Event::Encoded(lines)) => {
                match state.record(self.task, work, &report, lines) {
                    Ok(recorded) => {
                        self.phase = Phase::Resting;
                        Action::Rest {
                            seconds: self.task.sleep_seconds(),
                            wake_changelog: recorded.wake_changelog,
                            wake_comment: recorded.wake_comment,
                        }
                    },
                    Err(_) => Action::Fail,
                }
            },
            (_, Event::Rested(outcome)) => self.go_on(outcome),
            (_, Event::Woken(outcome)) => self.go_on(outcome),
            _ => Action::Stop,
        }
    }
}

/// Whoever replays the changes that record a report comes to the same state as whoever recorded it,
/// but for the lines that are not yet written down.
pub proof fn recorded_is_replayed(
    state: Model,
    task: Task,
    work: Work,
    report: Report,
    lines: Seq<Option<String>>,
)
    requires
        state.wf(),
        state.knows(work),
        report.fits(task),
        all_written(lines),
    ensures
        state.replayed(entries(report.recorded_as(task, work.meta))) == (Model {
            uncommitted: state.uncommitted,
            ..state.recorded(task, work, report, lines)
        }),
{
    let changes = report.recorded_as(task, work.meta);
    let entries = entries(changes);
    let place = work.data as int;
    let live = Model {
        uncommitted: state.uncommitted,
        ..state.recorded(task, work, report, lines)
    };
    reveal_with_fuel(Model::replayed, 3);
    let first = state.changed(changes[0]);
    assert(entries[0] == Some(changes[0]));
    if task is Screenshot {
        assert(entries.skip(1)[0] == Some(changes[1]));
        assert(entries.skip(1).skip(1).len() == 0);
        assert(state.replayed(entries) == first.changed(changes[1]));
        let inner = report.applied(task, state.cells[place]);
        assert(first.cells[place] == state.cells[place].with(
            Slot::Screenshot,
            WorkOutcome::of(report.part(Slot::Screenshot)),
        ));
        assert(first.changed(changes[1]).cells =~= live.cells);
        if first.cells[place].comment_due() {
            enqueued_twice(state.comment, work);
        }
        assert(first.changed(changes[1]) =~= live);
    } else {
        assert(entries.skip(1).len() == 0);
        assert(state.replayed(entries) == first);
        assert(first =~= live);
    }
}

proof fn front_is_newest(state: Model, task: Task)
    requires
        state.wf(),
        state.orderly(),
        state.queue(task) != Set::<Work>::empty(),
    ensures
        newest(state.queue(task), front(state.queue(task))),
        front(state.queue(task)).data < state.cells.len(),
        state.holds(front(state.queue(task))),
{
    let queue = state.queue(task);
    queue_has_a_newest(queue);
    assert(newest(queue, front(queue)));
    assert(queue.contains(front(queue)));
}

/// A work that is taken up is the one about the newest post of the queue. It has left the queue and
/// is marked as being worked on; neither it nor its comment had ended before.
pub proof fn taken_up(state: Model, task: Task)
    requires
        state.wf(),
        state.orderly(),
        state.taken(task).1 is Begun,
    ensures
        ({
            let (after, taken) = state.taken(task);
            let work = taken->Begun_0;
            let inner = state.cells[work.data as int];
            &&& newest(state.queue(task), work)
            &&& after.queue(task) == state.queue(task).remove(work)
            &&& after.cells[work.data as int] == inner.with(task.slot(), WorkOutcome::Processing)
            &&& !inner.comment.done()
            &&& task !is Comment ==> !inner.at(task.slot()).done()
        }),
{
    front_is_newest(state, task);
}

/// Taking a work keeps a state sound. A work that is taken up is the one that was seen under its
/// identifier.
pub proof fn taking_keeps_sound(state: Model, task: Task)
    requires
        state.sound(),
    ensures
        state.taken(task).0.sound(),
        state.taken(task).1 matches Taken::Begun(work) ==> state.taken(task).0.knows(work)
            && work.data < state.taken(task).0.cells.len(),
        state.taken(task).0.seen == state.seen,
        state.taken(task).0.cells.len() == state.cells.len(),
{
    let (after, taken) = state.taken(task);
    if state.queue(task) != Set::<Work>::empty() {
        front_is_newest(state, task);
        let work = front(state.queue(task));
        queue_stays_orderly(state.queue(task), work);
        assert(state.knows(work));
        assert forall|other: Work| #[trigger] after.holds(other) implies after.knows(other) by {
            assert(state.holds(other));
            assert(state.knows(other));
        }
    }
}

/// Recording a report about a work that was seen keeps a state sound.
pub proof fn recording_keeps_sound(
    state: Model,
    task: Task,
    work: Work,
    report: Report,
    lines: Seq<Option<String>>,
)
    requires
        state.sound(),
        state.knows(work),
    ensures
        state.recorded(task, work, report, lines).sound(),
        state.recorded(task, work, report, lines).seen == state.seen,
        state.recorded(task, work, report, lines).cells.len() == state.cells.len(),
{
    let after = state.recorded(task, work, report, lines);
    queue_stays_orderly(state.comment, work);
    assert forall|other: Work| #[trigger] after.holds(other) implies after.knows(other) by {
        if other != work {
            assert(state.holds(other));
            assert(state.knows(other));
        }
    }
}

/// Taking a work keeps comments waiting only for posts about which everything else has ended. A
/// work that is taken up has its place to itself.
pub proof fn taking_keeps_comments_due(state: Model, task: Task)
    requires
        state.wf(),
        state.orderly(),
        state.tidy(),
    ensures
        state.taken(task).0.tidy(),
        state.taken(task).1 matches Taken::Begun(work) ==> state.taken(task).0.owns(work),
{
    let (after, taken) = state.taken(task);
    if state.queue(task) != Set::<Work>::empty() {
        front_is_newest(state, task);
        let work = front(state.queue(task));
        assert forall|other: Work| after.holds(other) implies state.holds(other) by {}
        assert forall|other: Work| #[trigger]
            after.comment.contains(other) implies after.cells[other.data as int].comment_due() by {
            assert(state.comment.contains(other));
            assert(state.holds(other));
        }
    }
}

/// Recording a report about a work that has its place to itself keeps comments waiting only for
/// posts about which everything else has ended.
pub proof fn recording_keeps_comments_due(
    state: Model,
    task: Task,
    work: Work,
    report: Report,
    lines: Seq<Option<String>>,
)
    requires
        state.wf(),
        state.tidy(),
        state.owns(work),
    ensures
        state.recorded(task, work, report, lines).tidy(),
{
    let after = state.recorded(task, work, report, lines);
    assert forall|other: Work| after.holds(other) implies state.holds(other) || other == work by {}
    assert forall|other: Work| #[trigger]
        after.comment.contains(other) implies after.cells[other.data as int].comment_due() by {
        if state.comment.contains(other) {
            assert(state.holds(other));
        }
    }
}

/// A work keeps its place to itself, whatever work is taken.
pub proof fn taking_keeps_place(state: Model, work: Work, task: Task)
    requires
        state.wf(),
        state.orderly(),
        state.owns(work),
    ensures
        state.taken(task).0.owns(work),
{
    let after = state.taken(task).0;
    if state.queue(task) != Set::<Work>::empty() {
        front_is_newest(state, task);
    }
    assert forall|other: Work| after.holds(other) implies state.holds(other) by {}
}

/// A work keeps its place to itself, whatever is recorded about it or about works at other places.
pub proof fn recording_keeps_place(
    state: Model,
    work: Work,
    task: Task,
    subject: Work,
    report: Report,
    lines: Seq<Option<String>>,
)
    requires
        state.owns(work),
        subject.data < state.cells.len(),
        subject == work || subject.data != work.data,
    ensures
        state.recorded(task, subject, report, lines).owns(work),
{
    let after = state.recorded(task, subject, report, lines);
    assert forall|other: Work| after.holds(other) implies state.holds(other) || other
        == subject by {}
}

/// A loop that is told of a cancellation ends without touching the state.
pub proof fn cancelled_loop_ends(this: TaskLoop, state: Model, event: Event)
    requires
        this.expects(event),
        event.cancels(),
    ensures
        this.stepped(state, event).0.phase == Phase::Over,
        this.stepped(state, event).1 == state,
        this.stepped(state, event).2 == ActionView::Stop,
{
}

/// A loop ends only because of a cancellation, and then without an error, or because a line could
/// not be made, and then with one. A submission that failed does not end it.
pub proof fn loop_ends_for_a_reason(this: TaskLoop, state: Model, event: Event)
    requires
        this.expects(event),
    ensures
        ({
            let (next, _, action) = this.stepped(state, event);
            &&& next.task == this.task
            &&& next.phase == Phase::Over <==> action == ActionView::Stop || action
                == ActionView::Fail
            &&& action == ActionView::Stop <==> event.cancels()
            &&& action == ActionView::Fail <==> (event matches Event::Encoded(lines)
                && !all_written(lines@))
            &&& event is Submitted ==> next.phase != Phase::Over
        }),
{
}

/// What a loop is told in one round: what came of the submission, and the lines of its changes.
pub struct Round {
    pub report: Report,
    pub lines: Vec<Option<String>>,
}

impl TaskLoop {
    /// The loop after it looked into its queue, submitted something about the work that it found
    /// there, recorded the report and rested; the state then, and what the loop asked for first.
    pub open spec fn gone_round(self, state: Model, round: Round) -> (TaskLoop, Model, ActionView) {
        let (found, taken, action) = self.stepped(state, Event::Polled { cancelled: false });
        let (reported, same, _) = found.stepped(taken, Event::Submitted(round.report));
        let (resting, recorded, _) = reported.stepped(same, Event::Encoded(round.lines));
        let (next, after, _) = resting.stepped(
            recorded,
            Event::Rested(AwaitWithCancellationTokenOutcome::Continue),
        );
        (next, after, action)
    }

    /// The loop after it went round several times, the state then, and the posts about which it
    /// submitted something.
    pub open spec fn gone_rounds(self, state: Model, rounds: Seq<Round>) -> (
        TaskLoop,
        Model,
        Seq<RedditPost>,
    )
        decreases rounds.len(),
    {
        if rounds.len() == 0 {
            (self, state, seq![])
        } else {
            let (next, after, action) = self.gone_round(state, rounds[0]);
            let (end, last, posts) = next.gone_rounds(after, rounds.skip(1));
            match action {
                ActionView::Submit { post, .. } => (end, last, seq![post] + posts),
                _ => (end, last, posts),
            }
        }
    }
}

/// The works that wait for the task name different places, and there is something to be done about
/// each of them.
pub open spec fn all_to_do(state: Model, task: Task) -> bool {
    &&& forall|a: Work, b: Work| #[trigger]
        state.queue(task).contains(a) && #[trigger] state.queue(task).contains(b) && a.data
            == b.data ==> a == b
    &&& forall|work: Work| #[trigger]
        state.queue(task).contains(work) ==> !task.skips(state.cells[work.data as int])
}

/// The rounds go well: every report can come of the task, and every line could be made.
pub open spec fn go_well(rounds: Seq<Round>, task: Task) -> bool {
    forall|i: int|
        0 <= i < rounds.len() ==> (#[trigger] rounds[i]).report.fits(task) && all_written(
            rounds[i].lines@,
        )
}

/// A round takes the newest work out of the queue, submits something about it, and leaves the rest
/// of the queue as it was, still to be done.
proof fn one_round(this: TaskLoop, state: Model, round: Round)
    requires
        this.phase == Phase::Polling,
        this.task !is Comment,
        state.wf(),
        state.orderly(),
        all_to_do(state, this.task),
        state.queue(this.task) != Set::<Work>::empty(),
        round.report.fits(this.task),
        all_written(round.lines@),
    ensures
        ({
            let (next, after, action) = this.gone_round(state, round);
            let work = front(state.queue(this.task));
            &&& next == this
            &&& newest(state.queue(this.task), work)
            &&& action matches ActionView::Submit { post, .. } && post == work.meta
            &&& after.queue(this.task) == state.queue(this.task).remove(work)
            &&& after.wf()
            &&& after.orderly()
            &&& all_to_do(after, this.task)
        }),
{
    let task = this.task;
    front_is_newest(state, task);
    let work = front(state.queue(task));
    let (taken, _) = state.taken(task);
    let after = taken.recorded(task, work, round.report, round.lines@);
    queue_stays_orderly(state.queue(task), work);
    queue_stays_orderly(taken.comment, work);
    assert(this.gone_round(state, round).1 == after);
    assert forall|other: Work| #[trigger] after.queue(task).contains(other) implies !task.skips(
        after.cells[other.data as int],
    ) by {
        assert(state.queue(task).contains(other));
        assert(state.queue(task).contains(work));
    }
}

/// A loop that is not interrupted, and into whose queue nothing is put, submits something about
/// every work of the queue exactly once, from the newest to the oldest, and then waits at an empty
/// queue.
pub proof fn queue_is_worked_off(this: TaskLoop, state: Model, rounds: Seq<Round>)
    requires
        this.phase == Phase::Polling,
        this.task !is Comment,
        state.wf(),
        state.orderly(),
        all_to_do(state, this.task),
        rounds.len() == state.queue(this.task).len(),
        go_well(rounds, this.task),
    ensures
        ({
            let queue = state.queue(this.task);
            let (end, after, posts) = this.gone_rounds(state, rounds);
            &&& posts.len() == queue.len()
            &&& forall|i: int, j: int|
                #![trigger posts[i], posts[j]]
                0 <= i < j < posts.len() ==> posts[j].before(posts[i])
            &&& forall|i: int|
                0 <= i < posts.len() ==> exists|work: Work|
                    queue.contains(work) && work.meta == #[trigger] posts[i]
            &&& forall|work: Work| #[trigger] queue.contains(work) ==> posts.contains(work.meta)
            &&& end == this
            &&& after.queue(this.task) == Set::<Work>::empty()
            &&& end.stepped(after, Event::Polled { cancelled: false }).2 == ActionView::Wait
        }),
    decreases rounds.len(),
{
    let task = this.task;
    let queue = state.queue(task);
    let (end, after, posts) = this.gone_rounds(state, rounds);
    if rounds.len() == 0 {
        vstd::set_lib::lemma_set_empty_equivalency_len(queue);
    } else {
        assert(queue != Set::<Work>::empty());
        one_round(this, state, rounds[0]);
        let work = front(queue);
        let next = this.gone_round(state, rounds[0]).1;
        let rest = next.queue(task);
        assert(rest.len() == queue.len() - 1);
        assert forall|i: int| 0 <= i < rounds.skip(1).len() implies (#[trigger] rounds.skip(
            1,
        )[i]).report.fits(task) && all_written(rounds.skip(1)[i].lines@) by {
            assert(rounds[i + 1].report.fits(task));
        }
        queue_is_worked_off(this, next, rounds.skip(1));
        let later = this.gone_rounds(next, rounds.skip(1)).2;
        assert(posts == seq![work.meta] + later);
        assert forall|i: int| 0 <= i < posts.len() implies exists|other: Work|
            queue.contains(other) && other.meta == #[trigger] posts[i] by {
            if i == 0 {
                assert(queue.contains(work));
            } else {
                assert(posts[i] == later[i - 1]);
                let other = choose|other: Work| rest.contains(other) && other.meta == later[i - 1];
                assert(queue.contains(other));
            }
        }
        assert forall|i: int, j: int|
            #![trigger posts[i], posts[j]]
            0 <= i < j < posts.len() implies posts[j].before(posts[i]) by {
            assert(posts[j] == later[j - 1]);
            if i == 0 {
                let other = choose|other: Work| rest.contains(other) && other.meta == later[j - 1];
                assert(queue.contains(other));
            } else {
                assert(posts[i] == later[i - 1]);
            }
        }
        assert forall|other: Work| #[trigger] queue.contains(other) implies posts.contains(
            other.meta,
        ) by {
            if other == work {
                assert(posts[0] == work.meta);
            } else {
                assert(rest.contains(other));
                let k = choose|k: int| 0 <= k < later.len() && later[k] == other.meta;
                assert(posts[k + 1] == other.meta);
            }
        }
    }
}

/// The queue of each task is the one that is called after it.
pub proof fn tasks_have_their_own_queues(state: Model, task: Task, other: Task, queue: Set<Work>)
    ensures
        state.queue(Task::OutlineCom) == state.outline_com,
        state.queue(Task::Wikiwix) == state.wikiwix,
        state.queue(Task::GoogleCache) == state.google_cache,
        state.queue(Task::Screenshot) == state.screenshot,
        state.queue(Task::Comment) == state.comment,
        state.with_queue(task, queue).queue(task) == queue,
        other != task ==> state.with_queue(task, queue).queue(other) == state.queue(other),
        state.with_queue(task, state.queue(task)) == state,
{
}

/// What a work is skipped for does not depend on anything but its comment and the task's own thing:
/// a work about which neither has ended is not skipped, however far everything else has come, and
/// one about which either has ended is.
pub proof fn only_the_own_thing_counts(task: Task, inner: WorkInner, slot: Slot, outcome: WorkOutcome)
    requires
        task !is Comment,
    ensures
        task is OutlineCom ==> (task.skips(inner) <==> inner.comment.done()
            || inner.outline_com.done()),
        task is Wikiwix ==> (task.skips(inner) <==> inner.comment.done() || inner.wikiwix.done()),
        task is GoogleCache ==> (task.skips(inner) <==> inner.comment.done()
            || inner.google_cache.done()),
        task is Screenshot ==> (task.skips(inner) <==> inner.comment.done()
            || inner.screenshot.done()),
        slot != task.slot() ==> task.skips(inner.with(slot, outcome)) == task.skips(inner),
        !outcome.done() && !inner.comment.done() ==> !task.skips(
            inner.with(task.slot(), outcome),
        ),
{
}

/// A comment is skipped exactly when it was written or when there is nothing that it could say; as
/// long as one thing other than the cache did not fail, there is.
pub proof fn comments_are_skipped_for_failures_only(inner: WorkInner, slot: Slot)
    ensures
        inner.comment.done() ==> Task::Comment.skips(inner),
        !inner.comment.done() && slot != Slot::GoogleCache && !(inner.at(slot) is Failure)
            ==> !Task::Comment.skips(inner),
        (forall|thing: Slot|
            thing != Slot::GoogleCache ==> #[trigger] inner.at(thing) is Failure)
            ==> Task::Comment.skips(inner),
{
    crate::work::all_but_the_cache_failed(inner, inner.google_cache, inner.comment);
}

/// The newest work of a queue is taken up whenever neither its comment nor the task's own thing has
/// ended, whatever else has; where one of both has ended it leaves the queue all the same.
pub proof fn undone_work_is_taken_up(state: Model, task: Task, work: Work)
    requires
        state.wf(),
        newest(state.queue(task), work),
        task !is Comment,
    ensures
        ({
            let inner = state.cells[work.data as int];
            let own = match task {
                Task::OutlineCom => inner.outline_com,
                Task::Wikiwix => inner.wikiwix,
                Task::GoogleCache => inner.google_cache,
                _ => inner.screenshot,
            };
            let (after, taken) = state.taken(task);
            &&& !inner.comment.done() && !own.done() ==> taken == Taken::Begun(work)
            &&& inner.comment.done() || own.done() ==> taken == Taken::Skipped && after
                == state.with_queue(task, state.queue(task).remove(work))
        }),
{
    newest_is_front(state.queue(task), work);
}

proof fn newest_is_front(queue: Set<Work>, work: Work)
    requires
        newest(queue, work),
    ensures
        front(queue) == work,
        queue != Set::<Work>::empty(),
{
    assert(newest(queue, front(queue)));
    assert(queue.contains(front(queue)) && queue.contains(work));
}

/// The newest work that waits for its comment is taken up whenever the comment was not written and
/// one thing other than the cache did not fail.
pub proof fn undone_comment_is_taken_up(state: Model, work: Work, slot: Slot)
    requires
        state.wf(),
        newest(state.comment, work),
        !state.cells[work.data as int].comment.done(),
        slot != Slot::GoogleCache,
        !(state.cells[work.data as int].at(slot) is Failure),
    ensures
        state.taken(Task::Comment).1 == Taken::Begun(work),
{
    newest_is_front(state.comment, work);
    comments_are_skipped_for_failures_only(state.cells[work.data as int], slot);
}

/// Taking a work takes it out of its own queue, marks nothing but the thing of its task at its own
/// place, and touches nothing else. From an empty queue nothing is taken.
pub proof fn taking_touches_one_work(state: Model, task: Task, other: Task, i: int, slot: Slot)
    requires
        state.wf(),
        state.orderly(),
    ensures
        ({
            let (after, taken) = state.taken(task);
            let work = front(state.queue(task));
            &&& state.queue(task) == Set::<Work>::empty() ==> taken is Nothing && after == state
            &&& state.queue(task) != Set::<Work>::empty() ==> taken !is Nothing
                && after.queue(task) == state.queue(task).remove(work)
            &&& other != task ==> after.queue(other) == state.queue(other)
            &&& after.seen == state.seen
            &&& after.uncommitted == state.uncommitted
            &&& after.reddit_token == state.reddit_token
            &&& after.client_data == state.client_data
            &&& after.cells.len() == state.cells.len()
            &&& 0 <= i < state.cells.len() && (i != work.data || slot != task.slot() || taken !is
                Begun) ==> after.cells[i].at(slot) == state.cells[i].at(slot)
            &&& 0 <= i < state.cells.len() ==> after.cells[i].comment == state.cells[i].comment
            &&& taken is Begun ==> after.cells[work.data as int].at(task.slot()) is Processing
        }),
{
    if state.queue(task) != Set::<Work>::empty() {
        front_is_newest(state, task);
    }
}

/// While a loop is at a work, its own thing is marked; the loop for comments marks outline.com.
pub proof fn tasks_mark_their_own_things()
    ensures
        Task::OutlineCom.slot() is OutlineCom,
        Task::Wikiwix.slot() is Wikiwix,
        Task::GoogleCache.slot() is GoogleCache,
        Task::Screenshot.slot() is Screenshot,
        Task::Comment.slot() is OutlineCom,
{
}

/// A report that was recorded is kept at the place of its work: an archived page by its address, a
/// screenshot by the address of its image and by its text, a failure as one. Whatever else was known
/// about the work stays.
pub proof fn report_is_kept(
    state: Model,
    task: Task,
    work: Work,
    report: Report,
    lines: Seq<Option<String>>,
)
    requires
        work.data < state.cells.len(),
        report.fits(task),
        all_written(lines),
    ensures
        ({
            let before = state.cells[work.data as int];
            let after = state.recorded(task, work, report, lines).cells[work.data as int];
            let own = match report {
                Report::Failed => WorkOutcome::Failure,
                Report::Archived(url) => WorkOutcome::Success(url),
                Report::Posted(screenshot) => WorkOutcome::Success(screenshot.image_url),
            };
            let text = match report {
                Report::Posted(screenshot) => WorkOutcome::Success(screenshot.text),
                _ => WorkOutcome::Failure,
            };
            &&& after.comment == before.comment
            &&& task is OutlineCom ==> after == (WorkInner { outline_com: own, ..before })
            &&& task is Wikiwix ==> after == (WorkInner { wikiwix: own, ..before })
            &&& task is GoogleCache ==> after == (WorkInner { google_cache: own, ..before })
            &&& task is Screenshot ==> after == (WorkInner { screenshot: own, text, ..before })
        }),
{
}

/// Recording a report notes its lines, changes how far its own work has come, lets its comment wait
/// where nothing else is left to be done, and touches nothing else. Where a line could not be made
/// only the lines before it are noted.
pub proof fn recording_touches_one_work(
    state: Model,
    task: Task,
    work: Work,
    report: Report,
    lines: Seq<Option<String>>,
    i: int,
    other: Work,
)
    requires
        work.data < state.cells.len(),
    ensures
        ({
            let after = state.recorded(task, work, report, lines);
            let inner = after.cells[work.data as int];
            let ended = !inner.comment.done() && forall|slot: Slot| #[trigger]
                inner.at(slot).done();
            &&& after.seen == state.seen
            &&& after.screenshot == state.screenshot
            &&& after.outline_com == state.outline_com
            &&& after.wikiwix == state.wikiwix
            &&& after.google_cache == state.google_cache
            &&& after.reddit_token == state.reddit_token
            &&& after.client_data == state.client_data
            &&& after.uncommitted == state.uncommitted + written(lines)
            &&& after.cells.len() == state.cells.len()
            &&& 0 <= i < state.cells.len() && i != work.data ==> after.cells[i] == state.cells[i]
            &&& !all_written(lines) ==> after.cells == state.cells && after.comment
                == state.comment
            &&& all_written(lines) && ended ==> waits(after.comment, work.meta.id)
            &&& state.comment.contains(other) ==> after.comment.contains(other)
            &&& after.comment.contains(other) && !state.comment.contains(other) ==> other == work
                && ended
        }),
{
    let after = state.recorded(task, work, report, lines);
    crate::work::comment_is_due_at_the_end(after.cells[work.data as int]);
    enqueued_twice(state.comment, work);
}

/// Who writes comments is woken exactly when a step put a work into the queue of comments, and who
/// writes the change log exactly when a step that went well noted a line.
pub proof fn those_with_work_are_woken(this: TaskLoop, state: Model, event: Event)
    requires
        this.expects(event),
        this.task !is Comment,
        this.wf(state.cells.len()),
    ensures
        ({
            let (next, after, action) = this.stepped(state, event);
            let wakes_comment = action matches ActionView::Rest { wake_comment, .. }
                && wake_comment;
            let wakes_changelog = action matches ActionView::Rest { wake_changelog, .. }
                && wake_changelog;
            &&& wakes_comment <==> after.comment != state.comment
            &&& wakes_changelog <==> after.uncommitted != state.uncommitted && action
                != ActionView::Fail
            &&& after.comment != state.comment ==> exists|work: Work| #[trigger]
                after.comment.contains(work) && !state.comment.contains(work)
        }),
{
    if let (Phase::Recording(work, report), Event::Encoded(lines)) = (this.phase, event) {
        let after = this.stepped(state, event).1;
        let inner = report.applied(this.task, state.cells[work.data as int]);
        if all_written(lines@) {
            if inner.comment_due() && !waits(state.comment, work.meta.id) {
                assert(!state.comment.contains(work));
                assert(after.comment.contains(work));
            } else {
                assert(after.comment == state.comment);
            }
            if lines@.len() > 0 {
                assert(lines@[0] is Some);
                assert(written(lines@).len() > 0);
                assert(after.uncommitted.len() > state.uncommitted.len());
            } else {
                assert(after.uncommitted =~= state.uncommitted);
            }
        } else {
            assert(after.comment == state.comment);
        }
    } else if this.phase is Polling {
        assert(this.stepped(state, event).1.comment == state.comment);
    }
}

/// A loop submits something about the work that it took up, records the report that came of it about
/// that same work, and then rests; in between nothing about the state changes but by taking and by
/// recording.
pub proof fn loop_stays_with_its_work(this: TaskLoop, state: Model, event: Event)
    requires
        this.expects(event),
    ensures
        ({
            let (next, after, action) = this.stepped(state, event);
            &&& this.phase is Polling && !event.cancels() ==> match state.taken(this.task).1 {
                Taken::Nothing => next.phase is Waiting && action is Wait,
                Taken::Skipped => next.phase is Polling && action is Poll,
                Taken::Begun(work) => if this.task is Comment {
                    next.phase is Resting && action is Rest
                } else {
                    next.phase == Phase::Submitting(work) && (action matches ActionView::Submit {
                        post,
                        ..
                    } && post == work.meta)
                },
            } && after == state.taken(this.task).0
            &&& this.phase matches Phase::Submitting(work) ==> {
                &&& event matches Event::Submitted(report)
                &&& next.phase == Phase::Recording(work, report)
                &&& after == state
                &&& action == ActionView::Encode(report.recorded_as(this.task, work.meta))
            }
            &&& this.phase matches Phase::Recording(work, report) ==> {
                &&& event matches Event::Encoded(lines)
                &&& after == state.recorded(this.task, work, report, lines@)
                &&& all_written(lines@) ==> next.phase is Resting && action is Rest
            }
            &&& (this.phase is Resting || this.phase is Waiting) && !event.cancels()
                ==> next.phase is Polling && action is Poll && after == state
        }),
{
}

/// The changes that a loop asks to be written down tell what was reported: one per thing that the
/// task is about, each with the post, and with the result that is kept of it.
pub proof fn changes_tell_the_report(task: Task, report: Report, post: RedditPost)
    requires
        report.fits(task),
    ensures
        ({
            let changes = report.recorded_as(task, post);
            let own = match report {
                Report::Failed => None,
                Report::Archived(url) => Some(url),
                Report::Posted(screenshot) => Some(screenshot.image_url),
            };
            let text = match report {
                Report::Posted(screenshot) => Some(screenshot.text),
                _ => None,
            };
            &&& task is OutlineCom ==> changes == seq![StateChange::OutlineComOutcome(post, own)]
            &&& task is Wikiwix ==> changes == seq![StateChange::WikiwixOutcome(post, own)]
            &&& task is GoogleCache ==> changes == seq![StateChange::GoogleCacheOutcome(post, own)]
            &&& task is Screenshot ==> changes == seq![
                StateChange::ScreenshotOutcome(post, own),
                StateChange::TextOutcome(post, text),
            ]
        }),
{
}

/// Whenever a loop rests or submits something, it does so for as long as its task allows.
pub proof fn loops_keep_their_pace(this: TaskLoop, state: Model, event: Event)
    requires
        this.expects(event),
    ensures
        this.stepped(state, event).2 matches ActionView::Rest { seconds, .. } ==> match this.task {
            Task::OutlineCom | Task::Wikiwix => seconds == 30,
            Task::GoogleCache | Task::Screenshot => seconds == 10,
            Task::Comment => seconds == 60,
        },
        this.stepped(state, event).2 matches ActionView::Submit { seconds, .. } ==> seconds == if (
        this.task is Screenshot) {
            60u64
        } else {
            45u64
        },
        this.stepped(state, event).2 is Submit ==> this.task !is Comment,
        this.task is Comment && this.phase is Polling ==> (this.stepped(
            state,
            event,
        ).2 matches ActionView::Rest { wake_changelog, wake_comment, .. } ==> !wake_changelog
            && !wake_comment),
{
}

/// A loop is cancelled by what it is told when it looks into its queue, or when a rest or a wait
/// ends, and by nothing else.
pub proof fn cancellation_is_told(event: Event)
    ensures
        event matches Event::Polled { cancelled } ==> event.cancels() == cancelled,
        event matches Event::Rested(outcome) ==> (event.cancels() <==> outcome
            == AwaitWithCancellationTokenOutcome::Cancelled),
        event matches Event::Woken(outcome) ==> (event.cancels() <==> outcome
            == AwaitWithCancellationTokenOutcome::Cancelled),
        event is Submitted || event is Encoded ==> !event.cancels(),
{
}

/// A loop that has not ended can be told of whatever may happen where it stands: of a rest that
/// ended where it rests, of a failure of what it submits, and of a success that its task can have.
pub proof fn loops_can_be_told(this: TaskLoop, event: Event)
    ensures
        this.phase is Over ==> !this.expects(event),
        this.phase is Polling ==> (this.expects(event) <==> event is Polled),
        this.phase is Recording ==> (this.expects(event) <==> event is Encoded),
        this.phase is Resting ==> (this.expects(event) <==> event is Rested),
        this.phase is Waiting ==> (this.expects(event) <==> event is Woken),
        this.phase is Submitting ==> (this.expects(event) <==> (event matches Event::Submitted(
            report,
        ) && match report {
            Report::Failed => this.task !is Comment,
            Report::Archived(_) => this.task is OutlineCom || this.task is Wikiwix || this.task is
                GoogleCache,
            Report::Posted(_) => this.task is Screenshot,
        })),
{
}

/// What a loop asks for is what it says, word for word.
pub proof fn actions_say_what_they_ask(action: Action)
    ensures
        action matches Action::Poll ==> action@ == ActionView::Poll,
        action matches Action::Submit { post, seconds } ==> action@ == (ActionView::Submit {
            post,
            seconds,
        }),
        action matches Action::Encode(changes) ==> action@ == ActionView::Encode(changes@),
        action matches Action::Rest { seconds, wake_changelog, wake_comment } ==> action@ == (
        ActionView::Rest { seconds, wake_changelog, wake_comment }),
        action matches Action::Wait ==> action@ == ActionView::Wait,
        action matches Action::Stop ==> action@ == ActionView::Stop,
        action matches Action::Fail ==> action@ == ActionView::Fail,
{
}

} // verus!
