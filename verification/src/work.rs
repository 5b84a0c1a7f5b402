//! What is to be done about a post, and the queues in which posts wait for it.
use std::cmp::Ordering;
use std::collections::HashSet;

use vstd::prelude::*;
use vstd::std_specs::cmp::{PartialEqSpecImpl, PartialOrdSpecImpl};

use crate::post::{RedditId, RedditPost};

verus! {

/// How far one thing that is done about a post has come.
#[derive(Debug, PartialEq, Eq, PartialOrd, Ord, Hash)]
pub enum WorkOutcome {
    Waiting,
    Processing,
    Success(String),
    Failure,
}

impl WorkOutcome {
    /// It has ended, well or badly.
    pub open spec fn done(self) -> bool {
        self is Success || self is Failure
    }

    /// What a result stands for: a text is a success, its absence a failure.
    pub open spec fn of(result: Option<String>) -> WorkOutcome {
        match result {
            Some(text) => WorkOutcome::Success(text),
            None => WorkOutcome::Failure,
        }
    }

    /// Whether it has ended.
    pub fn is_done(&self) -> (done: bool)
        ensures
            done == self.done(),
            done == (self is Success || self is Failure),
    {
        matches!(self, WorkOutcome::Success(_) | WorkOutcome::Failure)
    }

    /// What a result stands for.
    pub fn from_result(result: Option<String>) -> (outcome: Self)
        ensures
            outcome == WorkOutcome::of(result),
            match result {
                Some(text) => outcome == WorkOutcome::Success(text),
                None => outcome == WorkOutcome::Failure,
            },
    {
        match result {
            Some(text) => WorkOutcome::Success(text),
            None => WorkOutcome::Failure,
        }
    }
}

impl Default for WorkOutcome {
    fn default() -> (outcome: Self)
        ensures
            outcome == WorkOutcome::Waiting,
    {
        WorkOutcome::Waiting
    }
}

/// The things that are done about a post before a comment is due.
#[derive(Debug, Clone, Copy, PartialEq, Eq, Structural)]
pub enum Slot {
    OutlineCom,
    Wikiwix,
    GoogleCache,
    Screenshot,
    Text,
}

/// How far everything that is done about a post has come.
#[derive(Debug)]
pub struct WorkInner {
    pub outline_com: WorkOutcome,
    pub wikiwix: WorkOutcome,
    pub google_cache: WorkOutcome,
    pub screenshot: WorkOutcome,
    pub text: WorkOutcome,
    pub comment: WorkOutcome,
}

impl WorkInner {
    /// Nothing has begun.
    pub open spec fn fresh() -> WorkInner {
        WorkInner {
            outline_com: WorkOutcome::Waiting,
            wikiwix: WorkOutcome::Waiting,
            google_cache: WorkOutcome::Waiting,
            screenshot: WorkOutcome::Waiting,
            text: WorkOutcome::Waiting,
            comment: WorkOutcome::Waiting,
        }
    }

    /// How far one thing has come.
    pub open spec fn at(self, slot: Slot) -> WorkOutcome {
        match slot {
            Slot::OutlineCom => self.outline_com,
            Slot::Wikiwix => self.wikiwix,
            Slot::GoogleCache => self.google_cache,
            Slot::Screenshot => self.screenshot,
            Slot::Text => self.text,
        }
    }

    /// The same, but for one thing.
    pub open spec fn with(self, slot: Slot, outcome: WorkOutcome) -> WorkInner {
        match slot {
            Slot::OutlineCom => WorkInner { outline_com: outcome, ..self },
            Slot::Wikiwix => WorkInner { wikiwix: outcome, ..self },
            Slot::GoogleCache => WorkInner { google_cache: outcome, ..self },
            Slot::Screenshot => WorkInner { screenshot: outcome, ..self },
            Slot::Text => WorkInner { text: outcome, ..self },
        }
    }

    /// Everything has ended but the comment.
    pub open spec fn comment_due(self) -> bool {
        &&& !self.comment.done()
        &&& self.outline_com.done()
        &&& self.wikiwix.done()
        &&& self.google_cache.done()
        &&& self.screenshot.done()
        &&& self.text.done()
    }

    /// The archives, the screenshot and its text all failed. The cache does not count.
    pub open spec fn failed(self) -> bool {
        &&& self.outline_com is Failure
        &&& self.wikiwix is Failure
        &&& self.screenshot is Failure
        &&& self.text is Failure
    }

    /// Sets how far one thing has come.
    pub fn set(&mut self, slot: Slot, outcome: WorkOutcome)
        ensures
            *final(self) == old(self).with(slot, outcome),
            final(self).comment == old(self).comment,
            final(self).outline_com == (if slot is OutlineCom {
                outcome
            } else {
                old(self).outline_com
            }),
            final(self).wikiwix == (if slot is Wikiwix {
                outcome
            } else {
                old(self).wikiwix
            }),
            final(self).google_cache == (if slot is GoogleCache {
                outcome
            } else {
                old(self).google_cache
            }),
            final(self).screenshot == (if slot is Screenshot {
                outcome
            } else {
                old(self).screenshot
            }),
            final(self).text == (if slot is Text {
                outcome
            } else {
                old(self).text
            }),
    {
        match slot {
            Slot::OutlineCom => {
                self.outline_com = outcome;
            },
            Slot::Wikiwix => {
                self.wikiwix = outcome;
            },
            Slot::GoogleCache => {
                self.google_cache = outcome;
            },
            Slot::Screenshot => {
                self.screenshot = outcome;
            },
            Slot::Text => {
                self.text = outcome;
            },
        }
    }

    /// Whether one thing has ended.
    pub fn is_done(&self, slot: Slot) -> (done: bool)
        ensures
            done == self.at(slot).done(),
            done == (match slot {
                Slot::OutlineCom => self.outline_com,
                Slot::Wikiwix => self.wikiwix,
                Slot::GoogleCache => self.google_cache,
                Slot::Screenshot => self.screenshot,
                Slot::Text => self.text,
            }).done(),
    {
        match slot {
            Slot::OutlineCom => self.outline_com.is_done(),
            Slot::Wikiwix => self.wikiwix.is_done(),
            Slot::GoogleCache => self.google_cache.is_done(),
            Slot::Screenshot => self.screenshot.is_done(),
            Slot::Text => self.text.is_done(),
        }
    }

    /// Whether a comment can be written now.
    pub fn ready_to_comment(&self) -> (ready: bool)
        ensures
            ready == self.comment_due(),
            ready <==> {
                &&& self.comment is Waiting || self.comment is Processing
                &&& self.outline_com is Success || self.outline_com is Failure
                &&& self.wikiwix is Success || self.wikiwix is Failure
                &&& self.google_cache is Success || self.google_cache is Failure
                &&& self.screenshot is Success || self.screenshot is Failure
                &&& self.text is Success || self.text is Failure
            },
    {
        !self.comment.is_done() && self.outline_com.is_done() && self.wikiwix.is_done()
            && self.google_cache.is_done() && self.screenshot.is_done() && self.text.is_done()
    }

    /// Whether there is nothing that a comment could say.
    pub fn is_failure(&self) -> (failure: bool)
        ensures
            failure == self.failed(),
            failure <==> {
                &&& self.outline_com is Failure
                &&& self.wikiwix is Failure
                &&& self.screenshot is Failure
                &&& self.text is Failure
            },
    {
        matches!(self.outline_com, WorkOutcome::Failure) && matches!(
            self.wikiwix,
            WorkOutcome::Failure
        ) && matches!(self.screenshot, WorkOutcome::Failure) && matches!(
            self.text,
            WorkOutcome::Failure
        )
    }
}

impl Default for WorkInner {
    fn default() -> (inner: Self)
        ensures
            inner == WorkInner::fresh(),
    {
        WorkInner {
            outline_com: WorkOutcome::default(),
            wikiwix: WorkOutcome::default(),
            google_cache: WorkOutcome::default(),
            screenshot: WorkOutcome::default(),
            text: WorkOutcome::default(),
            comment: WorkOutcome::default(),
        }
    }
}

/// A post together with the place where it is kept how far everything about it has come. Whoever
/// holds the same place shares it. Two works are the same when their posts are.
#[derive(Debug)]
pub struct Work {
    pub meta: RedditPost,
    /// The place, counted among those of the program's state.
    pub data: usize,
}

impl Work {
    /// The work about a post that is kept at a place.
    pub fn new(meta: RedditPost, data: usize) -> (work: Self)
        ensures
            work.meta == meta,
            work.data == data,
    {
        Work { meta, data }
    }

    /// How the work is ordered against `other`: as their posts are.
    pub fn cmp(&self, other: &Self) -> (order: Ordering)
        ensures
            order == (if self.meta.before(other.meta) {
                Ordering::Less
            } else if other.meta.before(self.meta) {
                Ordering::Greater
            } else {
                Ordering::Equal
            }),
    {
        self.meta.cmp(&other.meta)
    }
}

impl Clone for Work {
    fn clone(&self) -> (copy: Self)
        ensures
            copy == *self,
    {
        Work { meta: self.meta.clone(), data: self.data }
    }
}

impl PartialEq for Work {
    fn eq(&self, other: &Self) -> (same: bool) {
        self.meta.id.code() == other.meta.id.code()
    }
}

impl PartialEqSpecImpl for Work {
    open spec fn obeys_eq_spec() -> bool {
        true
    }

    open spec fn eq_spec(&self, other: &Self) -> bool {
        self.meta.id@ == other.meta.id@
    }
}

impl Eq for Work {

}

impl PartialOrd for Work {
    fn partial_cmp(&self, other: &Self) -> (order: Option<Ordering>) {
        Some(self.cmp(other))
    }
}

impl PartialOrdSpecImpl for Work {
    open spec fn obeys_partial_cmp_spec() -> bool {
        true
    }

    open spec fn partial_cmp_spec(&self, other: &Self) -> Option<Ordering> {
        if self.meta.before(other.meta) {
            Some(Ordering::Less)
        } else if other.meta.before(self.meta) {
            Some(Ordering::Greater)
        } else {
            Some(Ordering::Equal)
        }
    }
}

/// A work about the post with the identifier is waiting.
pub open spec fn waits(queue: Set<Work>, id: RedditId) -> bool {
    exists|work: Work| #[trigger] queue.contains(work) && work.meta.id@ == id@
}

/// What waits after a work was put into the queue: nothing new if one about its post waits already.
pub open spec fn enqueued(queue: Set<Work>, work: Work) -> Set<Work> {
    if waits(queue, work.meta.id) {
        queue
    } else {
        queue.insert(work)
    }
}

/// The work is the one about the newest post.
pub open spec fn newest(queue: Set<Work>, work: Work) -> bool {
    &&& queue.contains(work)
    &&& forall|other: Work| #[trigger]
        queue.contains(other) ==> other == work || other.meta.before(work.meta)
}

/// No post waits twice.
pub open spec fn waits_once(queue: Set<Work>) -> bool {
    forall|a: Work, b: Work| #[trigger]
        queue.contains(a) && #[trigger] queue.contains(b) && a.meta.id@ == b.meta.id@ ==> a == b
}

/// The queue is finite, and no post waits twice in it.
pub open spec fn orderly(queue: Set<Work>) -> bool {
    queue.finite() && waits_once(queue)
}

/// The works are in order, and no post stands there twice.
pub open spec fn ascending(works: Seq<Work>) -> bool {
    forall|i: int, j: int|
        #![trigger works[i], works[j]]
        0 <= i < j < works.len() ==> works[i].meta.before(works[j].meta) && works[i].meta.id@
            != works[j].meta.id@
}

proof fn inserted_elements(works: Seq<Work>, at: int, work: Work)
    requires
        0 <= at <= works.len(),
    ensures
        works.insert(at, work).to_set() == works.to_set().insert(work),
{
    let after = works.insert(at, work);
    assert(after[at] == work);
    assert forall|other: Work| #[trigger] works.contains(other) implies after.contains(other) by {
        let i = choose|i: int| 0 <= i < works.len() && works[i] == other;
        let k = if i < at {
            i
        } else {
            i + 1
        };
        assert(after[k] == other);
    }
    assert forall|other: Work| #[trigger] after.contains(other) implies other == work
        || works.contains(other) by {
        let k = choose|k: int| 0 <= k < after.len() && after[k] == other;
        if k != at {
            let i = if k < at {
                k
            } else {
                k - 1
            };
            assert(works[i] == other);
        }
    }
    assert(after.to_set() =~= works.to_set().insert(work));
}

proof fn inserted_in_order(works: Seq<Work>, at: int, work: Work)
    requires
        0 <= at <= works.len(),
        ascending(works),
        forall|i: int| 0 <= i < at ==> #[trigger] works[i].meta.before(work.meta),
        forall|i: int| at <= i < works.len() ==> work.meta.before(#[trigger] works[i].meta),
        forall|i: int| 0 <= i < works.len() ==> #[trigger] works[i].meta.id@ != work.meta.id@,
    ensures
        ascending(works.insert(at, work)),
{
    let after = works.insert(at, work);
    assert forall|i: int, j: int|
        #![trigger after[i], after[j]]
        0 <= i < j < after.len() implies after[i].meta.before(after[j].meta) && after[i].meta.id@
        != after[j].meta.id@ by {
        let a = if i < at {
            i
        } else {
            i - 1
        };
        let b = if j < at {
            j
        } else {
            j - 1
        };
        if i != at && j != at {
            assert(works[a].meta.before(works[b].meta));
        } else if i == at {
            assert(after[j] == works[b]);
        } else {
            assert(after[i] == works[a]);
        }
    }
}

proof fn inserted_keeps_code(works: Seq<Work>, at: int, work: Work, code: u128)
    requires
        0 <= at <= works.len(),
        code == work.meta.id@ || exists|i: int|
            0 <= i < works.len() && #[trigger] works[i].meta.id@ == code,
    ensures
        exists|i: int|
            0 <= i < works.insert(at, work).len() && #[trigger] works.insert(
                at,
                work,
            )[i].meta.id@ == code,
{
    let after = works.insert(at, work);
    if code == work.meta.id@ {
        assert(after[at].meta.id@ == code);
    } else {
        let i = choose|i: int| 0 <= i < works.len() && #[trigger] works[i].meta.id@ == code;
        let k = if i < at {
            i
        } else {
            i + 1
        };
        assert(after[k].meta.id@ == code);
    }
}

/// Works that wait for something to be done about them. The newest post comes first.
#[derive(Debug)]
pub struct WorkQueueInner {
    /// The identifiers of the posts that wait.
    pub unordered_set: HashSet<u128>,
    /// The works, the newest one last.
    pub ordered_queue: Vec<Work>,
}

impl View for WorkQueueInner {
    type V = Set<Work>;

    /// The works that wait.
    open spec fn view(&self) -> Set<Work> {
        self.ordered_queue@.to_set()
    }
}

impl WorkQueueInner {
    /// The works are in order, no post waits twice, and the identifiers are those of the works.
    pub open spec fn wf(self) -> bool {
        let queue = self.ordered_queue@;
        &&& ascending(queue)
        &&& forall|i: int|
            0 <= i < queue.len() ==> self.unordered_set@.contains(#[trigger] queue[i].meta.id@)
        &&& forall|code: u128| #[trigger]
            self.unordered_set@.contains(code) ==> exists|i: int|
                0 <= i < queue.len() && #[trigger] queue[i].meta.id@ == code
    }

    /// A queue in which nothing waits.
    pub fn new() -> (queue: Self)
        ensures
            queue.wf(),
            queue@ == Set::<Work>::empty(),
    {
        let queue = WorkQueueInner { unordered_set: HashSet::new(), ordered_queue: Vec::new() };
        assert(queue@ =~= Set::<Work>::empty());
        queue
    }

    /// Puts a work into the queue, unless one about its post waits there already; says whether it
    /// did.
    pub fn insert(&mut self, work: Work) -> (inserted: bool)
        requires
            old(self).wf(),
        ensures
            final(self).wf(),
            final(self)@ == enqueued(old(self)@, work),
            inserted == !waits(old(self)@, work.meta.id),
    {
        let code: u128 = work.meta.id.code();
        let ghost queue = self.ordered_queue@;
        if self.unordered_set.contains(&code) {
            proof {
                let i = choose|i: int|
                    0 <= i < queue.len() && #[trigger] queue[i].meta.id@ == code;
                assert(self@.contains(queue[i]));
            }
            return false;
        }
        proof {
            if waits(self@, work.meta.id) {
                let other = choose|other: Work| #[trigger]
                    self@.contains(other) && other.meta.id@ == work.meta.id@;
                let i = choose|i: int| 0 <= i < queue.len() && queue[i] == other;
                assert(self.unordered_set@.contains(queue[i].meta.id@));
            }
            assert forall|i: int| 0 <= i < queue.len() implies #[trigger] queue[i].meta.id@
                != work.meta.id@ by {
                assert(self.unordered_set@.contains(queue[i].meta.id@));
            }
        }
        self.unordered_set.insert(code);
        let mut at: usize = self.ordered_queue.len();
        while at > 0 && work.meta.is_before(&self.ordered_queue[at - 1].meta)
            invariant
                at <= self.ordered_queue@.len(),
                self.ordered_queue@ == queue,
                forall|i: int| at <= i < queue.len() ==> work.meta.before(#[trigger] queue[i].meta),
            decreases at,
        {
            at = at - 1;
        }
        proof {
            assert forall|i: int| 0 <= i < at implies #[trigger] queue[i].meta.before(
                work.meta,
            ) by {
                assert(queue[at - 1].meta.before(work.meta));
                if i < at - 1 {
                    assert(queue[i].meta.before(queue[at - 1].meta));
                }
            }
        }
        self.ordered_queue.insert(at, work);
        proof {
            let after = self.ordered_queue@;
            assert(after == queue.insert(at as int, work));
            inserted_elements(queue, at as int, work);
            inserted_in_order(queue, at as int, work);
            assert forall|i: int| 0 <= i < after.len() implies self.unordered_set@.contains(
                #[trigger] after[i].meta.id@,
            ) by {
                assert(after.to_set().contains(after[i]));
                if after[i] != work {
                    let k = choose|k: int| 0 <= k < queue.len() && queue[k] == after[i];
                    assert(queue[k].meta.id@ == after[i].meta.id@);
                }
            }
            assert forall|code: u128| #[trigger] self.unordered_set@.contains(code) implies exists|
                i: int,
            |
                0 <= i < after.len() && #[trigger] after[i].meta.id@ == code by {
                inserted_keeps_code(queue, at as int, work, code);
            }
            assert(self@ =~= queue.to_set().insert(work));
        }
        true
    }

    /// Takes the work about the newest post out of the queue.
    pub fn pop(&mut self) -> (work: Option<Work>)
        requires
            old(self).wf(),
        ensures
            final(self).wf(),
            match work {
                Some(work) => newest(old(self)@, work) && final(self)@ == old(self)@.remove(work),
                None => old(self)@ == Set::<Work>::empty() && final(self)@ == old(self)@,
            },
    {
        let ghost queue = self.ordered_queue@;
        match self.ordered_queue.pop() {
            Some(work) => {
                self.unordered_set.remove(&work.meta.id.code());
                proof {
                    let after = self.ordered_queue@;
                    let last = queue.len() - 1;
                    assert(queue[last] == work);
                    assert(after =~= queue.drop_last());
                    assert forall|other: Work| #[trigger] queue.to_set().contains(
                        other,
                    ) implies other == work || other.meta.before(work.meta) by {
                        let i = choose|i: int| 0 <= i < queue.len() && queue[i] == other;
                        if i < last {
                            assert(queue[i].meta.before(queue[last].meta));
                        }
                    }
                    assert(queue.to_set().contains(work));
                    assert forall|other: Work| self@.contains(other) == queue.to_set().remove(
                        work,
                    ).contains(other) by {
                        if after.contains(other) {
                            let i = choose|i: int| 0 <= i < after.len() && after[i] == other;
                            assert(queue[i] == other);
                            assert(queue[i].meta.id@ != queue[last].meta.id@);
                        }
                        if queue.contains(other) && other != work {
                            let i = choose|i: int| 0 <= i < queue.len() && queue[i] == other;
                            assert(after[i] == other);
                        }
                    }
                    assert(self@ =~= queue.to_set().remove(work));
                    assert forall|i: int| 0 <= i < after.len() implies self.unordered_set@.contains(
                        #[trigger] after[i].meta.id@,
                    ) by {
                        assert(queue[i].meta.id@ != queue[last].meta.id@);
                    }
                    assert forall|code: u128| #[trigger]
                        self.unordered_set@.contains(code) implies exists|i: int|
                        0 <= i < after.len() && #[trigger] after[i].meta.id@ == code by {
                        let i = choose|i: int|
                            0 <= i < queue.len() && #[trigger] queue[i].meta.id@ == code;
                        assert(after[i].meta.id@ == code);
                    }
                }
                Some(work)
            },
            None => {
                assert(self@ =~= Set::<Work>::empty());
                None
            },
        }
    }
}

impl Default for WorkQueueInner {
    fn default() -> (queue: Self)
        ensures
            queue.wf(),
            queue@ == Set::<Work>::empty(),
    {
        WorkQueueInner::new()
    }
}

/// A queue is finite, and no post waits twice in it.
pub proof fn queue_holds_each_post_once(queue: WorkQueueInner)
    requires
        queue.wf(),
    ensures
        orderly(queue@),
{
    let works = queue.ordered_queue@;
    vstd::seq_lib::seq_to_set_is_finite(works);
    assert forall|a: Work, b: Work| #[trigger]
        queue@.contains(a) && #[trigger] queue@.contains(b) && a.meta.id@ == b.meta.id@ implies a
        == b by {
        let i = choose|i: int| 0 <= i < works.len() && works[i] == a;
        let j = choose|j: int| 0 <= j < works.len() && works[j] == b;
        if i < j {
            assert(works[i].meta.id@ != works[j].meta.id@);
        }
        if j < i {
            assert(works[j].meta.id@ != works[i].meta.id@);
        }
    }
}

/// A queue in which nothing waits holds neither a work nor an identifier.
pub proof fn empty_queue_holds_nothing(queue: WorkQueueInner)
    requires
        queue.wf(),
        queue@ == Set::<Work>::empty(),
    ensures
        queue.ordered_queue@.len() == 0,
        queue.unordered_set@ == Set::<u128>::empty(),
{
    let works = queue.ordered_queue@;
    if works.len() > 0 {
        assert(queue@.contains(works[0]));
    }
    assert(queue.unordered_set@ =~= Set::<u128>::empty());
}

/// Where something waits, one work is the newest one.
pub proof fn queue_has_a_newest(queue: Set<Work>)
    requires
        orderly(queue),
        queue != Set::<Work>::empty(),
    ensures
        exists|work: Work| newest(queue, work),
    decreases queue.len(),
{
    assert(exists|work: Work| queue.contains(work)) by {
        if forall|work: Work| !queue.contains(work) {
            assert(queue =~= Set::<Work>::empty());
        }
    }
    let some = choose|work: Work| queue.contains(work);
    let rest = queue.remove(some);
    if rest == Set::<Work>::empty() {
        assert forall|other: Work| #[trigger] queue.contains(other) implies other == some by {
            if other != some {
                assert(rest.contains(other));
            }
        }
        assert(newest(queue, some));
    } else {
        queue_has_a_newest(rest);
        let last = choose|work: Work| newest(rest, work);
        assert(queue.contains(last) && last.meta.id@ != some.meta.id@);
        let top = if some.meta.before(last.meta) {
            last
        } else {
            some
        };
        assert forall|other: Work| #[trigger] queue.contains(other) implies other == top
            || other.meta.before(top.meta) by {
            if other != some {
                assert(rest.contains(other));
            }
        }
        assert(newest(queue, top));
    }
}

/// Putting a work into a queue and taking one out of it keeps the queue in order.
pub proof fn queue_stays_orderly(queue: Set<Work>, work: Work)
    requires
        orderly(queue),
    ensures
        orderly(enqueued(queue, work)),
        orderly(queue.remove(work)),
{
    if !waits(queue, work.meta.id) {
        assert forall|other: Work| #[trigger] queue.contains(other) implies other.meta.id@
            != work.meta.id@ by {}
    }
}

/// At most one work is the newest one.
pub proof fn newest_is_unique(queue: Set<Work>, a: Work, b: Work)
    requires
        newest(queue, a),
        newest(queue, b),
    ensures
        a == b,
{
}

/// Works leave a queue from the newest to the oldest: what is newest after the newest one has left
/// was made before it.
pub proof fn works_leave_newest_first(queue: Set<Work>, first: Work, second: Work)
    requires
        newest(queue, first),
        newest(queue.remove(first), second),
    ensures
        second.meta.before(first.meta),
{
    assert(queue.contains(second));
}

/// Putting a work into a queue a second time changes nothing.
pub proof fn enqueued_twice(queue: Set<Work>, work: Work)
    ensures
        enqueued(enqueued(queue, work), work) == enqueued(queue, work),
        waits(enqueued(queue, work), work.meta.id),
{
    if !waits(queue, work.meta.id) {
        assert(queue.insert(work).contains(work));
    }
}

/// Putting works about different posts into a queue can be done in either order.
pub proof fn enqueued_in_any_order(queue: Set<Work>, a: Work, b: Work)
    requires
        a.meta.id@ != b.meta.id@,
    ensures
        enqueued(enqueued(queue, a), b) == enqueued(enqueued(queue, b), a),
{
    assert forall|x: Work, y: Work| x.meta.id@ != y.meta.id@ implies waits(
        #[trigger] queue.insert(x),
        #[trigger] y.meta.id,
    ) == waits(queue, y.meta.id) by {
        if waits(queue, y.meta.id) {
            let other = choose|other: Work| #[trigger]
                queue.contains(other) && other.meta.id@ == y.meta.id@;
            assert(queue.insert(x).contains(other));
        }
    }
    assert(queue.insert(a).insert(b) =~= queue.insert(b).insert(a));
}

/// A thing has ended when it succeeded or failed, and not while it waits or is being worked on.
pub proof fn success_and_failure_are_ends(outcome: WorkOutcome)
    ensures
        outcome is Success || outcome is Failure ==> outcome.done(),
        outcome is Waiting || outcome is Processing ==> !outcome.done(),
{
}

/// A result can be told from its outcome, and every result is an end: a success exactly when there
/// is a text.
pub proof fn outcome_tells_the_result(a: Option<String>, b: Option<String>)
    ensures
        WorkOutcome::of(a) == WorkOutcome::of(b) ==> a == b,
        WorkOutcome::of(a).done(),
        WorkOutcome::of(a) is Success <==> a is Some,
        WorkOutcome::of(a) matches WorkOutcome::Success(text) ==> a == Some(text),
{
}

/// Setting a thing sets that thing, under its own name, and no other one, nor the comment.
pub proof fn things_are_set_one_by_one(
    inner: WorkInner,
    slot: Slot,
    other: Slot,
    outcome: WorkOutcome,
)
    ensures
        ({
            let after = inner.with(slot, outcome);
            &&& after.at(slot) == outcome
            &&& other != slot ==> after.at(other) == inner.at(other)
            &&& after.comment == inner.comment
            &&& inner.with(slot, inner.at(slot)) == inner
        }),
        inner.with(Slot::OutlineCom, outcome).outline_com == outcome,
        inner.with(Slot::Wikiwix, outcome).wikiwix == outcome,
        inner.with(Slot::GoogleCache, outcome).google_cache == outcome,
        inner.with(Slot::Screenshot, outcome).screenshot == outcome,
        inner.with(Slot::Text, outcome).text == outcome,
{
}

/// A comment is due exactly when it was not written and every single thing has ended, whether well
/// or badly.
pub proof fn comment_is_due_at_the_end(inner: WorkInner)
    ensures
        inner.comment_due() <==> !inner.comment.done() && forall|slot: Slot| #[trigger]
            inner.at(slot).done(),
{
    if inner.comment_due() {
        assert forall|slot: Slot| #[trigger] inner.at(slot).done() by {}
    }
    if forall|slot: Slot| #[trigger] inner.at(slot).done() {
        assert(inner.at(Slot::OutlineCom).done());
        assert(inner.at(Slot::Wikiwix).done());
        assert(inner.at(Slot::GoogleCache).done());
        assert(inner.at(Slot::Screenshot).done());
        assert(inner.at(Slot::Text).done());
    }
}

/// There is nothing to comment exactly when every thing but the cache failed; neither the cache nor
/// the comment makes a difference.
pub proof fn all_but_the_cache_failed(inner: WorkInner, cache: WorkOutcome, comment: WorkOutcome)
    ensures
        inner.failed() <==> forall|slot: Slot|
            slot != Slot::GoogleCache ==> #[trigger] inner.at(slot) is Failure,
        (WorkInner { google_cache: cache, comment, ..inner }).failed() == inner.failed(),
{
    if forall|slot: Slot| slot != Slot::GoogleCache ==> #[trigger] inner.at(slot) is Failure {
        assert(inner.at(Slot::OutlineCom) is Failure);
        assert(inner.at(Slot::Wikiwix) is Failure);
        assert(inner.at(Slot::Screenshot) is Failure);
        assert(inner.at(Slot::Text) is Failure);
    }
}

/// Where nothing has begun, everything waits.
pub proof fn nothing_has_begun(slot: Slot)
    ensures
        WorkInner::fresh().at(slot) is Waiting,
        WorkInner::fresh().comment is Waiting,
{
}

/// Putting a work into a queue removes nothing and adds nothing but that work, which it adds exactly
/// when no work about the same post is there.
pub proof fn enqueued_adds_the_work(queue: Set<Work>, work: Work, other: Work)
    ensures
        queue.contains(other) ==> enqueued(queue, work).contains(other),
        enqueued(queue, work).contains(other) ==> queue.contains(other) || other == work,
        (forall|known: Work| #[trigger] queue.contains(known) ==> known.meta.id@ != work.meta.id@)
            ==> enqueued(queue, work).contains(work),
        queue.contains(other) && other.meta.id@ == work.meta.id@ ==> enqueued(queue, work) == queue,
        exists|known: Work| #[trigger]
            enqueued(queue, work).contains(known) && known.meta.id@ == work.meta.id@,
{
    enqueued_twice(queue, work);
    if queue.contains(other) && other.meta.id@ == work.meta.id@ {
        assert(waits(queue, work.meta.id));
    }
}

/// Works are the same just if their posts have the same identifier, and are ordered by when their
/// posts were made.
pub proof fn works_go_by_their_posts(a: Work, b: Work)
    ensures
        vstd::std_specs::cmp::PartialEqSpec::eq_spec(&a, &b) <==> a.meta.id@ == b.meta.id@,
        vstd::std_specs::cmp::PartialOrdSpec::partial_cmp_spec(&a, &b) == Some(Ordering::Less)
            <==> a.meta.before(b.meta),
        vstd::std_specs::cmp::PartialOrdSpec::partial_cmp_spec(&a, &b) == Some(Ordering::Greater)
            <==> b.meta.before(a.meta),
        vstd::std_specs::cmp::PartialOrdSpec::partial_cmp_spec(&a, &b) is Some,
{
}

/// A queue says which works it holds, whatever their order.
pub proof fn queue_says_what_it_holds(queue: WorkQueueInner, work: Work)
    ensures
        queue@.contains(work) <==> queue.ordered_queue@.contains(work),
{
}

} // verus!
