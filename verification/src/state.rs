//! The state of the program and the changes that its change log records.
use std::collections::{HashMap, VecDeque};

use vstd::prelude::*;

use crate::post::{RedditId, RedditPost};
use crate::reddit::RedditToken;
use crate::work::{
    enqueued, enqueued_twice, orderly, queue_holds_each_post_once, queue_stays_orderly, waits, Slot,
    Work, WorkInner, WorkOutcome, WorkQueueInner,
};

verus! {

/// What the program was set up with.
#[derive(Debug)]
pub struct ClientData {
    /// The subreddit whose posts are copied.
    pub sr_to_monitor: String,
    /// The subreddit to which screenshots are posted.
    pub sr_to_post_to: String,
    /// The code that the first login is made with.
    pub code: String,
    pub public_key: String,
    pub private_key: String,
    pub user_agent: String,
    pub redirect_uri: String,
}

impl ClientData {
    /// Nothing was set up yet.
    pub open spec fn is_blank(self) -> bool {
        &&& self.sr_to_monitor@.len() == 0
        &&& self.sr_to_post_to@.len() == 0
        &&& self.code@.len() == 0
        &&& self.public_key@.len() == 0
        &&& self.private_key@.len() == 0
        &&& self.user_agent@.len() == 0
        &&& self.redirect_uri@.len() == 0
    }
}

impl Clone for ClientData {
    fn clone(&self) -> (copy: Self)
        ensures
            copy == *self,
    {
        ClientData {
            sr_to_monitor: self.sr_to_monitor.clone(),
            sr_to_post_to: self.sr_to_post_to.clone(),
            code: self.code.clone(),
            public_key: self.public_key.clone(),
            private_key: self.private_key.clone(),
            user_agent: self.user_agent.clone(),
            redirect_uri: self.redirect_uri.clone(),
        }
    }
}

impl Default for ClientData {
    fn default() -> (data: Self)
        ensures
            data.is_blank(),
            data.sr_to_monitor@.len() == 0,
            data.sr_to_post_to@.len() == 0,
            data.code@.len() == 0,
            data.public_key@.len() == 0,
            data.private_key@.len() == 0,
            data.user_agent@.len() == 0,
            data.redirect_uri@.len() == 0,
    {
        ClientData {
            sr_to_monitor: String::new(),
            sr_to_post_to: String::new(),
            code: String::new(),
            public_key: String::new(),
            private_key: String::new(),
            user_agent: String::new(),
            redirect_uri: String::new(),
        }
    }
}

/// A change of the state, as the change log records it.
#[derive(Debug)]
pub enum StateChange {
    RedditToken(RedditToken),
    ClientData(ClientData),
    NewPost(RedditPost),
    OutlineComOutcome(RedditPost, Option<String>),
    WikiwixOutcome(RedditPost, Option<String>),
    GoogleCacheOutcome(RedditPost, Option<String>),
    ScreenshotOutcome(RedditPost, Option<String>),
    TextOutcome(RedditPost, Option<String>),
}

impl StateChange {
    /// The change that says how one thing about a post ended.
    pub open spec fn outcome_of(slot: Slot, post: RedditPost, result: Option<String>) -> StateChange {
        match slot {
            Slot::OutlineCom => StateChange::OutlineComOutcome(post, result),
            Slot::Wikiwix => StateChange::WikiwixOutcome(post, result),
            Slot::GoogleCache => StateChange::GoogleCacheOutcome(post, result),
            Slot::Screenshot => StateChange::ScreenshotOutcome(post, result),
            Slot::Text => StateChange::TextOutcome(post, result),
        }
    }

    /// The change that says how one thing about a post ended.
    pub fn outcome(slot: Slot, post: RedditPost, result: Option<String>) -> (change: Self)
        ensures
            change == StateChange::outcome_of(slot, post, result),
    {
        match slot {
            Slot::OutlineCom => StateChange::OutlineComOutcome(post, result),
            Slot::Wikiwix => StateChange::WikiwixOutcome(post, result),
            Slot::GoogleCache => StateChange::GoogleCacheOutcome(post, result),
            Slot::Screenshot => StateChange::ScreenshotOutcome(post, result),
            Slot::Text => StateChange::TextOutcome(post, result),
        }
    }
}

/// A line of the change log could not be written.
#[derive(Debug, Clone, Copy, PartialEq, Eq, Structural)]
pub struct EncodeError;

/// A line of the change log could not be read.
#[derive(Debug, Clone, Copy, PartialEq, Eq, Structural)]
pub struct DecodeError;

/// The state of the program.
#[derive(Debug)]
pub struct State {
    pub client_data: ClientData,
    pub reddit_token: RedditToken,
    /// How far everything about each post has come, at the place that its works name.
    pub cells: Vec<WorkInner>,
    /// The works about all posts that were seen, by their identifiers.
    pub seen_posts: HashMap<u128, Work>,
    pub screenshot_queue: WorkQueueInner,
    pub outline_com_queue: WorkQueueInner,
    pub wikiwix_queue: WorkQueueInner,
    pub google_cache_queue: WorkQueueInner,
    pub comment_queue: WorkQueueInner,
    /// The lines that are not yet written to the change log, the oldest first.
    pub uncommitted_changes: VecDeque<String>,
}

/// What a state says, apart from how it is held.
#[verifier::ext_equal]
pub struct Model {
    pub client_data: ClientData,
    pub reddit_token: RedditToken,
    pub cells: Seq<WorkInner>,
    pub seen: Map<u128, Work>,
    pub screenshot: Set<Work>,
    pub outline_com: Set<Work>,
    pub wikiwix: Set<Work>,
    pub google_cache: Set<Work>,
    pub comment: Set<Work>,
    pub uncommitted: Seq<String>,
}

/// The places that the works name are there.
pub open spec fn kept(queue: Set<Work>, places: nat) -> bool {
    forall|work: Work| #[trigger] queue.contains(work) ==> work.data < places
}

/// Each work is found by its own identifier, and the place that it names is there.
pub open spec fn filed(seen: Map<u128, Work>, places: nat) -> bool {
    forall|code: u128| #[trigger]
        seen.contains_key(code) ==> seen[code].meta.id@ == code && seen[code].data < places
}

impl Model {
    /// Each work is found by its own identifier and names a place that is there.
    pub open spec fn wf(self) -> bool {
        &&& filed(self.seen, self.cells.len())
        &&& kept(self.screenshot, self.cells.len())
        &&& kept(self.outline_com, self.cells.len())
        &&& kept(self.wikiwix, self.cells.len())
        &&& kept(self.google_cache, self.cells.len())
        &&& kept(self.comment, self.cells.len())
    }

    /// The work was seen, or waits in one of the queues.
    pub open spec fn holds(self, work: Work) -> bool {
        ||| self.seen.contains_key(work.meta.id@) && self.seen[work.meta.id@] == work
        ||| self.screenshot.contains(work)
        ||| self.outline_com.contains(work)
        ||| self.wikiwix.contains(work)
        ||| self.google_cache.contains(work)
        ||| self.comment.contains(work)
    }

    /// Every work that waits is the one that was seen under its identifier.
    pub open spec fn known(self) -> bool {
        forall|work: Work| #[trigger] self.holds(work) ==> self.knows(work)
    }

    /// The work is the one that was seen under its identifier.
    pub open spec fn knows(self, work: Work) -> bool {
        self.saw(work.meta.id) && self.seen[work.meta.id@] == work
    }

    /// The queues are finite, and no post waits twice in one of them.
    pub open spec fn orderly(self) -> bool {
        &&& orderly(self.screenshot)
        &&& orderly(self.outline_com)
        &&& orderly(self.wikiwix)
        &&& orderly(self.google_cache)
        &&& orderly(self.comment)
    }

    /// Every work is found by its own identifier, at a place that is there, and waits in queues that
    /// are in order.
    pub open spec fn sound(self) -> bool {
        self.wf() && self.orderly() && self.known()
    }

    /// Every post that was seen waits for a screenshot, for outline.com and for Google.
    pub open spec fn untouched(self) -> bool {
        forall|id: RedditId| #[trigger]
            self.saw(id) ==> waits(self.screenshot, id) && waits(self.outline_com, id) && waits(
                self.google_cache,
                id,
            )
    }

    /// The place that the work names is there, and no other work names it.
    pub open spec fn owns(self, work: Work) -> bool {
        &&& work.data < self.cells.len()
        &&& forall|other: Work|
            #![trigger self.holds(other)]
            self.holds(other) && other.data == work.data ==> other == work
    }

    /// No two works name the same place, and a comment waits only for a post about which everything
    /// else has ended.
    pub open spec fn tidy(self) -> bool {
        &&& forall|a: Work, b: Work|
            #![trigger self.holds(a), self.holds(b)]
            self.holds(a) && self.holds(b) && a.data == b.data ==> a == b
        &&& forall|work: Work| #[trigger]
            self.comment.contains(work) ==> self.cells[work.data as int].comment_due()
    }

    /// Nothing was set up, seen or noted yet.
    pub open spec fn is_blank(self) -> bool {
        &&& self.client_data.is_blank()
        &&& self.reddit_token.is_blank()
        &&& self.cells == Seq::<WorkInner>::empty()
        &&& self.seen == Map::<u128, Work>::empty()
        &&& self.screenshot == Set::<Work>::empty()
        &&& self.outline_com == Set::<Work>::empty()
        &&& self.wikiwix == Set::<Work>::empty()
        &&& self.google_cache == Set::<Work>::empty()
        &&& self.comment == Set::<Work>::empty()
        &&& self.uncommitted == Seq::<String>::empty()
    }

    /// The post was seen.
    pub open spec fn saw(self, id: RedditId) -> bool {
        self.seen.contains_key(id@)
    }

    /// A new work about a post, about which nothing has begun. It replaces no work that was seen.
    pub open spec fn with_new_work(self, work: Work) -> Model {
        Model {
            cells: self.cells.push(WorkInner::fresh()),
            seen: if self.saw(work.meta.id) {
                self.seen
            } else {
                self.seen.insert(work.meta.id@, work)
            },
            screenshot: enqueued(self.screenshot, work),
            outline_com: enqueued(self.outline_com, work),
            google_cache: enqueued(self.google_cache, work),
            ..self
        }
    }

    /// The work about a post that is kept at the next place.
    pub open spec fn next_work(self, post: RedditPost) -> Work {
        Work { meta: post, data: self.cells.len() as usize }
    }

    /// How far everything about a work has come is now `inner`. The comment becomes due if nothing
    /// else is left to be done.
    pub open spec fn with_inner(self, work: Work, inner: WorkInner) -> Model {
        Model {
            cells: self.cells.update(work.data as int, inner),
            comment: if inner.comment_due() {
                enqueued(self.comment, work)
            } else {
                self.comment
            },
            ..self
        }
    }

    /// One thing about a post ended. Nothing changes where the post was not seen.
    pub open spec fn with_outcome(self, id: RedditId, slot: Slot, result: Option<String>) -> Model {
        if self.saw(id) {
            let work = self.seen[id@];
            self.with_inner(
                work,
                self.cells[work.data as int].with(slot, WorkOutcome::of(result)),
            )
        } else {
            self
        }
    }

    /// The state after a change of the change log.
    pub open spec fn changed(self, change: StateChange) -> Model {
        match change {
            StateChange::RedditToken(token) => Model { reddit_token: token, ..self },
            StateChange::ClientData(data) => Model { client_data: data, ..self },
            StateChange::NewPost(post) => self.with_new_work(self.next_work(post)),
            StateChange::OutlineComOutcome(post, result) => self.with_outcome(
                post.id,
                Slot::OutlineCom,
                result,
            ),
            StateChange::WikiwixOutcome(post, result) => self.with_outcome(
                post.id,
                Slot::Wikiwix,
                result,
            ),
            StateChange::GoogleCacheOutcome(post, result) => self.with_outcome(
                post.id,
                Slot::GoogleCache,
                result,
            ),
            StateChange::ScreenshotOutcome(post, result) => self.with_outcome(
                post.id,
                Slot::Screenshot,
                result,
            ),
            StateChange::TextOutcome(post, result) => self.with_outcome(post.id, Slot::Text, result),
        }
    }

    /// The state after the changes that could be read, up to the first one that could not.
    pub open spec fn replayed(self, changes: Seq<Option<StateChange>>) -> Model
        decreases changes.len(),
    {
        if changes.len() == 0 {
            self
        } else {
            match changes[0] {
                Some(change) => self.changed(change).replayed(changes.skip(1)),
                None => self,
            }
        }
    }

    /// The state after its oldest line was written to the change log.
    pub open spec fn committed(self) -> Model {
        if self.uncommitted.len() > 0 {
            Model { uncommitted: self.uncommitted.skip(1), ..self }
        } else {
            self
        }
    }

    /// The state after the lines that could be made, up to the first one that could not, were
    /// noted.
    pub open spec fn logged(self, lines: Seq<Option<String>>) -> Model {
        Model { uncommitted: self.uncommitted + written(lines), ..self }
    }

    /// A post that was not seen before is collected.
    pub open spec fn collected(self, post: RedditPost, line: String) -> Model {
        let work = self.next_work(post);
        Model {
            wikiwix: enqueued(self.wikiwix, work),
            uncommitted: self.uncommitted.push(line),
            ..self.with_new_work(work)
        }
    }

    /// The state after a listing was gone through, whether a post was new, and whether the line of
    /// a new post could not be written, at which the listing is left.
    pub open spec fn collected_all(self, posts: Seq<(RedditPost, Option<String>)>) -> (
        Model,
        bool,
        bool,
    )
        decreases posts.len(),
    {
        if posts.len() == 0 {
            (self, false, false)
        } else if self.saw(posts[0].0.id) {
            self.collected_all(posts.skip(1))
        } else {
            match posts[0].1 {
                Some(line) => {
                    let (end, _, failed) = self.collected(posts[0].0, line).collected_all(
                        posts.skip(1),
                    );
                    (end, true, failed)
                },
                None => (self, false, true),
            }
        }
    }
}

/// The lines up to the first one that could not be written.
pub open spec fn written(lines: Seq<Option<String>>) -> Seq<String>
    decreases lines.len(),
{
    if lines.len() == 0 {
        seq![]
    } else {
        match lines[0] {
            Some(line) => seq![line] + written(lines.skip(1)),
            None => seq![],
        }
    }
}

/// All lines could be written.
pub open spec fn all_written(lines: Seq<Option<String>>) -> bool {
    forall|i: int| 0 <= i < lines.len() ==> #[trigger] lines[i] is Some
}

/// All changes could be read.
pub open spec fn all_read(changes: Seq<Option<StateChange>>) -> bool {
    forall|i: int| 0 <= i < changes.len() ==> #[trigger] changes[i] is Some
}

/// Changes as they are read where every one can be.
pub open spec fn entries(changes: Seq<StateChange>) -> Seq<Option<StateChange>> {
    changes.map_values(|change: StateChange| Some(change))
}

/// What came of going through a listing.
#[derive(Debug, Clone, Copy, PartialEq, Eq, Structural)]
pub struct Collected {
    /// A post was new; the queues and the change log have something to do.
    pub inserted: bool,
    /// The line of a new post could not be written; the rest of the listing was left.
    pub failed: bool,
}

/// What to do after going through a listing.
#[derive(Debug, Clone, Copy, PartialEq, Eq, Structural)]
pub enum CollectAction {
    /// Stop with an error. Who writes the change log is woken if there is something to write.
    Fail { wake_changelog: bool },
    /// Rest for so many seconds. Before that, who writes the change log is woken if there is
    /// something to write, and so is everyone for whom a new post waits.
    Rest { seconds: u64, wake_changelog: bool, wake_queues: bool },
}

impl Collected {
    /// What to do now.
    pub fn next(self) -> (action: CollectAction)
        ensures
            action == (if self.failed {
                CollectAction::Fail { wake_changelog: self.inserted }
            } else {
                CollectAction::Rest {
                    seconds: 60,
                    wake_changelog: self.inserted,
                    wake_queues: self.inserted,
                }
            }),
    {
        if self.failed {
            CollectAction::Fail { wake_changelog: self.inserted }
        } else {
            CollectAction::Rest {
                seconds: 60,
                wake_changelog: self.inserted,
                wake_queues: self.inserted,
            }
        }
    }
}

impl View for State {
    type V = Model;

    open spec fn view(&self) -> Model {
        Model {
            client_data: self.client_data,
            reddit_token: self.reddit_token,
            cells: self.cells@,
            seen: self.seen_posts@,
            screenshot: self.screenshot_queue@,
            outline_com: self.outline_com_queue@,
            wikiwix: self.wikiwix_queue@,
            google_cache: self.google_cache_queue@,
            comment: self.comment_queue@,
            uncommitted: self.uncommitted_changes@,
        }
    }
}

impl State {
    /// The queues are in order and every work names a place that is there.
    pub open spec fn wf(self) -> bool {
        &&& self@.wf()
        &&& self.screenshot_queue.wf()
        &&& self.outline_com_queue.wf()
        &&& self.wikiwix_queue.wf()
        &&& self.google_cache_queue.wf()
        &&& self.comment_queue.wf()
    }

    /// Keeps a new work about a post, and puts it into the queues of a new post.
    fn add_work(&mut self, post: RedditPost) -> (work: Work)
        requires
            old(self).wf(),
        ensures
            final(self).wf(),
            work == old(self)@.next_work(post),
            final(self)@ == old(self)@.with_new_work(work),
    {
        let work = Work::new(post, self.cells.len());
        let code: u128 = work.meta.id.code();
        self.cells.push(WorkInner::default());
        if !self.seen_posts.contains_key(&code) {
            self.seen_posts.insert(code, work.clone());
        }
        self.screenshot_queue.insert(work.clone());
        self.outline_com_queue.insert(work.clone());
        self.google_cache_queue.insert(work.clone());
        assert(self@ =~= old(self)@.with_new_work(work));
        work
    }

    /// Lets the comment about a work become due if nothing else is left to be done; says whether it
    /// became due just now.
    pub(crate) fn finish(&mut self, work: Work) -> (due: bool)
        requires
            old(self).wf(),
            work.data < old(self)@.cells.len(),
        ensures
            final(self).wf(),
            final(self)@ == old(self)@.with_inner(work, old(self)@.cells[work.data as int]),
            due == (old(self)@.cells[work.data as int].comment_due() && !waits(
                old(self)@.comment,
                work.meta.id,
            )),
    {
        assert(self@.cells.update(work.data as int, self@.cells[work.data as int])
            =~= self@.cells);
        if self.cells[work.data].ready_to_comment() {
            self.comment_queue.insert(work)
        } else {
            false
        }
    }

    /// One thing about a post ended.
    fn apply_outcome(&mut self, post: RedditPost, slot: Slot, result: Option<String>)
        requires
            old(self).wf(),
        ensures
            final(self).wf(),
            final(self)@ == old(self)@.with_outcome(post.id, slot, result),
    {
        let work = match self.seen_posts.get(&post.id.code()) {
            Some(work) => work.clone(),
            None => {
                return ;
            },
        };
        let outcome = WorkOutcome::from_result(result);
        self.cells[work.data].set(slot, outcome);
        self.finish(work);
        assert(self@ =~= old(self)@.with_outcome(post.id, slot, result));
    }

    /// Makes a change that the change log records.
    pub fn apply_change(&mut self, change: StateChange)
        requires
            old(self).wf(),
        ensures
            final(self).wf(),
            final(self)@ == old(self)@.changed(change),
    {
        match change {
            StateChange::RedditToken(token) => {
                self.reddit_token = token;
            },
            StateChange::ClientData(data) => {
                self.client_data = data;
            },
            StateChange::NewPost(post) => {
                self.add_work(post);
            },
            StateChange::OutlineComOutcome(post, result) => {
                self.apply_outcome(post, Slot::OutlineCom, result);
            },
            StateChange::WikiwixOutcome(post, result) => {
                self.apply_outcome(post, Slot::Wikiwix, result);
            },
            StateChange::GoogleCacheOutcome(post, result) => {
                self.apply_outcome(post, Slot::GoogleCache, result);
            },
            StateChange::ScreenshotOutcome(post, result) => {
                self.apply_outcome(post, Slot::Screenshot, result);
            },
            StateChange::TextOutcome(post, result) => {
                self.apply_outcome(post, Slot::Text, result);
            },
        }
    }

    /// Makes the changes that were read from the change log, up to the first one that could not be
    /// read.
    pub fn read_changelog(&mut self, changes: Vec<Option<StateChange>>) -> (result: Result<
        (),
        DecodeError,
    >)
        requires
            old(self).wf(),
        ensures
            final(self).wf(),
            final(self)@ == old(self)@.replayed(changes@),
            result is Ok <==> all_read(changes@),
    {
        assert(changes@.skip(0) =~= changes@);
        for change in it: changes
            invariant
                self.wf(),
                it.seq() == changes@,
                old(self)@.replayed(changes@) == self@.replayed(changes@.skip(it.index() as int)),
                forall|i: int| 0 <= i < it.index() ==> #[trigger] changes@[i] is Some,
        {
            proof {
                let rest = changes@.skip(it.index() as int);
                assert(rest.skip(1) =~= changes@.skip(it.index() as int + 1));
            }
            match change {
                Some(change) => self.apply_change(change),
                None => {
                    return Err(DecodeError);
                },
            }
        }
        Ok(())
    }

    /// Notes lines that are to be written to the change log, up to the first one that could not be
    /// made; says whether there were any. After a failure the lines before it stay noted.
    pub fn log_changes(&mut self, lines: Vec<Option<String>>) -> (result: Result<bool, EncodeError>)
        requires
            old(self).wf(),
        ensures
            final(self).wf(),
            final(self)@ == old(self)@.logged(lines@),
            result == (if all_written(lines@) {
                Ok::<bool, EncodeError>(lines@.len() > 0)
            } else {
                Err::<bool, EncodeError>(EncodeError)
            }),
    {
        let any = lines.len() > 0;
        assert(lines@.skip(0) =~= lines@);
        for line in it: lines
            invariant
                self.wf(),
                it.seq() == lines@,
                self@ == (Model { uncommitted: self@.uncommitted, ..old(self)@ }),
                old(self)@.uncommitted + written(lines@) == self@.uncommitted + written(
                    lines@.skip(it.index() as int),
                ),
                forall|i: int| 0 <= i < it.index() ==> #[trigger] lines@[i] is Some,
        {
            let ghost rest = lines@.skip(it.index() as int);
            let ghost before = self@.uncommitted;
            assert(rest.skip(1) =~= lines@.skip(it.index() as int + 1));
            match line {
                Some(line) => {
                    self.uncommitted_changes.push_back(line);
                    assert(before + (seq![line] + written(rest.skip(1))) =~= before.push(line)
                        + written(rest.skip(1)));
                },
                None => {
                    assert(before + written(rest) =~= before);
                    return Err(EncodeError);
                },
            }
        }
        assert(self@.uncommitted + written(lines@.skip(lines@.len() as int))
            =~= self@.uncommitted);
        Ok(any)
    }

    /// Takes over what the program was set up with, and notes the line of that change; says whether
    /// there was one.
    pub fn set_client_data(&mut self, data: ClientData, line: Option<String>) -> (result: Result<
        bool,
        EncodeError,
    >)
        requires
            old(self).wf(),
        ensures
            final(self).wf(),
            final(self)@ == (Model { client_data: data, ..old(self)@ }).logged(seq![line]),
            result == (if line is Some {
                Ok::<bool, EncodeError>(true)
            } else {
                Err::<bool, EncodeError>(EncodeError)
            }),
    {
        self.client_data = data;
        let mut lines: Vec<Option<String>> = Vec::new();
        lines.push(line);
        assert(lines@ =~= seq![line]);
        assert(lines@[0] == line);
        self.log_changes(lines)
    }

    /// Takes the oldest line that is not yet written to the change log.
    pub fn next_change(&mut self) -> (line: Option<String>)
        requires
            old(self).wf(),
        ensures
            final(self).wf(),
            final(self)@ == old(self)@.committed(),
            line matches Some(line) ==> old(self)@.uncommitted == seq![line]
                + final(self)@.uncommitted,
            line is None ==> old(self)@.uncommitted.len() == 0 && final(self)@ == old(self)@,
            line == (if old(self)@.uncommitted.len() > 0 {
                Some(old(self)@.uncommitted[0])
            } else {
                None
            }),
    {
        let ghost before = self@.uncommitted;
        let line = self.uncommitted_changes.pop_front();
        proof {
            if line is Some {
                assert(self@.uncommitted =~= before.skip(1));
                assert(before =~= seq![before[0]] + self@.uncommitted);
            }
        }
        line
    }

    /// Goes through a listing of posts, each with its line for the change log. Of each post that was
    /// not seen before the line is noted, and the post is put into the queues of everything that is
    /// to be done about it. The listing is left at a new post whose line could not be made.
    pub fn collect(&mut self, posts: Vec<(RedditPost, Option<String>)>) -> (collected: Collected)
        requires
            old(self).wf(),
        ensures
            final(self).wf(),
            old(self)@.collected_all(posts@) == (final(self)@, collected.inserted, collected.failed),
    {
        let mut inserted = false;
        assert(posts@.skip(0) =~= posts@);
        for entry in it: posts
            invariant
                self.wf(),
                it.seq() == posts@,
                ({
                    let (end, more, failed) = self@.collected_all(
                        posts@.skip(it.index() as int),
                    );
                    old(self)@.collected_all(posts@) == (end, inserted || more, failed)
                }),
        {
            proof {
                let rest = posts@.skip(it.index() as int);
                assert(rest.skip(1) =~= posts@.skip(it.index() as int + 1));
            }
            let (post, line) = entry;
            if !self.seen_posts.contains_key(&post.id.code()) {
                let line = match line {
                    Some(line) => line,
                    None => {
                        return Collected { inserted, failed: true };
                    },
                };
                let ghost before = self@;
                self.uncommitted_changes.push_back(line);
                let ghost noted = self@;
                assert(noted =~= (Model { uncommitted: before.uncommitted.push(line), ..before }));
                let work = self.add_work(post);
                self.wikiwix_queue.insert(work);
                assert(self@ =~= before.collected(post, line));
                inserted = true;
            }
        }
        Collected { inserted, failed: false }
    }
}

impl Default for State {
    fn default() -> (state: Self)
        ensures
            state.wf(),
            state@.is_blank(),
    {
        let state = State {
            client_data: ClientData::default(),
            reddit_token: RedditToken::default(),
            cells: Vec::new(),
            seen_posts: HashMap::new(),
            screenshot_queue: WorkQueueInner::new(),
            outline_com_queue: WorkQueueInner::new(),
            wikiwix_queue: WorkQueueInner::new(),
            google_cache_queue: WorkQueueInner::new(),
            comment_queue: WorkQueueInner::new(),
            uncommitted_changes: VecDeque::new(),
        };
        assert(state@.seen =~= Map::<u128, Work>::empty());
        assert(state@.uncommitted =~= Seq::<String>::empty());
        state
    }
}

/// A new work is about its post and has a place of its own, which no work that is held names and
/// which the next new work, even about the same post, does not get. Nothing about it has begun.
pub proof fn new_work_has_its_own_place(state: Model, post: RedditPost)
    requires
        state.wf(),
        state.cells.len() < usize::MAX,
    ensures
        ({
            let work = state.next_work(post);
            let after = state.with_new_work(work);
            let inner = after.cells[work.data as int];
            &&& work.meta == post
            &&& forall|other: Work| #[trigger] state.holds(other) ==> other.data != work.data
            &&& after.cells == state.cells.push(inner)
            &&& inner == WorkInner::fresh()
            &&& !inner.comment_due()
            &&& !inner.failed()
            &&& after.next_work(post).data != work.data
        }),
{
}

/// A change keeps every work at a place that is there, and found by its own identifier.
pub proof fn change_keeps_order(state: Model, change: StateChange)
    requires
        state.wf(),
        change is NewPost ==> state.cells.len() < usize::MAX,
    ensures
        state.changed(change).wf(),
{
}

/// An outcome of a post that was not seen changes nothing.
pub proof fn outcome_of_unseen_post(state: Model, slot: Slot, post: RedditPost, result: Option<String>)
    requires
        !state.saw(post.id),
    ensures
        state.changed(StateChange::outcome_of(slot, post, result)) == state,
{
}

/// An outcome of a post that was seen changes how far that one thing has come, and nothing else but
/// that the comment may become due.
pub proof fn outcome_sets_one_thing(
    state: Model,
    slot: Slot,
    other: Slot,
    post: RedditPost,
    result: Option<String>,
)
    requires
        state.wf(),
        state.saw(post.id),
        slot != other,
    ensures
        ({
            let after = state.changed(StateChange::outcome_of(slot, post, result));
            let place = state.seen[post.id@].data as int;
            &&& after == (Model { cells: after.cells, comment: after.comment, ..state })
            &&& after.cells == state.cells.update(place, after.cells[place])
            &&& after.cells[place].at(slot) == WorkOutcome::of(result)
            &&& after.cells[place].at(other) == state.cells[place].at(other)
            &&& after.cells[place].comment == state.cells[place].comment
            &&& after.comment != state.comment ==> after.cells[place].comment_due()
        }),
{
}

/// Changes are replayed one after the other: replaying two runs of changes in turn is replaying them
/// as one.
pub proof fn replayed_in_turn(
    state: Model,
    first: Seq<Option<StateChange>>,
    second: Seq<Option<StateChange>>,
)
    requires
        all_read(first),
    ensures
        state.replayed(first + second) == state.replayed(first).replayed(second),
    decreases first.len(),
{
    if first.len() == 0 {
        assert(first + second =~= second);
    } else {
        assert((first + second)[0] == first[0]);
        assert((first + second).skip(1) =~= first.skip(1) + second);
        assert(all_read(first.skip(1))) by {
            assert forall|i: int| 0 <= i < first.skip(1).len() implies #[trigger] first.skip(
                1,
            )[i] is Some by {
                assert(first[i + 1] is Some);
            }
        }
        replayed_in_turn(state.changed(first[0]->0), first.skip(1), second);
    }
}

/// A post that is replayed a second time, even with other particulars, is neither seen nor queued
/// anew.
pub proof fn post_replayed_twice(state: Model, post: RedditPost, again: RedditPost)
    requires
        post.id@ == again.id@,
    ensures
        ({
            let once = state.changed(StateChange::NewPost(post));
            let twice = once.changed(StateChange::NewPost(again));
            twice == (Model { cells: twice.cells, ..once })
        }),
{
    let work = state.next_work(post);
    enqueued_twice(state.screenshot, work);
    enqueued_twice(state.outline_com, work);
    enqueued_twice(state.google_cache, work);
}

/// Whoever replays that a new post was collected comes to the same state as whoever collected it,
/// but that the post does not wait for wikiwix, and that no line is noted.
pub proof fn collected_is_replayed(state: Model, post: RedditPost, line: String)
    ensures
        ({
            let live = state.collected(post, line);
            state.changed(StateChange::NewPost(post)) == (Model {
                wikiwix: state.wikiwix,
                uncommitted: state.uncommitted,
                ..live
            })
        }),
{
}

/// A new post that was collected was seen, and waits for everything that is to be done about it.
pub proof fn collected_post_waits(state: Model, post: RedditPost, line: String)
    requires
        !state.saw(post.id),
    ensures
        ({
            let after = state.collected(post, line);
            &&& after.saw(post.id)
            &&& waits(after.screenshot, post.id)
            &&& waits(after.outline_com, post.id)
            &&& waits(after.wikiwix, post.id)
            &&& waits(after.google_cache, post.id)
            &&& after.uncommitted.last() == line
        }),
{
    let work = state.next_work(post);
    enqueued_twice(state.screenshot, work);
    enqueued_twice(state.outline_com, work);
    enqueued_twice(state.wikiwix, work);
    enqueued_twice(state.google_cache, work);
}

/// Lines are noted in the order in which they come: noting two runs of lines in turn is noting them
/// as one.
pub proof fn logged_in_turn(state: Model, first: Seq<Option<String>>, second: Seq<Option<String>>)
    requires
        all_written(first),
    ensures
        state.logged(first + second) == state.logged(first).logged(second),
    decreases first.len(),
{
    if first.len() == 0 {
        assert(first + second =~= second);
        assert(state.uncommitted + written(second) =~= state.uncommitted + written(first) + written(
            second,
        ));
    } else {
        let line = first[0]->0;
        let noted = Model { uncommitted: state.uncommitted.push(line), ..state };
        assert((first + second)[0] == first[0]);
        assert((first + second).skip(1) =~= first.skip(1) + second);
        assert(all_written(first.skip(1))) by {
            assert forall|i: int| 0 <= i < first.skip(1).len() implies #[trigger] first.skip(
                1,
            )[i] is Some by {
                assert(first[i + 1] is Some);
            }
        }
        logged_in_turn(noted, first.skip(1), second);
        assert(noted.logged(first.skip(1) + second).uncommitted =~= state.logged(
            first + second,
        ).uncommitted);
        assert(noted.logged(first.skip(1)).uncommitted =~= state.logged(first).uncommitted);
    }
}

/// Every post of a listing that was gone through to its end was seen.
pub proof fn collected_posts_were_seen(
    state: Model,
    posts: Seq<(RedditPost, Option<String>)>,
    i: int,
)
    requires
        !state.collected_all(posts).2,
        0 <= i < posts.len(),
    ensures
        state.collected_all(posts).0.saw(posts[i].0.id),
    decreases posts.len(),
{
    let id = posts[0].0.id;
    let next = if state.saw(id) {
        state
    } else {
        state.collected(posts[0].0, posts[0].1->0)
    };
    if i == 0 {
        seen_stays_seen(next, posts.skip(1), id);
    } else {
        collected_posts_were_seen(next, posts.skip(1), i - 1);
    }
}

/// A post that was seen stays seen, by the same work, whatever is collected.
pub proof fn seen_stays_seen(state: Model, posts: Seq<(RedditPost, Option<String>)>, id: RedditId)
    requires
        state.saw(id),
    ensures
        state.collected_all(posts).0.saw(id),
        state.collected_all(posts).0.seen[id@] == state.seen[id@],
    decreases posts.len(),
{
    if posts.len() > 0 {
        if state.saw(posts[0].0.id) {
            seen_stays_seen(state, posts.skip(1), id);
        } else if posts[0].1 is Some {
            seen_stays_seen(state.collected(posts[0].0, posts[0].1->0), posts.skip(1), id);
        }
    }
}

/// A listing in which every post was seen changes nothing: no post is collected twice.
pub proof fn seen_posts_are_not_collected(state: Model, posts: Seq<(RedditPost, Option<String>)>)
    requires
        forall|i: int| 0 <= i < posts.len() ==> state.saw(#[trigger] posts[i].0.id),
    ensures
        state.collected_all(posts) == (state, false, false),
    decreases posts.len(),
{
    if posts.len() > 0 {
        assert(state.saw(posts[0].0.id));
        assert forall|i: int| 0 <= i < posts.skip(1).len() implies state.saw(
            #[trigger] posts.skip(1)[i].0.id,
        ) by {
            assert(state.saw(posts[i + 1].0.id));
        }
        seen_posts_are_not_collected(state, posts.skip(1));
    }
}

/// At the beginning no comment waits.
pub proof fn blank_is_tidy(state: Model)
    requires
        state.is_blank(),
    ensures
        state.wf(),
        state.tidy(),
{
}

/// A change keeps comments waiting only for posts about which everything else has ended.
pub proof fn change_keeps_comments_due(state: Model, change: StateChange)
    requires
        state.wf(),
        state.tidy(),
        state.cells.len() < usize::MAX,
    ensures
        state.changed(change).tidy(),
{
    let after = state.changed(change);
    match change {
        StateChange::RedditToken(_) => {
            assert forall|other: Work| after.holds(other) implies state.holds(other) by {}
        },
        StateChange::ClientData(_) => {
            assert forall|other: Work| after.holds(other) implies state.holds(other) by {}
        },
        StateChange::NewPost(post) => {
            new_work_keeps_comments_due(state, post);
        },
        StateChange::OutlineComOutcome(post, result) => {
            outcome_keeps_comments_due(state, post.id, Slot::OutlineCom, result);
        },
        StateChange::WikiwixOutcome(post, result) => {
            outcome_keeps_comments_due(state, post.id, Slot::Wikiwix, result);
        },
        StateChange::GoogleCacheOutcome(post, result) => {
            outcome_keeps_comments_due(state, post.id, Slot::GoogleCache, result);
        },
        StateChange::ScreenshotOutcome(post, result) => {
            outcome_keeps_comments_due(state, post.id, Slot::Screenshot, result);
        },
        StateChange::TextOutcome(post, result) => {
            outcome_keeps_comments_due(state, post.id, Slot::Text, result);
        },
    }
}

proof fn new_work_keeps_comments_due(state: Model, post: RedditPost)
    requires
        state.wf(),
        state.tidy(),
        state.cells.len() < usize::MAX,
    ensures
        state.with_new_work(state.next_work(post)).tidy(),
{
    let work = state.next_work(post);
    let after = state.with_new_work(work);
    assert forall|other: Work| after.holds(other) implies state.holds(other) || other == work by {}
    assert forall|other: Work| state.holds(other) implies other.data < state.cells.len() by {}
    assert forall|other: Work| #[trigger]
        after.comment.contains(other) implies after.cells[other.data as int].comment_due() by {
        assert(state.comment.contains(other));
    }
}

proof fn outcome_keeps_comments_due(state: Model, id: RedditId, slot: Slot, result: Option<String>)
    requires
        state.wf(),
        state.tidy(),
    ensures
        state.with_outcome(id, slot, result).tidy(),
{
    let after = state.with_outcome(id, slot, result);
    if state.saw(id) {
        let work = state.seen[id@];
        assert(state.holds(work));
        assert forall|other: Work| after.holds(other) implies state.holds(other) by {}
        assert forall|other: Work| #[trigger]
            after.comment.contains(other) implies after.cells[other.data as int].comment_due() by {
            if state.comment.contains(other) {
                assert(state.holds(other));
            }
        }
    }
}

/// Collecting a post keeps comments waiting only for posts about which everything else has ended.
pub proof fn collecting_keeps_comments_due(state: Model, post: RedditPost, line: String)
    requires
        state.wf(),
        state.tidy(),
        state.cells.len() < usize::MAX,
    ensures
        state.collected(post, line).tidy(),
{
    let work = state.next_work(post);
    let after = state.collected(post, line);
    assert forall|other: Work| after.holds(other) implies state.holds(other) || other == work by {}
    assert forall|other: Work| state.holds(other) implies other.data < state.cells.len() by {}
    assert forall|other: Work| #[trigger]
        after.comment.contains(other) implies after.cells[other.data as int].comment_due() by {
        assert(state.comment.contains(other));
    }
}

/// A work keeps its place to itself, whatever change is made.
pub proof fn change_keeps_place(state: Model, work: Work, change: StateChange)
    requires
        state.wf(),
        state.cells.len() < usize::MAX,
        state.owns(work),
    ensures
        state.changed(change).owns(work),
{
    let after = state.changed(change);
    assert forall|other: Work| after.holds(other) implies state.holds(other) || other.data
        == state.cells.len() by {}
}

/// A work keeps its place to itself, whatever post is collected.
pub proof fn collecting_keeps_place(state: Model, work: Work, post: RedditPost, line: String)
    requires
        state.wf(),
        state.cells.len() < usize::MAX,
        state.owns(work),
    ensures
        state.collected(post, line).owns(work),
{
    let after = state.collected(post, line);
    assert forall|other: Work| after.holds(other) implies state.holds(other) || other.data
        == state.cells.len() by {}
}

/// The queues of a state are in order.
pub proof fn state_is_orderly(state: State)
    requires
        state.wf(),
    ensures
        state@.orderly(),
{
    queue_holds_each_post_once(state.screenshot_queue);
    queue_holds_each_post_once(state.outline_com_queue);
    queue_holds_each_post_once(state.wikiwix_queue);
    queue_holds_each_post_once(state.google_cache_queue);
    queue_holds_each_post_once(state.comment_queue);
}

/// At the beginning everything is sound, and nothing has been touched.
pub proof fn blank_is_sound(state: Model)
    requires
        state.is_blank(),
    ensures
        state.sound(),
        state.untouched(),
{
}

/// Collecting a new post keeps a state sound.
pub proof fn collecting_keeps_sound(state: Model, post: RedditPost, line: String)
    requires
        state.sound(),
        !state.saw(post.id),
        state.cells.len() < usize::MAX,
    ensures
        state.collected(post, line).sound(),
{
    let work = state.next_work(post);
    let after = state.collected(post, line);
    queue_stays_orderly(state.screenshot, work);
    queue_stays_orderly(state.outline_com, work);
    queue_stays_orderly(state.wikiwix, work);
    queue_stays_orderly(state.google_cache, work);
    assert forall|other: Work| #[trigger] after.holds(other) implies after.knows(other) by {
        if other != work {
            assert(state.holds(other));
            assert(state.knows(other));
        }
    }
}

/// Replaying a post that was not seen before keeps a state sound.
pub proof fn new_post_keeps_sound(state: Model, post: RedditPost)
    requires
        state.sound(),
        !state.saw(post.id),
        state.cells.len() < usize::MAX,
    ensures
        state.changed(StateChange::NewPost(post)).sound(),
{
    let work = state.next_work(post);
    let after = state.changed(StateChange::NewPost(post));
    queue_stays_orderly(state.screenshot, work);
    queue_stays_orderly(state.outline_com, work);
    queue_stays_orderly(state.google_cache, work);
    assert forall|other: Work| #[trigger] after.holds(other) implies after.knows(other) by {
        if other != work {
            assert(state.holds(other));
            assert(state.knows(other));
        }
    }
}

/// What waited still waits after something was put into a queue.
proof fn still_waits(queue: Set<Work>, work: Work, id: RedditId)
    requires
        waits(queue, id),
    ensures
        waits(enqueued(queue, work), id),
{
    let other = choose|other: Work| #[trigger] queue.contains(other) && other.meta.id@ == id@;
    assert(enqueued(queue, work).contains(other));
}

/// Replaying a change in a state in which nothing has been touched keeps it sound and untouched.
pub proof fn replaying_keeps_sound(state: Model, change: StateChange)
    requires
        state.sound(),
        state.untouched(),
        state.cells.len() < usize::MAX,
    ensures
        state.changed(change).sound(),
        state.changed(change).untouched(),
{
    let after = state.changed(change);
    if let StateChange::NewPost(post) = change {
        let work = state.next_work(post);
        queue_stays_orderly(state.screenshot, work);
        queue_stays_orderly(state.outline_com, work);
        queue_stays_orderly(state.google_cache, work);
        enqueued_twice(state.screenshot, work);
        enqueued_twice(state.outline_com, work);
        enqueued_twice(state.google_cache, work);
        assert forall|other: Work| #[trigger] after.holds(other) implies after.knows(other) by {
            if state.holds(other) {
                assert(state.knows(other));
            }
        }
        assert forall|id: RedditId| #[trigger] after.saw(id) implies waits(after.screenshot, id)
            && waits(after.outline_com, id) && waits(after.google_cache, id) by {
            if state.saw(id) {
                still_waits(state.screenshot, work, id);
                still_waits(state.outline_com, work, id);
                still_waits(state.google_cache, work, id);
            }
        }
    } else {
        change_keeps_order(state, change);
        outcome_keeps_sound(state, change);
    }
}

/// A change that is no new post keeps a state sound, whatever has been touched.
pub proof fn outcome_keeps_sound(state: Model, change: StateChange)
    requires
        state.sound(),
        change !is NewPost,
    ensures
        state.changed(change).sound(),
        state.untouched() ==> state.changed(change).untouched(),
{
    let after = state.changed(change);
    assert(after.seen == state.seen);
    assert forall|id: RedditId| #[trigger] after.saw(id) == state.saw(id) by {}
    assert forall|other: Work| #[trigger] after.holds(other) implies after.knows(other) by {
        if state.holds(other) {
            assert(state.knows(other));
        }
    }
    assert forall|work: Work| orderly(#[trigger] enqueued(state.comment, work)) by {
        queue_stays_orderly(state.comment, work);
    }
}

/// What is replayed from the beginning is sound, and nothing in it has been touched.
pub proof fn replayed_is_sound(state: Model, changes: Seq<Option<StateChange>>)
    requires
        state.sound(),
        state.untouched(),
        state.cells.len() + changes.len() <= usize::MAX,
    ensures
        state.replayed(changes).sound(),
        state.replayed(changes).untouched(),
        state.replayed(changes).cells.len() <= state.cells.len() + changes.len(),
    decreases changes.len(),
{
    if changes.len() > 0 && changes[0] is Some {
        replaying_keeps_sound(state, changes[0]->0);
        replayed_is_sound(state.changed(changes[0]->0), changes.skip(1));
    }
}

/// A post that was replayed from the beginning and is replayed again, with whatever particulars and
/// however much later, is neither seen nor queued anew.
pub proof fn post_replayed_again(
    blank: Model,
    changes: Seq<Option<StateChange>>,
    again: RedditPost,
)
    requires
        blank.is_blank(),
        changes.len() <= usize::MAX,
        blank.replayed(changes).saw(again.id),
    ensures
        ({
            let state = blank.replayed(changes);
            state.changed(StateChange::NewPost(again)) == (Model {
                cells: state.cells.push(WorkInner::fresh()),
                ..state
            })
        }),
{
    blank_is_sound(blank);
    replayed_is_sound(blank, changes);
}

/// Writing a line down takes the oldest one, and nothing else changes.
pub proof fn oldest_line_is_written_first(state: Model)
    ensures
        state.uncommitted.len() > 0 ==> state.uncommitted == seq![state.uncommitted[0]]
            + state.committed().uncommitted,
        state.uncommitted.len() == 0 ==> state.committed() == state,
        state.committed() == (Model { uncommitted: state.committed().uncommitted, ..state }),
{
    if state.uncommitted.len() > 0 {
        assert(state.uncommitted =~= seq![state.uncommitted[0]] + state.committed().uncommitted);
    }
}

/// The lines that are noted are those before the first one that could not be made, all of them, in
/// their order; they come behind those that were noted before, and nothing else changes.
pub proof fn lines_are_noted_up_to_a_fault(state: Model, lines: Seq<Option<String>>, i: int)
    requires
        0 <= i < lines.len(),
    ensures
        (forall|k: int| 0 <= k <= i ==> #[trigger] lines[k] is Some) <==> i < written(lines).len(),
        i < written(lines).len() ==> lines[i] == Some(written(lines)[i]),
        written(lines).len() <= lines.len(),
        state.logged(lines).uncommitted == state.uncommitted + written(lines),
        state.logged(lines) == (Model { uncommitted: state.logged(lines).uncommitted, ..state }),
    decreases lines.len(),
{
    if lines[0] is Some {
        let rest = lines.skip(1);
        assert(written(lines) == seq![lines[0]->0] + written(rest));
        if i > 0 {
            lines_are_noted_up_to_a_fault(state, rest, i - 1);
            if forall|k: int| 0 <= k <= i ==> #[trigger] lines[k] is Some {
                assert forall|k: int| 0 <= k <= i - 1 implies #[trigger] rest[k] is Some by {
                    assert(lines[k + 1] is Some);
                }
            }
            if forall|k: int| 0 <= k <= i - 1 ==> #[trigger] rest[k] is Some {
                assert forall|k: int| 0 <= k <= i implies #[trigger] lines[k] is Some by {
                    if k > 0 {
                        assert(rest[k - 1] is Some);
                    }
                }
            }
        } else {
            written_is_short(rest);
        }
    }
}

proof fn written_is_short(lines: Seq<Option<String>>)
    ensures
        written(lines).len() <= lines.len(),
    decreases lines.len(),
{
    if lines.len() > 0 && lines[0] is Some {
        written_is_short(lines.skip(1));
    }
}

/// A token or a setup from the change log replaces the one that was there, and nothing else.
pub proof fn token_and_setup_are_replaced(state: Model, token: RedditToken, data: ClientData)
    ensures
        state.changed(StateChange::RedditToken(token)) == (Model { reddit_token: token, ..state }),
        state.changed(StateChange::ClientData(data)) == (Model { client_data: data, ..state }),
{
}

/// The change of each thing says so by its name, with the post and the result.
pub proof fn changes_name_their_things(slot: Slot, post: RedditPost, result: Option<String>)
    ensures
        ({
            let change = StateChange::outcome_of(slot, post, result);
            &&& slot is OutlineCom <==> change == StateChange::OutlineComOutcome(post, result)
            &&& slot is Wikiwix <==> change == StateChange::WikiwixOutcome(post, result)
            &&& slot is GoogleCache <==> change == StateChange::GoogleCacheOutcome(post, result)
            &&& slot is Screenshot <==> change == StateChange::ScreenshotOutcome(post, result)
            &&& slot is Text <==> change == StateChange::TextOutcome(post, result)
        }),
{
}

/// A post that is replayed was seen and waits for a screenshot, for outline.com and for Google, and
/// for nothing else that it did not wait for before. Nobody who waited or was seen is lost, what has
/// ended about other posts stays, and one place is added.
pub proof fn replayed_post_waits(state: Model, post: RedditPost, other: Work, i: int)
    ensures
        ({
            let after = state.changed(StateChange::NewPost(post));
            &&& after.saw(post.id)
            &&& waits(after.screenshot, post.id)
            &&& waits(after.outline_com, post.id)
            &&& waits(after.google_cache, post.id)
            &&& after.wikiwix == state.wikiwix
            &&& after.comment == state.comment
            &&& after.uncommitted == state.uncommitted
            &&& after.reddit_token == state.reddit_token
            &&& after.client_data == state.client_data
            &&& after.cells.len() == state.cells.len() + 1
            &&& 0 <= i < state.cells.len() ==> after.cells[i] == state.cells[i]
            &&& state.holds(other) ==> after.holds(other)
            &&& after.holds(other) && !state.holds(other) ==> other.meta == post
            &&& state.saw(other.meta.id) ==> after.saw(other.meta.id)
                && after.seen[other.meta.id@] == state.seen[other.meta.id@]
            &&& after.saw(other.meta.id) ==> state.saw(other.meta.id) || other.meta.id@
                == post.id@
        }),
{
    let work = state.next_work(post);
    enqueued_twice(state.screenshot, work);
    enqueued_twice(state.outline_com, work);
    enqueued_twice(state.google_cache, work);
}

/// An outcome of a post that was seen puts the post into the queue of comments exactly when it was
/// the last thing to end; nobody leaves that queue, and nobody else enters it.
pub proof fn last_outcome_makes_a_comment_due(
    state: Model,
    slot: Slot,
    post: RedditPost,
    result: Option<String>,
    other: Work,
)
    requires
        state.wf(),
        state.saw(post.id),
    ensures
        ({
            let after = state.changed(StateChange::outcome_of(slot, post, result));
            let work = state.seen[post.id@];
            let inner = after.cells[work.data as int];
            &&& !inner.comment.done() && (forall|thing: Slot| #[trigger] inner.at(thing).done())
                ==> waits(after.comment, post.id)
            &&& state.comment.contains(other) ==> after.comment.contains(other)
            &&& after.comment.contains(other) && !state.comment.contains(other) ==> other == work
                && !inner.comment.done() && (forall|thing: Slot| #[trigger]
                inner.at(thing).done())
        }),
{
    let after = state.changed(StateChange::outcome_of(slot, post, result));
    let work = state.seen[post.id@];
    let inner = after.cells[work.data as int];
    crate::work::comment_is_due_at_the_end(inner);
    enqueued_twice(state.comment, work);
}

/// Going through a listing loses nobody and changes nothing about the posts that were seen.
pub proof fn listing_only_adds(
    state: Model,
    posts: Seq<(RedditPost, Option<String>)>,
    other: Work,
    i: int,
)
    ensures
        ({
            let after = state.collected_all(posts).0;
            &&& state.screenshot.contains(other) ==> after.screenshot.contains(other)
            &&& state.outline_com.contains(other) ==> after.outline_com.contains(other)
            &&& state.wikiwix.contains(other) ==> after.wikiwix.contains(other)
            &&& state.google_cache.contains(other) ==> after.google_cache.contains(other)
            &&& after.comment == state.comment
            &&& after.reddit_token == state.reddit_token
            &&& after.client_data == state.client_data
            &&& after.cells.len() >= state.cells.len()
            &&& 0 <= i < state.cells.len() ==> after.cells[i] == state.cells[i]
            &&& after.uncommitted.len() - state.uncommitted.len() == after.cells.len()
                - state.cells.len()
            &&& 0 <= i < state.uncommitted.len() ==> after.uncommitted[i] == state.uncommitted[i]
        }),
    decreases posts.len(),
{
    if posts.len() > 0 {
        if state.saw(posts[0].0.id) {
            listing_only_adds(state, posts.skip(1), other, i);
        } else if posts[0].1 is Some {
            let next = state.collected(posts[0].0, posts[0].1->0);
            listing_only_adds(next, posts.skip(1), other, i);
        }
    }
}

/// A listing says that a post was new exactly when a post was added, and that it failed exactly when
/// it was left at a post that was not seen and whose line could not be made. Where no post was new,
/// nothing changes.
pub proof fn listing_says_what_it_did(state: Model, posts: Seq<(RedditPost, Option<String>)>)
    ensures
        ({
            let (after, inserted, failed) = state.collected_all(posts);
            &&& inserted <==> after.cells.len() > state.cells.len()
            &&& !inserted ==> after == state
            &&& failed ==> exists|i: int|
                0 <= i < posts.len() && (#[trigger] posts[i]).1 is None && !after.saw(posts[i].0.id)
            &&& (forall|i: int| 0 <= i < posts.len() ==> (#[trigger] posts[i]).1 is Some)
                ==> !failed
            &&& !failed ==> forall|i: int|
                0 <= i < posts.len() ==> after.saw((#[trigger] posts[i]).0.id)
        }),
    decreases posts.len(),
{
    let (after, inserted, failed) = state.collected_all(posts);
    if posts.len() > 0 {
        let rest = posts.skip(1);
        let next = if state.saw(posts[0].0.id) {
            state
        } else if posts[0].1 is Some {
            state.collected(posts[0].0, posts[0].1->0)
        } else {
            state
        };
        if state.saw(posts[0].0.id) || posts[0].1 is Some {
            listing_says_what_it_did(next, rest);
            listing_only_adds(next, rest, state.next_work(posts[0].0), 0);
            if failed {
                let k = choose|k: int|
                    0 <= k < rest.len() && (#[trigger] rest[k]).1 is None && !after.saw(
                        rest[k].0.id,
                    );
                assert(posts[k + 1] == rest[k]);
            }
            if forall|i: int| 0 <= i < posts.len() ==> (#[trigger] posts[i]).1 is Some {
                assert forall|i: int| 0 <= i < rest.len() implies (#[trigger] rest[i]).1 is Some by {
                    assert(posts[i + 1].1 is Some);
                }
            }
        } else {
            assert(posts[0].1 is None);
        }
        if !failed {
            assert forall|i: int| 0 <= i < posts.len() implies after.saw(
                (#[trigger] posts[i]).0.id,
            ) by {
                collected_posts_were_seen(state, posts, i);
            }
        }
    }
}

/// Every post that became seen by going through a listing stands in the listing, and waits for a
/// screenshot and for each of the three archives.
pub proof fn listed_posts_wait(
    state: Model,
    posts: Seq<(RedditPost, Option<String>)>,
    id: RedditId,
)
    requires
        !state.saw(id),
        state.collected_all(posts).0.saw(id),
    ensures
        ({
            let after = state.collected_all(posts).0;
            &&& waits(after.screenshot, id)
            &&& waits(after.outline_com, id)
            &&& waits(after.wikiwix, id)
            &&& waits(after.google_cache, id)
            &&& exists|i: int| 0 <= i < posts.len() && (#[trigger] posts[i]).0.id@ == id@
        }),
    decreases posts.len(),
{
    let after = state.collected_all(posts).0;
    let rest = posts.skip(1);
    if state.saw(posts[0].0.id) {
        listed_posts_wait(state, rest, id);
        let k = choose|k: int| 0 <= k < rest.len() && (#[trigger] rest[k]).0.id@ == id@;
        assert(posts[k + 1] == rest[k]);
    } else if posts[0].1 is Some {
        let post = posts[0].0;
        let next = state.collected(post, posts[0].1->0);
        if next.saw(id) {
            assert(post.id@ == id@);
            collected_post_waits(state, post, posts[0].1->0);
            waiting_goes_on(next, rest, id);
        } else {
            listed_posts_wait(next, rest, id);
            let k = choose|k: int| 0 <= k < rest.len() && (#[trigger] rest[k]).0.id@ == id@;
            assert(posts[k + 1] == rest[k]);
        }
    }
}

proof fn waiting_goes_on(state: Model, posts: Seq<(RedditPost, Option<String>)>, id: RedditId)
    requires
        waits(state.screenshot, id),
        waits(state.outline_com, id),
        waits(state.wikiwix, id),
        waits(state.google_cache, id),
    ensures
        ({
            let after = state.collected_all(posts).0;
            &&& waits(after.screenshot, id)
            &&& waits(after.outline_com, id)
            &&& waits(after.wikiwix, id)
            &&& waits(after.google_cache, id)
        }),
{
    let a = choose|w: Work| #[trigger] state.screenshot.contains(w) && w.meta.id@ == id@;
    let b = choose|w: Work| #[trigger] state.outline_com.contains(w) && w.meta.id@ == id@;
    let c = choose|w: Work| #[trigger] state.wikiwix.contains(w) && w.meta.id@ == id@;
    let d = choose|w: Work| #[trigger] state.google_cache.contains(w) && w.meta.id@ == id@;
    listing_only_adds(state, posts, a, 0);
    listing_only_adds(state, posts, b, 0);
    listing_only_adds(state, posts, c, 0);
    listing_only_adds(state, posts, d, 0);
}

/// The line of a new post is noted behind those that were noted before it, and its work is about the
/// post itself, at a fresh place.
pub proof fn collected_post_is_the_listed_one(state: Model, post: RedditPost, line: String)
    requires
        !state.saw(post.id),
        state.cells.len() < usize::MAX,
    ensures
        ({
            let after = state.collected(post, line);
            let work = after.seen[post.id@];
            &&& work.meta == post
            &&& work.data == state.cells.len()
            &&& after.cells[work.data as int] == WorkInner::fresh()
            &&& after.uncommitted == state.uncommitted.push(line)
        }),
{
}

/// What a replay does depends on the changes before the first one that could not be read, and on no
/// others; one change is replayed as it is.
pub proof fn replaying_stops_at_a_fault(
    state: Model,
    before: Seq<Option<StateChange>>,
    behind: Seq<Option<StateChange>>,
    change: StateChange,
)
    requires
        all_read(before),
    ensures
        state.replayed(before + seq![None] + behind) == state.replayed(before),
        state.replayed(before + seq![Some(change)]) == state.replayed(before).changed(change),
        state.replayed(seq![]) == state,
{
    let fault = seq![None::<StateChange>];
    replayed_in_turn(state, before, fault + behind);
    assert(before + fault + behind =~= before + (fault + behind));
    assert((fault + behind)[0] is None);
    replayed_in_turn(state, before, seq![Some(change)]);
    reveal_with_fuel(Model::replayed, 2);
    assert(seq![Some(change)].skip(1) =~= Seq::<Option<StateChange>>::empty());
}

/// A state says what it holds, under the same names.
pub proof fn state_says_what_it_holds(state: State)
    ensures
        state@.client_data == state.client_data,
        state@.reddit_token == state.reddit_token,
        state@.cells == state.cells@,
        state@.seen == state.seen_posts@,
        state@.screenshot == state.screenshot_queue@,
        state@.outline_com == state.outline_com_queue@,
        state@.wikiwix == state.wikiwix_queue@,
        state@.google_cache == state.google_cache_queue@,
        state@.comment == state.comment_queue@,
        state@.uncommitted == state.uncommitted_changes@,
{
}

/// Listings are gone through one after the other: two listings in turn are one listing, and post by
/// post it makes no difference where one of them ends.
pub proof fn listings_are_collected_in_turn(
    state: Model,
    first: Seq<(RedditPost, Option<String>)>,
    second: Seq<(RedditPost, Option<String>)>,
)
    requires
        !state.collected_all(first).2,
    ensures
        ({
            let (between, some, _) = state.collected_all(first);
            let (after, more, failed) = between.collected_all(second);
            state.collected_all(first + second) == (after, some || more, failed)
        }),
    decreases first.len(),
{
    if first.len() == 0 {
        assert(first + second =~= second);
    } else {
        let both = first + second;
        assert(both[0] == first[0]);
        assert(both.skip(1) =~= first.skip(1) + second);
        if state.saw(first[0].0.id) {
            listings_are_collected_in_turn(state, first.skip(1), second);
        } else {
            let next = state.collected(first[0].0, first[0].1->0);
            listings_are_collected_in_turn(next, first.skip(1), second);
        }
    }
}

/// A listing is left at a new post whose line could not be made: what was collected before it stays,
/// and whatever stands behind it makes no difference. A post that was seen is passed over, and its
/// line makes no difference.
pub proof fn listing_is_left_at_a_fault(
    state: Model,
    before: Seq<(RedditPost, Option<String>)>,
    post: RedditPost,
    line: Option<String>,
    behind: Seq<(RedditPost, Option<String>)>,
)
    requires
        !state.collected_all(before).2,
    ensures
        ({
            let (between, some, _) = state.collected_all(before);
            &&& !between.saw(post.id) ==> state.collected_all(
                before + (seq![(post, None)] + behind),
            ) == (between, some, true)
            &&& between.saw(post.id) ==> state.collected_all(
                before + (seq![(post, line)] + behind),
            ) == state.collected_all(before + behind)
        }),
{
    let (between, some, _) = state.collected_all(before);
    let broken = seq![(post, None::<String>)] + behind;
    let known = seq![(post, line)] + behind;
    listings_are_collected_in_turn(state, before, broken);
    listings_are_collected_in_turn(state, before, known);
    listings_are_collected_in_turn(state, before, behind);
    assert(broken[0] == (post, None::<String>));
    assert(known[0] == (post, line));
    assert(known.skip(1) =~= behind);
}

} // verus!
