//! Setting the program up: the questions that are asked, and what is made of the answers.
use vstd::prelude::*;

use crate::state::ClientData;
use crate::text::{trim, trimmed};

verus! {

/// A question that is asked.
#[derive(Debug, Clone, Copy, PartialEq, Eq, Structural)]
pub enum Question {
    SrToPostTo,
    SrToMonitor,
    PublicKey,
    PrivateKey,
    UserAgent,
    RedirectUri,
}

impl Question {
    /// The question that comes after this one.
    pub open spec fn next(self) -> Option<Question> {
        match self {
            Question::SrToPostTo => Some(Question::SrToMonitor),
            Question::SrToMonitor => Some(Question::PublicKey),
            Question::PublicKey => Some(Question::PrivateKey),
            Question::PrivateKey => Some(Question::UserAgent),
            Question::UserAgent => Some(Question::RedirectUri),
            Question::RedirectUri => None,
        }
    }

    /// How many questions come before this one.
    pub open spec fn rank(self) -> int {
        match self {
            Question::SrToPostTo => 0,
            Question::SrToMonitor => 1,
            Question::PublicKey => 2,
            Question::PrivateKey => 3,
            Question::UserAgent => 4,
            Question::RedirectUri => 5,
        }
    }

    /// What is asked, up to where the default stands.
    pub open spec fn words(self) -> Seq<char> {
        match self {
            Question::SrToPostTo =>
                "Subreddit to post to (should be private, e.g.: blindkopie) ["@,
            Question::SrToMonitor => "Subreddit to monitor (e.g.: de) ["@,
            Question::PublicKey => "Script public id ["@,
            Question::PrivateKey => "Script secret (REPEATED) ["@,
            Question::UserAgent => "User agent ["@,
            Question::RedirectUri => "Redirect URI ["@,
        }
    }

    /// What data says in answer to the question.
    pub open spec fn answer_in(self, data: ClientData) -> String {
        match self {
            Question::SrToPostTo => data.sr_to_post_to,
            Question::SrToMonitor => data.sr_to_monitor,
            Question::PublicKey => data.public_key,
            Question::PrivateKey => data.private_key,
            Question::UserAgent => data.user_agent,
            Question::RedirectUri => data.redirect_uri,
        }
    }

    /// The same data, but for the answer to the question.
    pub open spec fn answered(self, data: ClientData, answer: String) -> ClientData {
        match self {
            Question::SrToPostTo => ClientData { sr_to_post_to: answer, ..data },
            Question::SrToMonitor => ClientData { sr_to_monitor: answer, ..data },
            Question::PublicKey => ClientData { public_key: answer, ..data },
            Question::PrivateKey => ClientData { private_key: answer, ..data },
            Question::UserAgent => ClientData { user_agent: answer, ..data },
            Question::RedirectUri => ClientData { redirect_uri: answer, ..data },
        }
    }

    fn text(self) -> (text: &'static str)
        ensures
            text@ == self.words(),
    {
        match self {
            Question::SrToPostTo => "Subreddit to post to (should be private, e.g.: blindkopie) [",
            Question::SrToMonitor => "Subreddit to monitor (e.g.: de) [",
            Question::PublicKey => "Script public id [",
            Question::PrivateKey => "Script secret (REPEATED) [",
            Question::UserAgent => "User agent [",
            Question::RedirectUri => "Redirect URI [",
        }
    }

    fn following(self) -> (next: Option<Question>)
        ensures
            next == self.next(),
    {
        match self {
            Question::SrToPostTo => Some(Question::SrToMonitor),
            Question::SrToMonitor => Some(Question::PublicKey),
            Question::PublicKey => Some(Question::PrivateKey),
            Question::PrivateKey => Some(Question::UserAgent),
            Question::UserAgent => Some(Question::RedirectUri),
            Question::RedirectUri => None,
        }
    }
}

/// What is meant by a line that was typed: the line itself, or the default where it is blank.
pub open spec fn meant(line: Seq<char>, default: Seq<char>) -> Seq<char> {
    if trimmed(line).len() == 0 {
        trimmed(default)
    } else {
        trimmed(line)
    }
}

/// The user agent of a program with a public key.
pub open spec fn agent_of(public_key: Seq<char>) -> Seq<char> {
    "Linux:"@ + public_key + ":v0.1.0 (by /u/plistig for /r/de)"@
}

/// A setup that is going on.
#[derive(Debug)]
pub struct Setup {
    /// What the program was set up with before.
    pub prior: ClientData,
    /// What was answered so far.
    pub data: ClientData,
    /// What is asked next; nothing once everything was answered.
    pub question: Option<Question>,
}

impl Setup {
    /// What is meant where the answer is blank.
    pub open spec fn default_of(self, question: Question) -> Seq<char> {
        match question {
            Question::UserAgent => agent_of(self.data.public_key@),
            Question::RedirectUri => "http://localhost/"@,
            _ => question.answer_in(self.prior)@,
        }
    }

    /// Nothing was answered yet.
    pub open spec fn is_new(self, prior: ClientData) -> bool {
        &&& self.prior == prior
        &&& self.data.is_blank()
        &&& self.question == Some(Question::SrToPostTo)
    }

    /// Everything that was asked before the current question has an answer.
    pub open spec fn wf(self) -> bool {
        forall|question: Question|
            self.question is None || question.rank() < self.question->0.rank()
                ==> #[trigger] question.answer_in(self.data)@.len() > 0
    }

    /// A setup in which nothing was answered yet.
    pub fn new(prior: ClientData) -> (setup: Self)
        ensures
            setup.is_new(prior),
            setup.wf(),
    {
        Setup { prior, data: ClientData::default(), question: Some(Question::SrToPostTo) }
    }

    fn default_answer(&self, question: Question) -> (text: String)
        ensures
            text@ == self.default_of(question),
    {
        match question {
            Question::SrToPostTo => self.prior.sr_to_post_to.clone(),
            Question::SrToMonitor => self.prior.sr_to_monitor.clone(),
            Question::PublicKey => self.prior.public_key.clone(),
            Question::PrivateKey => self.prior.private_key.clone(),
            Question::UserAgent => {
                let mut text = "Linux:".to_owned();
                text.append(self.data.public_key.as_str());
                text.append(":v0.1.0 (by /u/plistig for /r/de)");
                text
            },
            Question::RedirectUri => "http://localhost/".to_owned(),
        }
    }

    /// The text of the question that is asked next.
    pub fn prompt(&self) -> (text: Option<String>)
        ensures
            match self.question {
                Some(question) => text matches Some(text) && text@ == question.words()
                    + self.default_of(question) + "]: "@,
                None => text is None,
            },
    {
        let question = match self.question {
            Some(question) => question,
            None => {
                return None;
            },
        };
        let mut text = question.text().to_owned();
        text.append(self.default_answer(question).as_str());
        text.append("]: ");
        Some(text)
    }

    /// Answers the question that was asked. Where nothing is meant by the line, the question is
    /// asked again.
    pub fn answer(&mut self, line: &str)
        requires
            old(self).wf(),
        ensures
            final(self).wf(),
            match old(self).question {
                Some(question) => {
                    let answer = meant(line@, old(self).default_of(question));
                    if answer.len() == 0 {
                        *final(self) == *old(self)
                    } else {
                        &&& final(self).prior == old(self).prior
                        &&& final(self).question == question.next()
                        &&& question.answer_in(final(self).data)@ == answer
                        &&& final(self).data == question.answered(
                            old(self).data,
                            question.answer_in(final(self).data),
                        )
                    }
                },
                None => *final(self) == *old(self),
            },
    {
        let question = match self.question {
            Some(question) => question,
            None => {
                return ;
            },
        };
        let mut answer = trim(line);
        if answer.as_str().is_empty() {
            answer = trim(self.default_answer(question).as_str());
        }
        if answer.as_str().is_empty() {
            return ;
        }
        match question {
            Question::SrToPostTo => {
                self.data.sr_to_post_to = answer;
            },
            Question::SrToMonitor => {
                self.data.sr_to_monitor = answer;
            },
            Question::PublicKey => {
                self.data.public_key = answer;
            },
            Question::PrivateKey => {
                self.data.private_key = answer;
            },
            Question::UserAgent => {
                self.data.user_agent = answer;
            },
            Question::RedirectUri => {
                self.data.redirect_uri = answer;
            },
        }
        self.question = question.following();
        proof {
            assert forall|other: Question|
                self.question is None || other.rank()
                    < self.question->0.rank() implies #[trigger] other.answer_in(self.data)@.len()
                > 0 by {
                assert(other == question || other.rank() < question.rank());
                assert(other == question || other.answer_in(old(self).data)@.len() > 0);
            }
        }
    }
}

/// The page on which the program can be allowed to act, as it is shown to whoever sets it up.
pub open spec fn authorize_words(data: ClientData) -> Seq<char> {
    "Open https://www.reddit.com/api/v1/authorize?client_id="@ + data.public_key@
        + "&response_type=code&state=RANDOM_STRING&redirect_uri="@ + data.redirect_uri@
        + "&duration=permanent&scope=edit+identity+read+submit"@
}

/// Tells where the program can be allowed to act.
pub fn authorize_text(data: &ClientData) -> (text: String)
    ensures
        text@ == authorize_words(*data),
        text@ == "Open https://www.reddit.com/api/v1/authorize?client_id="@ + data.public_key@
            + "&response_type=code&state=RANDOM_STRING&redirect_uri="@ + data.redirect_uri@
            + "&duration=permanent&scope=edit+identity+read+submit"@,
{
    let mut text = "Open https://www.reddit.com/api/v1/authorize?client_id=".to_owned();
    text.append(data.public_key.as_str());
    text.append("&response_type=code&state=RANDOM_STRING&redirect_uri=");
    text.append(data.redirect_uri.as_str());
    text.append("&duration=permanent&scope=edit+identity+read+submit");
    text
}

/// The query of a text that is read as a URL: there is none where the text is no URL, and an absent
/// one where the URL has no query.
pub uninterp spec fn url_query(text: Seq<char>) -> Option<Option<Seq<char>>>;

/// `url::Url::parse`, and `url::Url::query` of what it returns: whether the text is a URL, and which
/// query it has, depends on the text alone.
#[verifier::external_body]
fn query_of(text: &str) -> (query: Option<Option<String>>)
    ensures
        match query {
            Some(Some(query)) => url_query(text@) == Some(Some(query@)),
            Some(None) => url_query(text@) == Some(None::<Seq<char>>),
            None => url_query(text@) is None,
        },
{
    let url = url::Url::parse(text).ok()?;
    Some(url.query().map(|query| query.to_owned()))
}

/// What is wrong with the URL to which the browser was redirected.
#[derive(Debug, Clone, Copy, PartialEq, Eq, Structural)]
pub enum RedirectError {
    /// It is no URL.
    NoUrl,
    /// It has no query.
    NoQuery,
}

/// The query of the URL to which the browser was redirected.
pub fn redirected_query(line: &str) -> (query: Result<String, RedirectError>)
    ensures
        match query {
            Ok(query) => url_query(trimmed(line@)) == Some(Some(query@)),
            Err(RedirectError::NoUrl) => url_query(trimmed(line@)) is None,
            Err(RedirectError::NoQuery) => url_query(trimmed(line@)) == Some(None::<Seq<char>>),
        },
{
    match query_of(trim(line).as_str()) {
        Some(Some(query)) => Ok(query),
        Some(None) => Err(RedirectError::NoQuery),
        None => Err(RedirectError::NoUrl),
    }
}

/// What to do after the browser was redirected.
#[derive(Debug)]
pub enum Redirected {
    /// The setup is complete.
    Done(ClientData),
    /// Show the page once more.
    Again(ClientData),
}

/// What to do after the browser was redirected: with the code that came with it the setup is
/// complete; where there is none, the page is shown once more.
pub fn redirected(data: ClientData, code: Option<&str>) -> (next: Redirected)
    ensures
        match code {
            Some(code) => {
                &&& next matches Redirected::Done(complete)
                &&& complete == (ClientData { code: complete.code, ..data })
                &&& complete.code@ == trimmed(code@)
            },
            None => next == Redirected::Again(data),
        },
{
    match code {
        Some(code) => {
            let mut complete = data;
            complete.code = trim(code);
            Redirected::Done(complete)
        },
        None => Redirected::Again(data),
    }
}

/// Every question comes to its end: once everything was answered, nothing that was asked for is
/// empty.
pub proof fn finished_setup_is_complete(setup: Setup, question: Question)
    requires
        setup.wf(),
        setup.question is None,
    ensures
        question.answer_in(setup.data)@.len() > 0,
{
}

/// Whoever answers one of the first four questions with a blank line keeps what was set up before,
/// but for spaces around it. For the user agent and the redirect address the default is another one.
pub proof fn blank_answer_keeps(setup: Setup, question: Question, line: Seq<char>)
    requires
        question.rank() < 4,
        trimmed(line).len() == 0,
    ensures
        meant(line, setup.default_of(question)) == trimmed(question.answer_in(setup.prior)@),
        trimmed(meant(line, setup.default_of(question))) == meant(
            line,
            setup.default_of(question),
        ),
{
    crate::text::trimmed_twice(question.answer_in(setup.prior)@);
}

/// The questions are asked one after the other, each one once: the next one is always the one behind
/// it, and after the last one nothing is asked.
pub proof fn questions_come_in_turn(question: Question, other: Question)
    ensures
        0 <= question.rank() < 6,
        question.rank() == other.rank() ==> question == other,
        question.next() matches Some(next) ==> next.rank() == question.rank() + 1,
        question.next() is None <==> question.rank() == 5,
        Question::SrToPostTo.rank() == 0,
{
}

/// An answer is kept as the answer to its question, under the name of what was asked for, and
/// changes no other answer and not the code.
pub proof fn answers_are_kept_one_by_one(
    data: ClientData,
    question: Question,
    other: Question,
    answer: String,
)
    ensures
        ({
            let after = question.answered(data, answer);
            &&& question.answer_in(after) == answer
            &&& other != question ==> other.answer_in(after) == other.answer_in(data)
            &&& after.code == data.code
        }),
        Question::SrToPostTo.answer_in(data) == data.sr_to_post_to,
        Question::SrToMonitor.answer_in(data) == data.sr_to_monitor,
        Question::PublicKey.answer_in(data) == data.public_key,
        Question::PrivateKey.answer_in(data) == data.private_key,
        Question::UserAgent.answer_in(data) == data.user_agent,
        Question::RedirectUri.answer_in(data) == data.redirect_uri,
{
}

/// What was typed counts, without the spaces around it, whatever the default is; only where nothing
/// but spaces was typed does the default count.
pub proof fn typed_lines_come_first(line: Seq<char>, a: Seq<char>, b: Seq<char>)
    ensures
        trimmed(line).len() > 0 ==> meant(line, a) == meant(line, b) && meant(line, a)
            == trimmed(line),
        trimmed(line).len() == 0 ==> meant(line, a) == trimmed(a),
{
}

/// The first four questions offer what was set up before. The user agent names the public key that
/// was just given, so that programs with different keys offer different ones; neither it nor the
/// redirect address depends on what was set up before.
pub proof fn defaults_come_from_the_right_place(a: Setup, b: Setup, question: Question)
    ensures
        question.rank() < 4 ==> a.default_of(question) == question.answer_in(a.prior)@,
        a.default_of(Question::UserAgent) == b.default_of(Question::UserAgent)
            <==> a.data.public_key@ == b.data.public_key@,
        a.default_of(Question::RedirectUri) == b.default_of(Question::RedirectUri),
{
    let front = "Linux:"@;
    let end = ":v0.1.0 (by /u/plistig for /r/de)"@;
    let x = agent_of(a.data.public_key@);
    let y = agent_of(b.data.public_key@);
    assert(a.data.public_key@ =~= x.subrange(front.len() as int, x.len() - end.len()));
    assert(b.data.public_key@ =~= y.subrange(front.len() as int, y.len() - end.len()));
}

/// The page on which the program is allowed to act names its public key and its redirect address: as
/// keys hold no ampersand, both can be told from it.
pub proof fn authorize_page_names_the_program(a: ClientData, b: ClientData)
    requires
        !a.public_key@.contains('&'),
        !b.public_key@.contains('&'),
        authorize_words(a) == authorize_words(b),
    ensures
        a.public_key@ == b.public_key@,
        a.redirect_uri@ == b.redirect_uri@,
{
    reveal_strlit("&response_type=code&state=RANDOM_STRING&redirect_uri=");
    let front = "Open https://www.reddit.com/api/v1/authorize?client_id="@;
    let middle = "&response_type=code&state=RANDOM_STRING&redirect_uri="@;
    let end = "&duration=permanent&scope=edit+identity+read+submit"@;
    let from = front.len() as int;
    let x = authorize_words(a);
    let y = authorize_words(b);
    let p = a.public_key@;
    let q = b.public_key@;
    assert(x[from + p.len()] == '&');
    assert(y[from + q.len()] == '&');
    if p.len() < q.len() {
        assert(y[from + p.len()] == q[p.len() as int]);
    }
    if q.len() < p.len() {
        assert(x[from + q.len()] == p[q.len() as int]);
    }
    assert(p =~= x.subrange(from, from + p.len()));
    assert(q =~= y.subrange(from, from + q.len()));
    let start = from + p.len() + middle.len();
    assert(a.redirect_uri@ =~= x.subrange(start, x.len() - end.len()));
    assert(b.redirect_uri@ =~= y.subrange(start, y.len() - end.len()));
}

} // verus!
