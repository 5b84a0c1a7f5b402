# blindkopie

A program that copies the links which are posted to a subreddit. Each new post is handed to web
archives (outline.com, Wikiwix, the cache of Google), a screenshot of the page that it links to is
posted to another subreddit, and once all of that has ended a comment on the post becomes due.

* `src/` is a library, verified with [Verus](https://github.com/verus-lang/verus). It decides what to
  ask, what to make of an answer and what to do next. It talks to nobody.
  * `text`, `query`, `timestamp`: texts, query strings and instants.
  * `networking`: addresses, requests, and how a wait ends.
  * `post`, `work`: posts, how far everything about a post has come, and the queues.
  * `state`: the state of the program and the changes that its change log records.
  * `submit`: the loops that take works out of the queues.
  * `replay`: what the change log gives back.
  * `login`, `reddit`: tokens, requests to reddit and their answers.
  * `outline_com`, `wikiwix`, `google_cache`, `screenshot`: the archives and the screenshot.
  * `setup`: the questions of the first setup.
* `app/` is the program around it: the network, the change log on disk, the terminal, and the loops
  that do what the library asks for.
* `tests/` run the library.

`blindkopie init` sets the program up, `blindkopie run` starts it.

What the library takes from other crates without proof is stated where it is called: each such
function is marked `#[verifier::external_body]` or declared by `assume_specification`, and says in
its comment which function of which crate it stands for.
