use blindkopie::setup::{
    authorize_text, redirected, redirected_query, RedirectError, Redirected, Setup,
};
use blindkopie::state::ClientData;

fn prior() -> ClientData {
    let mut prior = ClientData::default();
    prior.sr_to_post_to = " old_post ".to_owned();
    prior.sr_to_monitor = "old_monitor".to_owned();
    prior.private_key = "old_private".to_owned();
    prior.user_agent = "old_agent".to_owned();
    prior.redirect_uri = "old_uri".to_owned();
    prior.code = "old_code".to_owned();
    prior
}

#[test]
fn six_questions_are_asked() {
    let mut setup = Setup::new(prior());
    let exchange = [
        ("Subreddit to post to (should be private, e.g.: blindkopie) [ old_post ]: ", "post"),
        ("Subreddit to monitor (e.g.: de) [old_monitor]: ", " de\t"),
        ("Script public id []: ", "key"),
        ("Script secret (REPEATED) [old_private]: ", "private"),
        ("User agent [Linux:key:v0.1.0 (by /u/plistig for /r/de)]: ", "agent"),
        ("Redirect URI [http://localhost/]: ", "http://here/"),
    ];
    for (prompt, answer) in exchange {
        assert_eq!(setup.prompt().as_deref(), Some(prompt));
        setup.answer(answer);
    }
    assert_eq!(setup.prompt(), None);
    assert_eq!(setup.data.sr_to_post_to, "post");
    assert_eq!(setup.data.sr_to_monitor, "de");
    assert_eq!(setup.data.public_key, "key");
    assert_eq!(setup.data.private_key, "private");
    assert_eq!(setup.data.user_agent, "agent");
    assert_eq!(setup.data.redirect_uri, "http://here/");
    assert_eq!(setup.data.code, "");
}

#[test]
fn a_blank_answer_means_the_default() {
    let mut setup = Setup::new(prior());
    setup.answer("");
    setup.answer("  ");
    setup.answer("key");
    setup.answer("\t");
    setup.answer("");
    setup.answer("");
    assert!(setup.question.is_none());
    assert_eq!(setup.data.sr_to_post_to, "old_post");
    assert_eq!(setup.data.sr_to_monitor, "old_monitor");
    assert_eq!(setup.data.private_key, "old_private");
    assert_eq!(setup.data.user_agent, "Linux:key:v0.1.0 (by /u/plistig for /r/de)");
    assert_eq!(setup.data.redirect_uri, "http://localhost/");
}

#[test]
fn a_question_without_an_answer_is_asked_again() {
    let mut setup = Setup::new(ClientData::default());
    let prompt = setup.prompt();
    setup.answer(" ");
    assert_eq!(setup.prompt(), prompt);
    setup.answer("x");
    assert_ne!(setup.prompt(), prompt);
}

#[test]
fn a_finished_setup_takes_no_more_answers() {
    let mut setup = Setup::new(ClientData::default());
    for _ in 0..7 {
        setup.answer("x");
    }
    assert_eq!(setup.data.redirect_uri, "x");
    assert!(setup.prompt().is_none());
}

#[test]
fn the_page_to_open_is_named() {
    let mut data = ClientData::default();
    data.public_key = "KEY".to_owned();
    data.redirect_uri = "URI".to_owned();
    assert_eq!(
        authorize_text(&data),
        "Open https://www.reddit.com/api/v1/authorize?client_id=KEY&response_type=code\
         &state=RANDOM_STRING&redirect_uri=URI&duration=permanent&scope=edit+identity+read+submit"
    );
}

#[test]
fn the_query_of_the_redirect_is_taken() {
    assert_eq!(
        redirected_query("  http://localhost/?state=x&code=y#_ \n"),
        Ok("state=x&code=y".to_owned())
    );
    assert_eq!(redirected_query("http://localhost/?"), Ok(String::new()));
    assert_eq!(redirected_query("http://localhost/"), Err(RedirectError::NoQuery));
    assert_eq!(redirected_query("localhost"), Err(RedirectError::NoUrl));
    assert_eq!(redirected_query(""), Err(RedirectError::NoUrl));
}

#[test]
fn the_code_is_trimmed() {
    match redirected(prior(), Some(" code ")) {
        Redirected::Done(complete) => {
            assert_eq!(complete.code, "code");
            assert_eq!(complete.sr_to_post_to, " old_post ");
            assert_eq!(complete.user_agent, "old_agent");
        }
        other => panic!("{:?}", other),
    }
}

#[test]
fn without_a_code_the_page_is_shown_again() {
    match redirected(prior(), None) {
        Redirected::Again(data) => {
            assert_eq!(data.code, "old_code");
            assert_eq!(data.sr_to_post_to, " old_post ");
        }
        other => panic!("{:?}", other),
    }
}
