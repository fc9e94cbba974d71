use ltlive::dispatch::{
    dispatch, dispatch_with_random, handle_message, post_reply, push_resolved,
    user_fetch_failed_reply, DispatchResult, ListenerState, MessageOutcome, ObsAction, PostKind,
    PostOutcome,
};
use ltlive::model::{Presentation, SnsInfo, User};
use ltlive::overlay::ScreenAction;
use ltlive::parser::{parse, Command, PresentationCommand};
use ltlive::queue::Presentations;

fn sns() -> SnsInfo {
    SnsInfo {
        youtube_stream_url: "https://yt.test/live".to_string(),
        discord_invitation_url: "https://dc.test/invite".to_string(),
    }
}

fn state() -> ListenerState {
    let mut s = ListenerState::new();
    s.my_id = Some(999);
    s
}

fn pres(name: &str, title: &str) -> Presentation {
    Presentation {
        presenter: User { icon: None, ident: None, name: name.to_string() },
        title: title.to_string(),
    }
}

fn run(cmd: Command, st: &mut ListenerState, q: &mut Presentations) -> DispatchResult {
    dispatch(cmd, st, q, &sns(), true, 77, 0)
}

fn expect_done(r: DispatchResult) -> ltlive::dispatch::Effects {
    match r {
        DispatchResult::Done(e) => e,
        _ => panic!("expected a finished command"),
    }
}

#[test]
fn help_replies_with_doc_link() {
    let mut st = state();
    let mut q = Presentations::new();
    let e = expect_done(run(Command::Help(None), &mut st, &mut q));
    assert_eq!(e.reply, "https://hackmd.io/@U9f9Fv6rTt2UkRA6UriFTA/BJRVQlTZO");
    let e = expect_done(run(Command::Help(Some("oops".to_string())), &mut st, &mut q));
    assert_eq!(e.reply, "oops\nhttps://hackmd.io/@U9f9Fv6rTt2UkRA6UriFTA/BJRVQlTZO");
    assert!(e.events.is_empty());
    assert!(e.snapshot.is_none());
}

#[test]
fn listen_and_stop_listening() {
    let mut st = state();
    let mut q = Presentations::new();
    let e = expect_done(run(Command::Listen, &mut st, &mut q));
    assert_eq!(e.reply, "now listening at <#77>");
    assert_eq!(st.listening_channel_id, Some(77));
    let e = expect_done(run(Command::StopListening, &mut st, &mut q));
    assert_eq!(e.reply, "stopped");
    assert_eq!(st.listening_channel_id, None);
    let e = expect_done(run(Command::StopListening, &mut st, &mut q));
    assert_eq!(e.reply, "currently not listening any channel");
}

#[test]
fn pause_and_resume_request_switch_and_mute() {
    let mut st = state();
    let mut q = Presentations::new();
    let e = expect_done(run(Command::Pause, &mut st, &mut q));
    assert_eq!(e.reply, "switching requested");
    assert_eq!(e.obs, Some(ObsAction::Mute));
    assert_eq!(e.events.len(), 1);
    let e = expect_done(run(Command::Resume, &mut st, &mut q));
    assert_eq!(e.obs, Some(ObsAction::UnMute));
}

#[test]
fn commands_needing_overlay_report_not_ready() {
    let mut st = state();
    let mut q = Presentations::new();
    let r = dispatch(Command::Pause, &mut st, &mut q, &sns(), false, 77, 0);
    assert_eq!(expect_done(r).reply, "webview was not ready");
    q.push(pres("A", "t"));
    let r = dispatch(
        Command::Presentation(PresentationCommand::Pop),
        &mut st,
        &mut q,
        &sns(),
        false,
        77,
        0,
    );
    assert_eq!(expect_done(r).reply, "webview was not ready");
    assert_eq!(q.len(), 1);
}

#[test]
fn pop_on_empty_queue_writes_no_snapshot() {
    let mut st = state();
    let mut q = Presentations::new();
    let e = expect_done(run(Command::Presentation(PresentationCommand::Pop), &mut st, &mut q));
    assert_eq!(e.reply, "no other entries in queue");
    assert!(e.snapshot.is_none());
    assert!(e.events.is_empty());
    assert!(st.current_presentation.is_none());
}

#[test]
fn pop_records_current_presentation_and_persists() {
    let mut st = state();
    let mut q = Presentations::new();
    q.push(pres("Alice", "Intro"));
    let e = expect_done(run(Command::Presentation(PresentationCommand::Pop), &mut st, &mut q));
    assert_eq!(
        e.reply,
        "popped(removed an entry at 0 index and updated ongoing presentation)\nDO NOT FORGET TO TWEET!"
    );
    assert_eq!(q.len(), 0);
    assert_eq!(st.current_presentation, Some(pres("Alice", "Intro")));
    assert_eq!(e.snapshot.as_deref(), Some("0\n"));
    assert_eq!(e.events.len(), 2);
    match &e.events[1] {
        ScreenAction::PresentationUpdate { presenter, title } => {
            assert_eq!(presenter.name, "Alice");
            assert_eq!(title, "Intro");
        }
        other => panic!("unexpected event: {:?}", other),
    }
}

#[test]
fn remove_and_update_report_success_and_misses() {
    let mut st = state();
    let mut q = Presentations::new();
    q.push(pres("A", "t0"));
    q.push(pres("B", "t1"));
    let e = expect_done(run(
        Command::Presentation(PresentationCommand::Remove { index: 5 }),
        &mut st,
        &mut q,
    ));
    assert_eq!(e.reply, "not found such entry");
    assert!(e.snapshot.is_none());
    let e = expect_done(run(
        Command::Presentation(PresentationCommand::Remove { index: 0 }),
        &mut st,
        &mut q,
    ));
    assert_eq!(e.reply, "removed");
    assert!(e.snapshot.is_some());
    assert_eq!(q.len(), 1);
    assert_eq!(q.get(0).title, "t1");
    let e = expect_done(run(
        Command::Presentation(PresentationCommand::Update { index: 0, new_title: "t9".to_string() }),
        &mut st,
        &mut q,
    ));
    assert_eq!(e.reply, "overwrote");
    assert_eq!(q.get(0).title, "t9");
    assert!(e.snapshot.is_some());
}

#[test]
fn list_is_wrapped_in_a_code_fence() {
    let mut st = state();
    let mut q = Presentations::new();
    q.push(pres("Alice", "Intro"));
    let e = expect_done(run(Command::Presentation(PresentationCommand::List), &mut st, &mut q));
    assert_eq!(e.reply, "```\n0: name: Alice title: Intro\n```");
}

#[test]
fn reorder_is_not_supported_yet() {
    let mut st = state();
    let mut q = Presentations::new();
    let e = expect_done(run(
        Command::Presentation(PresentationCommand::Reorder { map: vec![1, 0] }),
        &mut st,
        &mut q,
    ));
    assert_eq!(e.reply, "unimplemented");
}

#[test]
fn push_flow_resolves_mention_then_appends() {
    let mut st = state();
    let mut q = Presentations::new();
    let r = run(
        Command::Presentation(PresentationCommand::Push {
            user_mention: "<@!42>".to_string(),
            title: "Talk".to_string(),
        }),
        &mut st,
        &mut q,
    );
    let (uid, title) = match r {
        DispatchResult::FetchUser { uid, title } => (uid, title),
        _ => panic!("expected a user lookup request"),
    };
    assert_eq!(uid, 42);
    let user = User { icon: None, ident: None, name: "Resolved".to_string() };
    let e = push_resolved(&mut q, user, title);
    assert_eq!(e.reply, "pushed");
    assert!(e.snapshot.is_some());
    assert_eq!(q.len(), 1);
    assert_eq!(q.get(0).presenter.name, "Resolved");
    assert_eq!(q.get(0).title, "Talk");
}

#[test]
fn push_with_bad_mention_mutates_nothing() {
    let mut st = state();
    let mut q = Presentations::new();
    let e = expect_done(run(
        Command::Presentation(PresentationCommand::Push {
            user_mention: "nonsense".to_string(),
            title: "Talk".to_string(),
        }),
        &mut st,
        &mut q,
    ));
    assert_eq!(e.reply, "1st argument must be user mention");
    assert_eq!(q.len(), 0);
    assert_eq!(
        user_fetch_failed_reply(),
        "couldn't get user info. please check user mention is correct. read log for more info."
    );
}

fn plain_tweet(msg: &str) -> Command {
    Command::Tweet {
        with_youtube_footer: false,
        with_discord_footer: false,
        with_twitter_footer: false,
        msg: msg.to_string(),
        simulation: false,
    }
}

#[test]
fn tweet_of_280_is_accepted_and_281_rejected() {
    let mut st = state();
    let mut q = Presentations::new();
    let ok = "a".repeat(280);
    match run(plain_tweet(&ok), &mut st, &mut q) {
        DispatchResult::Post { body, kind } => {
            assert_eq!(body, ok);
            assert_eq!(kind, PostKind::Plain);
        }
        _ => panic!("a 280-score tweet must be posted"),
    }
    let too_long = "a".repeat(281);
    let e = expect_done(run(plain_tweet(&too_long), &mut st, &mut q));
    assert_eq!(e.reply, "Tweet length is longer than 280(281). Shorten the message or the footer.");
}

#[test]
fn non_ascii_characters_count_double() {
    let mut st = state();
    let mut q = Presentations::new();
    let ok = "\u{3042}".repeat(140);
    match run(plain_tweet(&ok), &mut st, &mut q) {
        DispatchResult::Post { .. } => {}
        _ => panic!("score 280 of non-ASCII must pass"),
    }
    let mut over = "\u{3042}".repeat(140);
    over.push('!');
    let e = expect_done(run(plain_tweet(&over), &mut st, &mut q));
    assert_eq!(e.reply, "Tweet length is longer than 280(281). Shorten the message or the footer.");
}

#[test]
fn tweet_with_all_footers_composes_in_fixed_order() {
    let mut st = state();
    let mut q = Presentations::new();
    let cmd = parse("g!live tweet -tyd ```hi```").expect("command parses");
    let r = run(cmd, &mut st, &mut q);
    let body = match r {
        DispatchResult::Post { body, kind } => {
            assert_eq!(kind, PostKind::Plain);
            body
        }
        _ => panic!("expected a post"),
    };
    assert_eq!(
        body,
        "hi\n\nWatch the stream live on YouTube: https://yt.test/live\nJoin the community on Discord: https://dc.test/invite\nShare your impressions with the event hashtag!"
    );
}

#[test]
fn tweet_simulation_echoes_body() {
    let mut st = state();
    let mut q = Presentations::new();
    let cmd = parse("g!live tweet_simulation ```hi```").expect("command parses");
    let e = expect_done(run(cmd, &mut st, &mut q));
    assert_eq!(e.reply, "Tweet simulation.\nbody:\n```\nhi\n```");
}

#[test]
fn post_replies_carry_link_and_body() {
    assert_eq!(
        post_reply(PostKind::Plain, "hi", &PostOutcome::Posted("https://t.test/1".to_string())),
        "Tweeted.\nlink: https://t.test/1\nbody:\n```\nhi\n```"
    );
    assert_eq!(
        post_reply(PostKind::Plain, "hi", &PostOutcome::Unavailable),
        "Tweeted.\nlink: unavailable\nbody:\n```\nhi\n```"
    );
    assert_eq!(
        post_reply(PostKind::Presentation, "hi", &PostOutcome::Failed),
        "failed to tweet. read log for more details."
    );
    assert_eq!(
        post_reply(PostKind::Presentation, "hi", &PostOutcome::Unavailable),
        "Twitted.\nlink: unavailable\nbody: ```\nhi\n```"
    );
}

#[test]
fn presentation_tweet_without_current_presentation_fails() {
    let mut st = state();
    let mut q = Presentations::new();
    let e = expect_done(run(Command::PresentationTweet { simulation: true }, &mut st, &mut q));
    assert_eq!(e.reply, "internal error: current_presentation was None");
}

#[test]
fn presentation_tweet_uses_the_drawn_footer() {
    let mut st = state();
    st.current_presentation = Some(pres("Alice", "Intro"));
    let mut q = Presentations::new();
    let r = dispatch(
        Command::PresentationTweet { simulation: true },
        &mut st,
        &mut q,
        &sns(),
        true,
        77,
        2,
    );
    let e = expect_done(r);
    assert_eq!(
        e.reply,
        "Simulation.\nbody: ```\nStarting now: Intro by Alice\n\nShare your impressions with the event hashtag!\n```"
    );
}

#[test]
fn unauthorized_messages_never_reach_the_command_path() {
    let mut st = state();
    st.listening_channel_id = Some(77);
    let mut q = Presentations::new();
    q.push(pres("A", "t"));
    let out = handle_message(
        "g!live presentations pop",
        &mut st,
        &mut q,
        &sns(),
        true,
        5,
        77,
        false,
        0,
    );
    match out {
        MessageOutcome::Timeline { content } => assert_eq!(content, "g!live presentations pop"),
        _ => panic!("an unauthorized command must fall through to the timeline"),
    }
    assert_eq!(q.len(), 1);
    assert!(st.current_presentation.is_none());
}

#[test]
fn own_messages_are_ignored() {
    let mut st = state();
    let mut q = Presentations::new();
    let out = handle_message("g!live pause", &mut st, &mut q, &sns(), true, 999, 77, true, 0);
    assert!(matches!(out, MessageOutcome::Ignored));
}

#[test]
fn authorized_command_runs_and_replies() {
    let mut st = state();
    let mut q = Presentations::new();
    let out = handle_message("  g!live listen  ", &mut st, &mut q, &sns(), true, 5, 77, true, 0);
    match out {
        MessageOutcome::CommandResult(DispatchResult::Done(e)) => {
            assert_eq!(e.reply, "now listening at <#77>");
        }
        _ => panic!("expected a finished command"),
    }
    assert_eq!(st.listening_channel_id, Some(77));
}

#[test]
fn plain_chat_on_listened_channel_goes_to_timeline() {
    let mut st = state();
    st.listening_channel_id = Some(77);
    let mut q = Presentations::new();
    let out = handle_message(" hello all ", &mut st, &mut q, &sns(), true, 5, 77, false, 0);
    match out {
        MessageOutcome::Timeline { content } => assert_eq!(content, "hello all"),
        _ => panic!("expected a timeline forward"),
    }
    let out = handle_message("hello", &mut st, &mut q, &sns(), true, 5, 78, false, 0);
    assert!(matches!(out, MessageOutcome::Ignored));
}

#[test]
fn dispatch_with_random_draws_some_footer() {
    let mut st = state();
    st.current_presentation = Some(pres("Alice", "Intro"));
    let mut q = Presentations::new();
    let r = dispatch_with_random(
        Command::PresentationTweet { simulation: true },
        &mut st,
        &mut q,
        &sns(),
        true,
        77,
    );
    let e = expect_done(r);
    assert!(e.reply.starts_with("Simulation.\nbody: ```\nStarting now: Intro by Alice\n\n"));
    assert!(e.reply.ends_with("\n```"));
}
